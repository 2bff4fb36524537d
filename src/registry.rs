use vstd::prelude::*;

use crate::error::JailError;
use crate::names::name_of_dir;
use crate::names::name_of_dir_spec;
use crate::text::{
    ascii_eq_ignore_case, chars_of, eq_ignore_ascii_case, lower_of, lowercase, starts_with,
    starts_with_at,
};

verus! {

/// The character sequences of a list of strings.
pub open spec fn views(v: Seq<String>) -> Seq<Seq<char>> {
    v.map_values(|s: String| s@)
}

/// `name` splits at its first `/`, at index `k`, into an owner part and a
/// repository part, one of which starts with `pattern`.
pub open spec fn half_matches(name: Seq<char>, pattern: Seq<char>) -> bool {
    exists|k: int|
        0 <= k < name.len() && #[trigger] name[k] == '/' && (forall|j: int|
            0 <= j < k ==> name[j] != '/') && (starts_with(name.take(k), pattern) || starts_with(
            name.skip(k + 1),
            pattern,
        ))
}

/// Whether a lower-cased jail name matches a lower-cased filter: the whole
/// name, or either half of its `owner/repo` split, starts with the filter.
pub open spec fn matches_lowered_spec(name: Seq<char>, pattern: Seq<char>) -> bool {
    starts_with(name, pattern) || half_matches(name, pattern)
}

/// Whether jail name `name` matches filter `pattern`, ignoring case.
pub open spec fn name_matches(name: Seq<char>, pattern: Seq<char>) -> bool {
    matches_lowered_spec(lower_of(name), lower_of(pattern))
}

/// The names of `names` that match `pattern`, in their order.
pub open spec fn matching_names(names: Seq<Seq<char>>, pattern: Seq<char>) -> Seq<Seq<char>>
    decreases names.len(),
{
    if names.len() == 0 {
        names
    } else {
        let rest = matching_names(names.drop_last(), pattern);
        if name_matches(names.last(), pattern) {
            rest.push(names.last())
        } else {
            rest
        }
    }
}

/// Whether a lower-cased jail name matches a lower-cased filter.
pub fn matches_lowered(name: &str, pattern: &str) -> (r: bool)
    ensures
        r == matches_lowered_spec(name@, pattern@),
{
    let n = chars_of(name);
    let p = chars_of(pattern);
    assert(n@.subrange(0, n@.len() as int) =~= n@);
    if starts_with_at(&n, 0, n.len(), &p) {
        return true;
    }
    let mut k: usize = 0;
    while k < n.len() && n[k] != '/'
        invariant
            k <= n@.len(),
            forall|j: int| 0 <= j < k ==> n@[j] != '/',
        decreases n@.len() - k,
    {
        k = k + 1;
    }
    if k == n.len() {
        assert(!half_matches(n@, p@));
        return false;
    }
    let owner = starts_with_at(&n, 0, k, &p);
    let repo = starts_with_at(&n, k + 1, n.len(), &p);
    assert(n@.subrange(0, k as int) =~= n@.take(k as int));
    assert(n@.subrange(k + 1, n@.len() as int) =~= n@.skip(k + 1));
    proof {
        if half_matches(n@, p@) {
            let k2 = choose|k2: int|
                0 <= k2 < n@.len() && #[trigger] n@[k2] == '/' && (forall|j: int|
                    0 <= j < k2 ==> n@[j] != '/') && (starts_with(n@.take(k2), p@) || starts_with(
                    n@.skip(k2 + 1),
                    p@,
                ));
            if k2 < k {
            } else if k2 > k {
                assert(n@[k as int] != '/');
            }
        }
    }
    owner || repo
}

/// The names of `names` that match `filter`, ignoring case, in their order.
pub fn filter_jails(names: &Vec<String>, filter: &str) -> (r: Vec<String>)
    ensures
        views(r@) == matching_names(views(names@), filter@),
{
    let f = lowercase(filter);
    let mut out: Vec<String> = Vec::new();
    let mut i: usize = 0;
    while i < names.len()
        invariant
            i <= names@.len(),
            f@ == lower_of(filter@),
            views(out@) == matching_names(views(names@.take(i as int)), filter@),
        decreases names@.len() - i,
    {
        let l = lowercase(names[i].as_str());
        let hit = matches_lowered(l.as_str(), f.as_str());
        let ghost before = out@;
        assert(views(names@.take(i + 1)).drop_last() =~= views(names@.take(i as int)));
        if hit {
            out.push(names[i].clone());
            assert(views(out@) =~= views(before).push(names@[i as int]@));
        }
        i = i + 1;
    }
    assert(names@.take(names@.len() as int) =~= names@);
    out
}

/// Every name that the filter keeps is one of the names and matches, and every
/// matching name is kept.
pub proof fn lemma_matching_names_members(names: Seq<Seq<char>>, pattern: Seq<char>, n: Seq<char>)
    ensures
        matching_names(names, pattern).contains(n) <==> (names.contains(n) && name_matches(
            n,
            pattern,
        )),
    decreases names.len(),
{
    if names.len() > 0 {
        let init = names.drop_last();
        lemma_matching_names_members(init, pattern, n);
        assert(names =~= init.push(names.last()));
        if names.contains(n) && n != names.last() {
            let i = choose|i: int| 0 <= i < names.len() && names[i] == n;
            assert(init[i] == n);
        }
        if init.contains(n) {
            let i = choose|i: int| 0 <= i < init.len() && init[i] == n;
            assert(names[i] == n);
        }
        let rest = matching_names(init, pattern);
        if name_matches(names.last(), pattern) {
            if rest.push(names.last()).contains(n) && n != names.last() {
                let i = choose|i: int| 0 <= i < rest.push(names.last()).len() && rest.push(
                    names.last(),
                )[i] == n;
                assert(rest[i] == n);
            }
            if rest.contains(n) {
                let i = choose|i: int| 0 <= i < rest.len() && rest[i] == n;
                assert(rest.push(names.last())[i] == n);
            }
            assert(rest.push(names.last())[rest.len() as int] == names.last());
        }
        assert(names[names.len() - 1] == names.last());
    }
}

/// Filtering ignores case: names, and filters, that lower-case alike are
/// treated alike.
pub proof fn lemma_filter_ignores_case(a: Seq<char>, b: Seq<char>, p: Seq<char>, q: Seq<char>)
    requires
        lower_of(a) == lower_of(b),
        lower_of(p) == lower_of(q),
    ensures
        name_matches(a, p) == name_matches(b, q),
{
}

/// What choosing a jail comes to before any question is put to the user.
#[derive(Debug, PartialEq, Eq)]
pub enum Selection {
    /// A name that equals the filter up to ASCII case: taken without asking.
    Exact(String),
    /// The candidates to offer, in order, even when there is only one.
    Choose(Vec<String>),
}

/// Position of the first name equal to `filter` up to ASCII case.
pub open spec fn is_first_exact(m: Seq<Seq<char>>, filter: Seq<char>, i: int) -> bool {
    &&& 0 <= i < m.len()
    &&& ascii_eq_ignore_case(m[i], filter)
    &&& forall|j: int| 0 <= j < i ==> !ascii_eq_ignore_case(#[trigger] m[j], filter)
}

/// Resolves a name or filter against the existing jail names: an error when
/// there are none or none match; the name itself when one equals the filter
/// up to ASCII case; else every candidate, to be chosen from.
pub fn resolve_selection(names: &Vec<String>, filter: Option<&str>) -> (r: Result<
    Selection,
    JailError,
>)
    ensures
        names@.len() == 0 ==> r matches Err(JailError::NoJails),
        names@.len() > 0 && (filter is None || filter->0@.len() == 0) ==> (r matches Ok(
            Selection::Choose(c),
        ) && views(c@) == views(names@)),
        names@.len() > 0 && filter is Some && filter->0@.len() > 0 ==> ({
            let m = matching_names(views(names@), filter->0@);
            &&& m.len() == 0 ==> (r matches Err(JailError::NoMatch(g)) && g@ == filter->0@)
            &&& m.len() > 0 && (exists|i: int| #[trigger] is_first_exact(m, filter->0@, i)) ==> (
            r matches Ok(Selection::Exact(n)) && exists|i: int|
                #[trigger] is_first_exact(m, filter->0@, i) && n@ == m[i])
            &&& m.len() > 0 && !(exists|i: int| #[trigger] is_first_exact(m, filter->0@, i)) ==> (
            r matches Ok(Selection::Choose(c)) && views(c@) == m)
        }),
{
    if names.len() == 0 {
        return Err(JailError::NoJails);
    }
    match filter {
        Some(f) if f.unicode_len() > 0 => {
            let filtered = filter_jails(names, f);
            if filtered.len() == 0 {
                return Err(JailError::NoMatch(f.to_owned()));
            }
            let fv = chars_of(f);
            let ghost m = views(filtered@);
            let mut i: usize = 0;
            while i < filtered.len()
                invariant
                    i <= filtered@.len(),
                    m == views(filtered@),
                    m == matching_names(views(names@), f@),
                    names@.len() > 0,
                    f@.len() > 0,
                    filter == Some(f),
                    fv@ == f@,
                    forall|j: int| 0 <= j < i ==> !ascii_eq_ignore_case(#[trigger] m[j], f@),
                decreases filtered@.len() - i,
            {
                let cv = chars_of(filtered[i].as_str());
                if eq_ignore_ascii_case(&cv, &fv) {
                    assert(is_first_exact(m, f@, i as int));
                    return Ok(Selection::Exact(filtered[i].clone()));
                }
                i = i + 1;
            }
            assert(!(exists|i: int| #[trigger] is_first_exact(m, f@, i)));
            Ok(Selection::Choose(filtered))
        },
        _ => Ok(Selection::Choose(names.clone())),
    }
}

/// The candidate at `index`, as picked by the user.
pub fn pick_candidate(candidates: &Vec<String>, index: usize) -> (r: Option<String>)
    ensures
        index < candidates@.len() ==> r == Some(candidates@[index as int]),
        index >= candidates@.len() ==> r is None,
{
    if index < candidates.len() {
        Some(candidates[index].clone())
    } else {
        None
    }
}

/// One directory found in the jails directory.
pub struct DirEntryInfo {
    /// The directory's file name.
    pub dir_name: String,
    /// The entry is a directory.
    pub is_dir: bool,
    /// It holds a record that could be read and parsed.
    pub has_valid_record: bool,
}

/// The jail names of the entries that are directories holding a valid record,
/// in their order.
pub open spec fn listed_names(entries: Seq<DirEntryInfo>) -> Seq<Seq<char>>
    decreases entries.len(),
{
    if entries.len() == 0 {
        Seq::empty()
    } else {
        let rest = listed_names(entries.drop_last());
        let e = entries.last();
        if e.is_dir && e.has_valid_record {
            rest.push(name_of_dir_spec(e.dir_name@))
        } else {
            rest
        }
    }
}

/// Names of the jails among the entries of the jails directory.
pub fn get_jail_names(entries: &Vec<DirEntryInfo>) -> (r: Vec<String>)
    ensures
        views(r@) == listed_names(entries@),
{
    let mut out: Vec<String> = Vec::new();
    let mut i: usize = 0;
    while i < entries.len()
        invariant
            i <= entries@.len(),
            views(out@) == listed_names(entries@.take(i as int)),
        decreases entries@.len() - i,
    {
        let e = &entries[i];
        assert(entries@.take(i + 1).drop_last() =~= entries@.take(i as int));
        let ghost before = out@;
        if e.is_dir && e.has_valid_record {
            let n = name_of_dir(e.dir_name.as_str());
            out.push(n);
            assert(views(out@) =~= views(before).push(name_of_dir_spec(e.dir_name@)));
        }
        i = i + 1;
    }
    assert(entries@.take(entries@.len() as int) =~= entries@);
    out
}

} // verus!
