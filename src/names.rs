use vstd::prelude::*;
use vstd::string::StringSliceAdditionalSpecFns;

use crate::text::{
    after_last, after_last_at, before_last, chars_of, contains_at_any, contains_seq, ends_with,
    ends_with_at, lemma_after_last_concat, lemma_after_last_len, push_range, string_from_chars,
    trim_end_char, trim_end_char_at, trim_end_seq, trim_end_seq_at,
};

verus! {

/// How one character of a jail name appears in a container or image name.
pub open spec fn sanitize_char(c: char) -> char {
    if c == '/' {
        '-'
    } else if c == ':' || c == '@' || c == ' ' {
        '_'
    } else {
        c
    }
}

/// A jail name made safe for the engine's container and image names.
pub open spec fn sanitized(s: Seq<char>) -> Seq<char> {
    s.map_values(|c: char| sanitize_char(c))
}

/// The directory that holds a jail: each `/` of its name becomes `_`.
pub open spec fn dir_name_of(name: Seq<char>) -> Seq<char> {
    name.map_values(|c: char| if c == '/' { '_' } else { c })
}

/// The jail name read back from its directory: each `_` becomes `/`.
pub open spec fn name_of_dir_spec(dir: Seq<char>) -> Seq<char> {
    dir.map_values(|c: char| if c == '_' { '/' } else { c })
}

/// Last-resort jail name: each `/`, `:` and `@` becomes `-`.
pub open spec fn fallback_name(s: Seq<char>) -> Seq<char> {
    s.map_values(|c: char| if c == '/' || c == ':' || c == '@' { '-' } else { c })
}

/// `dir` joined with the relative component `seg`.
pub open spec fn join_path(dir: Seq<char>, seg: Seq<char>) -> Seq<char> {
    if dir.len() == 0 {
        seg
    } else if dir.last() == '/' {
        dir + seg
    } else {
        dir + seq!['/'] + seg
    }
}

/// The path component `.`.
pub open spec fn dot() -> Seq<char> {
    seq!['.']
}

/// The path component `..`.
pub open spec fn dot_dot() -> Seq<char> {
    seq!['.', '.']
}

/// The suffix `.git` of repository URLs.
pub open spec fn git_suffix() -> Seq<char> {
    seq!['.', 'g', 'i', 't']
}

/// The final component of a Unix path: trailing `/` and `.` components are
/// skipped; there is none when the path is empty, the root, or ends in `..`.
pub open spec fn file_name(s: Seq<char>) -> Option<Seq<char>>
    decreases s.len(),
{
    if s.len() == 0 {
        None
    } else if s.last() == '/' {
        file_name(s.drop_last())
    } else if after_last(s, '/') == dot() {
        file_name(s.drop_last())
    } else if after_last(s, '/') == dot_dot() {
        None
    } else {
        Some(after_last(s, '/'))
    }
}

/// A source that names a hosted git repository.
pub open spec fn is_repo_url(s: Seq<char>) -> bool {
    contains_seq(s, "github.com"@) || contains_seq(s, "gitlab.com"@) || ends_with(s, git_suffix())
}

/// A repository source with trailing `/` removed, and then trailing `.git`.
pub open spec fn url_stem(s: Seq<char>) -> Seq<char> {
    trim_end_seq(trim_end_char(s, '/'), git_suffix())
}

/// `owner/repo` of a repository source: its last two path components, the
/// owner cut after its last `:`.
pub open spec fn owner_repo(stem: Seq<char>) -> Seq<char> {
    let repo = after_last(stem, '/');
    let owner = after_last(after_last(before_last(stem, '/'), '/'), ':');
    owner + seq!['/'] + repo
}

/// The jail name that a clone source gives when none is chosen.
pub open spec fn derive_name_spec(s: Seq<char>) -> Seq<char> {
    if is_repo_url(s) && url_stem(s).contains('/') {
        owner_repo(url_stem(s))
    } else {
        match file_name(s) {
            Some(n) => n,
            None => fallback_name(s),
        }
    }
}

/// The lower-case hex digits, by value.
pub open spec fn hex_digits() -> Seq<char> {
    seq!['0', '1', '2', '3', '4', '5', '6', '7', '8', '9', 'a', 'b', 'c', 'd', 'e', 'f']
}

/// Two lower-case hex digits for each byte.
pub open spec fn hex_of(b: Seq<u8>) -> Seq<char>
    decreases b.len(),
{
    if b.len() == 0 {
        Seq::empty()
    } else {
        hex_of(b.drop_last()) + seq![
            hex_digits()[b.last() as int / 16],
            hex_digits()[b.last() as int % 16],
        ]
    }
}

/// Sanitizes a jail name for use in a container name.
pub fn sanitize_container_name(name: &str) -> (r: String)
    ensures
        r@ == sanitized(name@),
{
    let v = chars_of(name);
    let mut out: Vec<char> = Vec::new();
    let mut i: usize = 0;
    while i < v.len()
        invariant
            i <= v@.len(),
            out@ == sanitized(v@.take(i as int)),
        decreases v@.len() - i,
    {
        let c = v[i];
        let d = if c == '/' {
            '-'
        } else if c == ':' || c == '@' || c == ' ' {
            '_'
        } else {
            c
        };
        out.push(d);
        i = i + 1;
        assert(out@ =~= sanitized(v@.take(i as int)));
    }
    assert(v@.take(v@.len() as int) =~= v@);
    string_from_chars(&out)
}

/// `prefix` followed by the sanitized jail name.
fn prefixed_sanitized(prefix: &str, name: &str) -> (r: String)
    ensures
        r@ == prefix@ + sanitized(name@),
{
    let mut out = chars_of(prefix);
    let v = chars_of(name);
    let ghost start = out@;
    let mut i: usize = 0;
    while i < v.len()
        invariant
            i <= v@.len(),
            out@ == start + sanitized(v@.take(i as int)),
        decreases v@.len() - i,
    {
        let c = v[i];
        let d = if c == '/' {
            '-'
        } else if c == ':' || c == '@' || c == ' ' {
            '_'
        } else {
            c
        };
        out.push(d);
        i = i + 1;
        assert(out@ =~= start + sanitized(v@.take(i as int)));
    }
    assert(v@.take(v@.len() as int) =~= v@);
    string_from_chars(&out)
}

/// The engine's name for the container of jail `name`.
pub fn container_name(name: &str) -> (r: String)
    ensures
        r@ == "jail-"@ + sanitized(name@),
{
    prefixed_sanitized("jail-", name)
}

/// The throwaway image that keeps a container's state while it is recreated.
pub fn temp_image_name(name: &str) -> (r: String)
    ensures
        r@ == "jail-temp-"@ + sanitized(name@),
{
    prefixed_sanitized("jail-temp-", name)
}

/// Name of the workspace directory of a cloned jail: the part after the last `/`.
pub fn extract_repo_name(jail_name: &str) -> (r: String)
    ensures
        r@ == after_last(jail_name@, '/'),
{
    let v = chars_of(jail_name);
    let start = after_last_at(&v, 0, v.len(), '/');
    assert(v@.subrange(0, v@.len() as int) =~= v@);
    let mut out: Vec<char> = Vec::new();
    push_range(&mut out, &v, start, v.len());
    assert(out@ =~= v@.subrange(start as int, v@.len() as int));
    string_from_chars(&out)
}

/// Each `c` in `s` replaced by `d`.
fn swap_char(s: &str, c: char, d: char) -> (r: Vec<char>)
    ensures
        r@ == s@.map_values(|x: char| if x == c { d } else { x }),
{
    let v = chars_of(s);
    let mut out: Vec<char> = Vec::new();
    let mut i: usize = 0;
    while i < v.len()
        invariant
            i <= v@.len(),
            out@ == v@.take(i as int).map_values(|x: char| if x == c { d } else { x }),
        decreases v@.len() - i,
    {
        if v[i] == c {
            out.push(d);
        } else {
            out.push(v[i]);
        }
        i = i + 1;
        assert(out@ =~= v@.take(i as int).map_values(|x: char| if x == c { d } else { x }));
    }
    assert(v@.take(v@.len() as int) =~= v@);
    out
}

/// The directory name under which jail `name` is stored.
pub fn jail_dir_name(name: &str) -> (r: String)
    ensures
        r@ == dir_name_of(name@),
{
    let out = swap_char(name, '/', '_');
    assert(out@ =~= dir_name_of(name@));
    string_from_chars(&out)
}

/// The jail name that a stored directory stands for.
pub fn name_of_dir(dir: &str) -> (r: String)
    ensures
        r@ == name_of_dir_spec(dir@),
{
    let out = swap_char(dir, '_', '/');
    assert(out@ =~= name_of_dir_spec(dir@));
    string_from_chars(&out)
}

/// `dir` joined with the relative component `seg`.
pub fn join(dir: &str, seg: &str) -> (r: String)
    ensures
        r@ == join_path(dir@, seg@),
{
    let mut out = chars_of(dir);
    let s = chars_of(seg);
    if out.len() > 0 && out[out.len() - 1] != '/' {
        out.push('/');
    }
    let ghost mid = out@;
    push_range(&mut out, &s, 0, s.len());
    assert(s@.subrange(0, s@.len() as int) =~= s@);
    assert(out@ =~= join_path(dir@, seg@));
    string_from_chars(&out)
}

/// The directory of jail `name` inside the jails directory.
pub fn jail_path(jails_dir: &str, name: &str) -> (r: String)
    ensures
        r@ == join_path(jails_dir@, dir_name_of(name@)),
{
    let d = jail_dir_name(name);
    join(jails_dir, d.as_str())
}

/// Bounds of the final component of `v` as a Unix path.
pub fn final_component(v: &Vec<char>) -> (r: Option<(usize, usize)>)
    ensures
        match r {
            Some((lo, hi)) => lo <= hi <= v@.len() && file_name(v@) == Some(
                v@.subrange(lo as int, hi as int),
            ),
            None => file_name(v@) is None,
        },
{
    let mut end: usize = v.len();
    assert(v@.take(end as int) =~= v@);
    loop
        invariant
            end <= v@.len(),
            file_name(v@.take(end as int)) == file_name(v@),
        decreases end,
    {
        if end == 0 {
            return None;
        }
        let ghost t = v@.take(end as int);
        assert(t.drop_last() =~= v@.take(end - 1));
        if v[end - 1] == '/' {
            end = end - 1;
        } else {
            let start = after_last_at(v, 0, end, '/');
            assert(v@.subrange(0, end as int) =~= t);
            let len = end - start;
            if len == 1 && v[start] == '.' {
                assert(after_last(t, '/') =~= dot());
                end = end - 1;
            } else if len == 2 && v[start] == '.' && v[start + 1] == '.' {
                assert(after_last(t, '/') =~= dot_dot());
                return None;
            } else {
                assert(after_last(t, '/') != dot()) by {
                    if len == 1 {
                        assert(after_last(t, '/')[0] != dot()[0]);
                    }
                }
                assert(after_last(t, '/') != dot_dot()) by {
                    if len == 2 {
                        assert(after_last(t, '/')[0] != dot_dot()[0] || after_last(t, '/')[1]
                            != dot_dot()[1]);
                    }
                }
                return Some((start, end));
            }
        }
    }
}

/// Derives a jail name from a clone source: `owner/repo` for a hosted
/// repository, else the final path component, else the source with `/`, `:`
/// and `@` replaced by `-`.
pub fn derive_name(source: &str) -> (r: String)
    ensures
        r@ == derive_name_spec(source@),
{
    let v = chars_of(source);
    let git: Vec<char> = vec!['.', 'g', 'i', 't'];
    assert(git@ =~= git_suffix());
    let gh = chars_of("github.com");
    let gl = chars_of("gitlab.com");
    let repo_like = contains_at_any(&v, &gh) || contains_at_any(&v, &gl) || ends_with_at(
        &v,
        v.len(),
        &git,
    );
    assert(v@.take(v@.len() as int) =~= v@);
    if repo_like {
        let e1 = trim_end_char_at(&v, v.len(), '/');
        let e2 = trim_end_seq_at(&v, e1, &git);
        let ghost stem = v@.take(e2 as int);
        assert(stem == url_stem(v@));
        let rs = after_last_at(&v, 0, e2, '/');
        assert(v@.subrange(0, e2 as int) =~= stem);
        proof {
            lemma_after_last_len(stem, '/');
        }
        if rs > 0 {
            assert(stem.contains('/')) by {
                assert(stem[rs - 1] == '/');
            }
            let ghost before = v@.subrange(0, rs - 1);
            assert(before =~= before_last(stem, '/'));
            let os1 = after_last_at(&v, 0, rs - 1, '/');
            let os2 = after_last_at(&v, os1, rs - 1, ':');
            let mut out: Vec<char> = Vec::new();
            push_range(&mut out, &v, os2, rs - 1);
            out.push('/');
            push_range(&mut out, &v, rs, e2);
            assert(out@ =~= owner_repo(stem));
            return string_from_chars(&out);
        }
        assert(!stem.contains('/'));
    }
    match final_component(&v) {
        Some((lo, hi)) => {
            let mut out: Vec<char> = Vec::new();
            push_range(&mut out, &v, lo, hi);
            assert(out@ =~= v@.subrange(lo as int, hi as int));
            string_from_chars(&out)
        },
        None => {
            let mut out: Vec<char> = Vec::new();
            let mut i: usize = 0;
            while i < v.len()
                invariant
                    i <= v@.len(),
                    out@ == fallback_name(v@.take(i as int)),
                decreases v@.len() - i,
            {
                let c = v[i];
                if c == '/' || c == ':' || c == '@' {
                    out.push('-');
                } else {
                    out.push(c);
                }
                i = i + 1;
                assert(out@ =~= fallback_name(v@.take(i as int)));
            }
            string_from_chars(&out)
        },
    }
}

/// Hex encoding of the UTF-8 bytes of `s`, two lower-case digits per byte.
pub fn hex_encode(s: &str) -> (r: String)
    ensures
        r@ == hex_of(s.spec_bytes()),
{
    let bytes = s.as_bytes();
    let digits: Vec<char> = vec![
        '0',
        '1',
        '2',
        '3',
        '4',
        '5',
        '6',
        '7',
        '8',
        '9',
        'a',
        'b',
        'c',
        'd',
        'e',
        'f',
    ];
    assert(digits@ =~= hex_digits());
    let mut out: Vec<char> = Vec::new();
    let mut i: usize = 0;
    while i < bytes.len()
        invariant
            i <= bytes@.len(),
            bytes@ == s.spec_bytes(),
            digits@ == hex_digits(),
            out@ == hex_of(bytes@.take(i as int)),
        decreases bytes@.len() - i,
    {
        let b = bytes[i];
        out.push(digits[(b / 16) as usize]);
        out.push(digits[(b % 16) as usize]);
        assert(bytes@.take(i + 1).drop_last() =~= bytes@.take(i as int));
        i = i + 1;
    }
    assert(bytes@.take(bytes@.len() as int) =~= bytes@);
    string_from_chars(&out)
}

/// Sanitizing twice changes nothing more than sanitizing once.
pub proof fn lemma_sanitize_idempotent(s: Seq<char>)
    ensures
        sanitized(sanitized(s)) == sanitized(s),
{
    assert(sanitized(sanitized(s)) =~= sanitized(s));
}

/// The text of `x` occurs in any sequence that starts with `a`.
proof fn lemma_contains_prefix(a: Seq<char>, b: Seq<char>, x: Seq<char>)
    requires
        contains_seq(a, x),
    ensures
        contains_seq(a + b, x),
{
    let i = choose|i: int| 0 <= i && i + x.len() <= a.len() && #[trigger] a.subrange(i, i + x.len()) == x;
    assert((a + b).subrange(i, i + x.len()) =~= a.subrange(i, i + x.len()));
}

/// A component ending in `/` leaves nothing after its last `/`.
proof fn lemma_after_last_sep(a: Seq<char>, b: Seq<char>, c: char)
    requires
        a.len() == 0 || a.last() == c,
        !b.contains(c),
    ensures
        after_last(a + b, c) == b,
{
    lemma_after_last_concat(a, b, c);
    assert(after_last(a, c) =~= Seq::<char>::empty());
    assert(Seq::<char>::empty() + b =~= b);
}

/// A GitHub-style HTTPS or SSH URL `<prefix><owner>/<repo>`, optionally
/// followed by `.git`, `/` or `.git/`, derives the jail name `<owner>/<repo>`; the
/// prefix ends in `/` (HTTPS) or `:` (SSH), so the owner is what follows the
/// last colon.
pub proof fn lemma_derive_name_repo_url(
    prefix: Seq<char>,
    owner: Seq<char>,
    repo: Seq<char>,
    suffix: Seq<char>,
)
    requires
        contains_seq(prefix, "github.com"@) || contains_seq(prefix, "gitlab.com"@),
        prefix.len() > 0,
        prefix.last() == '/' || prefix.last() == ':',
        !owner.contains('/'),
        !owner.contains(':'),
        repo.len() > 0,
        !repo.contains('/'),
        !ends_with(repo, git_suffix()),
        suffix == Seq::<char>::empty() || suffix == git_suffix() || suffix == seq!['/'] || suffix
            == git_suffix().push('/'),
    ensures
        derive_name_spec(prefix + owner + seq!['/'] + repo + suffix) == owner + seq!['/'] + repo,
{
    let g = git_suffix();
    let po = prefix + owner;
    let w = po + seq!['/'] + repo;
    let u = w + suffix;
    assert(u =~= prefix + (owner + seq!['/'] + repo + suffix));
    if contains_seq(prefix, "github.com"@) {
        lemma_contains_prefix(prefix, owner + seq!['/'] + repo + suffix, "github.com"@);
    } else {
        lemma_contains_prefix(prefix, owner + seq!['/'] + repo + suffix, "gitlab.com"@);
    }
    assert(is_repo_url(u));
    // `w` does not end in `.git`: its tail is either the tail of `repo` or holds the `/`.
    assert(w.last() == repo.last());
    assert(!ends_with(w, g)) by {
        if ends_with(w, g) {
            let wl = w.len() as int;
            let rl = repo.len() as int;
            if rl >= 4 {
                assert(repo.subrange(rl - 4, rl) =~= w.subrange(wl - 4, wl));
            } else {
                assert(w[wl - rl - 1] == '/');
                assert(w.subrange(wl - 4, wl)[3 - rl] == '/');
                assert(g[3 - rl] != '/');
            }
        }
    }
    assert(trim_end_seq(w, g) == w);
    assert(repo.last() != '/') by {
        assert(repo[repo.len() - 1] == repo.last());
    }
    assert(trim_end_char(w, '/') == w);
    let wg = w + g;
    assert(wg.subrange(wg.len() - 4, wg.len() as int) =~= g);
    assert(wg.subrange(0, wg.len() - 4) =~= w);
    assert(trim_end_seq(wg, g) == w);
    assert(wg.last() == 't');
    assert(trim_end_char(wg, '/') == wg);
    if suffix == g {
        assert(u =~= wg);
    } else if suffix == seq!['/'] {
        assert(u.drop_last() =~= w);
        assert(trim_end_char(u, '/') == w);
    } else if suffix == g.push('/') {
        assert(u.drop_last() =~= wg);
        assert(trim_end_char(u, '/') == wg);
    } else {
        assert(u =~= w);
    }
    assert(url_stem(u) == w);
    assert(w[po.len() as int] == '/');
    assert(w.contains('/'));
    lemma_after_last_sep(po + seq!['/'], repo, '/');
    assert(after_last(w, '/') == repo);
    assert(before_last(w, '/') =~= po);
    lemma_after_last_concat(prefix, owner, '/');
    if prefix.last() == '/' {
        assert(after_last(prefix, '/') =~= Seq::<char>::empty());
        assert(after_last(po, '/') =~= owner);
        lemma_after_last_sep(Seq::<char>::empty(), owner, ':');
        assert(Seq::<char>::empty() + owner =~= owner);
    } else {
        let y = after_last(prefix.drop_last(), '/');
        assert(prefix.drop_last().push(':') =~= prefix);
        assert(after_last(prefix, '/') == y.push(':'));
        assert(after_last(po, '/') == y.push(':') + owner);
        lemma_after_last_sep(y.push(':'), owner, ':');
    }
}

/// A local path `<dir>/<name>` (or a bare `<name>`) that does not look like a
/// repository URL derives its final component `<name>`.
pub proof fn lemma_derive_name_local_path(dir: Seq<char>, name: Seq<char>)
    requires
        dir.len() == 0 || dir.last() == '/',
        name.len() > 0,
        !name.contains('/'),
        name != dot(),
        name != dot_dot(),
        !is_repo_url(dir + name),
    ensures
        derive_name_spec(dir + name) == name,
{
    let s = dir + name;
    lemma_after_last_sep(dir, name, '/');
    assert(s.last() == name.last());
    assert(name.last() != '/') by {
        assert(name[name.len() - 1] == name.last());
    }
    assert(file_name(s) == Some(name));
}

} // verus!
