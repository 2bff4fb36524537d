use vstd::prelude::*;
use vstd::string::StrSliceExecFns;

verus! {

/// `s` ends with `p`.
pub open spec fn ends_with(s: Seq<char>, p: Seq<char>) -> bool {
    p.len() <= s.len() && s.subrange(s.len() - p.len(), s.len() as int) == p
}

/// `s` starts with `p`.
pub open spec fn starts_with(s: Seq<char>, p: Seq<char>) -> bool {
    p.len() <= s.len() && s.subrange(0, p.len() as int) == p
}

/// `p` occurs somewhere inside `s`.
pub open spec fn contains_seq(s: Seq<char>, p: Seq<char>) -> bool {
    exists|i: int| 0 <= i && i + p.len() <= s.len() && #[trigger] s.subrange(i, i + p.len()) == p
}

/// `s` with every trailing copy of `p` removed (nothing removed for an empty `p`).
pub open spec fn trim_end_seq(s: Seq<char>, p: Seq<char>) -> Seq<char>
    decreases s.len(),
{
    if p.len() > 0 && ends_with(s, p) {
        trim_end_seq(s.subrange(0, s.len() - p.len()), p)
    } else {
        s
    }
}

/// `s` with every trailing `c` removed.
pub open spec fn trim_end_char(s: Seq<char>, c: char) -> Seq<char>
    decreases s.len(),
{
    if s.len() > 0 && s.last() == c {
        trim_end_char(s.drop_last(), c)
    } else {
        s
    }
}

/// The part of `s` after its last `c`; all of `s` when it holds no `c`.
pub open spec fn after_last(s: Seq<char>, c: char) -> Seq<char>
    decreases s.len(),
{
    if s.len() == 0 {
        s
    } else if s.last() == c {
        Seq::empty()
    } else {
        after_last(s.drop_last(), c).push(s.last())
    }
}

/// The part of `s` before its last `c` (meaningful when `s` holds a `c`).
pub open spec fn before_last(s: Seq<char>, c: char) -> Seq<char> {
    s.subrange(0, s.len() - after_last(s, c).len() - 1)
}

/// What follows the last `c` is a suffix without `c`, preceded by a `c`
/// unless it is all of `s`.
pub proof fn lemma_after_last_len(s: Seq<char>, c: char)
    ensures
        after_last(s, c).len() <= s.len(),
        after_last(s, c) == s.subrange(s.len() - after_last(s, c).len(), s.len() as int),
        !after_last(s, c).contains(c),
        after_last(s, c).len() < s.len() ==> s[s.len() - after_last(s, c).len() - 1] == c,
        after_last(s, c).len() == s.len() ==> !s.contains(c),
    decreases s.len(),
{
    if s.len() > 0 && s.last() != c {
        lemma_after_last_len(s.drop_last(), c);
        let a = after_last(s.drop_last(), c);
        assert(after_last(s, c) =~= s.subrange(s.len() - after_last(s, c).len(), s.len() as int));
        if a.len() == s.len() - 1 {
            assert forall|i: int| 0 <= i < s.len() implies s[i] != c by {
                if i < s.len() - 1 {
                    assert(s.drop_last()[i] == s[i]);
                }
            }
        }
        assert forall|i: int| 0 <= i < after_last(s, c).len() implies after_last(s, c)[i] != c by {
            if i < a.len() {
                assert(a[i] == after_last(s, c)[i]);
            }
        }
        if a.len() < s.len() - 1 {
            assert(s.drop_last()[s.len() - 1 - a.len() - 1] == s[s.len() - a.len() - 2]);
        }
    }
}

/// A sequence with no `c` added after `a` is carried into what follows the last `c`.
pub proof fn lemma_after_last_concat(a: Seq<char>, b: Seq<char>, c: char)
    requires
        !b.contains(c),
    ensures
        after_last(a + b, c) == after_last(a, c) + b,
    decreases b.len(),
{
    if b.len() == 0 {
        assert(a + b =~= a);
        assert(after_last(a, c) + b =~= after_last(a, c));
    } else {
        let b0 = b.drop_last();
        assert(!b0.contains(c)) by {
            assert forall|i: int| 0 <= i < b0.len() implies b0[i] != c by {
                assert(b0[i] == b[i]);
            }
        }
        lemma_after_last_concat(a, b0, c);
        assert((a + b).drop_last() =~= a + b0);
        assert((a + b).last() == b.last());
        assert(b.last() != c) by {
            assert(b[b.len() - 1] == b.last());
        }
        assert(after_last(a, c) + b =~= (after_last(a, c) + b0).push(b.last()));
    }
}

/// The characters of `s`, in order.
pub fn chars_of(s: &str) -> (r: Vec<char>)
    ensures
        r@ == s@,
{
    let n = s.unicode_len();
    let mut r: Vec<char> = Vec::new();
    let mut i: usize = 0;
    while i < n
        invariant
            n == s@.len(),
            i <= n,
            r@ == s@.take(i as int),
        decreases n - i,
    {
        let c = s.get_char(i);
        r.push(c);
        i = i + 1;
        assert(r@ =~= s@.take(i as int));
    }
    assert(r@ =~= s@);
    r
}

/// Relies on std's `FromIterator<char>` for `String`: the string holds the
/// given characters in their order.
#[verifier::external_body]
pub(crate) fn string_from_chars(v: &Vec<char>) -> (r: String)
    ensures
        r@ == v@,
{
    v.iter().collect()
}

/// Appends `src[lo..hi]` to `dst`.
pub fn push_range(dst: &mut Vec<char>, src: &Vec<char>, lo: usize, hi: usize)
    requires
        lo <= hi <= src@.len(),
    ensures
        final(dst)@ == old(dst)@ + src@.subrange(lo as int, hi as int),
{
    let ghost start = dst@;
    let mut i: usize = lo;
    while i < hi
        invariant
            lo <= i <= hi <= src@.len(),
            dst@ == start + src@.subrange(lo as int, i as int),
        decreases hi - i,
    {
        dst.push(src[i]);
        i = i + 1;
        assert(dst@ =~= start + src@.subrange(lo as int, i as int));
    }
}

/// Appends all of `src` to `dst`.
pub fn push_all(dst: &mut Vec<char>, src: &Vec<char>)
    ensures
        final(dst)@ == old(dst)@ + src@,
{
    push_range(dst, src, 0, src.len());
    assert(src@.subrange(0, src@.len() as int) =~= src@);
}

/// Whether `v[..end]` ends with `p`.
pub fn ends_with_at(v: &Vec<char>, end: usize, p: &Vec<char>) -> (r: bool)
    requires
        end <= v@.len(),
    ensures
        r == ends_with(v@.take(end as int), p@),
{
    if p.len() > end {
        return false;
    }
    let off = end - p.len();
    let mut i: usize = 0;
    while i < p.len()
        invariant
            off + p@.len() == end <= v@.len(),
            i <= p@.len(),
            forall|j: int| 0 <= j < i ==> v@[off + j] == p@[j],
        decreases p@.len() - i,
    {
        if v[off + i] != p[i] {
            assert(v@.take(end as int).subrange(off as int, end as int)[i as int] != p@[i as int]);
            return false;
        }
        i = i + 1;
    }
    assert(v@.take(end as int).subrange(off as int, end as int) =~= p@);
    true
}

/// Whether `p` occurs in `v`.
pub fn contains_at_any(v: &Vec<char>, p: &Vec<char>) -> (r: bool)
    ensures
        r == contains_seq(v@, p@),
{
    if p.len() > v.len() {
        return false;
    }
    let last = v.len() - p.len();
    let mut i: usize = 0;
    while i < last
        invariant
            i <= last,
            last + p@.len() == v@.len() <= usize::MAX,
            forall|k: int| 0 <= k < i ==> #[trigger] v@.subrange(k, k + p@.len()) != p@,
        decreases last - i,
    {
        let found = ends_with_at(v, i + p.len(), p);
        assert(v@.take(i + p@.len()).subrange(i as int, i + p@.len()) =~= v@.subrange(
            i as int,
            i + p@.len(),
        ));
        if found {
            return true;
        }
        i = i + 1;
    }
    let found = ends_with_at(v, v.len(), p);
    assert(v@.take(v@.len() as int) =~= v@);
    found
}

/// New end of `v[..end]` once every trailing `c` is dropped.
pub fn trim_end_char_at(v: &Vec<char>, end: usize, c: char) -> (r: usize)
    requires
        end <= v@.len(),
    ensures
        r <= end,
        v@.take(r as int) == trim_end_char(v@.take(end as int), c),
{
    let mut i: usize = end;
    while i > 0 && v[i - 1] == c
        invariant
            i <= end <= v@.len(),
            trim_end_char(v@.take(i as int), c) == trim_end_char(v@.take(end as int), c),
        decreases i,
    {
        assert(v@.take(i as int).drop_last() =~= v@.take(i - 1));
        i = i - 1;
    }
    i
}

/// New end of `v[..end]` once every trailing copy of `p` is dropped.
pub fn trim_end_seq_at(v: &Vec<char>, end: usize, p: &Vec<char>) -> (r: usize)
    requires
        end <= v@.len(),
    ensures
        r <= end,
        v@.take(r as int) == trim_end_seq(v@.take(end as int), p@),
{
    if p.len() == 0 {
        return end;
    }
    let mut i: usize = end;
    while ends_with_at(v, i, p)
        invariant
            i <= end <= v@.len(),
            p@.len() > 0,
            trim_end_seq(v@.take(i as int), p@) == trim_end_seq(v@.take(end as int), p@),
        decreases i,
    {
        assert(v@.take(i as int).subrange(0, i - p@.len()) =~= v@.take(i - p@.len()));
        i = i - p.len();
    }
    i
}

/// Start of the part of `v[lo..end]` after its last `c`.
pub fn after_last_at(v: &Vec<char>, lo: usize, end: usize, c: char) -> (r: usize)
    requires
        lo <= end <= v@.len(),
    ensures
        lo <= r <= end,
        v@.subrange(r as int, end as int) == after_last(v@.subrange(lo as int, end as int), c),
{
    let mut i: usize = end;
    while i > lo && v[i - 1] != c
        invariant
            lo <= i <= end <= v@.len(),
            after_last(v@.subrange(lo as int, end as int), c) == after_last(
                v@.subrange(lo as int, i as int),
                c,
            ) + v@.subrange(i as int, end as int),
        decreases i,
    {
        let ghost t = v@.subrange(lo as int, i as int);
        assert(t.drop_last() =~= v@.subrange(lo as int, i - 1));
        assert(after_last(t, c) == after_last(v@.subrange(lo as int, i - 1), c).push(v@[i - 1]));
        assert(after_last(v@.subrange(lo as int, i - 1), c) + v@.subrange(i - 1, end as int)
            =~= after_last(v@.subrange(lo as int, i - 1), c).push(v@[i - 1]) + v@.subrange(
            i as int,
            end as int,
        ));
        i = i - 1;
    }
    assert(after_last(v@.subrange(lo as int, i as int), c) =~= Seq::<char>::empty());
    assert(Seq::<char>::empty() + v@.subrange(i as int, end as int) =~= v@.subrange(
        i as int,
        end as int,
    ));
    i
}

/// Whether the characters of `a` equal those of `b`.
pub fn same_chars(a: &Vec<char>, b: &Vec<char>) -> (r: bool)
    ensures
        r == (a@ == b@),
{
    if a.len() != b.len() {
        return false;
    }
    let mut i: usize = 0;
    while i < a.len()
        invariant
            a@.len() == b@.len(),
            i <= a@.len(),
            forall|j: int| 0 <= j < i ==> a@[j] == b@[j],
        decreases a@.len() - i,
    {
        if a[i] != b[i] {
            return false;
        }
        i = i + 1;
    }
    assert(a@ =~= b@);
    true
}

/// Whether `v[lo..hi]` starts with `p`.
pub fn starts_with_at(v: &Vec<char>, lo: usize, hi: usize, p: &Vec<char>) -> (r: bool)
    requires
        lo <= hi <= v@.len(),
    ensures
        r == starts_with(v@.subrange(lo as int, hi as int), p@),
{
    if p.len() > hi - lo {
        return false;
    }
    let mut i: usize = 0;
    while i < p.len()
        invariant
            lo + p@.len() <= hi <= v@.len(),
            i <= p@.len(),
            forall|j: int| 0 <= j < i ==> v@[lo + j] == p@[j],
        decreases p@.len() - i,
    {
        if v[lo + i] != p[i] {
            assert(v@.subrange(lo as int, hi as int).subrange(0, p@.len() as int)[i as int]
                != p@[i as int]);
            return false;
        }
        i = i + 1;
    }
    assert(v@.subrange(lo as int, hi as int).subrange(0, p@.len() as int) =~= p@);
    true
}

/// What `str::to_lowercase` makes of a sequence of characters.
pub uninterp spec fn lower_of(s: Seq<char>) -> Seq<char>;

/// Relies on `str::to_lowercase`: the Unicode lower-case mapping of `s`, which
/// depends on its characters alone.
#[verifier::external_body]
pub(crate) fn lowercase(s: &str) -> (r: String)
    ensures
        r@ == lower_of(s@),
{
    s.to_lowercase()
}

/// Whether `a` and `b` are the same character up to ASCII case.
pub open spec fn ascii_eq_ignore_case_char(a: char, b: char) -> bool {
    ||| a == b
    ||| (65 <= (a as u32) && (a as u32) <= 90 && (a as u32) + 32 == (b as u32))
    ||| (65 <= (b as u32) && (b as u32) <= 90 && (b as u32) + 32 == (a as u32))
}

/// Whether `a` and `b` are equal up to ASCII case.
pub open spec fn ascii_eq_ignore_case(a: Seq<char>, b: Seq<char>) -> bool {
    a.len() == b.len() && forall|i: int| 0 <= i < a.len() ==> ascii_eq_ignore_case_char(
        #[trigger] a[i],
        b[i],
    )
}

/// Whether `a` and `b` are equal up to ASCII case.
pub fn eq_ignore_ascii_case(a: &Vec<char>, b: &Vec<char>) -> (r: bool)
    ensures
        r == ascii_eq_ignore_case(a@, b@),
{
    if a.len() != b.len() {
        return false;
    }
    let mut i: usize = 0;
    while i < a.len()
        invariant
            a@.len() == b@.len(),
            i <= a@.len(),
            forall|j: int| 0 <= j < i ==> ascii_eq_ignore_case_char(#[trigger] a@[j], b@[j]),
        decreases a@.len() - i,
    {
        let x = a[i] as u32;
        let y = b[i] as u32;
        let same = a[i] == b[i] || (65 <= x && x <= 90 && x + 32 == y) || (65 <= y && y <= 90 && y + 32
            == x);
        if !same {
            assert(!ascii_eq_ignore_case_char(a@[i as int], b@[i as int]));
            return false;
        }
        assert(ascii_eq_ignore_case_char(a@[i as int], b@[i as int]));
        i = i + 1;
    }
    true
}

/// The Unicode White_Space characters, which `char::is_whitespace` accepts.
pub open spec fn is_white_space(c: char) -> bool {
    ||| c == '\u{9}'
    ||| c == '\u{a}'
    ||| c == '\u{b}'
    ||| c == '\u{c}'
    ||| c == '\u{d}'
    ||| c == '\u{20}'
    ||| c == '\u{85}'
    ||| c == '\u{a0}'
    ||| c == '\u{1680}'
    ||| c == '\u{2000}'
    ||| c == '\u{2001}'
    ||| c == '\u{2002}'
    ||| c == '\u{2003}'
    ||| c == '\u{2004}'
    ||| c == '\u{2005}'
    ||| c == '\u{2006}'
    ||| c == '\u{2007}'
    ||| c == '\u{2008}'
    ||| c == '\u{2009}'
    ||| c == '\u{200a}'
    ||| c == '\u{2028}'
    ||| c == '\u{2029}'
    ||| c == '\u{202f}'
    ||| c == '\u{205f}'
    ||| c == '\u{3000}'
}

/// `s` without its trailing white space.
pub open spec fn trim_end_ws(s: Seq<char>) -> Seq<char>
    decreases s.len(),
{
    if s.len() > 0 && is_white_space(s.last()) {
        trim_end_ws(s.drop_last())
    } else {
        s
    }
}

/// `s` without its leading white space.
pub open spec fn trim_start_ws(s: Seq<char>) -> Seq<char>
    decreases s.len(),
{
    if s.len() > 0 && is_white_space(s[0]) {
        trim_start_ws(s.drop_first())
    } else {
        s
    }
}

/// `s` without its leading and trailing white space.
pub open spec fn trimmed(s: Seq<char>) -> Seq<char> {
    trim_start_ws(trim_end_ws(s))
}

/// Whether `c` is white space.
pub fn is_white_space_char(c: char) -> (r: bool)
    ensures
        r == is_white_space(c),
{
    c == '\u{9}' || c == '\u{a}' || c == '\u{b}' || c == '\u{c}' || c == '\u{d}' || c == '\u{20}' || c == '\u{85}' || c == '\u{a0}' || c == '\u{1680}' || c == '\u{2000}' || c == '\u{2001}' || c == '\u{2002}' || c == '\u{2003}' || c == '\u{2004}' || c == '\u{2005}' || c == '\u{2006}' || c == '\u{2007}' || c == '\u{2008}' || c == '\u{2009}' || c == '\u{200a}' || c == '\u{2028}' || c == '\u{2029}' || c == '\u{202f}' || c == '\u{205f}' || c == '\u{3000}'
}

/// `s` without its leading and trailing white space.
pub fn trim_text(s: &str) -> (r: String)
    ensures
        r@ == trimmed(s@),
{
    let v = chars_of(s);
    let mut hi: usize = v.len();
    assert(v@.take(hi as int) =~= v@);
    while hi > 0 && is_white_space_char(v[hi - 1])
        invariant
            hi <= v@.len(),
            trim_end_ws(v@.take(hi as int)) == trim_end_ws(v@),
        decreases hi,
    {
        assert(v@.take(hi as int).drop_last() =~= v@.take(hi - 1));
        hi = hi - 1;
    }
    assert(trim_end_ws(v@.take(hi as int)) == v@.take(hi as int));
    let mut lo: usize = 0;
    assert(v@.subrange(0, hi as int) =~= v@.take(hi as int));
    while lo < hi && is_white_space_char(v[lo])
        invariant
            lo <= hi <= v@.len(),
            trim_start_ws(v@.subrange(lo as int, hi as int)) == trimmed(v@),
        decreases hi - lo,
    {
        assert(v@.subrange(lo as int, hi as int).drop_first() =~= v@.subrange(lo + 1, hi as int));
        lo = lo + 1;
    }
    let mut out: Vec<char> = Vec::new();
    push_range(&mut out, &v, lo, hi);
    assert(out@ =~= v@.subrange(lo as int, hi as int));
    string_from_chars(&out)
}

/// Decimal digits of `n`, most significant first.
pub open spec fn decimal(n: nat) -> Seq<char>
    decreases n,
{
    if n < 10 {
        seq![digit(n)]
    } else {
        decimal(n / 10).push(digit(n % 10))
    }
}

/// The character of decimal digit `d`.
pub open spec fn digit(d: nat) -> char {
    seq!['0', '1', '2', '3', '4', '5', '6', '7', '8', '9'][d as int]
}

/// Appends the decimal digits of `n` to `out`.
pub fn push_decimal(out: &mut Vec<char>, n: u16)
    ensures
        final(out)@ == old(out)@ + decimal(n as nat),
    decreases n,
{
    let digits: Vec<char> = vec!['0', '1', '2', '3', '4', '5', '6', '7', '8', '9'];
    assert(digits@ =~= seq!['0', '1', '2', '3', '4', '5', '6', '7', '8', '9']);
    let ghost start = out@;
    if n >= 10 {
        push_decimal(out, n / 10);
        out.push(digits[(n % 10) as usize]);
        assert(out@ =~= start + decimal(n as nat));
    } else {
        out.push(digits[n as usize]);
        assert(out@ =~= start + decimal(n as nat));
    }
}

} // verus!
