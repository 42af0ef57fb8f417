//! Character-level text operations used by the path rewriters.
use std::borrow::Cow;

use vstd::prelude::*;

verus! {

/// `String::push` appends one character at the end of the string.
pub assume_specification[ String::push ](s: &mut String, ch: char)
    ensures
        final(s)@ == old(s)@.push(ch),
;

/// The characters of `s`, in order.
pub fn chars_of(s: &str) -> (v: Vec<char>)
    ensures
        v@ == s@,
{
    let mut v: Vec<char> = Vec::new();
    for c in it: s.chars()
        invariant
            v@ == it.seq().take(it.index() as int),
    {
        v.push(c);
    }
    v
}

/// `p` occurs in `s` at character index `i`.
pub open spec fn occurs_at(s: Seq<char>, p: Seq<char>, i: int) -> bool {
    0 <= i <= s.len() && p.is_prefix_of(s.skip(i))
}

/// `p` occurs somewhere in `s` (the empty text occurs in every text).
pub open spec fn occurs_in(s: Seq<char>, p: Seq<char>) -> bool {
    exists|i: int| occurs_at(s, p, i)
}

/// One less, for a limit on replacements; `None` stands for no limit.
pub open spec fn limit_after_one(limit: Option<nat>) -> Option<nat> {
    match limit {
        Some(n) => Some((n - 1) as nat),
        None => None,
    }
}

/// `s` with its leftmost non-overlapping occurrences of `from` replaced by `to`,
/// scanning from the left, at most `limit` of them (`None`: all of them).
///
/// The empty text occurs before every character and at the very end.
pub open spec fn replaced(s: Seq<char>, from: Seq<char>, to: Seq<char>, limit: Option<nat>) -> Seq<char>
    decreases s.len(),
{
    if limit == Some(0nat) {
        s
    } else if from.len() == 0 {
        if s.len() == 0 {
            to
        } else {
            to + seq![s[0]] + replaced(s.drop_first(), from, to, limit_after_one(limit))
        }
    } else if from.is_prefix_of(s) {
        to + replaced(s.skip(from.len() as int), from, to, limit_after_one(limit))
    } else if s.len() == 0 {
        s
    } else {
        seq![s[0]] + replaced(s.drop_first(), from, to, limit)
    }
}

/// The limit of an executable replacement, as a mathematical one.
pub open spec fn limit_view(limit: Option<usize>) -> Option<nat> {
    match limit {
        Some(n) => Some(n as nat),
        None => None,
    }
}

/// Whether `p` occurs in `s` at index `i`.
fn occurs_at_index(s: &Vec<char>, p: &Vec<char>, i: usize) -> (r: bool)
    requires
        i <= s@.len(),
    ensures
        r == occurs_at(s@, p@, i as int),
{
    let n = s.len();
    let m = p.len();
    if m > n - i {
        return false;
    }
    let mut j: usize = 0;
    while j < m
        invariant
            n == s@.len(),
            m == p@.len(),
            i + m <= n,
            j <= m,
            forall|k: int| 0 <= k < j ==> p@[k] == s@[i + k],
        decreases m - j,
    {
        if p[j] != s[i + j] {
            assert(p@[j as int] != s@.skip(i as int).subrange(0, m as int)[j as int]);
            return false;
        }
        j = j + 1;
    }
    assert(p@ =~= s@.skip(i as int).subrange(0, m as int));
    true
}

/// Appends the characters of `s` from index `lo` up to index `hi`.
fn push_range(out: &mut String, s: &Vec<char>, lo: usize, hi: usize)
    requires
        lo <= hi <= s@.len(),
    ensures
        final(out)@ == old(out)@ + s@.subrange(lo as int, hi as int),
{
    let mut j: usize = lo;
    while j < hi
        invariant
            lo <= j <= hi <= s@.len(),
            out@ == old(out)@ + s@.subrange(lo as int, j as int),
        decreases hi - j,
    {
        out.push(s[j]);
        assert(s@.subrange(lo as int, j + 1) =~= s@.subrange(lo as int, j as int).push(s@[j as int]));
        assert(out@ =~= old(out)@ + s@.subrange(lo as int, j + 1));
        j = j + 1;
    }
}

/// `s` with the leftmost non-overlapping occurrences of `from` replaced by `to`,
/// at most `limit` of them (`None`: all of them).
pub fn replace_text(s: &str, from: &str, to: &str, limit: Option<usize>) -> (r: String)
    ensures
        r@ == replaced(s@, from@, to@, limit_view(limit)),
{
    let hay = chars_of(s);
    let pat = chars_of(from);
    let n = hay.len();
    let m = pat.len();
    let ghost whole = replaced(s@, from@, to@, limit_view(limit));
    let mut out = String::new();
    let mut i: usize = 0;
    let mut left = limit;
    assert(hay@.skip(0) =~= hay@);
    loop
        invariant_except_break
            out@ + replaced(hay@.skip(i as int), pat@, to@, limit_view(left)) == whole,
        invariant
            hay@ == s@,
            pat@ == from@,
            n == hay@.len(),
            m == pat@.len(),
            i <= n,
        ensures
            out@ == whole,
        decreases n - i,
    {
        let ghost rest = hay@.skip(i as int);
        if left == Some(0usize) {
            assert(replaced(rest, pat@, to@, limit_view(left)) == rest);
            push_range(&mut out, &hay, i, n);
            assert(hay@.subrange(i as int, n as int) =~= rest);
            break;
        }
        let ghost next_left = limit_after_one(limit_view(left));
        let shorter = match left {
            Some(k) => Some(k - 1),
            None => None,
        };
        assert(limit_view(shorter) == next_left);
        if m == 0 {
            if i == n {
                assert(rest.len() == 0);
                out.append(to);
                assert(out@ == whole);
                break;
            }
            assert(rest.drop_first() =~= hay@.skip(i + 1));
            assert(rest[0] == hay@[i as int]);
            let ghost before = out@;
            out.append(to);
            out.push(hay[i]);
            assert(out@ =~= before + (to@ + seq![rest[0]]));
            assert(replaced(rest, pat@, to@, limit_view(left))
                == to@ + seq![rest[0]] + replaced(hay@.skip(i + 1), pat@, to@, next_left));
            assert((before + (to@ + seq![rest[0]])) + replaced(hay@.skip(i + 1), pat@, to@, next_left)
                =~= before + (to@ + seq![rest[0]] + replaced(hay@.skip(i + 1), pat@, to@, next_left)));
            i = i + 1;
            left = shorter;
        } else if occurs_at_index(&hay, &pat, i) {
            assert(rest.skip(m as int) =~= hay@.skip(i + m));
            let ghost before = out@;
            out.append(to);
            assert(replaced(rest, pat@, to@, limit_view(left))
                == to@ + replaced(hay@.skip(i + m), pat@, to@, next_left));
            assert((before + to@) + replaced(hay@.skip(i + m), pat@, to@, next_left)
                =~= before + (to@ + replaced(hay@.skip(i + m), pat@, to@, next_left)));
            i = i + m;
            left = shorter;
        } else if i == n {
            assert(rest.len() == 0);
            assert(out@ =~= whole);
            break;
        } else {
            assert(rest.drop_first() =~= hay@.skip(i + 1));
            assert(rest[0] == hay@[i as int]);
            let ghost before = out@;
            out.push(hay[i]);
            assert(replaced(rest, pat@, to@, limit_view(left))
                == seq![rest[0]] + replaced(hay@.skip(i + 1), pat@, to@, limit_view(left)));
            assert((before + seq![rest[0]]) + replaced(hay@.skip(i + 1), pat@, to@, limit_view(left))
                =~= before + (seq![rest[0]] + replaced(hay@.skip(i + 1), pat@, to@, limit_view(left))));
            i = i + 1;
        }
    }
    out
}


/// Whether `p` occurs anywhere in `s`.
pub fn contains_text(s: &str, p: &str) -> (r: bool)
    ensures
        r == occurs_in(s@, p@),
{
    let hay = chars_of(s);
    let pat = chars_of(p);
    let n = hay.len();
    let mut i: usize = 0;
    loop
        invariant
            hay@ == s@,
            pat@ == p@,
            n == hay@.len(),
            i <= n,
            forall|k: int| 0 <= k < i ==> !occurs_at(s@, p@, k),
        decreases n - i,
    {
        if occurs_at_index(&hay, &pat, i) {
            return true;
        }
        if i == n {
            return false;
        }
        i = i + 1;
    }
}

/// Whether `s` starts with `p`.
pub fn starts_with_text(s: &str, p: &str) -> (r: bool)
    ensures
        r == p@.is_prefix_of(s@),
{
    let hay = chars_of(s);
    let pat = chars_of(p);
    assert(hay@.skip(0) =~= hay@);
    occurs_at_index(&hay, &pat, 0)
}

/// Whether `s` ends with `p`.
pub fn ends_with_text(s: &str, p: &str) -> (r: bool)
    ensures
        r == p@.is_suffix_of(s@),
{
    let hay = chars_of(s);
    let pat = chars_of(p);
    let n = hay.len();
    let m = pat.len();
    if m > n {
        return false;
    }
    let at = n - m;
    assert(hay@.skip(at as int).subrange(0, m as int) =~= hay@.subrange(at as int, n as int));
    occurs_at_index(&hay, &pat, at)
}

/// The text of a borrowed or owned string.
pub fn cow_text<'a>(c: &'a Cow<'a, str>) -> (r: &'a str)
    ensures
        r@ == c@,
{
    match c {
        Cow::Borrowed(b) => b,
        Cow::Owned(o) => o.as_str(),
    }
}

/// `a` followed by `b`.
pub fn concat_text(a: &str, b: &str) -> (r: String)
    ensures
        r@ == a@ + b@,
{
    let mut out = a.to_owned();
    out.append(b);
    out
}

} // verus!
