//! Properties of the rewriting rules that span calls or hold of every input.
use vstd::prelude::*;

use crate::rewrite::{path_and_query, trim_prefix, trim_suffix, PathRewriter, PathStr, RegexN};
use crate::pattern::PathRegex;
use crate::text::{limit_after_one, occurs_at, occurs_in, replaced};

verus! {

/// How many replacements an unlimited replacement of `from` in `s` makes.
pub open spec fn match_count(s: Seq<char>, from: Seq<char>) -> nat
    decreases s.len(),
{
    if from.len() == 0 {
        s.len() + 1
    } else if from.is_prefix_of(s) {
        1 + match_count(s.skip(from.len() as int), from)
    } else if s.len() == 0 {
        0
    } else {
        match_count(s.drop_first(), from)
    }
}

/// Where `from` does not occur in `s`, replacing its occurrences, with any limit,
/// leaves `s` as it is.
pub proof fn replace_without_match_is_identity(
    s: Seq<char>,
    from: Seq<char>,
    to: Seq<char>,
    limit: Option<nat>,
)
    requires
        !occurs_in(s, from),
    ensures
        replaced(s, from, to, limit) == s,
    decreases s.len(),
{
    if limit == Some(0nat) {
    } else {
        assert(!occurs_at(s, from, 0));
        assert(s.skip(0) =~= s);
        if from.len() == 0 {
            assert(from.is_prefix_of(s.skip(0)));
        } else if s.len() == 0 {
        } else {
            let t = s.drop_first();
            assert forall|i: int| !occurs_at(t, from, i) by {
                if occurs_at(t, from, i) {
                    assert(t.skip(i) =~= s.skip(i + 1));
                    assert(occurs_at(s, from, i + 1));
                }
            }
            replace_without_match_is_identity(t, from, to, limit);
            assert(s =~= seq![s[0]] + t);
        }
    }
}

/// A replacement limited to zero occurrences leaves the text as it is.
pub proof fn replace_none_is_identity(s: Seq<char>, from: Seq<char>, to: Seq<char>)
    ensures
        replaced(s, from, to, Some(0)) == s,
{
}

/// A limit at least as large as the number of matches replaces them all.
pub proof fn replace_enough_is_replace_all(s: Seq<char>, from: Seq<char>, to: Seq<char>, n: nat)
    requires
        n >= match_count(s, from),
    ensures
        replaced(s, from, to, Some(n)) == replaced(s, from, to, None),
    decreases s.len(),
{
    if from.len() == 0 {
        if s.len() > 0 {
            replace_enough_is_replace_all(s.drop_first(), from, to, (n - 1) as nat);
        }
    } else if from.is_prefix_of(s) {
        replace_enough_is_replace_all(s.skip(from.len() as int), from, to, (n - 1) as nat);
    } else if s.len() == 0 {
    } else {
        replace_enough_is_replace_all(s.drop_first(), from, to, n);
        if n == 0 {
            assert(s =~= seq![s[0]] + s.drop_first());
        }
    }
}

/// Replacing a text by itself leaves the text as it is, whatever the limit.
pub proof fn replace_by_itself_is_identity(s: Seq<char>, from: Seq<char>, limit: Option<nat>)
    ensures
        replaced(s, from, from, limit) == s,
    decreases s.len(),
{
    if limit == Some(0nat) {
    } else if from.len() == 0 {
        if s.len() > 0 {
            replace_by_itself_is_identity(s.drop_first(), from, limit_after_one(limit));
            assert(s =~= from + seq![s[0]] + s.drop_first());
        }
    } else if from.is_prefix_of(s) {
        replace_by_itself_is_identity(s.skip(from.len() as int), from, limit_after_one(limit));
        assert(s =~= from + s.skip(from.len() as int));
    } else if s.len() == 0 {
    } else {
        replace_by_itself_is_identity(s.drop_first(), from, limit);
        assert(s =~= seq![s[0]] + s.drop_first());
    }
}

/// Trimming a prefix gives back the path that the prefix was appended to.
pub proof fn trim_prefix_undoes_append_prefix(path: Seq<char>, prefix: Seq<char>)
    ensures
        trim_prefix(prefix + path, prefix) == path,
{
    assert(prefix.is_prefix_of(prefix + path)) by {
        assert(prefix =~= (prefix + path).subrange(0, prefix.len() as int));
    }
    assert((prefix + path).skip(prefix.len() as int) =~= path);
}

/// Trimming a suffix gives back the path that the suffix was appended to.
pub proof fn trim_suffix_undoes_append_suffix(path: Seq<char>, suffix: Seq<char>)
    ensures
        trim_suffix(path + suffix, suffix) == path,
{
    let whole = path + suffix;
    assert(suffix.is_suffix_of(whole)) by {
        assert(suffix =~= whole.subrange(path.len() as int, whole.len() as int));
    }
    assert(whole.take(whole.len() - suffix.len()) =~= path);
}

/// A regex rewriter limited to zero replacements leaves the path as it is.
pub proof fn regex_n_zero_is_identity<Rep: PathStr>(re: PathRegex, rep: Rep, path: &str, out: Seq<char>)
    ensures
        RegexN(re, rep, 0).rewrites_to(path, out) == (out == path@),
{
}

/// A pure rule is left as it is by a rewrite, so rewriting the same path again gives
/// the same result.
pub proof fn repeated_rewrites_agree<R: PathRewriter>(
    rule: &R,
    path1: &str,
    path2: &str,
    out1: Seq<char>,
    out2: Seq<char>,
)
    requires
        rule.is_pure(),
        path1@ == path2@,
        rule.rewrites_to(path1, out1),
        rule.rewrites_to(path2, out2),
    ensures
        out1 == out2,
{
    rule.lemma_pure_result(path1, path2, out1, out2);
}

/// Replacing in a text where `from` (not empty) first occurs right after `a` keeps `a`,
/// puts the whole of `to` in place of that occurrence, and goes on after it with one
/// replacement fewer (`limit_after_one(limit)`), for any limit but zero.
pub proof fn replace_first_occurrence(
    a: Seq<char>,
    from: Seq<char>,
    b: Seq<char>,
    to: Seq<char>,
    limit: Option<nat>,
)
    requires
        from.len() > 0,
        limit != Some(0nat),
        forall|i: int| 0 <= i < a.len() ==> !#[trigger] occurs_at(a + from + b, from, i),
    ensures
        replaced(a + from + b, from, to, limit) == a + to + replaced(
            b,
            from,
            to,
            limit_after_one(limit),
        ),
    decreases a.len(),
{
    let s = a + from + b;
    if a.len() == 0 {
        assert(s =~= from + b);
        assert(from =~= s.subrange(0, from.len() as int));
        assert(s.skip(from.len() as int) =~= b);
        assert(a + to =~= to);
    } else {
        assert(s.skip(0) =~= s);
        assert(!occurs_at(s, from, 0));
        let a1 = a.drop_first();
        let s1 = a1 + from + b;
        assert(s.drop_first() =~= s1);
        assert forall|i: int| 0 <= i < a1.len() implies !#[trigger] occurs_at(s1, from, i) by {
            assert(s1.skip(i) =~= s.skip(i + 1));
            assert(!occurs_at(s, from, i + 1));
        }
        replace_first_occurrence(a1, from, b, to, limit);
        assert(a =~= seq![a[0]] + a1);
        assert(seq![s[0]] + (a1 + to + replaced(b, from, to, limit_after_one(limit)))
            =~= a + to + replaced(b, from, to, limit_after_one(limit)));
    }
}

/// With an empty pattern, `to` goes before the first character and the rest is rewritten
/// with one replacement fewer; an empty text becomes `to`, for any limit but zero.
pub proof fn replace_empty_pattern(c: char, s: Seq<char>, to: Seq<char>, limit: Option<nat>)
    requires
        limit != Some(0nat),
    ensures
        replaced(seq![c] + s, Seq::empty(), to, limit) == to + seq![c] + replaced(
            s,
            Seq::empty(),
            to,
            limit_after_one(limit),
        ),
        replaced(Seq::empty(), Seq::empty(), to, limit) == to,
{
    assert((seq![c] + s).drop_first() =~= s);
}

/// How many replacements a replacement of `from` in `s` with limit `limit` makes: the
/// number of matches, or the limit where that is smaller.
pub open spec fn replacement_count(s: Seq<char>, from: Seq<char>, limit: Option<nat>) -> nat {
    match limit {
        Some(n) => if n < match_count(s, from) {
            n
        } else {
            match_count(s, from)
        },
        None => match_count(s, from),
    }
}

/// Each replacement takes out the characters of `from` and puts in those of `to`, and
/// as many replacements are made as there are matches, up to the limit.
pub proof fn replace_length(s: Seq<char>, from: Seq<char>, to: Seq<char>, limit: Option<nat>)
    ensures
        replaced(s, from, to, limit).len() + replacement_count(s, from, limit) * from.len()
            == s.len() + replacement_count(s, from, limit) * to.len(),
    decreases s.len(),
{
    let k = replacement_count(s, from, limit);
    let f = from.len();
    let t = to.len();
    if limit == Some(0nat) {
        assert(k == 0);
        assert(k * f == 0 && k * t == 0) by (nonlinear_arith)
            requires
                k == 0,
        ;
    } else if from.len() == 0 {
        if s.len() == 0 {
            assert(k == 1);
            assert(k * f == 0 && k * t == t) by (nonlinear_arith)
                requires
                    k == 1,
                    f == 0,
            ;
        } else {
            let rest = s.drop_first();
            let l1 = limit_after_one(limit);
            replace_length(rest, from, to, l1);
            let k1 = replacement_count(rest, from, l1);
            assert(k == k1 + 1);
            assert(k * f == 0 && k * t == k1 * t + t && k1 * f == 0) by (nonlinear_arith)
                requires
                    k == k1 + 1,
                    f == 0,
            ;
        }
    } else if from.is_prefix_of(s) {
        let rest = s.skip(from.len() as int);
        let l1 = limit_after_one(limit);
        replace_length(rest, from, to, l1);
        let k1 = replacement_count(rest, from, l1);
        assert(k == k1 + 1);
        assert(k * f == k1 * f + f && k * t == k1 * t + t) by (nonlinear_arith)
            requires
                k == k1 + 1,
        ;
    } else if s.len() == 0 {
        assert(k == 0);
        assert(k * f == 0 && k * t == 0) by (nonlinear_arith)
            requires
                k == 0,
        ;
    } else {
        replace_length(s.drop_first(), from, to, limit);
    }
}

/// The path and query that a rewritten URI is built from is the rewritten path, then,
/// where the request has a query, `?` and the whole query.
pub proof fn path_and_query_keeps_the_query(path: Seq<char>, query: Seq<char>)
    ensures
        path_and_query(path, Some(query)).len() == path.len() + 1 + query.len(),
        path_and_query(path, Some(query)).take(path.len() as int) == path,
        path_and_query(path, Some(query))[path.len() as int] == '?',
        path_and_query(path, Some(query)).skip(path.len() + 1int) == query,
        path_and_query(path, None) == path,
{
    let whole = path_and_query(path, Some(query));
    assert(whole.take(path.len() as int) =~= path);
    assert(whole.skip(path.len() + 1int) =~= query);
}

} // verus!
