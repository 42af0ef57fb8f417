//! A [`PathRewriter`] instance defines a rule to rewrite the request path.
//!
//! A "path" does not include a query.
use std::borrow::Cow;

use vstd::prelude::*;

pub use crate::pattern::{PathRegex, RegexError};
use crate::pattern::regex_replacen;
use crate::text::{
    concat_text, contains_text, cow_text, ends_with_text, occurs_in, replace_text, replaced,
    starts_with_text,
};
pub use crate::uri::RewrittenUri;
use crate::uri::{build_uri, path_and_query_accepted};

verus! {

/// Text that a rewriter holds, borrowed or owned.
pub trait PathStr: Sized {
    /// The characters of the text.
    spec fn text(&self) -> Seq<char>;

    /// The text as a string slice.
    fn as_path_str(&self) -> (r: &str)
        ensures
            r@ == self.text(),
    ;

    /// A copy of the text holder.
    fn clone_text(&self) -> (r: Self)
        ensures
            r.text() == self.text(),
    ;
}

impl<'s> PathStr for &'s str {
    open spec fn text(&self) -> Seq<char> {
        (**self)@
    }

    fn as_path_str(&self) -> (r: &str) {
        *self
    }

    fn clone_text(&self) -> (r: Self) {
        *self
    }
}

impl PathStr for String {
    open spec fn text(&self) -> Seq<char> {
        self@
    }

    fn as_path_str(&self) -> (r: &str) {
        self.as_str()
    }

    fn clone_text(&self) -> (r: Self) {
        self.clone()
    }
}

/// The path and query of a request's URI, as plain values.
#[derive(Debug, Clone, PartialEq, Eq)]
pub struct RequestTarget {
    /// The path, without the query.
    pub path: String,
    /// The query, without the `?`, where there is one.
    pub query: Option<String>,
}

/// The query of a request target, as characters.
pub open spec fn target_query(target: RequestTarget) -> Option<Seq<char>> {
    match target.query {
        Some(q) => Some(q@),
        None => None,
    }
}

/// Represents a rule to rewrite a path `/foo/bar/baz` to new one.
///
/// A "path" does not include a query.
pub trait PathRewriter: Sized {
    /// Whether the rule can be applied to `path`.
    spec fn accepts(&self, path: &str) -> bool;

    /// Whether `out` is a possible result of applying the rule to `path`.
    spec fn rewrites_to(&self, path: &str, out: Seq<char>) -> bool;

    /// Whether the rule is left as it is by a rewrite, and its result depends on the
    /// characters of the path alone.
    spec fn is_pure(&self) -> bool;

    /// A pure rule gives one result for the paths with the same characters.
    proof fn lemma_pure_result(&self, path1: &str, path2: &str, out1: Seq<char>, out2: Seq<char>)
        ensures
            self.is_pure() && path1@ == path2@ && self.rewrites_to(path1, out1) && self.rewrites_to(
                path2,
                out2,
            ) ==> out1 == out2,
    ;

    /// Applies the rule to `path`.
    fn rewrite<'a>(&'a mut self, path: &'a str) -> (r: Cow<'a, str>)
        requires
            old(self).accepts(path),
        ensures
            old(self).rewrites_to(path, r@),
            old(self).is_pure() ==> *final(self) == *old(self),
    ;

    /// The path and query of a URI whose path `path` is rewritten by the rule and whose
    /// query `query` is kept as it is.
    fn rewrite_path_and_query(&mut self, path: &str, query: Option<&str>) -> (r: String)
        requires
            old(self).accepts(path),
        ensures
            exists|out: Seq<char>|
                #[trigger] old(self).rewrites_to(path, out) && r@ == path_and_query(
                    out,
                    query_view(query),
                ),
            old(self).is_pure() ==> *final(self) == *old(self),
    {
        let rewritten = self.rewrite(path);
        join_path_and_query(cow_text(&rewritten), query)
    }

    /// The URI `scheme://authority` followed by the path of `target` rewritten by the
    /// rule, then `?` and the query of `target` where it has one.
    ///
    /// # Errors
    ///
    /// When the `http` crate refuses the rewritten path and query.
    fn rewrite_uri(
        &mut self,
        target: &RequestTarget,
        scheme: &http::uri::Scheme,
        authority: &http::uri::Authority,
    ) -> (r: Result<RewrittenUri, http::Error>)
        requires
            forall|p: &str| old(self).accepts(p),
        ensures
            exists|path: &str, out: Seq<char>|
                #![trigger old(self).rewrites_to(path, out)]
                path@ == target.path@ && old(self).rewrites_to(path, out) && (r is Ok
                    <==> path_and_query_accepted(path_and_query(out, target_query(*target))))
                    && (r matches Ok(u) ==> u.built_from() == path_and_query(
                    out,
                    target_query(*target),
                )),
            old(self).is_pure() ==> *final(self) == *old(self),
    {
        let path: &str = target.path.as_str();
        let kept: Option<&str> = match &target.query {
            Some(q) => Some(q.as_str()),
            None => None,
        };
        assert(query_view(kept) == target_query(*target));
        let rewritten = self.rewrite_path_and_query(path, kept);
        let ghost out = choose|out: Seq<char>|
            #[trigger] old(self).rewrites_to(path, out) && rewritten@ == path_and_query(
                out,
                query_view(kept),
            );
        build_uri(scheme, authority, rewritten)
    }
}

/// The path and query part of a URI: `path`, then `?` and the query where there is one.
pub open spec fn path_and_query(path: Seq<char>, query: Option<Seq<char>>) -> Seq<char> {
    match query {
        Some(q) => path + seq!['?'] + q,
        None => path,
    }
}

/// The query of an executable string, as characters.
pub open spec fn query_view(query: Option<&str>) -> Option<Seq<char>> {
    match query {
        Some(q) => Some(q@),
        None => None,
    }
}

/// `path`, then `?` and the query where there is one.
pub fn join_path_and_query(path: &str, query: Option<&str>) -> (r: String)
    ensures
        r@ == path_and_query(path@, query_view(query)),
{
    match query {
        Some(q) => {
            let mut p_and_q = path.to_owned();
            p_and_q.push('?');
            p_and_q.append(q);
            p_and_q
        },
        None => path.to_owned(),
    }
}

/// Identity function, that is, this returns the `path` as is.
#[derive(Debug, Clone, Copy, PartialEq, Eq)]
pub struct Identity;

impl PathRewriter for Identity {
    open spec fn accepts(&self, path: &str) -> bool {
        true
    }

    open spec fn rewrites_to(&self, path: &str, out: Seq<char>) -> bool {
        out == path@
    }

    open spec fn is_pure(&self) -> bool {
        true
    }

    proof fn lemma_pure_result(&self, path1: &str, path2: &str, out1: Seq<char>, out2: Seq<char>) {
    }

    fn rewrite<'a>(&'a mut self, path: &'a str) -> (r: Cow<'a, str>)
        ensures
            r == Cow::<'a, str>::Borrowed(path),
            *final(self) == *old(self),
    {
        let r: Cow<'a, str> = Cow::Borrowed(path);
        assert(self.rewrites_to(path, r@));
        r
    }
}

/// Returns `self.0` regardless what the `path` is.
#[derive(Debug, PartialEq, Eq)]
pub struct Static<S>(pub S);

impl<S: PathStr> PathRewriter for Static<S> {
    open spec fn accepts(&self, path: &str) -> bool {
        true
    }

    open spec fn rewrites_to(&self, path: &str, out: Seq<char>) -> bool {
        out == self.0.text()
    }

    open spec fn is_pure(&self) -> bool {
        true
    }

    proof fn lemma_pure_result(&self, path1: &str, path2: &str, out1: Seq<char>, out2: Seq<char>) {
    }

    fn rewrite<'a>(&'a mut self, path: &'a str) -> (r: Cow<'a, str>)
        ensures
            r is Borrowed,
            r@ == old(self).0.text(),
            *final(self) == *old(self),
    {
        let r: Cow<'a, str> = Cow::Borrowed(self.0.as_path_str());
        assert(self.rewrites_to(path, r@));
        r
    }
}

impl<S: PathStr> Clone for Static<S> {
    fn clone(&self) -> (r: Self)
        ensures
            r.0.text() == self.0.text(),
            forall|path: &str, out: Seq<char>| #[trigger]
                r.rewrites_to(path, out) == self.rewrites_to(path, out),
    {
        Static(self.0.clone_text())
    }
}

impl<S: PathStr + Copy> Copy for Static<S> {
}

/// `ReplaceAll(old, new)` replaces all matches `old` with `new`.
#[derive(Debug, PartialEq, Eq)]
pub struct ReplaceAll<S1, S2>(pub S1, pub S2);

impl<S1: PathStr, S2: PathStr> PathRewriter for ReplaceAll<S1, S2> {
    open spec fn accepts(&self, path: &str) -> bool {
        true
    }

    open spec fn rewrites_to(&self, path: &str, out: Seq<char>) -> bool {
        out == replaced(path@, self.0.text(), self.1.text(), None)
    }

    open spec fn is_pure(&self) -> bool {
        true
    }

    proof fn lemma_pure_result(&self, path1: &str, path2: &str, out1: Seq<char>, out2: Seq<char>) {
    }

    fn rewrite<'a>(&'a mut self, path: &'a str) -> (r: Cow<'a, str>)
        ensures
            r@ == replaced(path@, old(self).0.text(), old(self).1.text(), None),
            occurs_in(path@, old(self).0.text()) ==> r is Owned,
            !occurs_in(path@, old(self).0.text()) ==> r == Cow::<'a, str>::Borrowed(path),
            *final(self) == *old(self),
    {
        let old = self.0.as_path_str();
        let r: Cow<'a, str> = if contains_text(path, old) {
            Cow::Owned(replace_text(path, old, self.1.as_path_str(), None))
        } else {
            proof {
                crate::laws::replace_without_match_is_identity(path@, old@, self.1.text(), None);
            }
            Cow::Borrowed(path)
        };
        assert(self.rewrites_to(path, r@));
        r
    }
}

impl<S1: PathStr, S2: PathStr> Clone for ReplaceAll<S1, S2> {
    fn clone(&self) -> (r: Self)
        ensures
            r.0.text() == self.0.text(),
            r.1.text() == self.1.text(),
            forall|path: &str, out: Seq<char>| #[trigger]
                r.rewrites_to(path, out) == self.rewrites_to(path, out),
    {
        ReplaceAll(self.0.clone_text(), self.1.clone_text())
    }
}

impl<S1: PathStr + Copy, S2: PathStr + Copy> Copy for ReplaceAll<S1, S2> {
}

/// `ReplaceN(old, new, n)` replaces first `n` matches `old` with `new`.
#[derive(Debug, PartialEq, Eq)]
pub struct ReplaceN<S1, S2>(pub S1, pub S2, pub usize);

impl<S1: PathStr, S2: PathStr> PathRewriter for ReplaceN<S1, S2> {
    open spec fn accepts(&self, path: &str) -> bool {
        true
    }

    open spec fn rewrites_to(&self, path: &str, out: Seq<char>) -> bool {
        out == replaced(path@, self.0.text(), self.1.text(), Some(self.2 as nat))
    }

    open spec fn is_pure(&self) -> bool {
        true
    }

    proof fn lemma_pure_result(&self, path1: &str, path2: &str, out1: Seq<char>, out2: Seq<char>) {
    }

    fn rewrite<'a>(&'a mut self, path: &'a str) -> (r: Cow<'a, str>)
        ensures
            r@ == replaced(path@, old(self).0.text(), old(self).1.text(), Some(old(self).2 as nat)),
            occurs_in(path@, old(self).0.text()) ==> r is Owned,
            !occurs_in(path@, old(self).0.text()) ==> r == Cow::<'a, str>::Borrowed(path),
            *final(self) == *old(self),
    {
        let old = self.0.as_path_str();
        let r: Cow<'a, str> = if contains_text(path, old) {
            Cow::Owned(replace_text(path, old, self.1.as_path_str(), Some(self.2)))
        } else {
            proof {
                crate::laws::replace_without_match_is_identity(
                    path@,
                    old@,
                    self.1.text(),
                    Some(self.2 as nat),
                );
            }
            Cow::Borrowed(path)
        };
        assert(self.rewrites_to(path, r@));
        r
    }
}

impl<S1: PathStr, S2: PathStr> Clone for ReplaceN<S1, S2> {
    fn clone(&self) -> (r: Self)
        ensures
            r.0.text() == self.0.text(),
            r.1.text() == self.1.text(),
            r.2 == self.2,
            forall|path: &str, out: Seq<char>| #[trigger]
                r.rewrites_to(path, out) == self.rewrites_to(path, out),
    {
        ReplaceN(self.0.clone_text(), self.1.clone_text(), self.2)
    }
}

impl<S1: PathStr + Copy, S2: PathStr + Copy> Copy for ReplaceN<S1, S2> {
}

/// `path` without its leading `prefix` where it starts with it, else `path` as is.
pub open spec fn trim_prefix(path: Seq<char>, prefix: Seq<char>) -> Seq<char> {
    if prefix.is_prefix_of(path) {
        path.skip(prefix.len() as int)
    } else {
        path
    }
}

/// `path` without its trailing `suffix` where it ends with it, else `path` as is.
pub open spec fn trim_suffix(path: Seq<char>, suffix: Seq<char>) -> Seq<char> {
    if suffix.is_suffix_of(path) {
        path.take(path.len() - suffix.len())
    } else {
        path
    }
}

/// Trims a prefix if exists.
#[derive(Debug, PartialEq, Eq)]
pub struct TrimPrefix<S>(pub S);

impl<S: PathStr> PathRewriter for TrimPrefix<S> {
    open spec fn accepts(&self, path: &str) -> bool {
        true
    }

    open spec fn rewrites_to(&self, path: &str, out: Seq<char>) -> bool {
        out == trim_prefix(path@, self.0.text())
    }

    open spec fn is_pure(&self) -> bool {
        true
    }

    proof fn lemma_pure_result(&self, path1: &str, path2: &str, out1: Seq<char>, out2: Seq<char>) {
    }

    fn rewrite<'a>(&'a mut self, path: &'a str) -> (r: Cow<'a, str>)
        ensures
            r@ == trim_prefix(path@, old(self).0.text()),
            r is Borrowed,
            !old(self).0.text().is_prefix_of(path@) ==> r == Cow::<'a, str>::Borrowed(path),
            *final(self) == *old(self),
    {
        let prefix = self.0.as_path_str();
        let r: Cow<'a, str> = if starts_with_text(path, prefix) {
            let n = path.unicode_len();
            let m = prefix.unicode_len();
            Cow::Borrowed(path.substring_char(m, n))
        } else {
            Cow::Borrowed(path)
        };
        assert(self.rewrites_to(path, r@));
        r
    }
}

impl<S: PathStr> Clone for TrimPrefix<S> {
    fn clone(&self) -> (r: Self)
        ensures
            r.0.text() == self.0.text(),
            forall|path: &str, out: Seq<char>| #[trigger]
                r.rewrites_to(path, out) == self.rewrites_to(path, out),
    {
        TrimPrefix(self.0.clone_text())
    }
}

impl<S: PathStr + Copy> Copy for TrimPrefix<S> {
}

/// Trims a suffix if exists.
#[derive(Debug, PartialEq, Eq)]
pub struct TrimSuffix<S>(pub S);

impl<S: PathStr> PathRewriter for TrimSuffix<S> {
    open spec fn accepts(&self, path: &str) -> bool {
        true
    }

    open spec fn rewrites_to(&self, path: &str, out: Seq<char>) -> bool {
        out == trim_suffix(path@, self.0.text())
    }

    open spec fn is_pure(&self) -> bool {
        true
    }

    proof fn lemma_pure_result(&self, path1: &str, path2: &str, out1: Seq<char>, out2: Seq<char>) {
    }

    fn rewrite<'a>(&'a mut self, path: &'a str) -> (r: Cow<'a, str>)
        ensures
            r@ == trim_suffix(path@, old(self).0.text()),
            r is Borrowed,
            !old(self).0.text().is_suffix_of(path@) ==> r == Cow::<'a, str>::Borrowed(path),
            *final(self) == *old(self),
    {
        let suffix = self.0.as_path_str();
        let r: Cow<'a, str> = if ends_with_text(path, suffix) {
            let n = path.unicode_len();
            let m = suffix.unicode_len();
            Cow::Borrowed(path.substring_char(0, n - m))
        } else {
            Cow::Borrowed(path)
        };
        assert(self.rewrites_to(path, r@));
        r
    }
}

impl<S: PathStr> Clone for TrimSuffix<S> {
    fn clone(&self) -> (r: Self)
        ensures
            r.0.text() == self.0.text(),
            forall|path: &str, out: Seq<char>| #[trigger]
                r.rewrites_to(path, out) == self.rewrites_to(path, out),
    {
        TrimSuffix(self.0.clone_text())
    }
}

impl<S: PathStr + Copy> Copy for TrimSuffix<S> {
}

/// Appends a prefix.
#[derive(Debug, PartialEq, Eq)]
pub struct AppendPrefix<S>(pub S);

impl<S: PathStr> PathRewriter for AppendPrefix<S> {
    open spec fn accepts(&self, path: &str) -> bool {
        true
    }

    open spec fn rewrites_to(&self, path: &str, out: Seq<char>) -> bool {
        out == self.0.text() + path@
    }

    open spec fn is_pure(&self) -> bool {
        true
    }

    proof fn lemma_pure_result(&self, path1: &str, path2: &str, out1: Seq<char>, out2: Seq<char>) {
    }

    fn rewrite<'a>(&'a mut self, path: &'a str) -> (r: Cow<'a, str>)
        ensures
            r@ == old(self).0.text() + path@,
            r is Owned,
            *final(self) == *old(self),
    {
        let r: Cow<'a, str> = Cow::Owned(concat_text(self.0.as_path_str(), path));
        assert(self.rewrites_to(path, r@));
        r
    }
}

impl<S: PathStr> Clone for AppendPrefix<S> {
    fn clone(&self) -> (r: Self)
        ensures
            r.0.text() == self.0.text(),
            forall|path: &str, out: Seq<char>| #[trigger]
                r.rewrites_to(path, out) == self.rewrites_to(path, out),
    {
        AppendPrefix(self.0.clone_text())
    }
}

impl<S: PathStr + Copy> Copy for AppendPrefix<S> {
}

/// Appends a suffix.
#[derive(Debug, PartialEq, Eq)]
pub struct AppendSuffix<S>(pub S);

impl<S: PathStr> PathRewriter for AppendSuffix<S> {
    open spec fn accepts(&self, path: &str) -> bool {
        true
    }

    open spec fn rewrites_to(&self, path: &str, out: Seq<char>) -> bool {
        out == path@ + self.0.text()
    }

    open spec fn is_pure(&self) -> bool {
        true
    }

    proof fn lemma_pure_result(&self, path1: &str, path2: &str, out1: Seq<char>, out2: Seq<char>) {
    }

    fn rewrite<'a>(&'a mut self, path: &'a str) -> (r: Cow<'a, str>)
        ensures
            r@ == path@ + old(self).0.text(),
            r is Owned,
            *final(self) == *old(self),
    {
        let r: Cow<'a, str> = Cow::Owned(concat_text(path, self.0.as_path_str()));
        assert(self.rewrites_to(path, r@));
        r
    }
}

impl<S: PathStr> Clone for AppendSuffix<S> {
    fn clone(&self) -> (r: Self)
        ensures
            r.0.text() == self.0.text(),
            forall|path: &str, out: Seq<char>| #[trigger]
                r.rewrites_to(path, out) == self.rewrites_to(path, out),
    {
        AppendSuffix(self.0.clone_text())
    }
}

impl<S: PathStr + Copy> Copy for AppendSuffix<S> {
}

/// `RegexAll(re, new)` replaces all matches `re` with `new`.
///
/// In `new`, `$name` and `${name}` stand for capture groups, as in the `regex` crate.
#[derive(Debug)]
pub struct RegexAll<Rep>(pub PathRegex, pub Rep);

impl<Rep: PathStr> PathRewriter for RegexAll<Rep> {
    open spec fn accepts(&self, path: &str) -> bool {
        true
    }

    open spec fn rewrites_to(&self, path: &str, out: Seq<char>) -> bool {
        out == regex_replacen(self.0@, path@, 0, self.1.text())
    }

    open spec fn is_pure(&self) -> bool {
        true
    }

    proof fn lemma_pure_result(&self, path1: &str, path2: &str, out1: Seq<char>, out2: Seq<char>) {
    }

    fn rewrite<'a>(&'a mut self, path: &'a str) -> (r: Cow<'a, str>)
        ensures
            r@ == regex_replacen(old(self).0@, path@, 0, old(self).1.text()),
            r is Borrowed ==> r == Cow::<'a, str>::Borrowed(path),
            *final(self) == *old(self),
    {
        let r: Cow<'a, str> = self.0.replace_all_in(path, self.1.as_path_str());
        assert(self.rewrites_to(path, r@));
        r
    }
}

impl<Rep: PathStr> Clone for RegexAll<Rep> {
    fn clone(&self) -> (r: Self)
        ensures
            r.0@ == self.0@,
            r.1.text() == self.1.text(),
            forall|path: &str, out: Seq<char>| #[trigger]
                r.rewrites_to(path, out) == self.rewrites_to(path, out),
    {
        RegexAll(self.0.clone(), self.1.clone_text())
    }
}

/// `RegexN(re, new, n)` replaces first `n` matches `re` with `new`; with `n` 0 it
/// replaces none.
///
/// In `new`, `$name` and `${name}` stand for capture groups, as in the `regex` crate.
#[derive(Debug)]
pub struct RegexN<Rep>(pub PathRegex, pub Rep, pub usize);

impl<Rep: PathStr> PathRewriter for RegexN<Rep> {
    open spec fn accepts(&self, path: &str) -> bool {
        true
    }

    open spec fn rewrites_to(&self, path: &str, out: Seq<char>) -> bool {
        if self.2 == 0 {
            out == path@
        } else {
            out == regex_replacen(self.0@, path@, self.2 as nat, self.1.text())
        }
    }

    open spec fn is_pure(&self) -> bool {
        true
    }

    proof fn lemma_pure_result(&self, path1: &str, path2: &str, out1: Seq<char>, out2: Seq<char>) {
    }

    fn rewrite<'a>(&'a mut self, path: &'a str) -> (r: Cow<'a, str>)
        ensures
            old(self).2 == 0 ==> r == Cow::<'a, str>::Borrowed(path),
            old(self).2 != 0 ==> r@ == regex_replacen(
                old(self).0@,
                path@,
                old(self).2 as nat,
                old(self).1.text(),
            ),
            r is Borrowed ==> r == Cow::<'a, str>::Borrowed(path),
            *final(self) == *old(self),
    {
        let r: Cow<'a, str> = if self.2 == 0 {
            Cow::Borrowed(path)
        } else {
            self.0.replacen_in(path, self.2, self.1.as_path_str())
        };
        assert(self.rewrites_to(path, r@));
        r
    }
}

impl<Rep: PathStr> Clone for RegexN<Rep> {
    fn clone(&self) -> (r: Self)
        ensures
            r.0@ == self.0@,
            r.1.text() == self.1.text(),
            r.2 == self.2,
            forall|path: &str, out: Seq<char>| #[trigger]
                r.rewrites_to(path, out) == self.rewrites_to(path, out),
    {
        RegexN(self.0.clone(), self.1.clone_text(), self.2)
    }
}

/// Converts the `path` by a function.
pub struct Func<F>(pub F);

impl<F> PathRewriter for Func<F> where F: for <'a> FnMut(&'a str) -> String {
    open spec fn accepts(&self, path: &str) -> bool {
        call_requires(self.0, (path,))
    }

    open spec fn rewrites_to(&self, path: &str, out: Seq<char>) -> bool {
        exists|s: String| s@ == out && #[trigger] call_ensures(self.0, (path,), s)
    }

    /// A function may keep state of its own.
    open spec fn is_pure(&self) -> bool {
        false
    }

    proof fn lemma_pure_result(&self, path1: &str, path2: &str, out1: Seq<char>, out2: Seq<char>) {
    }

    fn rewrite<'a>(&'a mut self, path: &'a str) -> (r: Cow<'a, str>)
        ensures
            r is Owned,
    {
        let s = (self.0)(path);
        let r: Cow<'a, str> = Cow::Owned(s);
        assert(self.rewrites_to(path, r@));
        r
    }
}

} // verus!
