//! A compiled regular expression, which only this module can build: every value holds
//! the regex that `regex::Regex::new` compiled from the pattern beside it.
use std::borrow::Cow;

use vstd::prelude::*;

verus! {

/// The compiled regular expression type of the `regex` crate.
#[verifier::external_type_specification]
#[verifier::external_body]
pub struct ExCompiledRegex(::regex::Regex);

/// The error type of the `regex` crate.
#[verifier::external_type_specification]
#[verifier::external_body]
pub struct ExCompileError(::regex::Error);

/// Whether `regex::Regex::new` accepts `pattern`.
pub uninterp spec fn regex_compiles(pattern: Seq<char>) -> bool;

/// What `regex::Regex::replacen` gives, on a regex that `regex::Regex::new` compiled from
/// `pattern`, for `haystack`, at most `limit` replacements (0: all of them) and the
/// replacement text `replacement` (where `$name` and `${name}` stand for capture groups).
pub uninterp spec fn regex_replacen(
    pattern: Seq<char>,
    haystack: Seq<char>,
    limit: nat,
    replacement: Seq<char>,
) -> Seq<char>;

/// A compiled regular expression.
///
/// Its fields are private to this module, where only `compile` and `clone_compiled`
/// build a value: the regex is always the one `regex::Regex::new` compiled from `pattern`.
#[derive(Debug)]
pub struct PathRegex {
    pattern: String,
    compiled: regex::Regex,
}

impl View for PathRegex {
    type V = Seq<char>;

    /// The pattern that the expression was compiled from.
    closed spec fn view(&self) -> Seq<char> {
        self.pattern@
    }
}

/// Calls `regex::Regex::new` and keeps the pattern beside the compiled regex: whether it
/// succeeds depends on the pattern alone.
#[verifier::external_body]
pub(crate) fn compile(pattern: &str) -> (r: Result<PathRegex, regex::Error>)
    ensures
        r is Ok <==> regex_compiles(pattern@),
        r matches Ok(re) ==> re@ == pattern@,
{
    match regex::Regex::new(pattern) {
        Ok(compiled) => Ok(PathRegex { pattern: pattern.to_owned(), compiled }),
        Err(e) => Err(e),
    }
}

/// Calls `Clone::clone` of the compiled regex (derived in the `regex` crate, so the copy
/// is the same regex) and copies the pattern beside it.
#[verifier::external_body]
pub(crate) fn clone_compiled(re: &PathRegex) -> (r: PathRegex)
    ensures
        r@ == re@,
{
    PathRegex { pattern: re.pattern.clone(), compiled: re.compiled.clone() }
}

/// The message of a `regex::Error`, by its `Display` impl; nothing is stated of the text.
#[verifier::external_body]
pub(crate) fn compile_error_message(error: &regex::Error) -> String {
    format!("{}", error)
}

impl PathRegex {
    /// The pattern that the expression was compiled from.
    pub fn as_str(&self) -> (r: &str)
        ensures
            r@ == self@,
    {
        self.pattern.as_str()
    }

    /// Calls `regex::Regex::replace_all` with a textual replacement; that method is
    /// `replacen` with limit 0 in the `regex` crate's source, and it hands back the
    /// haystack itself, borrowed, where nothing matches.
    #[verifier::external_body]
    pub(crate) fn replace_all_in<'h>(&self, haystack: &'h str, replacement: &str) -> (r: Cow<'h, str>)
        ensures
            r@ == regex_replacen(self@, haystack@, 0, replacement@),
            r matches Cow::Borrowed(b) ==> b == haystack,
    {
        self.compiled.replace_all(haystack, replacement)
    }

    /// Calls `regex::Regex::replacen` with a textual replacement; it hands back the
    /// haystack itself, borrowed, where nothing matches.
    #[verifier::external_body]
    pub(crate) fn replacen_in<'h>(
        &self,
        haystack: &'h str,
        limit: usize,
        replacement: &str,
    ) -> (r: Cow<'h, str>)
        ensures
            r@ == regex_replacen(self@, haystack@, limit as nat, replacement@),
            r matches Cow::Borrowed(b) ==> b == haystack,
    {
        self.compiled.replacen(haystack, limit, replacement)
    }
}

} // verus!
