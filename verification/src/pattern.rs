//! Regular expressions, kept together with the pattern they were compiled from.
use vstd::prelude::*;

pub use crate::compiled_regex::{regex_compiles, regex_replacen, PathRegex};
use crate::compiled_regex::{clone_compiled, compile, compile_error_message};

verus! {

/// A pattern that failed to compile.
#[derive(Debug, Clone, PartialEq, Eq)]
pub struct RegexError {
    /// What the `regex` crate reported.
    pub message: String,
}

impl Clone for PathRegex {
    /// A copy that is the same regex, compiled from the same pattern.
    fn clone(&self) -> (r: Self)
        ensures
            r@ == self@,
    {
        clone_compiled(self)
    }
}

impl PathRegex {
    /// Compiles `pattern`.
    ///
    /// # Errors
    ///
    /// When the `regex` crate refuses the pattern.
    pub fn new(pattern: &str) -> (r: Result<PathRegex, RegexError>)
        ensures
            r is Ok <==> regex_compiles(pattern@),
            r matches Ok(re) ==> re@ == pattern@,
    {
        match compile(pattern) {
            Ok(re) => Ok(re),
            Err(e) => Err(RegexError { message: compile_error_message(&e) }),
        }
    }
}

} // verus!
