//! Path rewriting rules for a reverse proxy, with verified contracts.
use vstd::prelude::*;

pub mod compiled_regex;
pub mod error;
pub mod laws;
pub mod pattern;
pub mod rewrite;
pub mod text;
pub mod uri;

pub use error::ProxyError;

verus! {
}
