//! The parts of the `http` crate that rewriting a request's URI goes through.
use vstd::prelude::*;

verus! {

/// A URI of the `http` crate.
#[verifier::external_type_specification]
#[verifier::external_body]
pub struct ExUri(http::Uri);

/// A URI scheme of the `http` crate.
#[verifier::external_type_specification]
#[verifier::external_body]
pub struct ExScheme(http::uri::Scheme);

/// A URI authority of the `http` crate.
#[verifier::external_type_specification]
#[verifier::external_body]
pub struct ExAuthority(http::uri::Authority);

/// The error type of the `http` crate.
#[verifier::external_type_specification]
#[verifier::external_body]
pub struct ExHttpError(http::Error);

/// Whether the `http` crate accepts `path_and_query` as the path and query of a URI
/// (`PathAndQuery::try_from`, where an empty text counts as accepted).
pub uninterp spec fn path_and_query_accepted(path_and_query: Seq<char>) -> bool;

/// A rewritten URI: `scheme://authority` followed by `path_and_query`, as the `http`
/// crate built it, beside the path and query it was built from.
///
/// Only `build_uri` makes a value (the private field keeps others from it), so `uri` is
/// always the URI that `Uri::builder` built from `path_and_query`.
#[derive(Debug)]
pub struct RewrittenUri {
    /// The URI.
    pub uri: http::Uri,
    /// The path and query that the URI was built from.
    pub path_and_query: String,
    built: (),
}

impl RewrittenUri {
    /// The path and query that the URI was built from (the field `path_and_query`).
    pub closed spec fn built_from(&self) -> Seq<char> {
        self.path_and_query@
    }
}

/// Builds a URI with `Uri::builder()` from a scheme, an authority and a path and query,
/// and keeps the path and query beside it. With scheme and authority given,
/// `Builder::build` fails exactly where the path and query does not parse; what the URI
/// holds is not stated.
#[verifier::external_body]
pub(crate) fn build_uri(
    scheme: &http::uri::Scheme,
    authority: &http::uri::Authority,
    path_and_query: String,
) -> (r: Result<RewrittenUri, http::Error>)
    ensures
        r is Ok <==> path_and_query_accepted(path_and_query@),
        r matches Ok(u) ==> u.built_from() == path_and_query@,
{
    let built = http::Uri::builder()
        .scheme(scheme.clone())
        .authority(authority.clone())
        .path_and_query(path_and_query.clone())
        .build();
    match built {
        Ok(uri) => Ok(RewrittenUri { uri, path_and_query, built: () }),
        Err(e) => Err(e),
    }
}

} // verus!
