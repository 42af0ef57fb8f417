//! The errors of a proxied request.
use vstd::prelude::*;

verus! {

/// The error type of the legacy client of `hyper_util`.
#[verifier::external_type_specification]
#[verifier::external_body]
pub struct ExClientError(hyper_util::client::legacy::Error);

/// What `Display` writes for an `http::Error`; nothing is stated of the text.
#[verifier::external_body]
fn uri_error_message(error: &http::Error) -> String {
    format!("{}", error)
}

/// What `Display` writes for a client error of `hyper_util`; nothing is stated of the text.
#[verifier::external_body]
fn client_error_message(error: &hyper_util::client::legacy::Error) -> String {
    format!("{}", error)
}

/// Why a request could not be proxied.
#[derive(Debug)]
pub enum ProxyError {
    /// The rewritten URI was invalid.
    InvalidUri(http::Error),
    /// The upstream request failed.
    RequestFailed(hyper_util::client::legacy::Error),
}

/// The text that starts the message of an error of each kind.
pub open spec fn message_head(error: ProxyError) -> Seq<char> {
    match error {
        ProxyError::InvalidUri(_) => seq!['I', 'n', 'v', 'a', 'l', 'i', 'd', ' ', 'u', 'r', 'i', ':', ' '],
        ProxyError::RequestFailed(_) => seq![
            'R', 'e', 'q', 'u', 'e', 's', 't', ' ', 'f', 'a', 'i', 'l', 'e', 'd', ':', ' ',
        ],
    }
}

impl ProxyError {
    /// The message of the error: its kind, then what the inner error reports.
    pub fn to_string(&self) -> (r: String)
        ensures
            message_head(*self).is_prefix_of(r@),
    {
        let inner = match self {
            ProxyError::InvalidUri(error) => uri_error_message(error),
            ProxyError::RequestFailed(error) => client_error_message(error),
        };
        self.message_with(inner.as_str())
    }

    /// The message of the error, with `detail` as what the inner error reports.
    pub fn message_with(&self, detail: &str) -> (r: String)
        ensures
            r@ == message_head(*self) + detail@,
    {
        let head = match self {
            ProxyError::InvalidUri(_) => "Invalid uri: ",
            ProxyError::RequestFailed(_) => "Request failed: ",
        };
        proof {
            reveal_strlit("Invalid uri: ");
            reveal_strlit("Request failed: ");
        }
        let mut message = head.to_owned();
        message.append(detail);
        message
    }

    /// The HTTP status that answers a request that failed with this error:
    /// 500 Internal Server Error, whatever the error.
    pub fn status_code(&self) -> (r: u16)
        ensures
            r == 500,
    {
        500
    }
}

} // verus!
