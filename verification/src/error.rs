//! The host-facing error taxonomy.

use vstd::prelude::*;

verus! {

/// Errors returned to the embedding application, as opposed to protocol
/// errors sent to the peer over the wire.  Each variant is a condition the
/// engines detect; the embedding application wraps this type in its own
/// error when it needs further variants.
#[derive(Clone, Copy, PartialEq, Eq, Structural, Debug)]
pub enum OAuthError {
    /// A decoded parameter, credential or body was not UTF-8.
    Utf8,
    /// A URI could not be accepted (no scheme, or otherwise malformed).
    Url,
    /// An input/output failure in the host, including a failing nonce
    /// source.
    Io,
    /// A request that does not fit the protocol (for instance a duplicated
    /// identifying parameter).
    AuthzBadRequest,
    /// The authorization request carried no `client_id`.
    AuthzMissingClientId,
    /// The authorization request named a client that is not registered.
    AuthzUnknownClient,
    /// The authorization request carried a `redirect_uri` that is not
    /// registered for the client, or the client has none registered.
    AuthzRedirectUrlNotRegistered,
    /// The redirect back to the client carried no `code`.
    ClientCodeMissing,
    /// The redirect back to the client carried no `state`.
    ClientStateMissing,
    /// The redirect back to the client carried a `state` that does not
    /// match a stored nonce.
    ClientNonceMismatch,
    /// The token endpoint answered with a status the client does not
    /// understand.
    UnexpectedStatusCode,
}

impl OAuthError {
    /// A short description of the error.
    pub fn description(&self) -> (r: &'static str)
        ensures
            *self is Utf8 ==> r@ == "invalid utf-8"@,
            *self is Url ==> r@ == "invalid url"@,
            *self is Io ==> r@ == "i/o error"@,
            *self is AuthzBadRequest ==> r@ == "Bad Request"@,
            *self is AuthzMissingClientId ==> r@ == "Missing `client_id`"@,
            *self is AuthzUnknownClient ==> r@ == "Unknown Client"@,
            *self is AuthzRedirectUrlNotRegistered ==> r@ == "`redirect_url` Not Registered"@,
            *self is ClientCodeMissing ==> r@ == "`code` Missing"@,
            *self is ClientStateMissing ==> r@ == "`state` Missing"@,
            *self is ClientNonceMismatch ==> r@ == "`nonce` Mismatch"@,
            *self is UnexpectedStatusCode ==> r@ == "Unexpected HTTP Status Code"@,
    {
        match *self {
            OAuthError::Utf8 => "invalid utf-8",
            OAuthError::Url => "invalid url",
            OAuthError::Io => "i/o error",
            OAuthError::AuthzBadRequest => "Bad Request",
            OAuthError::AuthzMissingClientId => "Missing `client_id`",
            OAuthError::AuthzUnknownClient => "Unknown Client",
            OAuthError::AuthzRedirectUrlNotRegistered => "`redirect_url` Not Registered",
            OAuthError::ClientCodeMissing => "`code` Missing",
            OAuthError::ClientStateMissing => "`state` Missing",
            OAuthError::ClientNonceMismatch => "`nonce` Mismatch",
            OAuthError::UnexpectedStatusCode => "Unexpected HTTP Status Code",
        }
    }
}

} // verus!
