//! The authorization-endpoint error surface.

use crate::uri::with_query_pair;
use vstd::prelude::*;

verus! {

/// The error codes an authorization endpoint may redirect back to the
/// client (RFC 6749 section 4.1.2.1); no extensions.
#[derive(Clone, Copy, PartialEq, Eq, Structural, Debug)]
pub enum AuthzErrorCode {
    /// The request is missing a parameter or is otherwise malformed.
    InvalidRequest,
    /// The client may not request an authorization code this way.
    UnauthorizedClient,
    /// The resource owner or the server denied the request.
    AccessDenied,
    /// Obtaining a code through this method is not supported.
    UnsupportedResponseType,
    /// The requested scope is invalid or malformed.
    InvalidScope,
    /// An unexpected condition on the server.
    ServerError,
    /// The server is temporarily overloaded or down.
    TemporarilyUnavailable,
}

impl AuthzErrorCode {
    /// The wire name of the code.
    pub open spec fn spec_str(self) -> Seq<char> {
        match self {
            AuthzErrorCode::InvalidRequest => "invalid_request"@,
            AuthzErrorCode::UnauthorizedClient => "unauthorized_client"@,
            AuthzErrorCode::AccessDenied => "access_denied"@,
            AuthzErrorCode::UnsupportedResponseType => "unsupported_response_type"@,
            AuthzErrorCode::InvalidScope => "invalid_scope"@,
            AuthzErrorCode::ServerError => "server_error"@,
            AuthzErrorCode::TemporarilyUnavailable => "temporarily_unavailable"@,
        }
    }

    /// The wire name of the code.
    pub fn as_str(&self) -> (r: &'static str)
        ensures
            r@ == self.spec_str(),
    {
        match *self {
            AuthzErrorCode::InvalidRequest => "invalid_request",
            AuthzErrorCode::UnauthorizedClient => "unauthorized_client",
            AuthzErrorCode::AccessDenied => "access_denied",
            AuthzErrorCode::UnsupportedResponseType => "unsupported_response_type",
            AuthzErrorCode::InvalidScope => "invalid_scope",
            AuthzErrorCode::ServerError => "server_error",
            AuthzErrorCode::TemporarilyUnavailable => "temporarily_unavailable",
        }
    }

    /// The code whose wire name is `s`, if any.
    pub open spec fn spec_of_str(s: Seq<char>) -> Option<AuthzErrorCode> {
        if s == "invalid_request"@ {
            Some(AuthzErrorCode::InvalidRequest)
        } else if s == "unauthorized_client"@ {
            Some(AuthzErrorCode::UnauthorizedClient)
        } else if s == "access_denied"@ {
            Some(AuthzErrorCode::AccessDenied)
        } else if s == "unsupported_response_type"@ {
            Some(AuthzErrorCode::UnsupportedResponseType)
        } else if s == "invalid_scope"@ {
            Some(AuthzErrorCode::InvalidScope)
        } else if s == "server_error"@ {
            Some(AuthzErrorCode::ServerError)
        } else if s == "temporarily_unavailable"@ {
            Some(AuthzErrorCode::TemporarilyUnavailable)
        } else {
            None
        }
    }

    /// Reads a code back from its wire name.
    pub fn from_wire(s: &str) -> (r: Option<AuthzErrorCode>)
        ensures
            r == AuthzErrorCode::spec_of_str(s@),
    {
        if crate::text::str_eq(s, "invalid_request") {
            Some(AuthzErrorCode::InvalidRequest)
        } else if crate::text::str_eq(s, "unauthorized_client") {
            Some(AuthzErrorCode::UnauthorizedClient)
        } else if crate::text::str_eq(s, "access_denied") {
            Some(AuthzErrorCode::AccessDenied)
        } else if crate::text::str_eq(s, "unsupported_response_type") {
            Some(AuthzErrorCode::UnsupportedResponseType)
        } else if crate::text::str_eq(s, "invalid_scope") {
            Some(AuthzErrorCode::InvalidScope)
        } else if crate::text::str_eq(s, "server_error") {
            Some(AuthzErrorCode::ServerError)
        } else if crate::text::str_eq(s, "temporarily_unavailable") {
            Some(AuthzErrorCode::TemporarilyUnavailable)
        } else {
            None
        }
    }
}

/// An error carried back to the client through the redirection URI's query
/// string.
pub struct AuthzError {
    /// The error code.
    pub error: AuthzErrorCode,
    /// Human-readable detail (NQSCHAR).
    pub error_description: Option<String>,
    /// A URI with further detail.
    pub error_uri: Option<String>,
    /// The `state` of the request this answers, if it carried one.
    pub state: Option<String>,
}

impl AuthzError {
    /// The URL with this error's fields appended to its query, each value
    /// form-urlencoded.
    pub open spec fn into_query(self, url: Seq<char>) -> Seq<char> {
        let u1 = with_query_pair(url, "error"@, self.error.spec_str());
        let u2 = match self.error_description {
            Some(d) => with_query_pair(u1, "error_description"@, d@),
            None => u1,
        };
        let u3 = match self.error_uri {
            Some(u) => with_query_pair(u2, "error_uri"@, u@),
            None => u2,
        };
        match self.state {
            Some(s) => with_query_pair(u3, "state"@, s@),
            None => u3,
        }
    }

    /// Appends the error fields to the given URL's query string; errors
    /// are returned to the client through redirection, so this is how a
    /// denial travels.
    pub fn put_into_query_string(&self, url: &mut String)
        ensures
            final (url)@ == self.into_query(old(url)@),
    {
        crate::uri::append_query_pair(url, "error", self.error.as_str());
        if let Some(d) = &self.error_description {
            crate::uri::append_query_pair(url, "error_description", d.as_str());
        }
        if let Some(u) = &self.error_uri {
            crate::uri::append_query_pair(url, "error_uri", u.as_str());
        }
        if let Some(s) = &self.state {
            crate::uri::append_query_pair(url, "state", s.as_str());
        }
    }
}

} // verus!
