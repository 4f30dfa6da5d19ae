//! The token-endpoint error surface.

use crate::json::{json_string, json_string_exec};
use crate::syntax::{all_nqschar, all_vschar};
use vstd::prelude::*;
use vstd::string::StringExecFns;
use vstd::utf8::is_ascii_chars;

verus! {

/// The error codes a token endpoint may answer with (RFC 6749 section
/// 5.2); no extensions.
#[derive(Clone, Copy, PartialEq, Eq, Structural, Debug)]
pub enum TokenErrorCode {
    /// The request is missing a parameter or is otherwise malformed.
    InvalidRequest,
    /// Client authentication failed.
    InvalidClient,
    /// The authorization code is invalid, expired, revoked, or was issued
    /// to another client or redirection URI.
    InvalidGrant,
    /// The client is not authorized to use this grant type.
    UnauthorizedClient,
    /// The grant type is not supported by the server.
    UnsupportedGrantType,
    /// The requested scope is invalid or malformed.
    InvalidScope,
}

impl TokenErrorCode {
    /// The wire name of the code.
    pub open spec fn spec_str(self) -> Seq<char> {
        match self {
            TokenErrorCode::InvalidRequest => "invalid_request"@,
            TokenErrorCode::InvalidClient => "invalid_client"@,
            TokenErrorCode::InvalidGrant => "invalid_grant"@,
            TokenErrorCode::UnauthorizedClient => "unauthorized_client"@,
            TokenErrorCode::UnsupportedGrantType => "unsupported_grant_type"@,
            TokenErrorCode::InvalidScope => "invalid_scope"@,
        }
    }

    /// The wire name of the code.
    pub fn as_str(&self) -> (r: &'static str)
        ensures
            r@ == self.spec_str(),
    {
        match *self {
            TokenErrorCode::InvalidRequest => "invalid_request",
            TokenErrorCode::InvalidClient => "invalid_client",
            TokenErrorCode::InvalidGrant => "invalid_grant",
            TokenErrorCode::UnauthorizedClient => "unauthorized_client",
            TokenErrorCode::UnsupportedGrantType => "unsupported_grant_type",
            TokenErrorCode::InvalidScope => "invalid_scope",
        }
    }
}

/// The JSON body of a failing token-endpoint answer, over the views of
/// its fields: fields with no value are left out entirely.
pub open spec fn token_error_json(
    error: TokenErrorCode,
    description: Option<Seq<char>>,
    uri: Option<Seq<char>>,
) -> Seq<char> {
    "{\r\n  \"error\": \""@ + error.spec_str() + "\""@ + (match description {
        Some(d) => ",\r\n  \"error_description\": "@ + json_string(d),
        None => Seq::<char>::empty(),
    }) + (match uri {
        Some(u) => ",\r\n  \"error_uri\": "@ + json_string(u),
        None => Seq::<char>::empty(),
    }) + "\r\n}"@
}

/// The JSON body of a failing token-endpoint response.
pub struct TokenError {
    /// The error code.
    pub error: TokenErrorCode,
    /// Human-readable detail (NQSCHAR).
    pub error_description: Option<String>,
    /// A URI with further detail.
    pub error_uri: Option<String>,
}

impl TokenError {
    /// The fields hold the character classes RFC 6749 gives them.
    pub open spec fn wf(self) -> bool {
        &&& match self.error_description {
            Some(d) => d@.len() > 0 && all_nqschar(d@),
            None => true,
        }
        &&& match self.error_uri {
            Some(u) => u@.len() > 0 && all_vschar(u@),
            None => true,
        }
    }

    /// The JSON body: fields with no value are left out entirely.
    pub open spec fn spec_json(self) -> Seq<char> {
        token_error_json(
            self.error,
            match self.error_description {
                Some(d) => Some(d@),
                None => None,
            },
            match self.error_uri {
                Some(u) => Some(u@),
                None => None,
            },
        )
    }

    /// Serializes, leaving out the optional fields that are absent: the
    /// standard wants them omitted entirely, not emitted as null.
    pub fn as_json(&self) -> (r: String)
        requires
            self.wf(),
        ensures
            r@ == self.spec_json(),
    {
        let mut out = String::new();
        out.append("{\r\n  \"error\": \"");
        out.append(self.error.as_str());
        out.append("\"");
        if let Some(d) = &self.error_description {
            proof {
                crate::text::lemma_ascii_chars_from_codes(d@);
            }
            out.append(",\r\n  \"error_description\": ");
            let js = json_string_exec(d.as_str());
            out.append(js.as_str());
        }
        if let Some(u) = &self.error_uri {
            proof {
                crate::text::lemma_ascii_chars_from_codes(u@);
            }
            out.append(",\r\n  \"error_uri\": ");
            let js = json_string_exec(u.as_str());
            out.append(js.as_str());
        }
        out.append("\r\n}");
        proof {
            assert(out@ =~= self.spec_json());
        }
        out
    }
}

} // verus!
