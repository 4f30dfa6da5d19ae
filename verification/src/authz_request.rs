//! The parsed authorization request.

use crate::client_id::ClientId;
use crate::redirect_uri::RedirectUri;
use vstd::prelude::*;

verus! {

/// What the client sent to the authorization endpoint, once parsed and
/// validated (RFC 6749 section 4.1.1).  Only the `code` response type is
/// supported, so the response type is not carried along.
pub struct AuthzRequest {
    /// `client_id` as supplied in the request.
    pub client_id: ClientId,
    /// `redirect_uri` as supplied in the request, or `None` if not supplied.
    pub redirect_uri: Option<RedirectUri>,
    /// `scope` as supplied in the request.
    pub scope: Option<String>,
    /// `state` as supplied in the request.  Clients should always supply
    /// one; it carries the anti-CSRF nonce.
    pub state: Option<String>,
}

} // verus!
