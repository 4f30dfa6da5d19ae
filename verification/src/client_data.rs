//! The registered client record and HTTP Basic credentials.

use crate::client_id::ClientId;
use crate::client_type::ClientType;
use crate::error::OAuthError;
use crate::form::{form_decode_str, form_encode_str, form_urldecode, form_urlencode};
use crate::redirect_uri::RedirectUri;
use crate::syntax::all_vschar;
use vstd::prelude::*;
use vstd::string::StrSliceExecFns;

verus! {

/// The two halves of an HTTP Basic `Authorization` header, before base64:
/// base64 framing belongs to the HTTP layer, the engines work on the pair.
pub struct BasicAuth {
    /// The user name: the form-urlencoded client identifier.
    pub username: String,
    /// The password: the form-urlencoded credentials, if any were sent.
    pub password: Option<String>,
}

/// A client registered with the authorization server out of band, before
/// the protocol begins.
pub struct ClientData {
    /// Client identifier; unique across the authorization server, and the
    /// key under which this record is fetched.
    pub client_id: ClientId,
    /// Client type; controls credential enforcement.
    pub client_type: ClientType,
    /// Registered redirection URI(s).  Required for public clients; the
    /// first one is used when the request does not name one.
    pub redirect_uri: Vec<RedirectUri>,
    /// Serialized client credentials; compared in constant time at the
    /// token endpoint.
    pub credentials: String,
    /// Which authentication scheme this client uses, when the server
    /// implements several.
    pub authn_scheme: Option<String>,
}

impl ClientData {
    /// A registered record is well formed when its identifier is VSCHAR
    /// and, for a public client, at least one redirection URI is
    /// registered.
    pub open spec fn wf(self) -> bool {
        &&& all_vschar(self.client_id@)
        &&& self.client_type is PublicClient ==> self.redirect_uri@.len() >= 1
    }

    /// Builds the HTTP Basic pair for this client: both halves
    /// form-urlencoded, as they must be before the transport applies
    /// base64.
    pub fn http_basic_authentication_generate(&self) -> (r: BasicAuth)
        ensures
            r.username@ == form_encode_str(self.client_id@),
            r.password matches Some(p) && p@ == form_encode_str(self.credentials@),
    {
        BasicAuth {
            username: form_urlencode(self.client_id.as_str()),
            password: Some(form_urlencode(self.credentials.as_str())),
        }
    }

    /// Takes an HTTP Basic pair apart: both halves form-urldecode, and a
    /// missing password stands for empty credentials.  Fails with the
    /// UTF-8 error when a decoded half is not UTF-8.
    pub fn http_basic_authentication_deconstruct(basic: &BasicAuth) -> (r: Result<
        (ClientId, String),
        OAuthError,
    >)
        ensures
            match r {
                Ok(p) => {
                    &&& form_decode_str(basic.username@) == Some(p.0@)
                    &&& match basic.password {
                        Some(pw) => form_decode_str(pw@) == Some(p.1@),
                        None => p.1@ == Seq::<char>::empty(),
                    }
                },
                Err(e) => {
                    &&& e == OAuthError::Utf8
                    &&& (form_decode_str(basic.username@) is None || (basic.password matches Some(
                        pw,
                    ) && form_decode_str(pw@) is None))
                },
            },
    {
        let user = match form_urldecode(basic.username.as_str()) {
            Some(u) => u,
            None => {
                return Err(OAuthError::Utf8);
            },
        };
        let pass = match &basic.password {
            Some(pw) => match form_urldecode(pw.as_str()) {
                Some(p) => p,
                None => {
                    return Err(OAuthError::Utf8);
                },
            },
            None => String::new(),
        };
        Ok((ClientId(user), pass))
    }
}

/// Compares two strings in constant time with respect to their contents:
/// the characters are folded into an accumulator and nothing exits early
/// on a mismatch (lengths are compared up front; only where a mismatch
/// sits is hidden).
pub fn credentials_match(a: &str, b: &str) -> (r: bool)
    ensures
        r == (a@ == b@),
{
    let an = a.unicode_len();
    let bn = b.unicode_len();
    if an != bn {
        return false;
    }
    let mut diff: u32 = 0;
    let mut i: usize = 0;
    while i < an
        invariant
            an == a@.len(),
            an == b@.len(),
            i <= an,
            (diff == 0) <==> (forall|j: int| 0 <= j < i ==> a@[j] == b@[j]),
        decreases an - i,
    {
        let ca = a.get_char(i) as u32;
        let cb = b.get_char(i) as u32;
        let x = ca ^ cb;
        proof {
            assert((x == 0) == (ca == cb)) by (bit_vector)
                requires
                    x == ca ^ cb,
            ;
            assert(((diff | x) == 0) == (diff == 0 && x == 0)) by (bit_vector);
            if ca == cb {
                vstd::utf8::char_u32_cast(a@[i as int], ca);
                vstd::utf8::char_u32_cast(b@[i as int], cb);
            }
        }
        diff = diff | x;
        i += 1;
    }
    proof {
        if diff == 0 {
            assert(a@ =~= b@);
        }
    }
    diff == 0
}

} // verus!
