//! The client engine.
//!
//! The client (the third-party web application) starts the flow by
//! redirecting the user-agent to the authorization endpoint with a fresh
//! anti-CSRF nonce in `state`, later receives the redirect back, verifies
//! the nonce, and prepares the authenticated token-endpoint exchange.  The
//! HTTP POST itself is the embedding application's: the engine hands it
//! the request to send and interprets the status that came back.

use crate::authz_error::{AuthzError, AuthzErrorCode};
use crate::client_data::{BasicAuth, ClientData};
use crate::error::OAuthError;
use crate::form::{form_encode_str, form_urlencode};
use crate::query::{last_param, lookup_param, pairs_view};
use crate::store::{nonce_present, NonceStore};
use crate::syntax::all_vschar;
use crate::uri::{parse_uri_params, uri_has_scheme, uri_params, uri_params_ok, with_query_pair};
use vstd::prelude::*;
use vstd::string::StrSliceExecFns;
use vstd::string::StringExecFns;
use vstd::utf8::encode_utf8;

verus! {

/// The redirect that starts a flow: where to send the user-agent, and the
/// `state` (nonce) that protects the return leg.
pub struct OauthStart {
    /// The `Location` of the 302 redirect to the authorization endpoint.
    pub location: String,
    /// The nonce placed in `state`, already stored for the return leg.
    pub state: String,
}

/// The token-endpoint exchange the host must perform: a POST of `body`
/// (application/x-www-form-urlencoded) authenticated with `authorization`
/// (HTTP Basic, base64 applied by the transport).
pub struct TokenRequest {
    /// The form-encoded request body.
    pub body: String,
    /// The decoded HTTP Basic pair.
    pub authorization: BasicAuth,
}

/// What handling the redirect back decides.
pub enum RedirectOutcome {
    /// The authorization server denied the request: the parsed error.
    Denied(AuthzError),
    /// The code arrived and the nonce matched: POST this token request.
    TokenRequest(TokenRequest),
}

/// The spec-level image of that decision.
pub enum RedirectDecision {
    /// Hand this error to the host.
    Fail(OAuthError),
    /// The server denied: the error fields, as supplied.
    Denied {
        error: AuthzErrorCode,
        description: Option<Seq<char>>,
        uri: Option<Seq<char>>,
        state: Option<Seq<char>>,
    },
    /// Proceed to the token exchange with this code.
    Proceed { code: Seq<char> },
}

/// The decision for a redirect-endpoint request, over the request URI's
/// bytes and the stored nonces: recognized error fields mean a denial;
/// otherwise `code` and `state` are required and `state` must match a
/// stored nonce (the anti-CSRF check).
pub open spec fn redirect_decision(u: Seq<u8>, nonces: Seq<String>) -> RedirectDecision {
    if !uri_params_ok(u) {
        RedirectDecision::Fail(OAuthError::Utf8)
    } else {
        let ps = uri_params(u);
        match last_param(ps, "error"@) {
            Some(e) => match AuthzErrorCode::spec_of_str(e) {
                Some(code) => RedirectDecision::Denied {
                    error: code,
                    description: last_param(ps, "error_description"@),
                    uri: last_param(ps, "error_uri"@),
                    state: last_param(ps, "state"@),
                },
                None => RedirectDecision::Fail(OAuthError::AuthzBadRequest),
            },
            None => match last_param(ps, "code"@) {
                None => RedirectDecision::Fail(OAuthError::ClientCodeMissing),
                Some(code) => match last_param(ps, "state"@) {
                    None => RedirectDecision::Fail(OAuthError::ClientStateMissing),
                    Some(st) => {
                        if !nonce_present(nonces, st) {
                            RedirectDecision::Fail(OAuthError::ClientNonceMismatch)
                        } else {
                            RedirectDecision::Proceed { code }
                        }
                    },
                },
            },
        }
    }
}

/// The `state` value the redirect endpoint consumes, if its processing
/// reaches the nonce check.
pub open spec fn redirect_consumed_state(u: Seq<u8>) -> Option<Seq<char>> {
    if !uri_params_ok(u) {
        None
    } else {
        let ps = uri_params(u);
        if last_param(ps, "error"@) is Some {
            None
        } else if last_param(ps, "code"@) is None {
            None
        } else {
            last_param(ps, "state"@)
        }
    }
}

/// The body of the token-endpoint POST.
pub open spec fn token_request_body(
    code: Seq<char>,
    redirect_uri: Seq<char>,
    client_id: Seq<char>,
) -> Seq<char> {
    "grant_type"@ + seq!['='] + "authorization_code"@ + seq!['&'] + "code"@ + seq!['=']
        + form_encode_str(code) + seq!['&'] + "redirect_uri"@ + seq!['='] + form_encode_str(
        redirect_uri,
    ) + seq!['&'] + "client_id"@ + seq!['='] + form_encode_str(client_id)
}

/// The `Location` that starts a flow.
pub open spec fn start_location(
    base: Seq<char>,
    client_id: Seq<char>,
    redirect_uri: Seq<char>,
    state: Seq<char>,
    scope: Option<Seq<char>>,
) -> Seq<char> {
    let u1 = with_query_pair(base, "response_type"@, "code"@);
    let u2 = with_query_pair(u1, "client_id"@, client_id);
    let u3 = with_query_pair(u2, "redirect_uri"@, redirect_uri);
    let u4 = with_query_pair(u3, "state"@, state);
    match scope {
        Some(s) => with_query_pair(u4, "scope"@, s),
        None => u4,
    }
}

/// How the client reads the token endpoint's HTTP status.
pub enum TokenResponseClass {
    /// 200: the body is the JSON token data.
    Success,
    /// 400 or 401: the body is a JSON protocol error.
    ProtocolError,
    /// Anything else: a transport failure.
    Transport,
}

/// The client engine: its own registered record and the nonces of the
/// flows it has started.
pub struct Client {
    /// The engine's own registered record.
    pub client_data: ClientData,
    /// The nonces of flows in progress.
    pub nonces: NonceStore,
}

impl Client {
    /// The engine has a redirection URI of its own to hand out.
    pub open spec fn wf(self) -> bool {
        self.client_data.redirect_uri@.len() >= 1
    }

    /// The stored nonce values.
    pub open spec fn nonce_values(self) -> Seq<String> {
        self.nonces.values()
    }

    /// The engine's own client record.
    pub open spec fn spec_client_data(self) -> ClientData {
        self.client_data
    }

    /// A client engine over its registered record, which must carry at
    /// least one redirection URI.
    pub fn new(client_data: ClientData) -> (r: Client)
        requires
            client_data.redirect_uri@.len() >= 1,
        ensures
            r.wf(),
            r.spec_client_data() == client_data,
            r.nonce_values() == Seq::<String>::empty(),
    {
        Client { client_data, nonces: NonceStore::new() }
    }

    /// The engine's own client record.
    pub fn get_client_data(&self) -> (r: &ClientData)
        ensures
            *r == self.spec_client_data(),
    {
        &self.client_data
    }

    /// The redirection URI this client hands out: its first registered
    /// one.
    pub fn get_redirect_uri(&self) -> (r: &str)
        requires
            self.wf(),
        ensures
            r@ == self.spec_client_data().redirect_uri@[0]@,
    {
        vstd::std_specs::vec::vec_index(&self.client_data.redirect_uri, 0).as_str()
    }

    /// Stores a nonce for a flow in progress.
    pub fn store_nonce(&mut self, token: &str)
        ensures
            final (self).spec_client_data() == old(self).spec_client_data(),
            nonce_present(final (self).nonce_values(), token@),
            forall|v: Seq<char>|
                v != token@ ==> #[trigger] nonce_present(final (self).nonce_values(), v)
                    == nonce_present(old(self).nonce_values(), v),
            final (self).nonce_values().len() <= old(self).nonce_values().len() + 1,
    {
        self.nonces.store_nonce(token);
    }

    /// Consumes a stored nonce: true exactly when it was stored, and it
    /// is gone afterwards.
    pub fn consume_nonce(&mut self, token: &str) -> (r: bool)
        ensures
            final (self).spec_client_data() == old(self).spec_client_data(),
            r == nonce_present(old(self).nonce_values(), token@),
            !nonce_present(final (self).nonce_values(), token@),
            forall|v: Seq<char>|
                v != token@ ==> #[trigger] nonce_present(final (self).nonce_values(), v)
                    == nonce_present(old(self).nonce_values(), v),
            !r ==> final (self).nonce_values() == old(self).nonce_values(),
    {
        self.nonces.consume_nonce(token)
    }

    /// Draws a fresh nonce from the randomness source and stores it; the
    /// I/O error when the source fails.
    pub fn generate_nonce(&mut self) -> (r: Result<String, OAuthError>)
        ensures
            final (self).spec_client_data() == old(self).spec_client_data(),
            match r {
                Ok(t) => {
                    &&& t@.len() > 0 && all_vschar(t@)
                    &&& nonce_present(final (self).nonce_values(), t@)
                    &&& forall|v: Seq<char>|
                        v != t@ ==> #[trigger] nonce_present(final (self).nonce_values(), v)
                            == nonce_present(old(self).nonce_values(), v)
                    &&& final (self).nonce_values().len() <= old(self).nonce_values().len() + 1
                },
                Err(e) => e == OAuthError::Io && *final (self) == *old(self),
            },
    {
        let token = match crate::nonce::fresh_token() {
            Some(t) => t,
            None => {
                return Err(OAuthError::Io);
            },
        };
        self.nonces.store_nonce(token.as_str());
        Ok(token)
    }

    /// Starts the flow: stores a fresh nonce and builds the `Location` of
    /// the 302 redirect to the authorization endpoint, carrying
    /// `response_type=code`, this client's identifier and redirection
    /// URI, the nonce as `state`, and the scope when one is asked for.
    pub fn start_oauth(&mut self, scope: Option<&str>, authz_request_url: &str) -> (r: Result<
        OauthStart,
        OAuthError,
    >)
        requires
            old(self).wf(),
        ensures
            final (self).wf(),
            final (self).spec_client_data() == old(self).spec_client_data(),
            match r {
                Ok(s) => {
                    &&& crate::authz_server::redirect_base_ok(authz_request_url@)
                    &&& s.state@.len() > 0 && all_vschar(s.state@)
                    &&& nonce_present(final (self).nonce_values(), s.state@)
                    &&& forall|v: Seq<char>|
                        v != s.state@ ==> #[trigger] nonce_present(
                            final (self).nonce_values(),
                            v,
                        ) == nonce_present(old(self).nonce_values(), v)
                    &&& s.location@ == start_location(
                        authz_request_url@,
                        old(self).spec_client_data().client_id@,
                        old(self).spec_client_data().redirect_uri@[0]@,
                        s.state@,
                        match scope {
                            Some(sc) => Some(sc@),
                            None => None,
                        },
                    )
                },
                Err(e) => {
                    &&& *final (self) == *old(self)
                    &&& (e == OAuthError::Url && !crate::authz_server::redirect_base_ok(
                        authz_request_url@,
                    )) || (e == OAuthError::Io && crate::authz_server::redirect_base_ok(
                        authz_request_url@,
                    ))
                },
            },
    {
        if !uri_has_scheme(authz_request_url) || crate::text::str_contains_char(
            authz_request_url,
            '#',
        ) {
            return Err(OAuthError::Url);
        }
        let state = match crate::nonce::fresh_token() {
            Some(t) => t,
            None => {
                return Err(OAuthError::Io);
            },
        };
        self.nonces.store_nonce(state.as_str());
        let mut url = String::from_str(authz_request_url);
        crate::uri::append_query_pair(&mut url, "response_type", "code");
        crate::uri::append_query_pair(&mut url, "client_id", self.client_data.client_id.as_str());
        let redirect = vstd::std_specs::vec::vec_index(&self.client_data.redirect_uri, 0);
        crate::uri::append_query_pair(&mut url, "redirect_uri", redirect.as_str());
        crate::uri::append_query_pair(&mut url, "state", state.as_str());
        if let Some(sc) = scope {
            crate::uri::append_query_pair(&mut url, "scope", sc);
        }
        Ok(OauthStart { location: url, state })
    }

    /// Handles the user-agent's return to the redirection URI: parses the
    /// query, returns a denial as the parsed error, and otherwise demands
    /// `code` and a `state` matching a stored nonce before handing back
    /// the token-endpoint exchange to perform.  A matching nonce is
    /// consumed by the check: each stored value guards one return.
    pub fn handle_redirect_url(&mut self, uri_string: &str) -> (r: Result<
        RedirectOutcome,
        OAuthError,
    >)
        requires
            old(self).wf(),
        ensures
            final (self).wf(),
            final (self).spec_client_data() == old(self).spec_client_data(),
            ({
                let u = encode_utf8(uri_string@);
                let d = redirect_decision(u, old(self).nonce_values());
                let cs = redirect_consumed_state(u);
                &&& match r {
                    Err(e) => d == RedirectDecision::Fail(e),
                    Ok(RedirectOutcome::Denied(ae)) => {
                        &&& d matches RedirectDecision::Denied { error, description, uri, state }
                        &&& ae.error == error
                        &&& crate::authz_server::opt_str_view(ae.error_description) == description
                        &&& crate::authz_server::opt_str_view(ae.error_uri) == uri
                        &&& crate::authz_server::opt_str_view(ae.state) == state
                    },
                    Ok(RedirectOutcome::TokenRequest(tr)) => {
                        &&& d matches RedirectDecision::Proceed { code }
                        &&& tr.body@ == token_request_body(
                            code,
                            old(self).spec_client_data().redirect_uri@[0]@,
                            old(self).spec_client_data().client_id@,
                        )
                        &&& tr.authorization.username@ == form_encode_str(
                            old(self).spec_client_data().client_id@,
                        )
                        &&& tr.authorization.password matches Some(p) && p@ == form_encode_str(
                            old(self).spec_client_data().credentials@,
                        )
                    },
                }
                &&& match cs {
                    Some(st) => {
                        &&& !nonce_present(final (self).nonce_values(), st)
                        &&& forall|v: Seq<char>|
                            v != st ==> #[trigger] nonce_present(final (self).nonce_values(), v)
                                == nonce_present(old(self).nonce_values(), v)
                    },
                    None => final (self).nonce_values() == old(self).nonce_values(),
                }
            }),
    {
        let ghost u = encode_utf8(uri_string@);
        let params = match parse_uri_params(uri_string) {
            Some(v) => v,
            None => {
                return Err(OAuthError::Utf8);
            },
        };
        let ghost ps = uri_params(u);
        proof {
            assert(pairs_view(params@) == ps);
        }
        let (_e_first, e_last, _e_n) = lookup_param(&params, "error");
        if let Some(e) = e_last {
            let code = match AuthzErrorCode::from_wire(e.as_str()) {
                Some(c) => c,
                None => {
                    return Err(OAuthError::AuthzBadRequest);
                },
            };
            let (_d_first, d_last, _d_n) = lookup_param(&params, "error_description");
            let (_u_first, u_last, _u_n) = lookup_param(&params, "error_uri");
            let (_s_first, s_last, _s_n) = lookup_param(&params, "state");
            return Ok(
                RedirectOutcome::Denied(
                    AuthzError {
                        error: code,
                        error_description: d_last,
                        error_uri: u_last,
                        state: s_last,
                    },
                ),
            );
        }
        let (_c_first, c_last, _c_n) = lookup_param(&params, "code");
        let code = match c_last {
            Some(c) => c,
            None => {
                return Err(OAuthError::ClientCodeMissing);
            },
        };
        let (_s_first, s_last, _s_n) = lookup_param(&params, "state");
        let state = match s_last {
            Some(s) => s,
            None => {
                return Err(OAuthError::ClientStateMissing);
            },
        };
        if !self.nonces.consume_nonce(state.as_str()) {
            return Err(OAuthError::ClientNonceMismatch);
        }
        proof {
            reveal_strlit("=");
            reveal_strlit("&");
            assert("="@ =~= seq!['=']);
            assert("&"@ =~= seq!['&']);
        }
        let mut body = String::from_str("grant_type");
        body.append("=");
        body.append("authorization_code");
        body.append("&");
        body.append("code");
        body.append("=");
        let enc_code = form_urlencode(code.as_str());
        body.append(enc_code.as_str());
        body.append("&");
        body.append("redirect_uri");
        body.append("=");
        let redirect = vstd::std_specs::vec::vec_index(&self.client_data.redirect_uri, 0);
        let enc_redirect = form_urlencode(redirect.as_str());
        body.append(enc_redirect.as_str());
        body.append("&");
        body.append("client_id");
        body.append("=");
        let enc_cid = form_urlencode(self.client_data.client_id.as_str());
        body.append(enc_cid.as_str());
        let authorization = self.client_data.http_basic_authentication_generate();
        Ok(RedirectOutcome::TokenRequest(TokenRequest { body, authorization }))
    }
}

/// Reads the token endpoint's HTTP status the way RFC 6749 assigns them:
/// 200 carries token data, 400 and 401 carry a protocol error, anything
/// else is a transport failure surfaced as the unexpected-status error.
pub fn classify_token_response(status: u16) -> (r: TokenResponseClass)
    ensures
        (r is Success) == (status == 200),
        (r is ProtocolError) == (status == 400 || status == 401),
        (r is Transport) == (status != 200 && status != 400 && status != 401),
{
    if status == 200 {
        TokenResponseClass::Success
    } else if status == 400 || status == 401 {
        TokenResponseClass::ProtocolError
    } else {
        TokenResponseClass::Transport
    }
}

} // verus!
