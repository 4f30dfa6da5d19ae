//! The authorization-server engine.
//!
//! Two endpoints and their finishers.  The security-critical rule of the
//! authorization endpoint is the split between failures that must be shown
//! to the user-agent directly and errors that may be redirected: until the
//! client and its redirection URI are validated, redirecting would turn
//! the server into an open redirector.  The whole decision is a spec
//! function over the request bytes and the registered clients, and the
//! endpoint is proved to implement it.

use crate::authz_error::{AuthzError, AuthzErrorCode};
use crate::authz_request::AuthzRequest;
use crate::client_data::ClientData;
use crate::client_id::ClientId;
use crate::error::OAuthError;
use crate::query::{first_param, key_count, lookup_param, pairs_view};
use crate::redirect_uri::RedirectUri;
use crate::store::{client_of, grant_of, ClientRegistry, GrantStore};
use crate::token_error::{TokenError, TokenErrorCode};
use crate::syntax::{all_nqchar, all_nqschar, all_vschar};
use crate::text::{contains_char, str_contains_char};
use crate::uri::{has_absolute_scheme, parse_uri_params, uri_has_scheme, uri_params,
    uri_params_ok, with_query_pair};
use vstd::prelude::*;
use vstd::string::StringExecFns;
use vstd::utf8::encode_utf8;

verus! {

/// The view of an optional string.
pub open spec fn opt_str_view(o: Option<String>) -> Option<Seq<char>> {
    match o {
        Some(s) => Some(s@),
        None => None,
    }
}

/// The character-level image of a parsed authorization request.
pub struct AuthzRequestView {
    /// `client_id` as supplied.
    pub client_id: Seq<char>,
    /// `redirect_uri` as supplied, if at all.
    pub redirect_uri: Option<Seq<char>>,
    /// `scope` as supplied.
    pub scope: Option<Seq<char>>,
    /// `state` as supplied.
    pub state: Option<Seq<char>>,
}

/// The view of an `AuthzRequest`.
pub open spec fn authz_request_view(r: AuthzRequest) -> AuthzRequestView {
    AuthzRequestView {
        client_id: r.client_id@,
        redirect_uri: match r.redirect_uri {
            Some(u) => Some(u@),
            None => None,
        },
        scope: opt_str_view(r.scope),
        state: opt_str_view(r.state),
    }
}

/// The character-level image of a redirected authorization error.
pub struct AuthzErrorView {
    /// The error code.
    pub error: AuthzErrorCode,
    /// The human-readable detail.
    pub error_description: Option<Seq<char>>,
    /// A URI with further detail.
    pub error_uri: Option<Seq<char>>,
    /// The request's `state`, when it carried exactly one.
    pub state: Option<Seq<char>>,
}

/// The view of an `AuthzError`.
pub open spec fn authz_error_view(e: AuthzError) -> AuthzErrorView {
    AuthzErrorView {
        error: e.error,
        error_description: opt_str_view(e.error_description),
        error_uri: opt_str_view(e.error_uri),
        state: opt_str_view(e.state),
    }
}

/// What the authorization endpoint decides for one request.
pub enum AuthzOutcome {
    /// Answer the user-agent directly; no redirect may be written.
    Direct(OAuthError),
    /// The client and redirection URI are trusted: hand the parsed
    /// request to the host, with the error to redirect, if any.
    Accept(AuthzRequestView, Option<AuthzErrorView>),
}

/// `uri` is byte-equal to one of the client's registered redirection URIs.
pub open spec fn uri_registered(c: ClientData, uri: Seq<char>) -> bool {
    exists|i: int| 0 <= i < c.redirect_uri@.len() && (#[trigger] c.redirect_uri@[i])@ == uri
}

/// The redirection URI of the request can be trusted: a supplied one is
/// registered, and an omitted one can be resolved to a registered one.
pub open spec fn redirect_ok(c: ClientData, requested: Option<Seq<char>>) -> bool {
    match requested {
        Some(u) => uri_registered(c, u),
        None => c.redirect_uri@.len() >= 1,
    }
}

/// The request's `state`, carried into a redirected error only when the
/// request supplied exactly one.
pub open spec fn err_state(ps: Seq<(Seq<char>, Seq<char>)>) -> Option<Seq<char>> {
    if key_count(ps, "state"@) == 1 {
        first_param(ps, "state"@)
    } else {
        None
    }
}

/// The redirect-class error of a trusted request, if any: a duplicated
/// non-identifying parameter, a missing or unsupported response type, or
/// a malformed scope, in that order.
pub open spec fn authz_soft_error(ps: Seq<(Seq<char>, Seq<char>)>) -> Option<
    (AuthzErrorCode, Seq<char>),
> {
    if key_count(ps, "response_type"@) > 1 || key_count(ps, "scope"@) > 1 || key_count(
        ps,
        "state"@,
    ) > 1 {
        Some((AuthzErrorCode::InvalidRequest, "Duplicate parameter."@))
    } else if first_param(ps, "response_type"@) is None {
        Some((AuthzErrorCode::InvalidRequest, "Missing `response_type` parameter."@))
    } else if first_param(ps, "response_type"@) != Some("code"@) {
        Some((AuthzErrorCode::UnsupportedResponseType, "Response type must be `code`."@))
    } else if first_param(ps, "scope"@) matches Some(sc) && !(sc.len() > 0 && all_nqchar(sc)) {
        Some((AuthzErrorCode::InvalidScope, "Invalid `scope` parameter."@))
    } else {
        None
    }
}

/// The full decision of the authorization endpoint, over the request URI's
/// bytes and the registered clients.  The order is the security boundary:
/// everything up to the redirection-URI check fails directly, never by
/// redirect.
pub open spec fn authz_decision(u: Seq<u8>, clients: Seq<ClientData>) -> AuthzOutcome {
    if !has_absolute_scheme(u) {
        AuthzOutcome::Direct(OAuthError::Url)
    } else if !uri_params_ok(u) {
        AuthzOutcome::Direct(OAuthError::Utf8)
    } else {
        let ps = uri_params(u);
        if first_param(ps, "client_id"@) is None {
            AuthzOutcome::Direct(OAuthError::AuthzMissingClientId)
        } else if key_count(ps, "client_id"@) != 1 || key_count(ps, "redirect_uri"@) > 1 {
            AuthzOutcome::Direct(OAuthError::AuthzBadRequest)
        } else if !all_vschar(first_param(ps, "client_id"@)->Some_0) {
            AuthzOutcome::Direct(OAuthError::AuthzBadRequest)
        } else {
            let cid = first_param(ps, "client_id"@)->Some_0;
            match client_of(clients, cid) {
                None => AuthzOutcome::Direct(OAuthError::AuthzUnknownClient),
                Some(c) => {
                    let ru = first_param(ps, "redirect_uri"@);
                    if !redirect_ok(c, ru) {
                        AuthzOutcome::Direct(OAuthError::AuthzRedirectUrlNotRegistered)
                    } else {
                        AuthzOutcome::Accept(
                            AuthzRequestView {
                                client_id: cid,
                                redirect_uri: ru,
                                scope: first_param(ps, "scope"@),
                                state: first_param(ps, "state"@),
                            },
                            match authz_soft_error(ps) {
                                Some(pair) => Some(
                                    AuthzErrorView {
                                        error: pair.0,
                                        error_description: Some(pair.1),
                                        error_uri: None,
                                        state: err_state(ps),
                                    },
                                ),
                                None => None,
                            },
                        )
                    }
                },
            }
        }
    }
}

/// The `Location` of a granted request: the resolved redirection URI with
/// `code` and, when the request carried one, `state` appended.
pub open spec fn grant_location(base: Seq<char>, code: Seq<char>, state: Option<Seq<char>>) -> Seq<
    char,
> {
    let u1 = with_query_pair(base, "code"@, code);
    match state {
        Some(s) => with_query_pair(u1, "state"@, s),
        None => u1,
    }
}

/// A redirection target the engine will write a `Location` for: an
/// absolute URI without a fragment.
pub open spec fn redirect_base_ok(base: Seq<char>) -> bool {
    has_absolute_scheme(encode_utf8(base)) && !contains_char(base, '#')
}

/// The authorization-server engine: the registered clients and the issued
/// grants, with the two protocol endpoints.
///
/// The stores are in memory, so looking a client up cannot fail in
/// transport.  A host that keeps its records in external storage must map
/// a failing lookup to a direct user-agent failure of the server-error
/// class before anything is redirected, for the same reason the engine
/// itself never redirects before the client is known.
pub struct AuthzServer {
    /// The registered clients.
    pub clients: ClientRegistry,
    /// The issued, not yet redeemed grants.
    pub grants: GrantStore,
}

impl AuthzServer {
    /// An engine with no clients and no grants.
    pub fn new() -> (s: Self)
        ensures
            s.clients.records() == Seq::<ClientData>::empty(),
            s.grants.records() == Seq::<crate::store::GrantRecord>::empty(),
    {
        AuthzServer { clients: ClientRegistry::new(), grants: GrantStore::new() }
    }

    /// Fetches the record of a registered client.
    pub fn fetch_client_data(&self, client_id: &ClientId) -> (r: Option<&ClientData>)
        ensures
            match r {
                Some(cd) => client_of(self.clients.records(), client_id@) == Some(*cd),
                None => client_of(self.clients.records(), client_id@) is None,
            },
    {
        self.clients.fetch_client_data(client_id)
    }

    /// Draws a fresh authorization code from the randomness source: a
    /// value unguessable to the user-agent leg, or the I/O error when the
    /// source fails.
    pub fn new_authorization_code(&self) -> (r: Result<String, OAuthError>)
        ensures
            match r {
                Ok(code) => code@.len() > 0 && all_vschar(code@),
                Err(e) => e == OAuthError::Io,
            },
    {
        match crate::nonce::fresh_token() {
            Some(t) => Ok(t),
            None => Err(OAuthError::Io),
        }
    }

    /// Stores a grant under `code`, replacing any grant stored under the
    /// same code.  This must happen before the redirect carrying the code
    /// is written.
    pub fn store_grant(
        &mut self,
        code: &str,
        client_id: &ClientId,
        redirect_uri: Option<&RedirectUri>,
        issued_at: u64,
    )
        ensures
            final (self).clients == old(self).clients,
            ({
                let g = grant_of(final (self).grants.records(), code@);
                &&& g matches Some(rec)
                &&& rec.code@ == code@
                &&& rec.client_id@ == client_id@
                &&& crate::store::opt_uri_view(rec.redirect_uri) == (match redirect_uri {
                    Some(u) => Some(u@),
                    None => None::<Seq<char>>,
                })
                &&& rec.issued_at == issued_at
            }),
            forall|c: Seq<char>|
                c != code@ ==> #[trigger] grant_of(final (self).grants.records(), c) == grant_of(
                    old(self).grants.records(),
                    c,
                ),
    {
        self.grants.store_grant(code, client_id, redirect_uri, issued_at);
    }

    /// Consumes the grant stored under `code`: the lookup and the removal
    /// are one operation, so a code redeems at most once.
    pub fn consume_grant(&mut self, code: &str) -> (r: Option<(ClientId, Option<RedirectUri>)>)
        ensures
            final (self).clients == old(self).clients,
            match r {
                Some(p) => {
                    &&& grant_of(old(self).grants.records(), code@) matches Some(g)
                        && g.client_id@ == p.0@ && crate::store::opt_uri_view(g.redirect_uri)
                        == crate::store::opt_uri_view(p.1)
                    &&& grant_of(final (self).grants.records(), code@) is None
                },
                None => {
                    &&& grant_of(old(self).grants.records(), code@) is None
                    &&& final (self).grants.records() == old(self).grants.records()
                },
            },
            forall|c: Seq<char>|
                c != code@ ==> #[trigger] grant_of(final (self).grants.records(), c) == grant_of(
                    old(self).grants.records(),
                    c,
                ),
    {
        self.grants.consume_grant(code)
    }

    /// Handles an HTTP request at the authorization endpoint (reached from
    /// a user-agent, redirected by a client).
    ///
    /// Parses and validates the request URI.  A `Err` is a direct-user-
    /// agent failure: the caller must render an error page and must not
    /// redirect.  On `Ok` the caller authenticates the user, asks for
    /// consent, and finishes with `grant_authz_request` or
    /// `deny_authz_request`; a carried `AuthzError` must be passed to
    /// `deny_authz_request` unchanged.
    pub fn handle_authz_request(&self, uri_string: &str) -> (r: Result<
        (AuthzRequest, Option<AuthzError>),
        OAuthError,
    >)
        ensures
            ({
                let d = authz_decision(encode_utf8(uri_string@), self.clients.records());
                match r {
                    Err(e) => d == AuthzOutcome::Direct(e),
                    Ok(pair) => {
                        &&& d matches AuthzOutcome::Accept(req, err)
                        &&& authz_request_view(pair.0) == req
                        &&& match pair.1 {
                            Some(ae) => err == Some(authz_error_view(ae)),
                            None => err is None,
                        }
                    },
                }
            }),
    {
        let ghost u = encode_utf8(uri_string@);
        if !uri_has_scheme(uri_string) {
            return Err(OAuthError::Url);
        }
        let params = match parse_uri_params(uri_string) {
            Some(v) => v,
            None => {
                return Err(OAuthError::Utf8);
            },
        };
        let ghost ps = uri_params(u);
        proof {
            assert(pairs_view(params@) == ps);
        }
        let (cid_first, _cid_last, cid_n) = lookup_param(&params, "client_id");
        let (ru_first, _ru_last, ru_n) = lookup_param(&params, "redirect_uri");
        let (rt_first, _rt_last, rt_n) = lookup_param(&params, "response_type");
        let (sc_first, _sc_last, sc_n) = lookup_param(&params, "scope");
        let (st_first, _st_last, st_n) = lookup_param(&params, "state");
        let cid = match cid_first {
            Some(c) => c,
            None => {
                return Err(OAuthError::AuthzMissingClientId);
            },
        };
        if cid_n != 1 || ru_n > 1 {
            return Err(OAuthError::AuthzBadRequest);
        }
        if !crate::syntax::valid_client_id_str(cid.as_str()) {
            return Err(OAuthError::AuthzBadRequest);
        }
        let client_id = ClientId(cid);
        let client = match self.clients.fetch_client_data(&client_id) {
            Some(c) => c,
            None => {
                return Err(OAuthError::AuthzUnknownClient);
            },
        };
        let ru_ok = match &ru_first {
            Some(u) => client_has_redirect(client, u.as_str()),
            None => client.redirect_uri.len() >= 1,
        };
        if !ru_ok {
            return Err(OAuthError::AuthzRedirectUrlNotRegistered);
        }
        let error: Option<AuthzError> = if rt_n > 1 || sc_n > 1 || st_n > 1 {
            let es = if st_n == 1 {
                clone_opt_string(&st_first)
            } else {
                None
            };
            Some(
                AuthzError {
                    error: AuthzErrorCode::InvalidRequest,
                    error_description: Some(String::from_str("Duplicate parameter.")),
                    error_uri: None,
                    state: es,
                },
            )
        } else if rt_first.is_none() {
            Some(
                AuthzError {
                    error: AuthzErrorCode::InvalidRequest,
                    error_description: Some(
                        String::from_str("Missing `response_type` parameter."),
                    ),
                    error_uri: None,
                    state: clone_opt_string(&st_first),
                },
            )
        } else if !str_is_code(rt_first.as_ref().unwrap().as_str()) {
            Some(
                AuthzError {
                    error: AuthzErrorCode::UnsupportedResponseType,
                    error_description: Some(String::from_str("Response type must be `code`.")),
                    error_uri: None,
                    state: clone_opt_string(&st_first),
                },
            )
        } else if sc_first.is_some() && !crate::syntax::valid_scope_str(
            sc_first.as_ref().unwrap().as_str(),
        ) {
            Some(
                AuthzError {
                    error: AuthzErrorCode::InvalidScope,
                    error_description: Some(String::from_str("Invalid `scope` parameter.")),
                    error_uri: None,
                    state: clone_opt_string(&st_first),
                },
            )
        } else {
            None
        };
        let request = AuthzRequest {
            client_id,
            redirect_uri: match ru_first {
                Some(u) => Some(RedirectUri(u)),
                None => None,
            },
            scope: sc_first,
            state: st_first,
        };
        proof {
            let d = authz_decision(u, self.clients.records());
            assert(has_absolute_scheme(u));
            assert(uri_params_ok(u));
            let cid_v = first_param(ps, "client_id"@);
            assert(cid_v is Some);
            assert(key_count(ps, "client_id"@) == 1);
            assert(key_count(ps, "redirect_uri"@) <= 1);
            assert(all_vschar(cid_v->Some_0));
            assert(client_of(self.clients.records(), cid_v->Some_0) is Some);
            let c = client_of(self.clients.records(), cid_v->Some_0)->Some_0;
            assert(redirect_ok(c, first_param(ps, "redirect_uri"@)));
            assert(d matches AuthzOutcome::Accept(rq, er));
            let rq = d->Accept_0;
            let er = d->Accept_1;
            assert(authz_request_view(request) == rq);
            let se = authz_soft_error(ps);
            crate::query::lemma_first_param_count(ps, "state"@);
            match &error {
                Some(ae) => {
                    assert(se is Some);
                    assert(ae.error == se->Some_0.0);
                    assert(opt_str_view(ae.error_description) == Some(se->Some_0.1));
                    assert(opt_str_view(ae.error_uri) is None);
                    assert(opt_str_view(ae.state) == err_state(ps));
                    assert(er == Some(authz_error_view(*ae)));
                },
                None => {
                    assert(se is None);
                    assert(er is None);
                },
            }
        }
        Ok((request, error))
    }

    /// Resolves the redirection URI for a trusted request: a supplied one
    /// is returned only when it is registered for the client; an omitted
    /// one resolves to the client's first registered URI.
    pub fn resolve_redirect_uri(&self, client_id: &ClientId, request_redirect_uri: Option<
        &RedirectUri,
    >) -> (r: Result<RedirectUri, OAuthError>)
        ensures
            ({
                let c = client_of(self.clients.records(), client_id@);
                match r {
                    Ok(u) => {
                        &&& c matches Some(cd)
                        &&& match request_redirect_uri {
                            Some(req) => u@ == req@ && uri_registered(cd, req@),
                            None => cd.redirect_uri@.len() >= 1 && u@ == cd.redirect_uri@[0]@,
                        }
                    },
                    Err(e) => {
                        ||| (e == OAuthError::AuthzUnknownClient && c is None)
                        ||| (e == OAuthError::AuthzRedirectUrlNotRegistered && (c matches Some(
                            cd,
                        ) && !redirect_ok(
                            cd,
                            match request_redirect_uri {
                                Some(req) => Some(req@),
                                None => None,
                            },
                        )))
                    },
                }
            }),
    {
        let client = match self.clients.fetch_client_data(client_id) {
            Some(c) => c,
            None => {
                return Err(OAuthError::AuthzUnknownClient);
            },
        };
        match request_redirect_uri {
            Some(req) => {
                if client_has_redirect(client, req.as_str()) {
                    Ok(req.clone())
                } else {
                    Err(OAuthError::AuthzRedirectUrlNotRegistered)
                }
            },
            None => {
                if client.redirect_uri.len() >= 1 {
                    Ok(vstd::std_specs::vec::vec_index(&client.redirect_uri, 0).clone())
                } else {
                    Err(OAuthError::AuthzRedirectUrlNotRegistered)
                }
            },
        }
    }

    /// Finishes a granted authorization request: the `Location` of the 302
    /// redirect that carries the code, and the request's `state` unchanged
    /// when it supplied one.  The grant must already be stored under this
    /// code: the redirect must never leave before the code can be
    /// redeemed.
    pub fn grant_authz_request(&self, redirect_uri: &RedirectUri, authorization_code: &str, state: Option<
        &String,
    >) -> (r: Result<String, OAuthError>)
        requires
            grant_of(self.grants.records(), authorization_code@) is Some,
        ensures
            match r {
                Ok(loc) => redirect_base_ok(redirect_uri@) && loc@ == grant_location(
                    redirect_uri@,
                    authorization_code@,
                    match state {
                        Some(s) => Some(s@),
                        None => None,
                    },
                ),
                Err(e) => e == OAuthError::Url && !redirect_base_ok(redirect_uri@),
            },
    {
        if !uri_has_scheme(redirect_uri.as_str()) || str_contains_char(redirect_uri.as_str(), '#') {
            return Err(OAuthError::Url);
        }
        let mut url = String::from_str(redirect_uri.as_str());
        crate::uri::append_query_pair(&mut url, "code", authorization_code);
        if let Some(s) = state {
            crate::uri::append_query_pair(&mut url, "state", s.as_str());
        }
        Ok(url)
    }

    /// Finishes a denied authorization request: the `Location` of the 302
    /// redirect that carries the error fields, including the request's
    /// `state` unchanged when the error carries one.
    pub fn deny_authz_request(&self, redirect_uri: &RedirectUri, error: &AuthzError) -> (r: Result<
        String,
        OAuthError,
    >)
        ensures
            match r {
                Ok(loc) => redirect_base_ok(redirect_uri@) && loc@ == error.into_query(
                    redirect_uri@,
                ),
                Err(e) => e == OAuthError::Url && !redirect_base_ok(redirect_uri@),
            },
    {
        if !uri_has_scheme(redirect_uri.as_str()) || str_contains_char(redirect_uri.as_str(), '#') {
            return Err(OAuthError::Url);
        }
        let mut url = String::from_str(redirect_uri.as_str());
        error.put_into_query_string(&mut url);
        Ok(url)
    }
}

/// What the host sends back from the token endpoint.  Whatever the
/// outcome, the response also carries `Content-Type: application/json`,
/// `Cache-Control: no-store` and `Pragma: no-cache`; those are fixed, so
/// only the varying parts are here.
pub struct TokenResponse {
    /// The HTTP status code.
    pub status: u16,
    /// Whether to set `WWW-Authenticate: Basic` (failed client
    /// credentials).
    pub www_authenticate: bool,
    /// The JSON body.
    pub body: String,
}

/// What the token endpoint decides for one request.
pub enum TokenRequestOutcome {
    /// Answer with this error response.  When `revoke` carries a code, the
    /// code was presented by a client it was not issued to: the host must
    /// also revoke any tokens already issued against that code.
    Failure { response: TokenResponse, revoke: Option<String> },
    /// All checks passed: the host issues a token for this code and
    /// client (recording the issuance), and answers with
    /// `token_success_response`, or with `token_issue_failure_response`
    /// when issuance fails.
    Issue { code: String, client_id: ClientId },
}

/// A description usable in a token error body: the string itself when it
/// is a nonempty NQSCHAR string (every description in this crate is), and
/// nothing otherwise.
pub open spec fn desc_or_none(s: Seq<char>) -> Option<Seq<char>> {
    if s.len() > 0 && all_nqschar(s) {
        Some(s)
    } else {
        None
    }
}

/// The character-level image of an HTTP Basic pair.
pub open spec fn basic_view(b: crate::client_data::BasicAuth) -> (Seq<char>, Option<Seq<char>>) {
    (b.username@, opt_str_view(b.password))
}

/// The spec-level image of a token-endpoint decision.
pub enum TokenDecision {
    /// Answer with this status, `WWW-Authenticate` flag, error code and
    /// description; `revoke` names a code whose issued tokens must go.
    Fail {
        status: u16,
        www_authenticate: bool,
        error: TokenErrorCode,
        description: Option<Seq<char>>,
        revoke: Option<Seq<char>>,
    },
    /// Issue a token for this code and client.
    Issue { code: Seq<char>, client_id: Seq<char> },
}

/// The full decision of the token endpoint, over the decoded Basic pair,
/// the request body's bytes, the registered clients and the stored
/// grants (RFC 6749 section 4.1.3, steps in order: client authentication,
/// body parsing, grant type, code redemption, redirect-URI binding).
pub open spec fn token_decision(
    auth: Option<(Seq<char>, Option<Seq<char>>)>,
    body: Seq<u8>,
    clients: Seq<ClientData>,
    grants: Seq<crate::store::GrantRecord>,
) -> TokenDecision {
    match auth {
        None => TokenDecision::Fail {
            status: 400,
            www_authenticate: false,
            error: TokenErrorCode::InvalidClient,
            description: desc_or_none("Authorization header missing"@),
            revoke: None,
        },
        Some(a) => {
            let du = crate::form::form_decode_str(a.0);
            let dp = match a.1 {
                Some(p) => crate::form::form_decode_str(p),
                None => Some(Seq::<char>::empty()),
            };
            if du is None || dp is None {
                TokenDecision::Fail {
                    status: 400,
                    www_authenticate: false,
                    error: TokenErrorCode::InvalidRequest,
                    description: desc_or_none("Authorization header failed UTF-8 check"@),
                    revoke: None,
                }
            } else {
                match client_of(clients, du->Some_0) {
                    None => TokenDecision::Fail {
                        status: 400,
                        www_authenticate: false,
                        error: TokenErrorCode::InvalidClient,
                        description: desc_or_none("No such client"@),
                        revoke: None,
                    },
                    Some(c) => {
                        if c.credentials@ != dp->Some_0 {
                            TokenDecision::Fail {
                                status: 401,
                                www_authenticate: true,
                                error: TokenErrorCode::InvalidClient,
                                description: desc_or_none("Client credentials do not match"@),
                                revoke: None,
                            }
                        } else if !crate::query::pairs_utf8(body) {
                            TokenDecision::Fail {
                                status: 400,
                                www_authenticate: false,
                                error: TokenErrorCode::InvalidRequest,
                                description: desc_or_none("Body did not pass UTF-8 check"@),
                                revoke: None,
                            }
                        } else {
                            token_body_decision(
                                du->Some_0,
                                crate::query::query_pairs(body),
                                grants,
                            )
                        }
                    },
                }
            }
        },
    }
}

/// The decision once the client is authenticated, over the parsed body
/// parameters (last occurrence wins, as for any form body).
pub open spec fn token_body_decision(
    client_id: Seq<char>,
    ps: Seq<(Seq<char>, Seq<char>)>,
    grants: Seq<crate::store::GrantRecord>,
) -> TokenDecision {
    let gt = crate::query::last_param(ps, "grant_type"@);
    if gt is None {
        TokenDecision::Fail {
            status: 400,
            www_authenticate: false,
            error: TokenErrorCode::InvalidRequest,
            description: desc_or_none("grant_type parameter must be supplied in body"@),
            revoke: None,
        }
    } else if gt != Some("authorization_code"@) {
        TokenDecision::Fail {
            status: 400,
            www_authenticate: false,
            error: TokenErrorCode::UnsupportedGrantType,
            description: None,
            revoke: None,
        }
    } else {
        match crate::query::last_param(ps, "code"@) {
            None => TokenDecision::Fail {
                status: 400,
                www_authenticate: false,
                error: TokenErrorCode::InvalidRequest,
                description: desc_or_none("code parameter must be supplied in body"@),
                revoke: None,
            },
            Some(code) => match grant_of(grants, code) {
                None => TokenDecision::Fail {
                    status: 400,
                    www_authenticate: false,
                    error: TokenErrorCode::InvalidGrant,
                    description: desc_or_none("Invalid authorization code"@),
                    revoke: None,
                },
                Some(g) => {
                    if g.client_id@ != client_id {
                        TokenDecision::Fail {
                            status: 400,
                            www_authenticate: false,
                            error: TokenErrorCode::InvalidGrant,
                            description: desc_or_none("client_id mismatch"@),
                            revoke: Some(code),
                        }
                    } else {
                        match crate::store::opt_uri_view(g.redirect_uri) {
                            Some(ru) => match crate::query::last_param(ps, "redirect_uri"@) {
                                None => TokenDecision::Fail {
                                    status: 400,
                                    www_authenticate: false,
                                    error: TokenErrorCode::InvalidGrant,
                                    description: desc_or_none(
                                        "redirect_uri parameter must be supplied in body"@,
                                    ),
                                    revoke: None,
                                },
                                Some(x) => {
                                    if x != ru {
                                        TokenDecision::Fail {
                                            status: 400,
                                            www_authenticate: false,
                                            error: TokenErrorCode::InvalidGrant,
                                            description: desc_or_none("redirect_uri parameter mismatch"@),
                                            revoke: None,
                                        }
                                    } else {
                                        TokenDecision::Issue { code, client_id }
                                    }
                                },
                            },
                            None => TokenDecision::Issue { code, client_id },
                        }
                    }
                },
            },
        }
    }
}

/// The code this request consumes, if its processing reaches redemption:
/// the grant (when one is stored) is destroyed on first redemption or on
/// any mismatch detected during redemption.
pub open spec fn token_consumed_code(
    auth: Option<(Seq<char>, Option<Seq<char>>)>,
    body: Seq<u8>,
    clients: Seq<ClientData>,
    grants: Seq<crate::store::GrantRecord>,
) -> Option<Seq<char>> {
    match token_decision(auth, body, clients, grants) {
        TokenDecision::Issue { code, .. } => Some(code),
        TokenDecision::Fail { error, .. } => {
            if error is InvalidGrant {
                crate::query::last_param(crate::query::query_pairs(body), "code"@)
            } else {
                None
            }
        },
    }
}

impl AuthzServer {
    /// Handles an HTTP request at the token endpoint (a direct POST from
    /// the client, HTTP Basic authenticated).
    ///
    /// `authorization` is the decoded Basic pair of the request, `None`
    /// when the header is missing or unreadable; `body` is the raw
    /// request body.  The grant named by a redeemed code is consumed
    /// here, whatever the outcome of the later checks.
    pub fn handle_token_request(&mut self, authorization: Option<&crate::client_data::BasicAuth>, body: &[u8]) -> (r:
        TokenRequestOutcome)
        ensures
            ({
                let auth_v = match authorization {
                    Some(b) => Some(basic_view(*b)),
                    None => None::<(Seq<char>, Option<Seq<char>>)>,
                };
                let d = token_decision(
                    auth_v,
                    body@,
                    old(self).clients.records(),
                    old(self).grants.records(),
                );
                let cc = token_consumed_code(
                    auth_v,
                    body@,
                    old(self).clients.records(),
                    old(self).grants.records(),
                );
                &&& final (self).clients == old(self).clients
                &&& match r {
                    TokenRequestOutcome::Failure { response, revoke } => {
                        &&& d matches TokenDecision::Fail {
                            status,
                            www_authenticate,
                            error,
                            description,
                            revoke: rv,
                        }
                        &&& response.status == status
                        &&& response.www_authenticate == www_authenticate
                        &&& response.body@ == crate::token_error::token_error_json(
                            error,
                            description,
                            None,
                        )
                        &&& opt_str_view(revoke) == rv
                    },
                    TokenRequestOutcome::Issue { code, client_id } => {
                        &&& d matches TokenDecision::Issue { code: dc, client_id: di }
                        &&& code@ == dc
                        &&& client_id@ == di
                    },
                }
                &&& match cc {
                    Some(c) => grant_of(final (self).grants.records(), c) is None,
                    None => final (self).grants == old(self).grants,
                }
                &&& forall|c: Seq<char>|
                    cc != Some(c) ==> grant_of(final (self).grants.records(), c) == grant_of(
                        old(self).grants.records(),
                        c,
                    )
            }),
    {
        let basic = match authorization {
            Some(b) => b,
            None => {
                return TokenRequestOutcome::Failure {
                    response: token_fail_response(
                        400,
                        false,
                        TokenErrorCode::InvalidClient,
                        Some("Authorization header missing"),
                    ),
                    revoke: None,
                };
            },
        };
        let (auth_cid, auth_creds) =
            match crate::client_data::ClientData::http_basic_authentication_deconstruct(basic) {
            Ok(p) => p,
            Err(_) => {
                return TokenRequestOutcome::Failure {
                    response: token_fail_response(
                        400,
                        false,
                        TokenErrorCode::InvalidRequest,
                        Some("Authorization header failed UTF-8 check"),
                    ),
                    revoke: None,
                };
            },
        };
        let client = match self.clients.fetch_client_data(&auth_cid) {
            Some(c) => c,
            None => {
                return TokenRequestOutcome::Failure {
                    response: token_fail_response(
                        400,
                        false,
                        TokenErrorCode::InvalidClient,
                        Some("No such client"),
                    ),
                    revoke: None,
                };
            },
        };
        if !crate::client_data::credentials_match(
            client.credentials.as_str(),
            auth_creds.as_str(),
        ) {
            return TokenRequestOutcome::Failure {
                response: token_fail_response(
                    401,
                    true,
                    TokenErrorCode::InvalidClient,
                    Some("Client credentials do not match"),
                ),
                revoke: None,
            };
        }
        let params = match crate::query::parse_query_bytes(body) {
            Some(v) => v,
            None => {
                return TokenRequestOutcome::Failure {
                    response: token_fail_response(
                        400,
                        false,
                        TokenErrorCode::InvalidRequest,
                        Some("Body did not pass UTF-8 check"),
                    ),
                    revoke: None,
                };
            },
        };
        let (_gt_first, gt_last, _gt_n) = lookup_param(&params, "grant_type");
        let gt = match gt_last {
            Some(g) => g,
            None => {
                return TokenRequestOutcome::Failure {
                    response: token_fail_response(
                        400,
                        false,
                        TokenErrorCode::InvalidRequest,
                        Some("grant_type parameter must be supplied in body"),
                    ),
                    revoke: None,
                };
            },
        };
        if !crate::text::str_eq(gt.as_str(), "authorization_code") {
            return TokenRequestOutcome::Failure {
                response: token_fail_response(
                    400,
                    false,
                    TokenErrorCode::UnsupportedGrantType,
                    None,
                ),
                revoke: None,
            };
        }
        let (_code_first, code_last, _code_n) = lookup_param(&params, "code");
        let code = match code_last {
            Some(c) => c,
            None => {
                return TokenRequestOutcome::Failure {
                    response: token_fail_response(
                        400,
                        false,
                        TokenErrorCode::InvalidRequest,
                        Some("code parameter must be supplied in body"),
                    ),
                    revoke: None,
                };
            },
        };
        let consumed = self.grants.consume_grant(code.as_str());
        let (grant_cid, grant_uri) = match consumed {
            Some(p) => p,
            None => {
                return TokenRequestOutcome::Failure {
                    response: token_fail_response(
                        400,
                        false,
                        TokenErrorCode::InvalidGrant,
                        Some("Invalid authorization code"),
                    ),
                    revoke: None,
                };
            },
        };
        if !crate::text::str_eq(grant_cid.as_str(), auth_cid.as_str()) {
            return TokenRequestOutcome::Failure {
                response: token_fail_response(
                    400,
                    false,
                    TokenErrorCode::InvalidGrant,
                    Some("client_id mismatch"),
                ),
                revoke: Some(code),
            };
        }
        if let Some(stored_uri) = &grant_uri {
            let (_ru_first, ru_last, _ru_n) = lookup_param(&params, "redirect_uri");
            match ru_last {
                None => {
                    return TokenRequestOutcome::Failure {
                        response: token_fail_response(
                            400,
                            false,
                            TokenErrorCode::InvalidGrant,
                            Some("redirect_uri parameter must be supplied in body"),
                        ),
                        revoke: None,
                    };
                },
                Some(x) => {
                    if !crate::text::str_eq(x.as_str(), stored_uri.as_str()) {
                        return TokenRequestOutcome::Failure {
                            response: token_fail_response(
                                400,
                                false,
                                TokenErrorCode::InvalidGrant,
                                Some("redirect_uri parameter mismatch"),
                            ),
                            revoke: None,
                        };
                    }
                },
            }
        }
        TokenRequestOutcome::Issue { code, client_id: auth_cid }
    }
}

/// The success response of the token endpoint: 200 with the JSON-encoded
/// token data.
pub fn token_success_response(token: &crate::token_data::TokenData) -> (r: TokenResponse)
    requires
        token.wf(),
    ensures
        r.status == 200,
        !r.www_authenticate,
        r.body@ == token.spec_json(),
{
    TokenResponse { status: 200, www_authenticate: false, body: token.as_json() }
}

/// The response when the host's token issuance itself fails: 400 with
/// `invalid_grant`.
pub fn token_issue_failure_response() -> (r: TokenResponse)
    ensures
        r.status == 400,
        !r.www_authenticate,
        r.body@ == crate::token_error::token_error_json(
            TokenErrorCode::InvalidGrant,
            None,
            None,
        ),
{
    token_fail_response(400, false, TokenErrorCode::InvalidGrant, None)
}

/// Builds a failing token response.
fn token_fail_response(status: u16, www_authenticate: bool, error: TokenErrorCode, description:
    Option<&str>) -> (r: TokenResponse)
    ensures
        r.status == status,
        r.www_authenticate == www_authenticate,
        r.body@ == crate::token_error::token_error_json(
            error,
            match description {
                Some(d) => desc_or_none(d@),
                None => None,
            },
            None,
        ),
{
    let te = TokenError {
        error,
        error_description: match description {
            Some(d) => {
                if crate::syntax::valid_error_description_str(d) {
                    Some(String::from_str(d))
                } else {
                    None
                }
            },
            None => None,
        },
        error_uri: None,
    };
    let body = te.as_json();
    TokenResponse { status, www_authenticate, body }
}

/// Whether `uri` is byte-equal to one of the client's registered URIs.
pub fn client_has_redirect(c: &ClientData, uri: &str) -> (r: bool)
    ensures
        r == uri_registered(*c, uri@),
{
    let n = c.redirect_uri.len();
    let mut i: usize = 0;
    while i < n
        invariant
            n == c.redirect_uri@.len(),
            i <= n,
            forall|j: int| 0 <= j < i ==> (#[trigger] c.redirect_uri@[j])@ != uri@,
        decreases n - i,
    {
        if crate::text::str_eq(c.redirect_uri[i].as_str(), uri) {
            return true;
        }
        i += 1;
    }
    false
}

/// Clones an optional string.
fn clone_opt_string(o: &Option<String>) -> (r: Option<String>)
    ensures
        opt_str_view(r) == opt_str_view(*o),
{
    match o {
        Some(s) => Some(s.clone()),
        None => None,
    }
}

/// Whether `s` is exactly `code`.
fn str_is_code(s: &str) -> (r: bool)
    ensures
        r == (s@ == "code"@),
{
    crate::text::str_eq(s, "code")
}

} // verus!
