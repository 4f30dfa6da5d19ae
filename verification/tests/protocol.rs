//! End-to-end protocol scenarios over the in-memory stores.

use oauth2::{token_success_response, AuthzError, AuthzErrorCode, AuthzServer, Client, ClientData,
    ClientId, ClientType, OAuthError, RedirectOutcome, RedirectUri, TokenData,
    TokenRequestOutcome};

fn registered_client() -> ClientData {
    ClientData {
        client_id: ClientId("1".to_string()),
        client_type: ClientType::ConfidentialClient,
        redirect_uri: vec![RedirectUri("http://c/r".to_string())],
        credentials: "boo".to_string(),
        authn_scheme: None,
    }
}

fn server_with_client() -> AuthzServer {
    let mut server = AuthzServer::new();
    assert!(server.clients.register(registered_client()));
    server
}

#[test]
fn test_happy_path() {
    let mut client = Client::new(registered_client());
    let mut server = server_with_client();

    // The client starts the flow.
    let start = client.start_oauth(None, "http://s/authorization").unwrap();
    // the nonce comes from the randomness source: 32 base64 characters
    assert_eq!(start.state.len(), 32);
    assert!(start.location.starts_with("http://s/authorization?response_type=code&client_id=1&redirect_uri=http%3A%2F%2Fc%2Fr&state="));

    // The authorization endpoint accepts the request.
    let (req, err) = server.handle_authz_request(&start.location).unwrap();
    assert!(err.is_none());
    assert_eq!(req.client_id.0, "1");
    assert_eq!(req.redirect_uri.as_ref().unwrap().0, "http://c/r");
    assert_eq!(req.state.as_ref().unwrap(), &start.state);

    // The host authenticates the user, consents, stores the grant, and
    // the server writes the redirect.
    let ru = server.resolve_redirect_uri(&req.client_id, req.redirect_uri.as_ref()).unwrap();
    assert_eq!(ru.0, "http://c/r");
    server.grants.store_grant("X", &req.client_id, req.redirect_uri.as_ref(), 0);
    let loc = server.grant_authz_request(&ru, "X", req.state.as_ref()).unwrap();
    assert!(loc.starts_with("http://c/r?code=X&state="));

    // The client handles the redirect back and prepares the token POST.
    let outcome = client.handle_redirect_url(&loc).unwrap();
    let tr = match outcome {
        RedirectOutcome::TokenRequest(t) => t,
        RedirectOutcome::Denied(_) => panic!("unexpected denial"),
    };
    assert_eq!(
        tr.body,
        "grant_type=authorization_code&code=X&redirect_uri=http%3A%2F%2Fc%2Fr&client_id=1"
    );
    assert_eq!(tr.authorization.username, "1");
    assert_eq!(tr.authorization.password.as_ref().unwrap(), "boo");

    // The token endpoint authenticates and issues.
    let r = server.handle_token_request(Some(&tr.authorization), tr.body.as_bytes());
    match r {
        TokenRequestOutcome::Issue { code, client_id } => {
            assert_eq!(code, "X");
            assert_eq!(client_id.0, "1");
        },
        TokenRequestOutcome::Failure { response, .. } => {
            panic!("unexpected failure: {}", response.body)
        },
    }
    let token = TokenData {
        access_token: "2YotnFZFEjr1zCsicMWpAA".to_string(),
        token_type: "bearer".to_string(),
        expires_in: None,
        refresh_token: None,
        scope: None,
    };
    let resp = token_success_response(&token);
    assert_eq!(resp.status, 200);
    assert!(!resp.www_authenticate);
    assert_eq!(
        resp.body,
        "{\r\n  \"access_token\": \"2YotnFZFEjr1zCsicMWpAA\",\r\n  \"token_type\": \"bearer\"\r\n}"
    );

    // The round trip left no consumable grant and no consumable nonce.
    assert_eq!(server.grants.len(), 0);
    assert_eq!(client.nonces.len(), 0);
}

#[test]
fn test_unknown_client() {
    let server = server_with_client();
    let r = server.handle_authz_request("http://s/authorization?response_type=code&client_id=999");
    assert!(matches!(r, Err(OAuthError::AuthzUnknownClient)));
}

#[test]
fn test_missing_client_id() {
    let server = server_with_client();
    let r = server.handle_authz_request("http://s/authorization?response_type=code");
    assert!(matches!(r, Err(OAuthError::AuthzMissingClientId)));
}

#[test]
fn test_bad_redirect() {
    let server = server_with_client();
    let r = server.handle_authz_request(
        "http://s/authorization?response_type=code&client_id=1&redirect_uri=http%3A%2F%2Fevil%2F",
    );
    assert!(matches!(r, Err(OAuthError::AuthzRedirectUrlNotRegistered)));
}

#[test]
fn test_duplicate_client_id() {
    let server = server_with_client();
    let r = server.handle_authz_request(
        "http://s/authorization?response_type=code&client_id=1&client_id=1",
    );
    assert!(matches!(r, Err(OAuthError::AuthzBadRequest)));
}

#[test]
fn test_missing_response_type_redirects() {
    let server = server_with_client();
    let (req, err) = server.handle_authz_request(
        "http://s/authorization?client_id=1&state=N",
    ).unwrap();
    assert_eq!(req.client_id.0, "1");
    let err = err.unwrap();
    assert_eq!(err.error, AuthzErrorCode::InvalidRequest);
    assert_eq!(err.state.as_ref().unwrap(), "N");
}

#[test]
fn test_user_denies() {
    let server = server_with_client();
    let (req, err) = server.handle_authz_request(
        "http://s/authorization?response_type=code&client_id=1&state=N",
    ).unwrap();
    assert!(err.is_none());
    let ru = server.resolve_redirect_uri(&req.client_id, None).unwrap();
    let denial = AuthzError {
        error: AuthzErrorCode::AccessDenied,
        error_description: None,
        error_uri: None,
        state: req.state.clone(),
    };
    let loc = server.deny_authz_request(&ru, &denial).unwrap();
    assert_eq!(loc, "http://c/r?error=access_denied&state=N");
}

#[test]
fn test_code_reuse() {
    let mut server = server_with_client();
    let cid = ClientId("1".to_string());
    let ru = RedirectUri("http://c/r".to_string());
    server.grants.store_grant("X", &cid, Some(&ru), 0);

    let auth = registered_client().http_basic_authentication_generate();
    let body = "grant_type=authorization_code&code=X&redirect_uri=http%3A%2F%2Fc%2Fr&client_id=1";

    let first = server.handle_token_request(Some(&auth), body.as_bytes());
    assert!(matches!(first, TokenRequestOutcome::Issue { .. }));

    let second = server.handle_token_request(Some(&auth), body.as_bytes());
    match second {
        TokenRequestOutcome::Failure { response, revoke } => {
            assert_eq!(response.status, 400);
            assert!(response.body.contains("\"invalid_grant\""));
            assert!(revoke.is_none());
        },
        TokenRequestOutcome::Issue { .. } => panic!("code redeemed twice"),
    }
}

#[test]
fn test_code_wrong_client() {
    let mut server = server_with_client();
    let other = ClientData {
        client_id: ClientId("2".to_string()),
        client_type: ClientType::ConfidentialClient,
        redirect_uri: vec![RedirectUri("http://d/r".to_string())],
        credentials: "far".to_string(),
        authn_scheme: None,
    };
    let auth = other.http_basic_authentication_generate();
    assert!(server.clients.register(other));
    let cid = ClientId("1".to_string());
    server.grants.store_grant("X", &cid, None, 0);

    let body = "grant_type=authorization_code&code=X&client_id=2";
    let r = server.handle_token_request(Some(&auth), body.as_bytes());
    match r {
        TokenRequestOutcome::Failure { response, revoke } => {
            assert_eq!(response.status, 400);
            assert!(response.body.contains("\"invalid_grant\""));
            // the code leaked: its issued tokens must be revoked
            assert_eq!(revoke.as_deref(), Some("X"));
        },
        TokenRequestOutcome::Issue { .. } => panic!("mismatched client issued"),
    }
    // the grant was consumed by the failed redemption
    assert!(!server.grants.has_grant("X"));
}

#[test]
fn test_redirect_uri_binding() {
    let mut server = server_with_client();
    let cid = ClientId("1".to_string());
    let ru = RedirectUri("http://c/r".to_string());
    let auth = registered_client().http_basic_authentication_generate();

    // missing in the body although the grant bound one
    server.grants.store_grant("X", &cid, Some(&ru), 0);
    let r = server.handle_token_request(
        Some(&auth),
        "grant_type=authorization_code&code=X".as_bytes(),
    );
    match r {
        TokenRequestOutcome::Failure { response, .. } => {
            assert_eq!(response.status, 400);
            assert!(response.body.contains("\"invalid_grant\""));
        },
        TokenRequestOutcome::Issue { .. } => panic!("unbound redemption"),
    }

    // a different value
    server.grants.store_grant("Y", &cid, Some(&ru), 0);
    let r = server.handle_token_request(
        Some(&auth),
        "grant_type=authorization_code&code=Y&redirect_uri=http%3A%2F%2Fevil%2F".as_bytes(),
    );
    assert!(matches!(r, TokenRequestOutcome::Failure { .. }));
}

#[test]
fn test_bad_credentials() {
    let mut server = server_with_client();
    let mut bad = registered_client();
    bad.credentials = "not-boo".to_string();
    let auth = bad.http_basic_authentication_generate();
    let r = server.handle_token_request(
        Some(&auth),
        "grant_type=authorization_code&code=X".as_bytes(),
    );
    match r {
        TokenRequestOutcome::Failure { response, .. } => {
            assert_eq!(response.status, 401);
            assert!(response.www_authenticate);
            assert!(response.body.contains("\"invalid_client\""));
        },
        TokenRequestOutcome::Issue { .. } => panic!("bad credentials accepted"),
    }
}

#[test]
fn test_missing_authorization() {
    let mut server = server_with_client();
    let r = server.handle_token_request(None, "grant_type=authorization_code".as_bytes());
    match r {
        TokenRequestOutcome::Failure { response, .. } => {
            assert_eq!(response.status, 400);
            assert!(response.body.contains("\"invalid_client\""));
        },
        TokenRequestOutcome::Issue { .. } => panic!("unauthenticated issuance"),
    }
}

#[test]
fn test_unsupported_grant_type() {
    let mut server = server_with_client();
    let auth = registered_client().http_basic_authentication_generate();
    let r = server.handle_token_request(Some(&auth), "grant_type=password&code=X".as_bytes());
    match r {
        TokenRequestOutcome::Failure { response, .. } => {
            assert_eq!(response.status, 400);
            assert!(response.body.contains("\"unsupported_grant_type\""));
        },
        TokenRequestOutcome::Issue { .. } => panic!("wrong grant type accepted"),
    }
}

#[test]
fn test_nonce_mismatch() {
    let mut client = Client::new(registered_client());
    let _start = client.start_oauth(None, "http://s/authorization").unwrap();
    let r = client.handle_redirect_url("http://c/r?code=X&state=WRONG");
    assert!(matches!(r, Err(OAuthError::ClientNonceMismatch)));
    // the stored nonce for the real flow is untouched
    assert_eq!(client.nonces.len(), 1);
}

#[test]
fn test_redirect_code_missing() {
    let mut client = Client::new(registered_client());
    let r = client.handle_redirect_url("http://c/r?state=N");
    assert!(matches!(r, Err(OAuthError::ClientCodeMissing)));
}

#[test]
fn test_redirect_state_missing() {
    let mut client = Client::new(registered_client());
    let r = client.handle_redirect_url("http://c/r?code=X");
    assert!(matches!(r, Err(OAuthError::ClientStateMissing)));
}

#[test]
fn test_redirect_denied() {
    let mut client = Client::new(registered_client());
    let r = client.handle_redirect_url(
        "http://c/r?error=access_denied&error_description=nope&state=N",
    ).unwrap();
    match r {
        RedirectOutcome::Denied(e) => {
            assert_eq!(e.error, AuthzErrorCode::AccessDenied);
            assert_eq!(e.error_description.as_deref(), Some("nope"));
            assert_eq!(e.state.as_deref(), Some("N"));
        },
        RedirectOutcome::TokenRequest(_) => panic!("denial missed"),
    }
}

#[test]
fn test_nonce_single_use() {
    let mut client = Client::new(registered_client());
    client.store_nonce("n1");
    assert!(client.consume_nonce("n1"));
    assert!(!client.consume_nonce("n1"));
    client.store_nonce("n2");
    client.store_nonce("n2");
    assert_eq!(client.nonces.len(), 1);
    assert!(client.consume_nonce("n2"));
    assert!(!client.consume_nonce("n2"));
}

#[test]
fn test_grant_store_single_use() {
    let mut server = AuthzServer::new();
    let cid = ClientId("1".to_string());
    server.grants.store_grant("X", &cid, None, 7);
    assert!(server.grants.has_grant("X"));
    let first = server.grants.consume_grant("X");
    let (got_cid, got_ru) = first.unwrap();
    assert_eq!(got_cid.0, "1");
    assert!(got_ru.is_none());
    assert!(server.grants.consume_grant("X").is_none());
}

#[test]
fn test_store_grant_replaces() {
    let mut server = AuthzServer::new();
    let cid1 = ClientId("1".to_string());
    let cid2 = ClientId("2".to_string());
    server.grants.store_grant("X", &cid1, None, 0);
    server.grants.store_grant("X", &cid2, None, 0);
    assert_eq!(server.grants.len(), 1);
    let (got_cid, _) = server.grants.consume_grant("X").unwrap();
    assert_eq!(got_cid.0, "2");
}

#[test]
fn test_token_body_last_value_wins() {
    let mut server = server_with_client();
    let cid = ClientId("1".to_string());
    server.grants.store_grant("GOOD", &cid, None, 0);
    let auth = registered_client().http_basic_authentication_generate();
    let body = "grant_type=password&grant_type=authorization_code&code=BAD&code=GOOD";
    let r = server.handle_token_request(Some(&auth), body.as_bytes());
    match r {
        TokenRequestOutcome::Issue { code, .. } => assert_eq!(code, "GOOD"),
        TokenRequestOutcome::Failure { response, .. } => {
            panic!("last values should win: {}", response.body)
        },
    }
}

#[test]
fn test_authz_rejects_undecodable_parameter() {
    let server = server_with_client();
    // %FF cannot decode to UTF-8
    let r = server.handle_authz_request("http://s/authorization?client_id=%FF");
    assert!(matches!(r, Err(OAuthError::Utf8)));
}

#[test]
fn test_authz_rejects_relative_uri() {
    let server = server_with_client();
    let r = server.handle_authz_request("/authorization?client_id=1");
    assert!(matches!(r, Err(OAuthError::Url)));
}

#[test]
fn test_scope_round_trip() {
    let mut client = Client::new(registered_client());
    let server = server_with_client();
    let start = client.start_oauth(Some("read write"), "http://s/authorization").unwrap();
    // a space in the scope is carried encoded and comes back decoded, but
    // the engine flags it: a scope is NQCHAR and cannot hold a space
    let (req, err) = server.handle_authz_request(&start.location).unwrap();
    assert_eq!(req.scope.as_deref(), Some("read write"));
    assert_eq!(err.unwrap().error, AuthzErrorCode::InvalidScope);

    // a single scope token passes
    let start = client.start_oauth(Some("read"), "http://s/authorization").unwrap();
    let (req, err) = server.handle_authz_request(&start.location).unwrap();
    assert_eq!(req.scope.as_deref(), Some("read"));
    assert!(err.is_none());
}

#[test]
fn test_token_missing_grant_type() {
    let mut server = server_with_client();
    let auth = registered_client().http_basic_authentication_generate();
    let r = server.handle_token_request(Some(&auth), "code=X".as_bytes());
    match r {
        TokenRequestOutcome::Failure { response, .. } => {
            assert_eq!(response.status, 400);
            assert!(response.body.contains("\"invalid_request\""));
        },
        TokenRequestOutcome::Issue { .. } => panic!("missing grant_type accepted"),
    }
}

#[test]
fn test_token_undecodable_credentials() {
    let mut server = server_with_client();
    let auth = oauth2::BasicAuth {
        username: "1".to_string(),
        password: Some("%FF".to_string()),
    };
    let r = server.handle_token_request(
        Some(&auth),
        "grant_type=authorization_code&code=X".as_bytes(),
    );
    match r {
        TokenRequestOutcome::Failure { response, .. } => {
            assert_eq!(response.status, 400);
            assert!(response.body.contains("\"invalid_request\""));
            assert!(response.body.contains("UTF-8"));
        },
        TokenRequestOutcome::Issue { .. } => panic!("undecodable credentials accepted"),
    }
}
