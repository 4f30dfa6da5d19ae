//! The codecs: form-urlencoding (cross-checked against the url crate),
//! query parsing, URIs, Basic credentials, JSON emission, and the small
//! data-model helpers.

use oauth2::client_data::{credentials_match, ClientData};
use oauth2::form::{form_urldecode, form_urlencode};
use oauth2::json::u32_to_string;
use oauth2::uri::{append_query_pair, parse_uri_params, uri_has_scheme};
use oauth2::{classify_token_response, AuthzErrorCode, BasicAuth, ClientId, ClientType,
    OAuthError, RedirectUri, TokenData, TokenError, TokenErrorCode, TokenResponseClass};

#[test]
fn test_form_urlencode_basics() {
    assert_eq!(form_urlencode("abcXYZ019*-._"), "abcXYZ019*-._");
    assert_eq!(form_urlencode("a b"), "a+b");
    assert_eq!(form_urlencode("http://c/r"), "http%3A%2F%2Fc%2Fr");
    assert_eq!(form_urlencode("a&b=c"), "a%26b%3Dc");
    assert_eq!(form_urlencode("caf\u{e9}"), "caf%C3%A9");
}

#[test]
fn test_form_urlencode_matches_url_crate() {
    let samples = [
        "",
        "plain",
        "a b c",
        "http://c/r?x=1&y=2#frag",
        "100% sure + more",
        "caf\u{e9} \u{2028} \u{10FFFC}",
        "~!@#$%^&*()_+{}|:\"<>?",
    ];
    for s in samples {
        let theirs: String = url::form_urlencoded::byte_serialize(s.as_bytes()).collect();
        assert_eq!(form_urlencode(s), theirs);
    }
}

#[test]
fn test_form_urldecode_roundtrip() {
    let samples = ["", "plain", "a b c", "http://c/r?x=1", "caf\u{e9} \u{10FFFC}", "%%%"];
    for s in samples {
        assert_eq!(form_urldecode(&form_urlencode(s)).unwrap(), s);
    }
    // lenient decoding: stray percent signs stay, plus becomes space
    assert_eq!(form_urldecode("100%").unwrap(), "100%");
    assert_eq!(form_urldecode("a+b%20c").unwrap(), "a b c");
    assert_eq!(form_urldecode("%zz").unwrap(), "%zz");
    // invalid UTF-8 after decoding is refused
    assert!(form_urldecode("%FF").is_none());
}

#[test]
fn test_parse_uri_params() {
    let ps = parse_uri_params("http://h/p?a=1&b=two+words&c&&d=%26").unwrap();
    assert_eq!(ps.len(), 4);
    assert_eq!(ps[0], ("a".to_string(), "1".to_string()));
    assert_eq!(ps[1], ("b".to_string(), "two words".to_string()));
    assert_eq!(ps[2], ("c".to_string(), "".to_string()));
    assert_eq!(ps[3], ("d".to_string(), "&".to_string()));

    // no query, and fragments are not parameters
    assert_eq!(parse_uri_params("http://h/p").unwrap().len(), 0);
    assert_eq!(parse_uri_params("http://h/p#a=1").unwrap().len(), 0);
    let ps = parse_uri_params("http://h/p?a=1#b=2").unwrap();
    assert_eq!(ps.len(), 1);
    assert_eq!(ps[0].0, "a");
}

#[test]
fn test_parse_matches_url_crate() {
    let queries = ["a=1&b=two+words&c&&d=%26", "x=%C3%A9", "=v&k="];
    for q in queries {
        let ours = parse_uri_params(&format!("http://h/p?{}", q)).unwrap();
        let theirs: Vec<(String, String)> = url::form_urlencoded::parse(q.as_bytes())
            .map(|(k, v)| (k.into_owned(), v.into_owned()))
            .collect();
        assert_eq!(ours, theirs);
    }
}

#[test]
fn test_uri_has_scheme() {
    assert!(uri_has_scheme("http://c/r"));
    assert!(uri_has_scheme("urn:x"));
    assert!(uri_has_scheme("a+b-c.d:rest"));
    assert!(!uri_has_scheme("/relative/path?q=1"));
    assert!(!uri_has_scheme("://missing"));
    assert!(!uri_has_scheme("no colon"));
    assert!(!uri_has_scheme("1http://digit-first"));
}

#[test]
fn test_append_query_pair() {
    let mut url = "http://c/r".to_string();
    append_query_pair(&mut url, "code", "a b&c");
    assert_eq!(url, "http://c/r?code=a+b%26c");
    append_query_pair(&mut url, "state", "N");
    assert_eq!(url, "http://c/r?code=a+b%26c&state=N");
}

#[test]
fn test_basic_authentication_round_trip() {
    let c = ClientData {
        client_id: ClientId("a client:with specials".to_string()),
        client_type: ClientType::PublicClient,
        redirect_uri: vec![RedirectUri("http://c/r".to_string())],
        credentials: "p&ss wor%d".to_string(),
        authn_scheme: None,
    };
    let auth = c.http_basic_authentication_generate();
    assert_eq!(auth.username, "a+client%3Awith+specials");
    let (cid, creds) = ClientData::http_basic_authentication_deconstruct(&auth).unwrap();
    assert_eq!(cid.0, "a client:with specials");
    assert_eq!(creds, "p&ss wor%d");

    // a missing password stands for empty credentials
    let bare = BasicAuth { username: "1".to_string(), password: None };
    let (cid, creds) = ClientData::http_basic_authentication_deconstruct(&bare).unwrap();
    assert_eq!(cid.0, "1");
    assert_eq!(creds, "");
}

#[test]
fn test_credentials_match() {
    assert!(credentials_match("boo", "boo"));
    assert!(!credentials_match("boo", "bo"));
    assert!(!credentials_match("boo", "boa"));
    assert!(!credentials_match("aoo", "boo"));
    assert!(credentials_match("", ""));
}

#[test]
fn test_token_data_json_full() {
    let t = TokenData {
        access_token: "tok\"en".to_string(),
        token_type: "bearer".to_string(),
        expires_in: Some(3600),
        refresh_token: Some("r1".to_string()),
        scope: Some("read".to_string()),
    };
    assert_eq!(
        t.as_json(),
        "{\r\n  \"access_token\": \"tok\\\"en\",\r\n  \"token_type\": \"bearer\",\r\n  \"expires_in\": 3600,\r\n  \"refresh_token\": \"r1\",\r\n  \"scope\": \"read\"\r\n}"
    );
}

#[test]
fn test_token_data_json_omits_absent_fields() {
    let t = TokenData {
        access_token: "a".to_string(),
        token_type: "bearer".to_string(),
        expires_in: None,
        refresh_token: None,
        scope: None,
    };
    let body = t.as_json();
    assert_eq!(body, "{\r\n  \"access_token\": \"a\",\r\n  \"token_type\": \"bearer\"\r\n}");
    assert!(!body.contains("null"));
    assert!(!body.contains("expires_in"));
    assert!(!body.contains("refresh_token"));
    assert!(!body.contains("scope"));
    // what the emitter writes is valid JSON
    let v: serde_json::Value = serde_json::from_str(&body).unwrap();
    assert_eq!(v["access_token"], "a");
    assert_eq!(v.get("expires_in"), None);
}

#[test]
fn test_token_error_json() {
    let e = TokenError {
        error: TokenErrorCode::InvalidGrant,
        error_description: Some("Invalid authorization code".to_string()),
        error_uri: None,
    };
    assert_eq!(
        e.as_json(),
        "{\r\n  \"error\": \"invalid_grant\",\r\n  \"error_description\": \"Invalid authorization code\"\r\n}"
    );
    let v: serde_json::Value = serde_json::from_str(&e.as_json()).unwrap();
    assert_eq!(v["error"], "invalid_grant");

    let bare = TokenError {
        error: TokenErrorCode::UnsupportedGrantType,
        error_description: None,
        error_uri: None,
    };
    assert_eq!(bare.as_json(), "{\r\n  \"error\": \"unsupported_grant_type\"\r\n}");
    assert!(!bare.as_json().contains("null"));
}

#[test]
fn test_error_code_names() {
    assert_eq!(AuthzErrorCode::InvalidRequest.as_str(), "invalid_request");
    assert_eq!(AuthzErrorCode::UnauthorizedClient.as_str(), "unauthorized_client");
    assert_eq!(AuthzErrorCode::AccessDenied.as_str(), "access_denied");
    assert_eq!(AuthzErrorCode::UnsupportedResponseType.as_str(), "unsupported_response_type");
    assert_eq!(AuthzErrorCode::InvalidScope.as_str(), "invalid_scope");
    assert_eq!(AuthzErrorCode::ServerError.as_str(), "server_error");
    assert_eq!(AuthzErrorCode::TemporarilyUnavailable.as_str(), "temporarily_unavailable");
    assert_eq!(AuthzErrorCode::from_wire("access_denied"), Some(AuthzErrorCode::AccessDenied));
    assert_eq!(AuthzErrorCode::from_wire("not_a_code"), None);
    assert_eq!(TokenErrorCode::InvalidClient.as_str(), "invalid_client");
    assert_eq!(TokenErrorCode::InvalidRequest.as_str(), "invalid_request");
    assert_eq!(TokenErrorCode::InvalidGrant.as_str(), "invalid_grant");
    assert_eq!(TokenErrorCode::UnauthorizedClient.as_str(), "unauthorized_client");
    assert_eq!(TokenErrorCode::InvalidScope.as_str(), "invalid_scope");
}

#[test]
fn test_error_descriptions() {
    assert_eq!(OAuthError::AuthzBadRequest.description(), "Bad Request");
    assert_eq!(OAuthError::AuthzMissingClientId.description(), "Missing `client_id`");
    assert_eq!(OAuthError::AuthzUnknownClient.description(), "Unknown Client");
    assert_eq!(
        OAuthError::AuthzRedirectUrlNotRegistered.description(),
        "`redirect_url` Not Registered"
    );
    assert_eq!(OAuthError::ClientCodeMissing.description(), "`code` Missing");
    assert_eq!(OAuthError::ClientStateMissing.description(), "`state` Missing");
    assert_eq!(OAuthError::ClientNonceMismatch.description(), "`nonce` Mismatch");
    assert_eq!(OAuthError::UnexpectedStatusCode.description(), "Unexpected HTTP Status Code");
}

#[test]
fn test_client_type_names() {
    assert_eq!(ClientType::ConfidentialClient.as_str(), "confidential");
    assert_eq!(ClientType::PublicClient.as_str(), "public");
}

#[test]
fn test_classify_token_response() {
    assert!(matches!(classify_token_response(200), TokenResponseClass::Success));
    assert!(matches!(classify_token_response(400), TokenResponseClass::ProtocolError));
    assert!(matches!(classify_token_response(401), TokenResponseClass::ProtocolError));
    assert!(matches!(classify_token_response(302), TokenResponseClass::Transport));
    assert!(matches!(classify_token_response(500), TokenResponseClass::Transport));
}

#[test]
fn test_u32_to_string() {
    assert_eq!(u32_to_string(0), "0");
    assert_eq!(u32_to_string(7), "7");
    assert_eq!(u32_to_string(3600), "3600");
    assert_eq!(u32_to_string(4294967295), "4294967295");
}
