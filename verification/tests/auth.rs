use base64::Engine;
use onesync::graph::error::GraphInternalError;
use onesync::graph::id_token::{parse, CONSUMER_TENANT_ID};
use onesync::graph::listener::{accept_redirect, parse_code_and_state, url_decode};
use onesync::graph::pkce::{challenge_for, from_raw_bytes, generate};
use onesync::graph::token::{
    check_token_reply, code_exchange_form, refresh_form, token_parse_error, token_url, TokenGrant,
};
use onesync::protocol::enums::AccountKind;

fn make_token(payload_json: &str) -> String {
    let engine = base64::engine::general_purpose::URL_SAFE_NO_PAD;
    let header = engine.encode(r#"{"alg":"RS256","typ":"JWT"}"#);
    let body = engine.encode(payload_json);
    format!("{header}.{body}.fakesig")
}

#[test]
fn personal_account_tid_yields_personal_kind() {
    let token = make_token(&format!(
        r#"{{"tid":"{CONSUMER_TENANT_ID}","oid":"oid-123","preferred_username":"alice@outlook.com","name":"Alice"}}"#
    ));
    let claims = parse(&token).unwrap();
    assert_eq!(claims.kind, AccountKind::Personal);
    assert_eq!(claims.upn, "alice@outlook.com");
    assert_eq!(claims.display_name, "Alice");
    assert_eq!(claims.oid, "oid-123");
    assert_eq!(claims.tid, CONSUMER_TENANT_ID);
}

#[test]
fn business_account_tid_yields_business_kind() {
    let token = make_token(
        r#"{"tid":"11111111-1111-1111-1111-111111111111","oid":"oid-456","preferred_username":"bob@company.com","name":"Bob"}"#,
    );
    let claims = parse(&token).unwrap();
    assert_eq!(claims.kind, AccountKind::Business);
    assert_eq!(claims.upn, "bob@company.com");
}

#[test]
fn malformed_token_returns_decode_error() {
    let err = parse("not.valid").unwrap_err();
    assert!(matches!(err, GraphInternalError::Decode { .. }), "expected Decode, got {err:?}");
}

#[test]
fn upn_falls_back_to_upn_claim() {
    let token = make_token(
        r#"{"tid":"11111111-1111-1111-1111-111111111111","oid":"oid-789","upn":"carol@example.com","name":"Carol"}"#,
    );
    let claims = parse(&token).unwrap();
    assert_eq!(claims.upn, "carol@example.com");
}

#[test]
fn id_token_errors_name_what_is_missing() {
    match parse("a.b") {
        Err(GraphInternalError::Decode { detail }) => {
            assert_eq!(detail, "id_token does not have 3 dot-separated segments")
        }
        other => panic!("unexpected {other:?}"),
    }
    match parse(&make_token(r#"{"oid":"x"}"#)) {
        Err(GraphInternalError::Decode { detail }) => assert_eq!(detail, "id_token missing required claim 'tid'"),
        other => panic!("unexpected {other:?}"),
    }
    match parse(&make_token(r#"{"tid":"t"}"#)) {
        Err(GraphInternalError::Decode { detail }) => assert_eq!(detail, "id_token missing required claim 'oid'"),
        other => panic!("unexpected {other:?}"),
    }
    let claims = parse(&make_token(r#"{"tid":"t","oid":"o"}"#)).unwrap();
    assert_eq!(claims.upn, "");
    assert_eq!(claims.display_name, "");
    match parse("h.@@@.s") {
        Err(GraphInternalError::Decode { detail }) => {
            assert!(detail.starts_with("id_token payload base64 decode failed: "))
        }
        other => panic!("unexpected {other:?}"),
    }
}

#[test]
fn verifier_matches_rfc_7636_char_set_and_length() {
    let pair = generate().expect("random source");
    assert!(pair.verifier.len() >= 43 && pair.verifier.len() <= 128);
    assert!(pair
        .verifier
        .chars()
        .all(|c| c.is_ascii_alphanumeric() || matches!(c, '_' | '~' | '.' | '-')));
}

#[test]
fn challenge_is_43_chars() {
    let pair = generate().expect("random source");
    assert_eq!(pair.challenge.len(), 43);
}

#[test]
fn rfc_7636_appendix_b_known_vector() {
    let verifier = "dBjftJeZ4CVP-mB92K27uhbUJU1p1r_wW1gFWFOEjXk";
    let expected_challenge = "E9Melhoa2OwvFrEMTJguCHaoeK1t8URWbuGJSstw-cM";
    assert_eq!(challenge_for(verifier), expected_challenge);
}

#[test]
fn generate_produces_distinct_pairs() {
    let a = generate().expect("random source");
    let b = generate().expect("random source");
    assert_ne!(a.verifier, b.verifier);
}

#[test]
fn pair_from_fixed_bytes_is_deterministic() {
    let raw = [7u8; 32];
    let a = from_raw_bytes(&raw);
    let b = from_raw_bytes(&raw);
    assert_eq!(a.verifier, b.verifier);
    assert_eq!(a.verifier, "BwcHBwcHBwcHBwcHBwcHBwcHBwcHBwcHBwcHBwcHBwc");
    assert_eq!(a.challenge, challenge_for(&a.verifier));
}

#[test]
fn happy_path_returns_code_and_state() {
    let req = "GET /callback?code=my-auth-code&state=test-state-abc HTTP/1.1\r\nHost: localhost\r\n\r\n";
    let (code, state) = accept_redirect(req, "test-state-abc").unwrap();
    assert_eq!(code, "my-auth-code");
    assert_eq!(state, "test-state-abc");
}

#[test]
fn state_mismatch_returns_decode_error() {
    let req = "GET /callback?code=code&state=WRONG HTTP/1.1\r\nHost: localhost\r\n\r\n";
    let err = accept_redirect(req, "expected-state").unwrap_err();
    match err {
        GraphInternalError::Decode { detail } => {
            assert_eq!(detail, "OAuth state mismatch: expected \"expected-state\", got \"WRONG\"")
        }
        other => panic!("expected Decode error, got: {other:?}"),
    }
}

#[test]
fn redirect_parameters_are_decoded_and_required() {
    let (code, state) =
        parse_code_and_state("GET /cb?state=a%20b&code=x+y&code=z HTTP/1.1\r\n").unwrap();
    assert_eq!(code, "z");
    assert_eq!(state, "a b");
    assert!(matches!(parse_code_and_state("GET /cb?state=s HTTP/1.1"), Err(GraphInternalError::Decode { detail }) if detail == "OAuth redirect missing 'code' parameter"));
    assert!(matches!(parse_code_and_state("GET /cb?code=c HTTP/1.1"), Err(GraphInternalError::Decode { detail }) if detail == "OAuth redirect missing 'state' parameter"));
    assert!(matches!(parse_code_and_state(""), Err(GraphInternalError::Decode { detail }) if detail == "empty HTTP request"));
    assert_eq!(url_decode("a%2Fb+c%zz"), "a/b+c%zz");
    assert_eq!(url_decode("ab%2F"), "ab/");
    assert_eq!(url_decode("ab%2"), "ab%2");
}

#[test]
fn token_endpoint_url_and_forms() {
    assert_eq!(token_url("consumers"), "https://login.microsoftonline.com/consumers/oauth2/v2.0/token");
    let f = code_exchange_form("cid", "code-1", "http://localhost:1234/callback", "ver");
    let pairs: Vec<(&str, &str)> = f.iter().map(|(k, v)| (k.as_str(), v.as_str())).collect();
    assert_eq!(
        pairs,
        vec![
            ("client_id", "cid"),
            ("code", "code-1"),
            ("code_verifier", "ver"),
            ("grant_type", "authorization_code"),
            ("redirect_uri", "http://localhost:1234/callback"),
        ]
    );
    let f = refresh_form("cid", "rt");
    assert_eq!(f[1], ("refresh_token".to_owned(), "rt".to_owned()));
    assert_eq!(f[2], ("grant_type".to_owned(), "refresh_token".to_owned()));
}

#[test]
fn exchange_invalid_grant_returns_re_auth() {
    let body = r#"{"error":"invalid_grant","error_description":"The provided authorization code is expired."}"#;
    let err = check_token_reply(TokenGrant::AuthorizationCode, 400, "400 Bad Request", body).unwrap_err();
    assert!(matches!(err, GraphInternalError::ReAuthRequired { request_id } if request_id.is_empty()));
}

#[test]
fn refresh_invalid_grant_returns_re_auth() {
    let body = r#"{"error":"invalid_grant","error_description":"Refresh token has expired."}"#;
    let err = check_token_reply(TokenGrant::RefreshToken, 400, "400 Bad Request", body).unwrap_err();
    assert!(matches!(err, GraphInternalError::ReAuthRequired { .. }));
}

#[test]
fn token_reply_other_failures() {
    let err = check_token_reply(TokenGrant::RefreshToken, 400, "400 Bad Request", "nope").unwrap_err();
    assert!(matches!(err, GraphInternalError::Decode { detail } if detail == "refresh endpoint returned 400: nope"));
    let err = check_token_reply(TokenGrant::AuthorizationCode, 503, "503 Service Unavailable", "x").unwrap_err();
    assert!(matches!(err, GraphInternalError::Transient { detail, .. } if detail == "token endpoint returned 503 Service Unavailable: x"));
    assert!(check_token_reply(TokenGrant::AuthorizationCode, 200, "200 OK", "{}").is_ok());
    assert!(matches!(token_parse_error(TokenGrant::RefreshToken, "eof", "b"), GraphInternalError::Decode { detail } if detail == "refresh token response parse failed: eof: b"));
}
