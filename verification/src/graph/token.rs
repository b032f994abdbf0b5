//! The OAuth token endpoint: its URL, the form of the two grants (authorization
//! code with PKCE, refresh token) and the classification of its replies.
//!
//! A `400` whose JSON `error` is `invalid_grant` means the user must sign in
//! again; any other `400` is a decode error carrying the body; any other
//! non-2xx status is transient.

use vstd::prelude::*;

use crate::graph::error::{GraphInternalError, GraphInternalErrorView};
use crate::graph::json::{json_str, json_str_at};
use crate::text::str_equal;
use vstd::utf8::encode_utf8;

verus! {

/// A successful token-endpoint reply.
#[derive(Debug, Clone)]
pub struct TokenResponse {
    pub access_token: String,
    pub refresh_token: String,
    pub id_token: String,
    pub expires_in: u64,
    pub scope: String,
}

/// Which grant a token request uses.
#[derive(Clone, Copy, Debug, PartialEq, Eq, Structural)]
pub enum TokenGrant {
    /// Authorization code with a PKCE verifier.
    AuthorizationCode,
    /// A refresh token.
    RefreshToken,
}

/// The word that names the endpoint in error details.
pub open spec fn grant_label(g: TokenGrant) -> Seq<char> {
    match g {
        TokenGrant::AuthorizationCode => "token"@,
        TokenGrant::RefreshToken => "refresh"@,
    }
}

/// The prefix of the detail of an unparsable successful reply.
pub open spec fn parse_failure_prefix(g: TokenGrant) -> Seq<char> {
    match g {
        TokenGrant::AuthorizationCode => "token response parse failed: "@,
        TokenGrant::RefreshToken => "refresh token response parse failed: "@,
    }
}

fn label(g: TokenGrant) -> (s: String)
    ensures
        s@ == grant_label(g),
{
    match g {
        TokenGrant::AuthorizationCode => String::from_str("token"),
        TokenGrant::RefreshToken => String::from_str("refresh"),
    }
}

/// The v2.0 token endpoint of `authority` (`common`, `consumers`,
/// `organizations` or a tenant id).
pub fn token_url(authority: &str) -> (u: String)
    ensures
        u@ == "https://login.microsoftonline.com/"@ + authority@ + "/oauth2/v2.0/token"@,
{
    String::from_str("https://login.microsoftonline.com/").concat(authority).concat("/oauth2/v2.0/token")
}

/// The views of form fields.
pub open spec fn fields_view(v: Seq<(String, String)>) -> Seq<(Seq<char>, Seq<char>)> {
    v.map_values(|p: (String, String)| (p.0@, p.1@))
}

fn field(k: &str, v: &str) -> (p: (String, String))
    ensures
        p.0@ == k@,
        p.1@ == v@,
{
    (String::from_str(k), String::from_str(v))
}

/// The form of an authorization-code exchange.
pub fn code_exchange_form(client_id: &str, code: &str, redirect_uri: &str, pkce_verifier: &str) -> (f: Vec<(String, String)>)
    ensures
        fields_view(f@) == seq![
            ("client_id"@, client_id@),
            ("code"@, code@),
            ("code_verifier"@, pkce_verifier@),
            ("grant_type"@, "authorization_code"@),
            ("redirect_uri"@, redirect_uri@),
        ],
{
    let mut f: Vec<(String, String)> = Vec::new();
    f.push(field("client_id", client_id));
    f.push(field("code", code));
    f.push(field("code_verifier", pkce_verifier));
    f.push(field("grant_type", "authorization_code"));
    f.push(field("redirect_uri", redirect_uri));
    proof {
        assert(fields_view(f@) =~= seq![
            ("client_id"@, client_id@),
            ("code"@, code@),
            ("code_verifier"@, pkce_verifier@),
            ("grant_type"@, "authorization_code"@),
            ("redirect_uri"@, redirect_uri@),
        ]);
    }
    f
}

/// The form of a refresh-token exchange.
pub fn refresh_form(client_id: &str, refresh_token: &str) -> (f: Vec<(String, String)>)
    ensures
        fields_view(f@) == seq![
            ("client_id"@, client_id@),
            ("refresh_token"@, refresh_token@),
            ("grant_type"@, "refresh_token"@),
        ],
{
    let mut f: Vec<(String, String)> = Vec::new();
    f.push(field("client_id", client_id));
    f.push(field("refresh_token", refresh_token));
    f.push(field("grant_type", "refresh_token"));
    proof {
        assert(fields_view(f@) =~= seq![
            ("client_id"@, client_id@),
            ("refresh_token"@, refresh_token@),
            ("grant_type"@, "refresh_token"@),
        ]);
    }
    f
}

/// The error a token-endpoint reply maps to, `None` on success.
pub open spec fn token_reply_error(g: TokenGrant, status: u16, status_text: Seq<char>, body: Seq<char>) -> Option<
    GraphInternalErrorView,
> {
    if status == 400 {
        if json_str_at(encode_utf8(body), "/error"@) == Some("invalid_grant"@) {
            Some(GraphInternalErrorView::ReAuthRequired { request_id: Seq::empty() })
        } else {
            Some(
                GraphInternalErrorView::Decode {
                    detail: grant_label(g) + " endpoint returned 400: "@ + body,
                },
            )
        }
    } else if !(200 <= status <= 299) {
        Some(
            GraphInternalErrorView::Transient {
                detail: grant_label(g) + " endpoint returned "@ + status_text + ": "@ + body,
                request_id: Seq::empty(),
            },
        )
    } else {
        None
    }
}

/// A `400` from the token endpoint means the user must sign in again exactly
/// when the body's JSON `error` is the string `invalid_grant`; with any other
/// error, or none, it is a decode error whose detail is `"token endpoint
/// returned 400: "` (`"refresh …"` for a refresh) followed by the body.
pub proof fn law_bad_request_reauth_only_on_invalid_grant(g: TokenGrant, status_text: Seq<char>, body: Seq<char>)
    ensures
        ({
            let error = json_str_at(encode_utf8(body), "/error"@);
            error == Some("invalid_grant"@) ==> token_reply_error(g, 400, status_text, body) == Some(
                GraphInternalErrorView::ReAuthRequired { request_id: Seq::empty() },
            )
        }),
        json_str_at(encode_utf8(body), "/error"@) != Some("invalid_grant"@) ==> token_reply_error(
            g,
            400,
            status_text,
            body,
        ) == Some(
                GraphInternalErrorView::Decode {
                    detail: match g {
                        TokenGrant::AuthorizationCode => "token endpoint returned 400: "@,
                        TokenGrant::RefreshToken => "refresh endpoint returned 400: "@,
                    } + body,
                },
            ),
{
    reveal_strlit("token");
    reveal_strlit("refresh");
    reveal_strlit(" endpoint returned 400: ");
    reveal_strlit("token endpoint returned 400: ");
    reveal_strlit("refresh endpoint returned 400: ");
    let label = grant_label(g);
    let tail = " endpoint returned 400: "@;
    let whole = match g {
        TokenGrant::AuthorizationCode => "token endpoint returned 400: "@,
        TokenGrant::RefreshToken => "refresh endpoint returned 400: "@,
    };
    assert(label + tail =~= whole);
    assert(label + tail + body =~= whole + body);
}

/// Classifies a token-endpoint reply; `status_text` is the status as
/// `Display` writes it.
pub fn check_token_reply(g: TokenGrant, status: u16, status_text: &str, body: &str) -> (r: Result<(), GraphInternalError>)
    ensures
        match token_reply_error(g, status, status_text@, body@) {
            None => r is Ok,
            Some(v) => r matches Err(e) && e@ == v,
        },
{
    if status == 400 {
        let code = json_str(body.as_bytes(), "/error");
        let invalid_grant = match &code {
            Some(c) => str_equal(c.as_str(), "invalid_grant"),
            None => false,
        };
        if invalid_grant {
            return Err(GraphInternalError::ReAuthRequired { request_id: String::new() });
        }
        return Err(
            GraphInternalError::Decode {
                detail: label(g).concat(" endpoint returned 400: ").concat(body),
            },
        );
    }
    if !(200 <= status && status <= 299) {
        return Err(
            GraphInternalError::Transient {
                detail: label(g).concat(" endpoint returned ").concat(status_text).concat(": ").concat(
                    body,
                ),
                request_id: String::new(),
            },
        );
    }
    Ok(())
}

/// The error for a successful reply whose body is not a token response:
/// the parser's message and the body.
pub fn token_parse_error(g: TokenGrant, message: &str, body: &str) -> (e: GraphInternalError)
    ensures
        e@ == (GraphInternalErrorView::Decode {
            detail: parse_failure_prefix(g) + message@ + ": "@ + body@,
        }),
{
    let prefix = match g {
        TokenGrant::AuthorizationCode => String::from_str("token response parse failed: "),
        TokenGrant::RefreshToken => String::from_str("refresh token response parse failed: "),
    };
    GraphInternalError::Decode { detail: prefix.concat(message).concat(": ").concat(body) }
}

} // verus!
