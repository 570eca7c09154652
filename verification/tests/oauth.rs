use demido_studio::oauth::{
    auth_url, avatar_data_url, begin_authorization, code_challenge, constant_time_eq,
    extract_query_param, google_account, hex_string, oauth_callback, percent_decode_simple,
    redirect_uri, token_grant, urlencoded, BAD_STATE_REPLY, SCOPES,
};

#[test]
fn comparisons_take_the_whole_input() {
    assert!(constant_time_eq(b"abc", b"abc"));
    assert!(!constant_time_eq(b"abc", b"abd"));
    assert!(!constant_time_eq(b"abc", b"ab"));
}

#[test]
fn urls_escape_everything_but_the_unreserved() {
    assert_eq!(urlencoded("a b/c~d-e.f_g"), "a%20b%2Fc~d-e.f_g");
    assert_eq!(urlencoded("é"), "%C3%A9");
    assert_eq!(percent_decode_simple("a%20b%C3%A9"), "a bé");
    assert_eq!(percent_decode_simple("100%"), "100%");
}

#[test]
fn the_callback_gives_the_code_only_for_the_right_state() {
    let req = "GET /?code=4%2F0Ab&state=xyz HTTP/1.1\r\nHost: 127.0.0.1\r\n\r\n";
    assert_eq!(extract_query_param(req, "code").as_deref(), Some("4/0Ab"));
    assert_eq!(extract_query_param(req, "missing"), None);
    assert_eq!(oauth_callback(req, "xyz").unwrap(), "4/0Ab");
    assert_eq!(oauth_callback(req, "other").unwrap_err(), "OAuth state mismatch \u{2014} possible CSRF attack");
    assert_eq!(
        oauth_callback("GET /?state=xyz HTTP/1.1\r\n\r\n", "xyz").unwrap_err(),
        "No code in OAuth callback"
    );
    assert!(BAD_STATE_REPLY.starts_with("HTTP/1.1 400"));
}

#[test]
fn pkce_and_the_authorization_page() {
    // RFC 7636, appendix B.
    assert_eq!(
        code_challenge("dBjftJeZ4CVP-mB92K27uhbUJU1p1r_wW1gFWFOEjXk"),
        "E9Melhoa2OwvFrEMTJguCHaoeK1t8URWbuGJSstw-cM"
    );
    assert_eq!(redirect_uri(8080), "http://127.0.0.1:8080");
    let u = auth_url("id 1", "http://127.0.0.1:1", "ch", "st");
    assert!(u.starts_with("https://accounts.google.com/o/oauth2/v2/auth?client_id=id%201&redirect_uri=http%3A%2F%2F127.0.0.1%3A1"));
    assert!(u.contains("&code_challenge=ch&code_challenge_method=S256&state=st"));
    assert!(u.ends_with("&access_type=offline&prompt=consent"));
    assert!(u.contains(&urlencoded(SCOPES)));
    assert_eq!(hex_string(&[0x00, 0xab, 0x10]), "00ab10");
}

#[test]
fn a_started_authorization_is_fresh_each_time() {
    let a = begin_authorization("cid", 4321).unwrap();
    let b = begin_authorization("cid", 4321).unwrap();
    assert_eq!(a.redirect_uri, "http://127.0.0.1:4321");
    assert_ne!(a.state, b.state);
    assert_ne!(a.code_verifier, b.code_verifier);
    assert_eq!(a.url, auth_url("cid", &a.redirect_uri, &code_challenge(&a.code_verifier), &a.state));
}

#[test]
fn token_answers_are_refused_or_granted() {
    assert_eq!(
        token_grant(Some(Some("invalid_grant".into())), Some("Bad code".into()), None, None, None, 0).unwrap_err(),
        "OAuth error: invalid_grant \u{2014} Bad code"
    );
    assert_eq!(token_grant(Some(None), None, None, None, None, 0).unwrap_err(), "OAuth error: unknown \u{2014} ");
    assert_eq!(token_grant(None, None, None, None, None, 0).unwrap_err(), "Missing access_token");
    let g = token_grant(None, None, Some("at".into()), Some("rt".into()), None, 100).unwrap();
    assert_eq!(g.access_token, "at");
    assert_eq!(g.refresh_token.as_deref(), Some("rt"));
    assert_eq!(g.token_expiry, 3700);
    let acc = google_account(Some("me@x.org".into()), None, None, None, g);
    assert_eq!(acc.id, "google:me@x.org");
    assert_eq!(acc.email, "me@x.org");
    assert_eq!(acc.token_expiry, Some(3700));
    assert_eq!(acc.services, vec!["email", "calendar", "contacts"]);
}

#[test]
fn avatars_become_data_urls() {
    assert_eq!(avatar_data_url(Some("image/png; charset=x"), b"hi"), "data:image/png;base64,aGk=");
    assert_eq!(avatar_data_url(None, b""), "data:image/jpeg;base64,");
}
