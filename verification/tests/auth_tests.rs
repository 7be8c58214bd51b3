use http_proxy_core::auth::{build_auth_table, build_authenticate_resp, BasicAuthTable};

#[test]
fn empty_table_allows_everything() {
    let table = build_auth_table(&vec![]);
    let (user, authed) = table.check_auth(None);
    assert!(authed);
    assert_eq!(user, "unknown");
    let header = String::from("Basic anything");
    let (user, authed) = table.check_auth(Some(&header));
    assert!(authed);
    assert_eq!(user, "unknown");
}

#[test]
fn single_user_round_trip() {
    let table = build_auth_table(&vec![String::from("alice:secret")]);
    assert_eq!(table.entries.len(), 1);
    // base64("alice:secret") with the standard alphabet; the raw credential
    // must not appear in the key.
    assert_eq!(table.entries[0].0, "Basic YWxpY2U6c2VjcmV0");
    assert_eq!(table.entries[0].1, "alice");
    let header = String::from("Basic YWxpY2U6c2VjcmV0");
    let (user, authed) = table.check_auth(Some(&header));
    assert!(authed);
    assert_eq!(user, "alice");
}

#[test]
fn wrong_or_missing_credential_rejected() {
    let table = build_auth_table(&vec![String::from("alice:secret")]);
    let (user, authed) = table.check_auth(None);
    assert!(!authed);
    assert_eq!(user, "unknown");
    let header = String::from("Basic d3Jvbmc6d3Jvbmc=");
    let (user, authed) = table.check_auth(Some(&header));
    assert!(!authed);
    assert_eq!(user, "unknown");
    // A prefix or suffix mismatch is a mismatch: comparison is exact.
    let header = String::from("basic YWxpY2U6c2VjcmV0");
    let (_, authed) = table.check_auth(Some(&header));
    assert!(!authed);
}

#[test]
fn malformed_credentials_dropped() {
    let users = vec![
        String::from(""),
        String::from("nopassword"),
        String::from(":pass"),
        String::from("user:"),
        String::from("bob:pw:extra"),
    ];
    let table = build_auth_table(&users);
    // Only "bob:pw:extra" has a non-empty user and password.
    assert_eq!(table.entries.len(), 1);
    assert_eq!(table.entries[0].1, "bob");
}

#[test]
fn multiple_users_each_authenticate() {
    let users = vec![String::from("alice:secret"), String::from("bob:hunter2")];
    let table = build_auth_table(&users);
    assert_eq!(table.entries.len(), 2);
    let bob = String::from("Basic Ym9iOmh1bnRlcjI=");
    let (user, authed) = table.check_auth(Some(&bob));
    assert!(authed);
    assert_eq!(user, "bob");
}

#[test]
fn proxy_challenge_is_407() {
    let resp = build_authenticate_resp(true);
    assert_eq!(resp.status, 407);
    assert_eq!(resp.header_name, "Proxy-Authenticate");
    assert_eq!(resp.header_value, "Basic realm=\"are you kidding me\"");
    assert_eq!(resp.body, "auth need");
}

#[test]
fn origin_challenge_is_401() {
    let resp = build_authenticate_resp(false);
    assert_eq!(resp.status, 401);
    assert_eq!(resp.header_name, "WWW-Authenticate");
    assert_eq!(resp.header_value, "Basic realm=\"are you kidding me\"");
}

#[test]
fn table_new_is_empty() {
    let table = BasicAuthTable::new();
    assert!(table.is_empty());
}
