//! Management surface: configuration mutations, session handling, and
//! the API payload builders.

use net_relay::api;
use net_relay::config::{
    AccessControlConfig, AccessRule, Config, RuleAction, SecurityConfig, ServerConfig, User,
};
use net_relay::session::{self, SessionStore};

fn user(name: &str, pass: &str) -> User {
    User {
        username: name.to_string(),
        password: pass.to_string(),
        enabled: true,
        description: None,
        bandwidth_limit: 0,
        connection_limit: 0,
    }
}

#[test]
fn documented_defaults() {
    let c = Config::default();
    assert_eq!(c.server.host, "0.0.0.0");
    assert_eq!(c.server.socks_port, 1080);
    assert_eq!(c.server.http_port, 8080);
    assert_eq!(c.server.api_port, 3000);
    assert!(!c.security.auth_enabled);
    assert!(c.access_control.allow_by_default);
    assert_eq!(c.logging.level, "info");
    assert_eq!(c.stats.retention_hours, 24);
    assert!(c.stats.enabled);
    assert_eq!(c.limits.max_connections, 1000);
}

#[test]
fn authenticate_returns_stored_username() {
    let mut s = SecurityConfig::default();
    assert!(s.add_user(user("alice", "s3cret")));
    assert_eq!(s.authenticate("alice", "s3cret"), Some("alice".to_string()));
    assert_eq!(s.authenticate("alice", "wrong"), None);
    assert_eq!(s.authenticate("bob", "s3cret"), None);
    assert!(s.authenticate_dashboard("alice", "s3cret"));
}

#[test]
fn duplicate_username_is_refused() {
    let mut s = SecurityConfig::default();
    assert!(s.add_user(user("alice", "one")));
    assert!(!s.add_user(user("alice", "two")));
    assert_eq!(s.users.len(), 1);
    assert_eq!(s.users[0].password, "one");
}

#[test]
fn remove_and_update_user() {
    let mut s = SecurityConfig::default();
    s.add_user(user("alice", "a"));
    s.add_user(user("bob", "b"));
    s.remove_user("alice");
    assert_eq!(s.users.len(), 1);
    assert_eq!(s.users[0].username, "bob");
    assert!(s.update_user("bob", Some("newpass".to_string()), Some(false), None));
    assert_eq!(s.users[0].password, "newpass");
    assert!(!s.users[0].enabled);
    assert!(!s.update_user("carol", None, None, None));
}

#[test]
fn ip_list_mutations_deduplicate() {
    let mut ac = AccessControlConfig::default();
    assert!(ac.add_blacklist_ip("10.0.0.5".to_string()));
    assert!(!ac.add_blacklist_ip("10.0.0.5".to_string()));
    assert_eq!(ac.ip_blacklist.len(), 1);
    ac.remove_blacklist_ip("10.0.0.5");
    assert!(ac.ip_blacklist.is_empty());
    assert!(ac.add_whitelist_ip("10.1.1.1".to_string()));
    ac.remove_whitelist_ip("10.1.1.1");
    assert!(ac.ip_whitelist.is_empty());
}

#[test]
fn rule_mutations() {
    let mut ac = AccessControlConfig::default();
    ac.add_rule(AccessRule {
        name: "block".to_string(),
        domain: "*.example.com".to_string(),
        path: None,
        action: RuleAction::Deny,
        enabled: true,
    });
    assert_eq!(ac.rules.len(), 1);
    ac.remove_rule(5);
    assert_eq!(ac.rules.len(), 1);
    ac.remove_rule(0);
    assert!(ac.rules.is_empty());
}

#[test]
fn security_response_omits_passwords() {
    let mut s = SecurityConfig::default();
    s.auth_enabled = true;
    s.add_user(user("alice", "s3cret"));
    let r = api::security_response(&s);
    assert!(r.auth_enabled);
    assert_eq!(r.user_count, 1);
    assert_eq!(r.users[0].username, "alice");
    assert!(r.users[0].enabled);
}

#[test]
fn session_lifecycle() {
    let mut store = SessionStore::new();
    let token = store.create_session("alice".to_string());
    assert_eq!(store.validate(&token), Some("alice".to_string()));
    assert_eq!(store.validate("no-such-token"), None);
    store.remove(&token);
    assert_eq!(store.validate(&token), None);
}

#[test]
fn cookie_token_extraction() {
    let t = session::extract_session_token(b"a=b; net_relay_session=tok123; c=d");
    assert_eq!(t, Some(b"tok123".to_vec()));
    assert_eq!(session::extract_session_token(b"a=b; c=d"), None);
    assert_eq!(session::extract_session_token(b"net_relay_session="), None);
    assert_eq!(
        session::extract_session_token(b"  net_relay_session=xyz  "),
        Some(b"xyz".to_vec())
    );
}

#[test]
fn public_paths() {
    assert!(session::is_public_path(b"/api/auth/login"));
    assert!(session::is_public_path(b"/"));
    assert!(session::is_public_path(b"/index.html"));
    assert!(session::is_public_path(b"/src/app.js"));
    assert!(session::is_public_path(b"/style.css"));
    assert!(!session::is_public_path(b"/api/stats"));
}

#[test]
fn middleware_decision() {
    assert!(session::middleware_allows(false, b"/api/stats", false));
    assert!(session::middleware_allows(true, b"/api/auth/login", false));
    assert!(session::middleware_allows(true, b"/api/stats", true));
    assert!(!session::middleware_allows(true, b"/api/stats", false));
    assert_eq!(
        session::unauthorized_body(),
        "{\"success\":false,\"error\":\"Authentication required\"}"
    );
}

#[test]
fn login_and_logout_flow() {
    let mut s = SecurityConfig::default();
    s.auth_enabled = true;
    s.add_user(user("alice", "s3cret"));
    let mut store = SessionStore::new();
    let (resp, token) = api::login(
        &s,
        &mut store,
        api::LoginRequest { username: "alice".to_string(), password: "s3cret".to_string() },
    );
    assert!(resp.success);
    assert!(resp.data.authenticated);
    assert_eq!(resp.data.username.as_deref(), Some("alice"));
    let token = token.unwrap();
    assert_eq!(store.validate(&token), Some("alice".to_string()));
    let cookie = api::session_cookie(&token);
    assert_eq!(
        cookie,
        format!("net_relay_session={}; Path=/; HttpOnly; SameSite=Strict; Max-Age=86400", token)
    );
    store.remove(&token);
    assert_eq!(store.validate(&token), None);
    assert_eq!(
        api::clear_session_cookie(),
        "net_relay_session=; Path=/; HttpOnly; SameSite=Strict; Max-Age=0"
    );
}

#[test]
fn login_rejection_carries_message() {
    let s = SecurityConfig::default();
    let mut store = SessionStore::new();
    let (resp, token) = api::login(
        &s,
        &mut store,
        api::LoginRequest { username: "alice".to_string(), password: "nope".to_string() },
    );
    assert!(!resp.success);
    assert!(!resp.data.authenticated);
    assert!(token.is_none());
    assert_eq!(resp.message.as_deref(), Some("Invalid username or password"));
}

#[test]
fn auth_check_payloads() {
    let r = api::auth_check_response(false, None);
    assert!(!r.auth_enabled);
    assert!(r.authenticated);
    let r = api::auth_check_response(true, Some("alice".to_string()));
    assert!(r.authenticated);
    assert_eq!(r.username.as_deref(), Some("alice"));
    let r = api::auth_check_response(true, None);
    assert!(!r.authenticated);
}

#[test]
fn server_update_and_response() {
    let mut server = ServerConfig::default();
    api::apply_server_update(
        &mut server,
        api::UpdateServerRequest {
            host: Some("127.0.0.1".to_string()),
            socks_port: Some(9050),
            http_port: None,
            api_port: None,
        },
    );
    assert_eq!(server.host, "127.0.0.1");
    assert_eq!(server.socks_port, 9050);
    assert_eq!(server.http_port, 8080);
    let r = api::server_response(&server, true);
    assert_eq!(r.host, "127.0.0.1");
    assert!(r.requires_restart);
}

#[test]
fn security_update_touches_only_the_flag() {
    let mut s = SecurityConfig::default();
    s.add_user(user("alice", "a"));
    api::apply_security_update(&mut s, api::UpdateSecurityRequest { auth_enabled: Some(true) });
    assert!(s.auth_enabled);
    assert_eq!(s.users.len(), 1);
}

#[test]
fn user_of_request_defaults_to_enabled() {
    let u = api::user_of_request(api::AddUserRequest {
        username: "carol".to_string(),
        password: "pw".to_string(),
        description: Some("test account".to_string()),
        enabled: None,
    });
    assert!(u.enabled);
    assert_eq!(u.username, "carol");
    assert_eq!(u.bandwidth_limit, 0);
}

#[test]
fn api_envelopes() {
    let ok = api::ApiResponse::ok(7u32);
    assert!(ok.success);
    assert_eq!(ok.data, 7);
    assert!(ok.message.is_none());
    let err = api::ErrorResponse::new("boom".to_string());
    assert!(!err.success);
    assert_eq!(err.error, "boom");
    let h = api::health_response("1.2.3".to_string());
    assert_eq!(h.status, "healthy");
    assert_eq!(h.version, "1.2.3");
}
