//! Wire-level decisions: SOCKS5 negotiation and replies, HTTP CONNECT
//! parsing and responses, and base64 decoding.

use net_relay::config::{SecurityConfig, User};
use net_relay::error::Error;
use net_relay::http_connect;
use net_relay::socks5::{self, AuthDecision, MethodSelection, RequestCheck};

fn alice() -> SecurityConfig {
    SecurityConfig {
        auth_enabled: true,
        users: vec![User {
            username: "alice".to_string(),
            password: "s3cret".to_string(),
            enabled: true,
            description: None,
            bandwidth_limit: 0,
            connection_limit: 0,
        }],
    }
}

#[test]
fn no_auth_connect_handshake_bytes() {
    // Greeting 05 01 00 is answered 05 00.
    let sel = socks5::select_method(false, 5, &[0]);
    assert_eq!(sel, MethodSelection::NoAuth);
    assert_eq!(socks5::method_reply(sel), Some(vec![5, 0]));
    // Request header 05 01 00 01 asks CONNECT to an IPv4 target.
    assert_eq!(socks5::check_request(5, 1, 1), RequestCheck::Accepted(1));
    assert_eq!(socks5::fixed_addr_len(1), Some(4));
    assert_eq!(socks5::ipv4_to_string(&[127, 0, 0, 1]), "127.0.0.1");
    assert_eq!(socks5::port_from_be(0, 80), 80);
    // The success reply is 05 00 00 01 with zeroed address and port.
    assert_eq!(socks5::build_reply(0), vec![5, 0, 0, 1, 0, 0, 0, 0, 0, 0]);
}

#[test]
fn auth_required_but_only_no_auth_offered() {
    let sel = socks5::select_method(true, 5, &[0]);
    assert_eq!(sel, MethodSelection::NoAcceptable);
    assert_eq!(socks5::method_reply(sel), Some(vec![5, 0xFF]));
}

#[test]
fn invalid_version_gets_no_reply() {
    let sel = socks5::select_method(false, 4, &[0]);
    assert_eq!(sel, MethodSelection::InvalidVersion);
    assert_eq!(socks5::method_reply(sel), None);
}

#[test]
fn userpass_subnegotiation_accepts_alice() {
    let security = alice();
    match security.verify_userpass(1, b"alice", b"s3cret") {
        AuthDecision::Success(name) => assert_eq!(name, "alice"),
        _ => panic!("credentials should be accepted"),
    }
    let d = security.verify_userpass(1, b"alice", b"wrong");
    assert!(matches!(d, AuthDecision::Failure));
    assert_eq!(net_relay::socks5::auth_reply(&d), vec![1, 1]);
    let ok = security.verify_userpass(1, b"alice", b"s3cret");
    assert_eq!(net_relay::socks5::auth_reply(&ok), vec![1, 0]);
}

#[test]
fn userpass_subnegotiation_rejects_bad_version() {
    let security = alice();
    let d = security.verify_userpass(2, b"alice", b"s3cret");
    assert!(matches!(d, AuthDecision::InvalidVersion));
}

#[test]
fn disabled_user_cannot_authenticate() {
    let mut security = alice();
    security.users[0].enabled = false;
    assert!(matches!(
        security.verify_userpass(1, b"alice", b"s3cret"),
        AuthDecision::Failure
    ));
}

#[test]
fn unsupported_command_and_addr_type() {
    assert_eq!(socks5::check_request(5, 2, 1), RequestCheck::UnsupportedCommand(2));
    assert_eq!(socks5::check_request(5, 1, 5), RequestCheck::UnsupportedAddrType(5));
    assert_eq!(socks5::check_request(4, 1, 1), RequestCheck::BadVersion);
    // Denied targets are answered with reply code 2.
    assert_eq!(socks5::build_reply(2), vec![5, 2, 0, 1, 0, 0, 0, 0, 0, 0]);
}

#[test]
fn ipv6_rendering() {
    let b = [
        0x20, 0x01, 0x0d, 0xb8, 0x00, 0x00, 0x00, 0x00, 0x00, 0x00, 0x00, 0x00, 0x00, 0x00,
        0x00, 0x01,
    ];
    assert_eq!(socks5::ipv6_to_string(&b), "2001:db8:0:0:0:0:0:1");
}

#[test]
fn domain_decoding() {
    assert_eq!(socks5::domain_to_string(b"example.com"), Some("example.com".to_string()));
    assert_eq!(socks5::domain_to_string("héllo".as_bytes()), Some("héllo".to_string()));
    assert_eq!(socks5::domain_to_string(&[0xFF, 0xFE]), None);
}

#[test]
fn request_line_tokenization() {
    let r = http_connect::parse_request_line(b"CONNECT host:443 HTTP/1.1\r\n").unwrap();
    assert_eq!(r.0, b"CONNECT".to_vec());
    assert_eq!(r.1, b"host:443".to_vec());
    assert!(http_connect::parse_request_line(b"GET /\r\n").is_none());
    assert!(http_connect::parse_request_line(b"\r\n").is_none());
}

#[test]
fn host_port_parsing() {
    assert_eq!(
        http_connect::parse_host_port(b"example.com:443"),
        Some(("example.com".to_string(), 443))
    );
    assert_eq!(http_connect::parse_host_port(b":80"), Some((String::new(), 80)));
    assert_eq!(http_connect::parse_host_port(b"example.com"), None);
    assert_eq!(http_connect::parse_host_port(b"example.com:abc"), None);
    assert_eq!(http_connect::parse_host_port(b"example.com:65536"), None);
    assert_eq!(http_connect::parse_host_port(b"example.com:+80"), Some(("example.com".to_string(), 80)));
    // The rightmost colon splits, so an unbracketed IPv6 host parses
    // as everything before the port.
    assert_eq!(http_connect::parse_host_port(b"1:2:3"), Some(("1:2".to_string(), 3)));
}

#[test]
fn proxy_auth_header_detection() {
    assert!(http_connect::is_proxy_auth_line(b"Proxy-Authorization: Basic abc"));
    assert!(http_connect::is_proxy_auth_line(b"PROXY-AUTHORIZATION: Basic abc"));
    assert!(!http_connect::is_proxy_auth_line(b"Authorization: Basic abc"));
}

#[test]
fn basic_credentials_authenticate_alice() {
    let security = alice();
    // YWxpY2U6czNjcmV0 is the base64 encoding of alice:s3cret.
    let user = security.verify_proxy_auth(b"Proxy-Authorization: Basic YWxpY2U6czNjcmV0");
    assert_eq!(user, Some("alice".to_string()));
}

#[test]
fn basic_credentials_rejections() {
    let security = alice();
    assert_eq!(security.verify_proxy_auth(b""), None);
    assert_eq!(security.verify_proxy_auth(b"Proxy-Authorization Basic x"), None);
    assert_eq!(security.verify_proxy_auth(b"Proxy-Authorization: Bearer x"), None);
    assert_eq!(security.verify_proxy_auth(b"Proxy-Authorization: Basic !!!!"), None);
    // dXNlcnBhc3M= decodes to userpass, which has no colon.
    assert_eq!(security.verify_proxy_auth(b"Proxy-Authorization: Basic dXNlcnBhc3M="), None);
    // YWxpY2U6d3Jvbmc= decodes to alice:wrong.
    assert_eq!(security.verify_proxy_auth(b"Proxy-Authorization: Basic YWxpY2U6d3Jvbmc="), None);
}

#[test]
fn response_lines() {
    assert_eq!(
        http_connect::response_method_not_allowed(),
        "HTTP/1.1 405 Method Not Allowed\r\n\r\n"
    );
    assert_eq!(
        http_connect::response_proxy_auth_required(),
        "HTTP/1.1 407 Proxy Authentication Required\r\nProxy-Authenticate: Basic realm=\"Proxy\"\r\n\r\n"
    );
    assert_eq!(http_connect::response_forbidden(), "HTTP/1.1 403 Forbidden\r\n\r\n");
    assert_eq!(http_connect::response_bad_gateway(), "HTTP/1.1 502 Bad Gateway\r\n\r\n");
    assert_eq!(
        http_connect::response_connection_established(),
        "HTTP/1.1 200 Connection Established\r\n\r\n"
    );
}

#[test]
fn base64_decoding_vectors() {
    let d = |s: &[u8]| net_relay::base64::base64_decode(s);
    assert_eq!(d(b"dXNlcjpwYXNz"), Some(b"user:pass".to_vec()));
    assert_eq!(d(b"YWxpY2U6czNjcmV0"), Some(b"alice:s3cret".to_vec()));
    assert_eq!(d(b"QQ=="), Some(b"A".to_vec()));
    assert_eq!(d(b"QUI="), Some(b"AB".to_vec()));
    assert_eq!(d(b"QUJD"), Some(b"ABC".to_vec()));
    assert_eq!(d(b""), Some(Vec::new()));
    assert_eq!(d(b"!!"), None);
    assert_eq!(d(b"QU JD"), None);
    // A terminator ends decoding even mid-input.
    assert_eq!(d(b"QQ==QQ"), Some(b"A".to_vec()));
}

#[test]
fn error_kind_names() {
    assert_eq!(Error::AuthenticationFailed.kind_name(), "authentication_failed");
    assert_eq!(Error::Io("broken".to_string()).kind_name(), "io");
    assert_eq!(Error::InvalidSocks5Protocol("v".to_string()).kind_name(), "invalid_socks5_protocol");
    assert_eq!(Error::InvalidHttpProtocol("l".to_string()).kind_name(), "invalid_http_protocol");
    assert_eq!(Error::ConnectionRefused("t".to_string()).kind_name(), "connection_refused");
    assert_eq!(Error::UnsupportedCommand(2).kind_name(), "unsupported_command");
    assert_eq!(Error::UnsupportedAddressType(5).kind_name(), "unsupported_address_type");
    assert_eq!(Error::AccessDenied("ip".to_string()).kind_name(), "access_denied");
}

#[test]
fn ipv4_rendering_edges() {
    assert_eq!(socks5::ipv4_to_string(&[0, 0, 0, 0]), "0.0.0.0");
    assert_eq!(socks5::ipv4_to_string(&[255, 255, 255, 255]), "255.255.255.255");
}

#[test]
fn port_parsing_edges() {
    assert_eq!(http_connect::parse_host_port(b"h:0"), Some(("h".to_string(), 0)));
    assert_eq!(http_connect::parse_host_port(b"h:65535"), Some(("h".to_string(), 65535)));
    assert_eq!(http_connect::parse_host_port(b"h:00080"), Some(("h".to_string(), 80)));
    assert_eq!(http_connect::parse_host_port(b"h:"), None);
    assert_eq!(http_connect::parse_host_port(b"h:+"), None);
}
