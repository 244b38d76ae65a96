//! SOCKS5 handshake decisions (RFC 1928 with RFC 1929 user/password
//! sub-negotiation), CONNECT only. The socket reads and writes live
//! outside the crate; every reply byte and every accept/reject
//! decision is computed and verified here.

use vstd::prelude::*;

use crate::config::{spec_auth_ok, user_views, SecurityConfig};
use crate::text::{
    ascii_string, contains_byte, dec_bytes, hex_bytes, lemma_dec_bytes_ascii,
    lemma_hex_bytes_ascii, push_dec, push_hex, seq_contains_byte, utf8_string,
};

verus! {

pub const SOCKS_VERSION: u8 = 5;

pub const AUTH_NONE: u8 = 0;

pub const AUTH_PASSWORD: u8 = 2;

pub const AUTH_NO_ACCEPTABLE: u8 = 255;

pub const CMD_CONNECT: u8 = 1;

pub const ADDR_TYPE_IPV4: u8 = 1;

pub const ADDR_TYPE_DOMAIN: u8 = 3;

pub const ADDR_TYPE_IPV6: u8 = 4;

pub const REP_SUCCESS: u8 = 0;

pub const REP_NOT_ALLOWED: u8 = 2;

pub const REP_CONNECTION_REFUSED: u8 = 5;

pub const REP_CMD_NOT_SUPPORTED: u8 = 7;

pub const REP_ADDR_NOT_SUPPORTED: u8 = 8;

/// Outcome of method negotiation.
#[derive(Clone, Copy, Debug, PartialEq, Eq, Structural)]
pub enum MethodSelection {
    /// The client did not speak SOCKS5; no reply is owed.
    InvalidVersion,
    /// No offered method is acceptable; the reply closes negotiation.
    NoAcceptable,
    /// Proceed without authentication.
    NoAuth,
    /// Proceed with user/password sub-negotiation.
    UserPass,
}

/// The method negotiation decision: with authentication enabled the
/// user/password method must be offered; without it, the no-auth
/// method must be.
pub open spec fn spec_select_method(auth_enabled: bool, ver: u8, methods: Seq<u8>) -> MethodSelection {
    if ver != 5 {
        MethodSelection::InvalidVersion
    } else if auth_enabled {
        if seq_contains_byte(methods, 2) {
            MethodSelection::UserPass
        } else {
            MethodSelection::NoAcceptable
        }
    } else {
        if seq_contains_byte(methods, 0) {
            MethodSelection::NoAuth
        } else {
            MethodSelection::NoAcceptable
        }
    }
}

pub fn select_method(auth_enabled: bool, ver: u8, methods: &[u8]) -> (r: MethodSelection)
    ensures
        r == spec_select_method(auth_enabled, ver, methods@),
{
    if ver != SOCKS_VERSION {
        MethodSelection::InvalidVersion
    } else if auth_enabled {
        if contains_byte(methods, AUTH_PASSWORD) {
            MethodSelection::UserPass
        } else {
            MethodSelection::NoAcceptable
        }
    } else {
        if contains_byte(methods, AUTH_NONE) {
            MethodSelection::NoAuth
        } else {
            MethodSelection::NoAcceptable
        }
    }
}

/// The two-byte negotiation reply owed for a selection, when one is.
pub fn method_reply(sel: MethodSelection) -> (r: Option<Vec<u8>>)
    ensures
        (match sel {
            MethodSelection::InvalidVersion => r is None,
            MethodSelection::NoAcceptable => r matches Some(v) && v@ == seq![5u8, 255u8],
            MethodSelection::NoAuth => r matches Some(v) && v@ == seq![5u8, 0u8],
            MethodSelection::UserPass => r matches Some(v) && v@ == seq![5u8, 2u8],
        }),
{
    let code: u8 = match sel {
        MethodSelection::InvalidVersion => {
            return None;
        },
        MethodSelection::NoAcceptable => AUTH_NO_ACCEPTABLE,
        MethodSelection::NoAuth => AUTH_NONE,
        MethodSelection::UserPass => AUTH_PASSWORD,
    };
    let mut v: Vec<u8> = Vec::new();
    v.push(SOCKS_VERSION);
    v.push(code);
    proof {
        assert(v@ =~= seq![5u8, code]);
    }
    Some(v)
}

/// Outcome of the RFC 1929 user/password sub-negotiation.
#[derive(Debug)]
pub enum AuthDecision {
    /// The sub-negotiation version byte was not 1.
    InvalidVersion,
    /// Credentials accepted; carries the authenticated username.
    Success(String),
    /// Credentials rejected.
    Failure,
}

impl SecurityConfig {
    /// The sub-negotiation decision on raw username and password
    /// bytes: the version byte must be 1, the bytes must be UTF-8, and
    /// an enabled account must match exactly.
    pub fn verify_userpass(&self, ver: u8, username: &[u8], password: &[u8]) -> (r: AuthDecision)
        ensures
            r is InvalidVersion <==> ver != 1,
            r is Success <==> (ver == 1 && vstd::utf8::valid_utf8(username@)
                && vstd::utf8::valid_utf8(password@) && spec_auth_ok(
                user_views(self.users@),
                vstd::utf8::decode_utf8(username@),
                vstd::utf8::decode_utf8(password@),
            )),
            r matches AuthDecision::Success(name) ==> name@ == vstd::utf8::decode_utf8(username@),
    {
        if ver != 1 {
            return AuthDecision::InvalidVersion;
        }
        proof {
            assert(username@.subrange(0, username@.len() as int) =~= username@);
            assert(password@.subrange(0, password@.len() as int) =~= password@);
        }
        let uname = match utf8_string(crate::text::subrange_vec(username, 0, username.len())) {
            Some(s) => s,
            None => {
                return AuthDecision::Failure;
            },
        };
        let pass = match utf8_string(crate::text::subrange_vec(password, 0, password.len())) {
            Some(s) => s,
            None => {
                return AuthDecision::Failure;
            },
        };
        match self.authenticate(uname.as_str(), pass.as_str()) {
            Some(name) => AuthDecision::Success(name),
            None => AuthDecision::Failure,
        }
    }
}

/// The two-byte sub-negotiation reply: success exactly on acceptance.
pub fn auth_reply(d: &AuthDecision) -> (r: Vec<u8>)
    ensures
        r@ == (match d {
            AuthDecision::Success(_) => seq![1u8, 0u8],
            AuthDecision::InvalidVersion => seq![1u8, 1u8],
            AuthDecision::Failure => seq![1u8, 1u8],
        }),
{
    let code: u8 = match d {
        AuthDecision::Success(_) => 0,
        AuthDecision::InvalidVersion => 1,
        AuthDecision::Failure => 1,
    };
    let mut v: Vec<u8> = Vec::new();
    v.push(1);
    v.push(code);
    proof {
        assert(v@ =~= seq![1u8, code]);
    }
    v
}

/// Outcome of checking a CONNECT request header.
#[derive(Clone, Copy, Debug, PartialEq, Eq, Structural)]
pub enum RequestCheck {
    /// The version byte was not 5; no reply is owed.
    BadVersion,
    /// A command other than CONNECT; the reply carries code 7.
    UnsupportedCommand(u8),
    /// An address type outside IPv4, domain and IPv6; the reply
    /// carries code 8.
    UnsupportedAddrType(u8),
    /// A CONNECT request with this address type.
    Accepted(u8),
}

/// The request header decision: version 5, command CONNECT, address
/// type one of IPv4, domain or IPv6.
pub open spec fn spec_check_request(ver: u8, cmd: u8, atyp: u8) -> RequestCheck {
    if ver != 5 {
        RequestCheck::BadVersion
    } else if cmd != 1 {
        RequestCheck::UnsupportedCommand(cmd)
    } else if atyp != 1 && atyp != 3 && atyp != 4 {
        RequestCheck::UnsupportedAddrType(atyp)
    } else {
        RequestCheck::Accepted(atyp)
    }
}

pub fn check_request(ver: u8, cmd: u8, atyp: u8) -> (r: RequestCheck)
    ensures
        r == spec_check_request(ver, cmd, atyp),
{
    if ver != SOCKS_VERSION {
        RequestCheck::BadVersion
    } else if cmd != CMD_CONNECT {
        RequestCheck::UnsupportedCommand(cmd)
    } else if atyp != ADDR_TYPE_IPV4 && atyp != ADDR_TYPE_DOMAIN && atyp != ADDR_TYPE_IPV6 {
        RequestCheck::UnsupportedAddrType(atyp)
    } else {
        RequestCheck::Accepted(atyp)
    }
}

/// How many address bytes follow the request header: fixed for the
/// numeric types, length-prefixed for domains.
pub fn fixed_addr_len(atyp: u8) -> (r: Option<usize>)
    ensures
        atyp == 1 ==> r == Some(4usize),
        atyp == 4 ==> r == Some(16usize),
        atyp != 1 && atyp != 4 ==> r is None,
{
    if atyp == ADDR_TYPE_IPV4 {
        Some(4)
    } else if atyp == ADDR_TYPE_IPV6 {
        Some(16)
    } else {
        None
    }
}

/// The characters of the dotted-quad rendering of four address bytes.
pub open spec fn spec_ipv4_bytes(b: Seq<u8>) -> Seq<u8> {
    dec_bytes(b[0] as int) + seq![46u8] + dec_bytes(b[1] as int) + seq![46u8] + dec_bytes(
        b[2] as int,
    ) + seq![46u8] + dec_bytes(b[3] as int)
}

/// Renders an IPv4 address as its dotted-quad literal.
pub fn ipv4_to_string(b: &[u8]) -> (r: String)
    requires
        b@.len() == 4,
    ensures
        r@ == spec_ipv4_bytes(b@).map_values(|x: u8| x as char),
{
    let mut v: Vec<u8> = Vec::new();
    push_dec(b[0] as u64, &mut v);
    v.push(46);
    push_dec(b[1] as u64, &mut v);
    v.push(46);
    push_dec(b[2] as u64, &mut v);
    v.push(46);
    push_dec(b[3] as u64, &mut v);
    proof {
        assert(v@ =~= spec_ipv4_bytes(b@));
        lemma_dec_bytes_ascii(b@[0] as int);
        lemma_dec_bytes_ascii(b@[1] as int);
        lemma_dec_bytes_ascii(b@[2] as int);
        lemma_dec_bytes_ascii(b@[3] as int);
        assert(forall|i: int| 0 <= i < v@.len() ==> v@[i] < 128);
    }
    ascii_string(v)
}

/// The sixteen address bytes read as eight big-endian group values.
pub open spec fn spec_ipv6_group(b: Seq<u8>, g: int) -> int {
    b[2 * g] * 256 + b[2 * g + 1]
}

/// The characters of the colon-grouped hexadecimal rendering of
/// sixteen address bytes.
pub open spec fn spec_ipv6_bytes(b: Seq<u8>) -> Seq<u8> {
    hex_bytes(spec_ipv6_group(b, 0)) + seq![58u8] + hex_bytes(spec_ipv6_group(b, 1)) + seq![58u8]
        + hex_bytes(spec_ipv6_group(b, 2)) + seq![58u8] + hex_bytes(spec_ipv6_group(b, 3))
        + seq![58u8] + hex_bytes(spec_ipv6_group(b, 4)) + seq![58u8] + hex_bytes(
        spec_ipv6_group(b, 5),
    ) + seq![58u8] + hex_bytes(spec_ipv6_group(b, 6)) + seq![58u8] + hex_bytes(
        spec_ipv6_group(b, 7),
    )
}

/// Renders an IPv6 address as eight colon-separated hexadecimal
/// groups, without zero compression.
pub fn ipv6_to_string(b: &[u8]) -> (r: String)
    requires
        b@.len() == 16,
    ensures
        r@ == spec_ipv6_bytes(b@).map_values(|x: u8| x as char),
{
    let mut v: Vec<u8> = Vec::new();
    let mut g: usize = 0;
    push_hex((b[0] as u64) * 256 + (b[1] as u64), &mut v);
    v.push(58);
    push_hex((b[2] as u64) * 256 + (b[3] as u64), &mut v);
    v.push(58);
    push_hex((b[4] as u64) * 256 + (b[5] as u64), &mut v);
    v.push(58);
    push_hex((b[6] as u64) * 256 + (b[7] as u64), &mut v);
    v.push(58);
    push_hex((b[8] as u64) * 256 + (b[9] as u64), &mut v);
    v.push(58);
    push_hex((b[10] as u64) * 256 + (b[11] as u64), &mut v);
    v.push(58);
    push_hex((b[12] as u64) * 256 + (b[13] as u64), &mut v);
    v.push(58);
    push_hex((b[14] as u64) * 256 + (b[15] as u64), &mut v);
    proof {
        assert(v@ =~= spec_ipv6_bytes(b@));
        assert forall|i: int| 0 <= i < v@.len() implies v@[i] < 128 by {
            lemma_hex_bytes_ascii(spec_ipv6_group(b@, 0));
            lemma_hex_bytes_ascii(spec_ipv6_group(b@, 1));
            lemma_hex_bytes_ascii(spec_ipv6_group(b@, 2));
            lemma_hex_bytes_ascii(spec_ipv6_group(b@, 3));
            lemma_hex_bytes_ascii(spec_ipv6_group(b@, 4));
            lemma_hex_bytes_ascii(spec_ipv6_group(b@, 5));
            lemma_hex_bytes_ascii(spec_ipv6_group(b@, 6));
            lemma_hex_bytes_ascii(spec_ipv6_group(b@, 7));
        }
    }
    ascii_string(v)
}

/// Decodes a length-prefixed domain name; the bytes must be UTF-8.
pub fn domain_to_string(b: &[u8]) -> (r: Option<String>)
    ensures
        r is Some <==> vstd::utf8::valid_utf8(b@),
        r matches Some(s) ==> s@ == vstd::utf8::decode_utf8(b@),
{
    proof {
        assert(b@.subrange(0, b@.len() as int) =~= b@);
    }
    utf8_string(crate::text::subrange_vec(b, 0, b.len()))
}

/// A big-endian port from its two wire bytes.
pub fn port_from_be(hi: u8, lo: u8) -> (r: u16)
    ensures
        r == hi * 256 + lo,
{
    (hi as u16) * 256 + (lo as u16)
}

/// The ten-byte SOCKS5 reply carrying result code `rep`, with zeroed
/// IPv4 bind address and port.
pub fn build_reply(rep: u8) -> (r: Vec<u8>)
    ensures
        r@ == seq![5u8, rep, 0u8, 1u8, 0u8, 0u8, 0u8, 0u8, 0u8, 0u8],
{
    let mut v: Vec<u8> = Vec::new();
    v.push(SOCKS_VERSION);
    v.push(rep);
    v.push(0);
    v.push(ADDR_TYPE_IPV4);
    v.push(0);
    v.push(0);
    v.push(0);
    v.push(0);
    v.push(0);
    v.push(0);
    proof {
        assert(v@ =~= seq![5u8, rep, 0u8, 1u8, 0u8, 0u8, 0u8, 0u8, 0u8, 0u8]);
    }
    v
}

} // verus!
