//! HTTP CONNECT decisions: request-line tokenization, `host:port`
//! target parsing, Basic proxy-credential verification, and the exact
//! response lines the listener writes. Socket reads and writes live
//! outside the crate.

use vstd::prelude::*;

use crate::base64::{base64_decode, spec_b64_decode};
use crate::config::{spec_auth_ok, user_views, SecurityConfig};
use crate::text::{
    find_idx, parse_u16_dec, rfind_idx, seq_eq_ignore_ascii_case, seq_starts_with_ignore_case,
    spec_find_from, spec_parse_u16, spec_rfind, spec_skip_ws, spec_token_end, spec_trim,
    starts_with_ignore_case, skip_ws, subrange_vec, token_end, trim_bounds, utf8_string,
};

verus! {

/// Whether a request line has at least three whitespace-separated
/// tokens, as `CONNECT host:port HTTP/1.1` does.
pub open spec fn spec_request_tokens_ok(s: Seq<u8>) -> bool {
    let t0e = spec_token_end(s, spec_skip_ws(s, 0));
    let t1e = spec_token_end(s, spec_skip_ws(s, t0e));
    let t2s = spec_skip_ws(s, t1e);
    let t2e = spec_token_end(s, t2s);
    t2e > t2s
}

/// The first whitespace-separated token of a request line.
pub open spec fn spec_method_token(s: Seq<u8>) -> Seq<u8> {
    let t0s = spec_skip_ws(s, 0);
    s.subrange(t0s, spec_token_end(s, t0s))
}

/// The second whitespace-separated token of a request line.
pub open spec fn spec_target_token(s: Seq<u8>) -> Seq<u8> {
    let t0e = spec_token_end(s, spec_skip_ws(s, 0));
    let t1s = spec_skip_ws(s, t0e);
    s.subrange(t1s, spec_token_end(s, t1s))
}

/// Splits a request line into its method and target tokens; a line of
/// fewer than three tokens is rejected.
pub fn parse_request_line(line: &[u8]) -> (r: Option<(Vec<u8>, Vec<u8>)>)
    ensures
        r is Some <==> spec_request_tokens_ok(line@),
        r matches Some(p) ==> p.0@ == spec_method_token(line@) && p.1@ == spec_target_token(
            line@,
        ),
{
    let t0s = skip_ws(line, 0);
    let t0e = token_end(line, t0s);
    let t1s = skip_ws(line, t0e);
    let t1e = token_end(line, t1s);
    let t2s = skip_ws(line, t1e);
    let t2e = token_end(line, t2s);
    if t2e <= t2s {
        return None;
    }
    let method = subrange_vec(line, t0s, t0e);
    let target = subrange_vec(line, t1s, t1e);
    Some((method, target))
}

/// The `host:port` reading of a target: split at the rightmost colon,
/// the port a decimal `u16`, the host the UTF-8 text before the colon.
pub open spec fn spec_host_port(t: Seq<u8>) -> Option<(Seq<char>, u16)> {
    let k = spec_rfind(t, 58);
    if k < 0 {
        None
    } else {
        match spec_parse_u16(t.subrange(k + 1, t.len() as int)) {
            None => None,
            Some(p) => {
                if vstd::utf8::valid_utf8(t.take(k)) {
                    Some((vstd::utf8::decode_utf8(t.take(k)), p))
                } else {
                    None
                }
            },
        }
    }
}

/// Parses a CONNECT target of the form `host:port`.
pub fn parse_host_port(target: &[u8]) -> (r: Option<(String, u16)>)
    ensures
        r is Some <==> spec_host_port(target@) is Some,
        r matches Some(p) ==> spec_host_port(target@) matches Some(q) && p.0@ == q.0 && p.1
            == q.1,
{
    let n = target.len();
    let k = match rfind_idx(target, 58) {
        Some(k) => k,
        None => {
            return None;
        },
    };
    let port = match parse_u16_dec(vstd::slice::slice_subrange(target, k + 1, n)) {
        Some(p) => p,
        None => {
            return None;
        },
    };
    proof {
        assert(target@.subrange(0, k as int) =~= target@.take(k as int));
    }
    let host = match utf8_string(subrange_vec(target, 0, k)) {
        Some(h) => h,
        None => {
            return None;
        },
    };
    Some((host, port))
}

/// Whether a header line is a `Proxy-Authorization` header, matching
/// the name ASCII case-insensitively.
pub open spec fn spec_is_proxy_auth_line(line: Seq<u8>) -> bool {
    seq_starts_with_ignore_case(
        line,
        seq![
            112u8, 114u8, 111u8, 120u8, 121u8, 45u8, 97u8, 117u8, 116u8, 104u8, 111u8, 114u8,
            105u8, 122u8, 97u8, 116u8, 105u8, 111u8, 110u8, 58u8,
        ],
    )
}

pub fn is_proxy_auth_line(line: &[u8]) -> (r: bool)
    ensures
        r == spec_is_proxy_auth_line(line@),
{
    let mut p: Vec<u8> = Vec::new();
    p.push(112);
    p.push(114);
    p.push(111);
    p.push(120);
    p.push(121);
    p.push(45);
    p.push(97);
    p.push(117);
    p.push(116);
    p.push(104);
    p.push(111);
    p.push(114);
    p.push(105);
    p.push(122);
    p.push(97);
    p.push(116);
    p.push(105);
    p.push(111);
    p.push(110);
    p.push(58);
    proof {
        assert(p@ =~= seq![
            112u8, 114u8, 111u8, 120u8, 121u8, 45u8, 97u8, 117u8, 116u8, 104u8, 111u8, 114u8,
            105u8, 122u8, 97u8, 116u8, 105u8, 111u8, 110u8, 58u8,
        ]);
    }
    starts_with_ignore_case(line, p.as_slice())
}

/// The credentials carried by a `Proxy-Authorization` header line:
/// the value after the colon must name the Basic scheme, its base64
/// payload must decode, and the decoded bytes must split at a colon
/// into UTF-8 username and password.
pub open spec fn spec_basic_credentials(h: Seq<u8>) -> Option<(Seq<char>, Seq<char>)> {
    if h.len() == 0 {
        None
    } else {
        let c = spec_find_from(h, 58, 0);
        if c >= h.len() {
            None
        } else {
            let v = spec_trim(h.subrange(c + 1, h.len() as int));
            let sp = spec_find_from(v, 32, 0);
            if sp >= v.len() {
                None
            } else {
                let scheme = v.subrange(0, sp);
                let tok = spec_trim(v.subrange(sp + 1, v.len() as int));
                if !seq_eq_ignore_ascii_case(scheme, seq![98u8, 97u8, 115u8, 105u8, 99u8]) {
                    None
                } else {
                    match spec_b64_decode(tok) {
                        None => None,
                        Some(bytes) => {
                            let k = spec_find_from(bytes, 58, 0);
                            if k >= bytes.len() {
                                None
                            } else {
                                let ub = bytes.take(k);
                                let pb = bytes.subrange(k + 1, bytes.len() as int);
                                if vstd::utf8::valid_utf8(ub) && vstd::utf8::valid_utf8(pb) {
                                    Some(
                                        (
                                            vstd::utf8::decode_utf8(ub),
                                            vstd::utf8::decode_utf8(pb),
                                        ),
                                    )
                                } else {
                                    None
                                }
                            }
                        },
                    }
                }
            }
        }
    }
}

impl SecurityConfig {
    /// Verifies a `Proxy-Authorization` header line against the
    /// account list: returns the authenticated username exactly when
    /// the line carries well-formed Basic credentials that an enabled
    /// account matches.
    pub fn verify_proxy_auth(&self, header: &[u8]) -> (r: Option<String>)
        ensures
            r is Some <==> (spec_basic_credentials(header@) matches Some(cr) && spec_auth_ok(
                user_views(self.users@),
                cr.0,
                cr.1,
            )),
            r matches Some(name) ==> (spec_basic_credentials(header@) matches Some(cr) && name@
                == cr.0),
    {
        if header.len() == 0 {
            return None;
        }
        let c = find_idx(header, 58);
        if c >= header.len() {
            return None;
        }
        let value_raw = vstd::slice::slice_subrange(header, c + 1, header.len());
        let (va, vb) = trim_bounds(value_raw);
        let value = vstd::slice::slice_subrange(value_raw, va, vb);
        let sp = find_idx(value, 32);
        if sp >= value.len() {
            return None;
        }
        let scheme = vstd::slice::slice_subrange(value, 0, sp);
        let tok_raw = vstd::slice::slice_subrange(value, sp + 1, value.len());
        let (ta, tb) = trim_bounds(tok_raw);
        let tok = vstd::slice::slice_subrange(tok_raw, ta, tb);
        let mut basic: Vec<u8> = Vec::new();
        basic.push(98);
        basic.push(97);
        basic.push(115);
        basic.push(105);
        basic.push(99);
        proof {
            assert(basic@ =~= seq![98u8, 97u8, 115u8, 105u8, 99u8]);
        }
        if !crate::text::eq_ignore_ascii_case(scheme, basic.as_slice()) {
            return None;
        }
        let bytes = match base64_decode(tok) {
            Some(b) => b,
            None => {
                return None;
            },
        };
        let k = find_idx(bytes.as_slice(), 58);
        if k >= bytes.len() {
            return None;
        }
        proof {
            assert(bytes@.subrange(0, k as int) =~= bytes@.take(k as int));
        }
        let user = match utf8_string(subrange_vec(bytes.as_slice(), 0, k)) {
            Some(u) => u,
            None => {
                return None;
            },
        };
        let pass = match utf8_string(subrange_vec(bytes.as_slice(), k + 1, bytes.len())) {
            Some(p) => p,
            None => {
                return None;
            },
        };
        self.authenticate(user.as_str(), pass.as_str())
    }
}

/// Response to any method other than CONNECT.
pub fn response_method_not_allowed() -> (r: String)
    ensures
        r@ == "HTTP/1.1 405 Method Not Allowed\r\n\r\n"@,
{
    "HTTP/1.1 405 Method Not Allowed\r\n\r\n".to_owned()
}

/// Response when authentication is required and the credentials are
/// missing or rejected.
pub fn response_proxy_auth_required() -> (r: String)
    ensures
        r@
            == "HTTP/1.1 407 Proxy Authentication Required\r\nProxy-Authenticate: Basic realm=\"Proxy\"\r\n\r\n"@,
{
    "HTTP/1.1 407 Proxy Authentication Required\r\nProxy-Authenticate: Basic realm=\"Proxy\"\r\n\r\n".to_owned()
}

/// Response when the target is denied by policy.
pub fn response_forbidden() -> (r: String)
    ensures
        r@ == "HTTP/1.1 403 Forbidden\r\n\r\n"@,
{
    "HTTP/1.1 403 Forbidden\r\n\r\n".to_owned()
}

/// Response when the upstream dial fails.
pub fn response_bad_gateway() -> (r: String)
    ensures
        r@ == "HTTP/1.1 502 Bad Gateway\r\n\r\n"@,
{
    "HTTP/1.1 502 Bad Gateway\r\n\r\n".to_owned()
}

/// Response that opens the tunnel.
pub fn response_connection_established() -> (r: String)
    ensures
        r@ == "HTTP/1.1 200 Connection Established\r\n\r\n"@,
{
    "HTTP/1.1 200 Connection Established\r\n\r\n".to_owned()
}

} // verus!
