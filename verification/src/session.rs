//! Dashboard session management: the token store, cookie parsing, and
//! the middleware admission decision.

use vstd::prelude::*;

use crate::clock::now_unix_nanos;
use crate::text::{
    ascii_string, bytes_eq, chars_bytes, ends_with, hex_bytes, hex_pad_bytes,
    lemma_hex_bytes_ascii, lemma_hex_pad_bytes_ascii, push_hex, push_hex_pad, seq_ends_with,
    seq_starts_with, spec_find_from, spec_trim, starts_with, str_eq, subrange_vec, trim_bounds,
};

verus! {

/// What a session token stands for.
#[derive(Debug)]
pub struct SessionData {
    /// The authenticated dashboard user.
    pub username: String,
    /// Unix nanoseconds when the session was created.
    pub created_at: u64,
}

/// One stored session.
#[derive(Debug)]
pub struct SessionEntry {
    /// The opaque token the cookie carries.
    pub token: String,
    /// The session it names.
    pub data: SessionData,
}

/// Mathematical model of a [`SessionEntry`].
pub ghost struct SessionV {
    pub token: Seq<char>,
    pub username: Seq<char>,
    pub created_at: u64,
}

impl View for SessionEntry {
    type V = SessionV;

    open spec fn view(&self) -> SessionV {
        SessionV {
            token: self.token@,
            username: self.data.username@,
            created_at: self.data.created_at,
        }
    }
}

/// The views of a list of sessions.
pub open spec fn session_views(s: Seq<SessionEntry>) -> Seq<SessionV> {
    s.map_values(|e: SessionEntry| e@)
}

/// First index of a session with the given token, or the length of
/// the list when there is none.
pub open spec fn spec_session_index(s: Seq<SessionV>, token: Seq<char>) -> int
    decreases s.len(),
{
    if s.len() == 0 {
        0
    } else if s[0].token == token {
        0
    } else {
        1 + spec_session_index(s.drop_first(), token)
    }
}

/// The username a token resolves to, when it is live.
pub open spec fn spec_validate(s: Seq<SessionV>, token: Seq<char>) -> Option<Seq<char>> {
    let k = spec_session_index(s, token);
    if k < s.len() {
        Some(s[k].username)
    } else {
        None
    }
}

/// The session list with every entry of the given token removed.
pub open spec fn spec_remove_session(s: Seq<SessionV>, token: Seq<char>) -> Seq<SessionV>
    decreases s.len(),
{
    if s.len() == 0 {
        Seq::empty()
    } else {
        let rest = spec_remove_session(s.drop_last(), token);
        if s.last().token == token {
            rest
        } else {
            rest.push(s.last())
        }
    }
}

proof fn lemma_session_index_at(s: Seq<SessionV>, token: Seq<char>, i: int)
    requires
        0 <= i < s.len(),
        s[i].token == token,
        forall|j: int| 0 <= j < i ==> (#[trigger] s[j]).token != token,
    ensures
        spec_session_index(s, token) == i,
    decreases i,
{
    if i > 0 {
        assert(forall|j: int| 0 <= j < i - 1 ==> (#[trigger] s.drop_first()[j]).token != token);
        assert(s.drop_first()[i - 1] == s[i]);
        lemma_session_index_at(s.drop_first(), token, i - 1);
    }
}

proof fn lemma_session_index_at_end(s: Seq<SessionV>, token: Seq<char>)
    requires
        forall|j: int| 0 <= j < s.len() ==> (#[trigger] s[j]).token != token,
    ensures
        spec_session_index(s, token) == s.len(),
    decreases s.len(),
{
    if s.len() > 0 {
        assert(forall|j: int|
            0 <= j < s.drop_first().len() ==> (#[trigger] s.drop_first()[j]).token != token);
        lemma_session_index_at_end(s.drop_first(), token);
    }
}

/// One round of the xorshift64 generator.
pub open spec fn spec_xorshift64(x: u64) -> u64 {
    let a = x ^ (x << 13);
    let b = a ^ (a >> 7);
    b ^ (b << 17)
}

pub fn xorshift64(x: u64) -> (r: u64)
    ensures
        r == spec_xorshift64(x),
{
    let a = x ^ (x << 13u64);
    let b = a ^ (a >> 7u64);
    b ^ (b << 17u64)
}

/// An opaque session token: the hexadecimal clock reading followed by
/// sixteen hexadecimal digits drawn from it by xorshift.
fn generate_token() -> (r: String)
    ensures
        exists|t: u64, x: u64| r@ == (hex_bytes(t as int) + hex_pad_bytes(
            x as int,
            16,
        )).map_values(|b: u8| b as char),
{
    let t = now_unix_nanos();
    let x = xorshift64(now_unix_nanos());
    let mut v: Vec<u8> = Vec::new();
    push_hex(t, &mut v);
    push_hex_pad(x, 16, &mut v);
    proof {
        assert(v@ =~= hex_bytes(t as int) + hex_pad_bytes(x as int, 16));
        lemma_hex_bytes_ascii(t as int);
        lemma_hex_pad_bytes_ascii(x as int, 16);
        assert(forall|i: int| 0 <= i < v@.len() ==> v@[i] < 128);
    }
    let s = ascii_string(v);
    proof {
        assert(s@ == (hex_bytes(t as int) + hex_pad_bytes(x as int, 16)).map_values(
            |b: u8| b as char,
        ));
    }
    s
}

/// The store of live dashboard sessions, keyed by opaque token.
#[derive(Debug)]
pub struct SessionStore {
    /// The live sessions; tokens are unique.
    pub sessions: Vec<SessionEntry>,
}

impl SessionStore {
    /// An empty store.
    pub fn new() -> (r: SessionStore)
        ensures
            r.sessions@.len() == 0,
    {
        SessionStore { sessions: Vec::new() }
    }

    /// Creates a session for the user and returns its fresh token;
    /// the token then validates to that username.
    pub fn create_session(&mut self, username: String) -> (token: String)
        ensures
            spec_validate(session_views(final(self).sessions@), token@) == Some(username@),
    {
        let token = generate_token();
        let ghost sv = session_views(self.sessions@);
        let mut i: usize = 0;
        while i < self.sessions.len()
            invariant
                i <= self.sessions@.len(),
                sv == session_views(self.sessions@),
                self.sessions@ == old(self).sessions@,
                forall|j: int| 0 <= j < i ==> (#[trigger] sv[j]).token != token@,
            decreases self.sessions@.len() - i,
        {
            if str_eq(self.sessions[i].token.as_str(), token.as_str()) {
                let t = now_unix_nanos();
                let entry = &mut self.sessions[i];
                entry.data = SessionData { username, created_at: t };
                proof {
                    let fv = session_views(self.sessions@);
                    assert(fv =~= sv.update(i as int, fv[i as int]));
                    assert(fv[i as int].token == token@);
                    assert forall|j: int| 0 <= j < i implies (#[trigger] fv[j]).token
                        != token@ by {
                        assert(fv[j] == sv[j]);
                    }
                    lemma_session_index_at(fv, token@, i as int);
                }
                return token;
            }
            i += 1;
        }
        let t = now_unix_nanos();
        let entry = SessionEntry {
            token: token.clone(),
            data: SessionData { username, created_at: t },
        };
        self.sessions.push(entry);
        proof {
            let fv = session_views(self.sessions@);
            assert(fv.len() == sv.len() + 1);
            assert(fv[sv.len() as int].token == token@);
            assert(forall|j: int| 0 <= j < sv.len() ==> fv[j] == sv[j]);
            lemma_session_index_at(fv, token@, sv.len() as int);
        }
        token
    }

    /// The username a live token belongs to.
    pub fn validate(&self, token: &str) -> (r: Option<String>)
        ensures
            (match r {
                Some(u) => spec_validate(session_views(self.sessions@), token@) == Some(u@),
                None => spec_validate(session_views(self.sessions@), token@) is None,
            }),
    {
        let ghost sv = session_views(self.sessions@);
        let mut i: usize = 0;
        while i < self.sessions.len()
            invariant
                i <= self.sessions@.len(),
                sv == session_views(self.sessions@),
                forall|j: int| 0 <= j < i ==> (#[trigger] sv[j]).token != token@,
            decreases self.sessions@.len() - i,
        {
            if str_eq(self.sessions[i].token.as_str(), token) {
                proof {
                    lemma_session_index_at(sv, token@, i as int);
                }
                return Some(self.sessions[i].data.username.clone());
            }
            i += 1;
        }
        proof {
            lemma_session_index_at_end(sv, token@);
        }
        None
    }

    /// Removes a session by token.
    pub fn remove(&mut self, token: &str)
        ensures
            session_views(final(self).sessions@) == spec_remove_session(
                session_views(old(self).sessions@),
                token@,
            ),
    {
        let ghost sv = session_views(self.sessions@);
        let mut kept: Vec<SessionEntry> = Vec::new();
        let mut i: usize = 0;
        proof {
            assert(sv.take(0) =~= Seq::<SessionV>::empty());
        }
        while i < self.sessions.len()
            invariant
                i <= self.sessions@.len(),
                sv == session_views(self.sessions@),
                self.sessions@ == old(self).sessions@,
                session_views(kept@) == spec_remove_session(sv.take(i as int), token@),
            decreases self.sessions@.len() - i,
        {
            let ghost pre = sv.take(i as int);
            proof {
                assert(sv.take(i + 1).drop_last() =~= pre);
                assert(sv.take(i + 1).last() == sv[i as int]);
            }
            if !str_eq(self.sessions[i].token.as_str(), token) {
                let e = &self.sessions[i];
                kept.push(
                    SessionEntry {
                        token: e.token.clone(),
                        data: SessionData {
                            username: e.data.username.clone(),
                            created_at: e.data.created_at,
                        },
                    },
                );
                proof {
                    assert(session_views(kept@) =~= spec_remove_session(pre, token@).push(
                        sv[i as int],
                    ));
                }
            }
            i += 1;
        }
        proof {
            assert(sv.take(sv.len() as int) =~= sv);
        }
        self.sessions = kept;
    }
}

/// Paths the dashboard serves without a session: the authentication
/// endpoints, the root document, and static assets.
pub open spec fn spec_is_public_path(p: Seq<u8>) -> bool {
    ||| p == chars_bytes("/api/auth/login"@)
    ||| p == chars_bytes("/api/auth/check"@)
    ||| p == chars_bytes("/api/auth/logout"@)
    ||| p == chars_bytes("/"@)
    ||| p == chars_bytes("/index.html"@)
    ||| seq_starts_with(p, chars_bytes("/src/"@))
    ||| seq_ends_with(p, chars_bytes(".css"@))
    ||| seq_ends_with(p, chars_bytes(".js"@))
    ||| seq_ends_with(p, chars_bytes(".ico"@))
    ||| seq_ends_with(p, chars_bytes(".png"@))
    ||| seq_ends_with(p, chars_bytes(".svg"@))
}

pub fn is_public_path(path: &[u8]) -> (r: bool)
    ensures
        r == spec_is_public_path(path@),
{
    bytes_eq(path, "/api/auth/login".as_bytes()) || bytes_eq(path, "/api/auth/check".as_bytes())
        || bytes_eq(path, "/api/auth/logout".as_bytes()) || bytes_eq(path, "/".as_bytes())
        || bytes_eq(path, "/index.html".as_bytes()) || starts_with(path, "/src/".as_bytes())
        || ends_with(path, ".css".as_bytes()) || ends_with(path, ".js".as_bytes()) || ends_with(
        path,
        ".ico".as_bytes(),
    ) || ends_with(path, ".png".as_bytes()) || ends_with(path, ".svg".as_bytes())
}

/// The middleware admission decision: every request passes when
/// dashboard authentication is off; otherwise public paths and
/// requests with a live session pass.
pub fn middleware_allows(auth_enabled: bool, path: &[u8], session_valid: bool) -> (r: bool)
    ensures
        r == (!auth_enabled || spec_is_public_path(path@) || session_valid),
{
    if !auth_enabled {
        return true;
    }
    if is_public_path(path) {
        return true;
    }
    session_valid
}

/// The body of the 401 response the middleware returns.
pub fn unauthorized_body() -> (r: String)
    ensures
        r@ == "{\"success\":false,\"error\":\"Authentication required\"}"@,
{
    "{\"success\":false,\"error\":\"Authentication required\"}".to_owned()
}

/// The token of the dashboard session cookie in a `Cookie` header:
/// the first `;`-separated segment that, after trimming, extends the
/// `net_relay_session=` prefix.
pub open spec fn spec_cookie_token(c: Seq<u8>) -> Option<Seq<u8>>
    decreases c.len(),
{
    let k0 = spec_find_from(c, 59, 0);
    let k = if k0 < 0 {
        0
    } else if k0 > c.len() {
        c.len() as int
    } else {
        k0
    };
    let seg = spec_trim(c.take(k));
    let pref = chars_bytes("net_relay_session="@);
    if seq_starts_with(seg, pref) && seg.len() > pref.len() {
        Some(seg.skip(pref.len() as int))
    } else if k < c.len() {
        spec_cookie_token(c.subrange(k + 1, c.len() as int))
    } else {
        None
    }
}

/// Extracts the session token from a `Cookie` header value.
pub fn extract_session_token(cookies: &[u8]) -> (r: Option<Vec<u8>>)
    ensures
        (match r {
            Some(v) => spec_cookie_token(cookies@) == Some(v@),
            None => spec_cookie_token(cookies@) is None,
        }),
{
    let mut pos: usize = 0;
    proof {
        assert(cookies@.skip(0) =~= cookies@);
    }
    while pos < cookies.len()
        invariant
            pos <= cookies@.len(),
            spec_cookie_token(cookies@) == spec_cookie_token(cookies@.skip(pos as int)),
        decreases cookies@.len() - pos,
    {
        let sub = vstd::slice::slice_subrange(cookies, pos, cookies.len());
        let k = crate::text::find_idx(sub, 59);
        let head = vstd::slice::slice_subrange(sub, 0, k);
        proof {
            assert(sub@.take(k as int) =~= head@);
        }
        let (sa, sb) = trim_bounds(head);
        let seg = vstd::slice::slice_subrange(head, sa, sb);
        let pref = "net_relay_session=".as_bytes();
        if starts_with(seg, pref) && seg.len() > pref.len() {
            return Some(subrange_vec(seg, pref.len(), seg.len()));
        }
        if k < sub.len() {
            proof {
                assert(sub@.subrange(k + 1, sub@.len() as int) =~= cookies@.skip(
                    pos + k + 1,
                ));
            }
            pos = pos + k + 1;
        } else {
            return None;
        }
    }
    proof {
        let empty = cookies@.skip(pos as int);
        assert(empty =~= Seq::<u8>::empty());
        assert(spec_trim(empty.take(spec_find_from(empty, 59, 0))) =~= Seq::<u8>::empty());
    }
    None
}

} // verus!
