//! Management API data model and request handling logic. The HTTP
//! transport (routing, JSON, cookies) lives outside the crate; the
//! decisions each handler makes and the values each response carries
//! are computed and verified here.

use vstd::prelude::*;

use crate::config::{
    spec_auth_ok, user_views, SecurityConfig, ServerConfig, User,
};
use crate::connection::ConnectionInfo;
use crate::session::{session_views, spec_validate, SessionStore};
use crate::stats::{AggregatedStats, UserStats};

verus! {

/// The envelope every JSON response uses.
#[derive(Debug)]
pub struct ApiResponse<T> {
    /// Whether the request succeeded.
    pub success: bool,
    /// The payload.
    pub data: T,
    /// Carried exactly by failing responses.
    pub message: Option<String>,
}

impl<T> ApiResponse<T> {
    /// A successful response around a payload.
    pub fn ok(data: T) -> (r: ApiResponse<T>)
        ensures
            r.success == true,
            r.data == data,
            r.message is None,
    {
        ApiResponse { success: true, data, message: None }
    }
}

/// The envelope of a failing response without payload.
#[derive(Debug)]
pub struct ErrorResponse {
    /// Always false.
    pub success: bool,
    /// What went wrong.
    pub error: String,
}

impl ErrorResponse {
    /// A failing response with the given description.
    pub fn new(error: String) -> (r: ErrorResponse)
        ensures
            r.success == false,
            r.error@ == error@,
    {
        ErrorResponse { success: false, error }
    }
}

/// Payload of the health endpoint.
#[derive(Debug)]
pub struct HealthResponse {
    pub status: String,
    pub version: String,
}

/// The health payload: always healthy, carrying the given version.
pub fn health_response(version: String) -> (r: HealthResponse)
    ensures
        r.status@ == "healthy"@,
        r.version@ == version@,
{
    HealthResponse { status: "healthy".to_owned(), version }
}

/// Payload of the stats endpoint.
#[derive(Debug)]
pub struct StatsResponse {
    pub aggregated: AggregatedStats,
    pub active_connections: Vec<ConnectionInfo>,
}

/// Query parameters of the history endpoint.
#[derive(Clone, Copy, Debug, PartialEq, Eq, Structural)]
pub struct HistoryQuery {
    pub limit: Option<usize>,
}

/// Body of the IP list mutation endpoints.
#[derive(Debug)]
pub struct IpListRequest {
    pub ip: String,
}

/// Body of the rule removal endpoint.
#[derive(Clone, Copy, Debug, PartialEq, Eq, Structural)]
pub struct RemoveRuleRequest {
    pub index: usize,
}

/// One account as the API reports it: everything but the password.
#[derive(Debug)]
pub struct UserInfo {
    pub username: String,
    pub enabled: bool,
    pub description: Option<String>,
    pub bandwidth_limit: u64,
    pub connection_limit: u32,
}

impl UserInfo {
    /// The reportable part of an account; the password is omitted.
    pub fn of_user(user: &User) -> (r: UserInfo)
        ensures
            r.username@ == user@.username,
            r.enabled == user@.enabled,
            (match r.description {
                Some(d) => user@.description matches Some(e) && d@ == e,
                None => user@.description is None,
            }),
            r.bandwidth_limit == user@.bandwidth_limit,
            r.connection_limit == user@.connection_limit,
    {
        UserInfo {
            username: user.username.clone(),
            enabled: user.enabled,
            description: match &user.description {
                Some(d) => Some(d.clone()),
                None => None,
            },
            bandwidth_limit: user.bandwidth_limit,
            connection_limit: user.connection_limit,
        }
    }
}

/// Payload of the security endpoints: settings and accounts, without
/// passwords.
#[derive(Debug)]
pub struct SecurityResponse {
    pub auth_enabled: bool,
    pub users: Vec<UserInfo>,
    pub user_count: usize,
}

/// Whether a security response reports exactly the accounts of a
/// security configuration, password omitted.
pub open spec fn spec_reports_users(r: SecurityResponse, s: SecurityConfig) -> bool {
    &&& r.auth_enabled == s.auth_enabled
    &&& r.user_count == s.users@.len()
    &&& r.users@.len() == s.users@.len()
    &&& forall|i: int|
        0 <= i < s.users@.len() ==> {
            let u = user_views(s.users@)[i];
            &&& (#[trigger] r.users@[i]).username@ == u.username
            &&& r.users@[i].enabled == u.enabled
            &&& (match r.users@[i].description {
                Some(d) => u.description matches Some(e) && d@ == e,
                None => u.description is None,
            })
            &&& r.users@[i].bandwidth_limit == u.bandwidth_limit
            &&& r.users@[i].connection_limit == u.connection_limit
        }
}

/// The security payload for a configuration: the accounts in order,
/// passwords omitted.
pub fn security_response(security: &SecurityConfig) -> (r: SecurityResponse)
    ensures
        spec_reports_users(r, *security),
{
    let mut users: Vec<UserInfo> = Vec::new();
    let mut i: usize = 0;
    while i < security.users.len()
        invariant
            i <= security.users@.len(),
            users@.len() == i,
            forall|k: int|
                0 <= k < i ==> {
                    let u = user_views(security.users@)[k];
                    &&& (#[trigger] users@[k]).username@ == u.username
                    &&& users@[k].enabled == u.enabled
                    &&& (match users@[k].description {
                        Some(d) => u.description matches Some(e) && d@ == e,
                        None => u.description is None,
                    })
                    &&& users@[k].bandwidth_limit == u.bandwidth_limit
                    &&& users@[k].connection_limit == u.connection_limit
                },
        decreases security.users@.len() - i,
    {
        users.push(UserInfo::of_user(&security.users[i]));
        i += 1;
    }
    SecurityResponse { auth_enabled: security.auth_enabled, user_count: users.len(), users }
}

/// Body of the security settings update endpoint.
#[derive(Clone, Copy, Debug, PartialEq, Eq, Structural)]
pub struct UpdateSecurityRequest {
    pub auth_enabled: Option<bool>,
}

/// Applies a security settings update: a given flag replaces the
/// stored one; the accounts are untouched.
pub fn apply_security_update(security: &mut SecurityConfig, req: UpdateSecurityRequest)
    ensures
        final(security).auth_enabled == (match req.auth_enabled {
            Some(e) => e,
            None => old(security).auth_enabled,
        }),
        final(security).users@ == old(security).users@,
{
    match req.auth_enabled {
        Some(e) => {
            security.auth_enabled = e;
        },
        None => {},
    }
}

/// Body of the user creation endpoint.
#[derive(Debug)]
pub struct AddUserRequest {
    pub username: String,
    pub password: String,
    pub description: Option<String>,
    pub enabled: Option<bool>,
}

/// The account an add-user request describes: enabled unless said
/// otherwise, without limits.
pub fn user_of_request(req: AddUserRequest) -> (r: User)
    ensures
        r@.username == req.username@,
        r@.password == req.password@,
        r@.enabled == (match req.enabled {
            Some(e) => e,
            None => true,
        }),
        (match r@.description {
            Some(d) => req.description matches Some(e) && d == e@,
            None => req.description is None,
        }),
        r@.bandwidth_limit == 0,
        r@.connection_limit == 0,
    {
    User {
        username: req.username,
        password: req.password,
        enabled: match req.enabled {
            Some(e) => e,
            None => true,
        },
        description: req.description,
        bandwidth_limit: 0,
        connection_limit: 0,
    }
}

/// Body of the user update endpoint.
#[derive(Debug)]
pub struct UpdateUserRequest {
    pub username: String,
    pub password: Option<String>,
    pub enabled: Option<bool>,
    pub description: Option<String>,
}

/// Body of the user removal endpoint.
#[derive(Debug)]
pub struct RemoveUserRequest {
    pub username: String,
}

/// Body of the login endpoint.
#[derive(Debug)]
pub struct LoginRequest {
    pub username: String,
    pub password: String,
}

/// Payload of the login endpoint.
#[derive(Debug)]
pub struct LoginResponse {
    pub authenticated: bool,
    pub username: Option<String>,
}

/// Payload of the auth check endpoint.
#[derive(Debug)]
pub struct AuthCheckResponse {
    pub auth_enabled: bool,
    pub authenticated: bool,
    pub username: Option<String>,
}

/// The auth check decision: with dashboard authentication off every
/// caller counts as authenticated; otherwise the session user, when
/// there is one, is reported.
pub fn auth_check_response(auth_enabled: bool, session_user: Option<String>) -> (r:
    AuthCheckResponse)
    ensures
        r.auth_enabled == auth_enabled,
        !auth_enabled ==> r.authenticated == true && r.username is None,
        auth_enabled ==> r.authenticated == (session_user is Some),
        auth_enabled ==> (match r.username {
            Some(u) => session_user matches Some(s) && u@ == s@,
            None => session_user is None,
        }),
{
    if !auth_enabled {
        return AuthCheckResponse { auth_enabled: false, authenticated: true, username: None };
    }
    match session_user {
        Some(u) => AuthCheckResponse {
            auth_enabled: true,
            authenticated: true,
            username: Some(u),
        },
        None => AuthCheckResponse { auth_enabled: true, authenticated: false, username: None },
    }
}

/// The login decision: on matching enabled credentials a session is
/// created and its token returned beside the successful response; on
/// failure nothing changes and the response carries the refusal.
pub fn login(security: &SecurityConfig, store: &mut SessionStore, req: LoginRequest) -> (r: (
    ApiResponse<LoginResponse>,
    Option<String>,
))
    ensures
        r.1 is Some <==> spec_auth_ok(
            user_views(security.users@),
            req.username@,
            req.password@,
        ),
        r.0.success == (r.1 is Some),
        r.0.data.authenticated == (r.1 is Some),
        r.1 matches Some(tok) ==> spec_validate(session_views(final(store).sessions@), tok@)
            == Some(req.username@),
        r.1 matches Some(_) ==> (r.0.data.username matches Some(u) && u@ == req.username@),
        r.1 is None ==> r.0.data.username is None && final(store).sessions@ == old(
            store,
        ).sessions@,
        r.1 is None ==> (r.0.message matches Some(m) && m@ == "Invalid username or password"@),
{
    if security.authenticate_dashboard(req.username.as_str(), req.password.as_str()) {
        let token = store.create_session(req.username.clone());
        (
            ApiResponse::ok(
                LoginResponse { authenticated: true, username: Some(req.username) },
            ),
            Some(token),
        )
    } else {
        (
            ApiResponse {
                success: false,
                data: LoginResponse { authenticated: false, username: None },
                message: Some("Invalid username or password".to_owned()),
            },
            None,
        )
    }
}

/// The value of the session cookie set on login.
pub fn session_cookie(token: &str) -> (r: String)
    ensures
        r@ == "net_relay_session="@ + token@
            + "; Path=/; HttpOnly; SameSite=Strict; Max-Age=86400"@,
{
    let mut s = "net_relay_session=".to_owned();
    vstd::string::StringExecFns::append(&mut s, token);
    vstd::string::StringExecFns::append(&mut s, "; Path=/; HttpOnly; SameSite=Strict; Max-Age=86400");
    s
}

/// The cookie value that clears the session on logout.
pub fn clear_session_cookie() -> (r: String)
    ensures
        r@ == "net_relay_session=; Path=/; HttpOnly; SameSite=Strict; Max-Age=0"@,
{
    "net_relay_session=; Path=/; HttpOnly; SameSite=Strict; Max-Age=0".to_owned()
}

/// Payload of the server configuration endpoints.
#[derive(Debug)]
pub struct ServerConfigResponse {
    pub host: String,
    pub socks_port: u16,
    pub http_port: u16,
    pub api_port: u16,
    pub requires_restart: bool,
}

/// The server payload for a binding configuration.
pub fn server_response(server: &ServerConfig, requires_restart: bool) -> (r: ServerConfigResponse)
    ensures
        r.host@ == server.host@,
        r.socks_port == server.socks_port,
        r.http_port == server.http_port,
        r.api_port == server.api_port,
        r.requires_restart == requires_restart,
{
    ServerConfigResponse {
        host: server.host.clone(),
        socks_port: server.socks_port,
        http_port: server.http_port,
        api_port: server.api_port,
        requires_restart,
    }
}

/// Body of the server configuration update endpoint.
#[derive(Debug)]
pub struct UpdateServerRequest {
    pub host: Option<String>,
    pub socks_port: Option<u16>,
    pub http_port: Option<u16>,
    pub api_port: Option<u16>,
}

/// Applies a server configuration update: each given field replaces
/// the stored one.
pub fn apply_server_update(server: &mut ServerConfig, req: UpdateServerRequest)
    ensures
        final(server).host@ == (match req.host {
            Some(h) => h@,
            None => old(server).host@,
        }),
        final(server).socks_port == (match req.socks_port {
            Some(p) => p,
            None => old(server).socks_port,
        }),
        final(server).http_port == (match req.http_port {
            Some(p) => p,
            None => old(server).http_port,
        }),
        final(server).api_port == (match req.api_port {
            Some(p) => p,
            None => old(server).api_port,
        }),
{
    match req.host {
        Some(h) => {
            server.host = h;
        },
        None => {},
    }
    match req.socks_port {
        Some(p) => {
            server.socks_port = p;
        },
        None => {},
    }
    match req.http_port {
        Some(p) => {
            server.http_port = p;
        },
        None => {},
    }
    match req.api_port {
        Some(p) => {
            server.api_port = p;
        },
        None => {},
    }
}

} // verus!
