//! Error kinds the proxy core distinguishes.

use vstd::prelude::*;

verus! {

/// Why a proxied connection or an operation failed.
#[derive(Debug)]
pub enum Error {
    /// Socket read, write or bind failure, with its description.
    Io(String),
    /// Malformed SOCKS5 handshake data.
    InvalidSocks5Protocol(String),
    /// Malformed HTTP CONNECT data.
    InvalidHttpProtocol(String),
    /// Credentials rejected.
    AuthenticationFailed,
    /// Upstream dial failed.
    ConnectionRefused(String),
    /// Connection timeout.
    Timeout,
    /// Address resolution failed.
    AddressResolution(String),
    /// SOCKS5 command other than CONNECT.
    UnsupportedCommand(u8),
    /// SOCKS5 address type outside IPv4, domain and IPv6.
    UnsupportedAddressType(u8),
    /// IP or target rejected by policy.
    AccessDenied(String),
    /// Configuration error.
    Config(String),
    /// Connection limit reached.
    MaxConnectionsReached,
}

impl Error {
    /// A short stable name for the error kind.
    pub fn kind_name(&self) -> (r: &'static str)
        ensures
            r@ == (match self {
                Error::Io(_) => "io"@,
                Error::InvalidSocks5Protocol(_) => "invalid_socks5_protocol"@,
                Error::InvalidHttpProtocol(_) => "invalid_http_protocol"@,
                Error::AuthenticationFailed => "authentication_failed"@,
                Error::ConnectionRefused(_) => "connection_refused"@,
                Error::Timeout => "timeout"@,
                Error::AddressResolution(_) => "address_resolution"@,
                Error::UnsupportedCommand(_) => "unsupported_command"@,
                Error::UnsupportedAddressType(_) => "unsupported_address_type"@,
                Error::AccessDenied(_) => "access_denied"@,
                Error::Config(_) => "config"@,
                Error::MaxConnectionsReached => "max_connections_reached"@,
            }),
    {
        match self {
            Error::Io(_) => "io",
            Error::InvalidSocks5Protocol(_) => "invalid_socks5_protocol",
            Error::InvalidHttpProtocol(_) => "invalid_http_protocol",
            Error::AuthenticationFailed => "authentication_failed",
            Error::ConnectionRefused(_) => "connection_refused",
            Error::Timeout => "timeout",
            Error::AddressResolution(_) => "address_resolution",
            Error::UnsupportedCommand(_) => "unsupported_command",
            Error::UnsupportedAddressType(_) => "unsupported_address_type",
            Error::AccessDenied(_) => "access_denied",
            Error::Config(_) => "config",
            Error::MaxConnectionsReached => "max_connections_reached",
        }
    }
}

} // verus!
