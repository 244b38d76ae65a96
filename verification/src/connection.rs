//! Connection tracking: the record kept for every proxied connection
//! from acceptance to its place in the statistics history.

use vstd::prelude::*;

use crate::clock::now_unix_secs;

verus! {

/// Lifecycle state of a connection.
#[derive(Clone, Copy, Debug, PartialEq, Eq, Structural)]
pub enum ConnectionState {
    /// Being established.
    Connecting,
    /// Transferring data.
    Active,
    /// Shutting down.
    Closing,
    /// Finished; byte totals are final.
    Closed,
}

/// Protocol the client spoke.
#[derive(Clone, Copy, Debug, PartialEq, Eq, Structural)]
pub enum Protocol {
    Socks5,
    HttpConnect,
}

/// Relies on `uuid::Uuid::new_v4`: a freshly generated random 128-bit
/// identifier, taken as its integer value.
#[verifier::external_body]
fn fresh_connection_id() -> u128 {
    uuid::Uuid::new_v4().as_u128()
}

/// Record of a single proxied connection.
#[derive(Debug)]
pub struct ConnectionInfo {
    /// Unique identifier minted at creation.
    pub id: u128,
    /// Protocol used.
    pub protocol: Protocol,
    /// Client address as a literal `ip:port` string.
    pub client_addr: String,
    /// Target host as received (hostname or numeric literal).
    pub target_addr: String,
    /// Target port.
    pub target_port: u16,
    /// Current lifecycle state.
    pub state: ConnectionState,
    /// Unix seconds when the connection was established.
    pub connected_at: i64,
    /// Unix seconds when the connection closed, once it has.
    pub closed_at: Option<i64>,
    /// Bytes sent to the target.
    pub bytes_sent: u64,
    /// Bytes received from the target.
    pub bytes_received: u64,
    /// Identity under which the client authenticated, if any.
    pub username: Option<String>,
}

/// Mathematical model of a [`ConnectionInfo`].
pub ghost struct ConnectionInfoV {
    pub id: u128,
    pub protocol: Protocol,
    pub client_addr: Seq<char>,
    pub target_addr: Seq<char>,
    pub target_port: u16,
    pub state: ConnectionState,
    pub connected_at: i64,
    pub closed_at: Option<i64>,
    pub bytes_sent: u64,
    pub bytes_received: u64,
    pub username: Option<Seq<char>>,
}

impl View for ConnectionInfo {
    type V = ConnectionInfoV;

    open spec fn view(&self) -> ConnectionInfoV {
        ConnectionInfoV {
            id: self.id,
            protocol: self.protocol,
            client_addr: self.client_addr@,
            target_addr: self.target_addr@,
            target_port: self.target_port,
            state: self.state,
            connected_at: self.connected_at,
            closed_at: self.closed_at,
            bytes_sent: self.bytes_sent,
            bytes_received: self.bytes_received,
            username: match self.username {
                Some(u) => Some(u@),
                None => None,
            },
        }
    }
}

/// The views of a list of connection records.
pub open spec fn conn_views(s: Seq<ConnectionInfo>) -> Seq<ConnectionInfoV> {
    s.map_values(|c: ConnectionInfo| c@)
}

impl ConnectionInfo {
    /// A fresh record in state `Connecting`, without a username.
    pub fn new(protocol: Protocol, client_addr: String, target_addr: String, target_port: u16) -> (r:
        ConnectionInfo)
        ensures
            r@.protocol == protocol,
            r@.client_addr == client_addr@,
            r@.target_addr == target_addr@,
            r@.target_port == target_port,
            r@.state == ConnectionState::Connecting,
            r@.closed_at is None,
            r@.bytes_sent == 0,
            r@.bytes_received == 0,
            r@.username is None,
    {
        ConnectionInfo::with_user(protocol, client_addr, target_addr, target_port, None)
    }

    /// A fresh record in state `Connecting`, carrying the authenticated
    /// username when there is one.
    pub fn with_user(
        protocol: Protocol,
        client_addr: String,
        target_addr: String,
        target_port: u16,
        username: Option<String>,
    ) -> (r: ConnectionInfo)
        ensures
            r@.protocol == protocol,
            r@.client_addr == client_addr@,
            r@.target_addr == target_addr@,
            r@.target_port == target_port,
            r@.state == ConnectionState::Connecting,
            r@.closed_at is None,
            r@.bytes_sent == 0,
            r@.bytes_received == 0,
            r@.username == (match username {
                Some(u) => Some(u@),
                None => None::<Seq<char>>,
            }),
    {
        ConnectionInfo {
            id: fresh_connection_id(),
            protocol,
            client_addr,
            target_addr,
            target_port,
            state: ConnectionState::Connecting,
            connected_at: now_unix_secs(),
            closed_at: None,
            bytes_sent: 0,
            bytes_received: 0,
            username,
        }
    }

    /// Marks the connection active.
    pub fn set_active(&mut self)
        ensures
            final(self)@ == (ConnectionInfoV { state: ConnectionState::Active, ..old(self)@ }),
    {
        self.state = ConnectionState::Active;
    }

    /// Marks the connection as closing.
    pub fn set_closing(&mut self)
        ensures
            final(self)@ == (ConnectionInfoV { state: ConnectionState::Closing, ..old(self)@ }),
    {
        self.state = ConnectionState::Closing;
    }

    /// Marks the connection closed and stamps the close time.
    pub fn set_closed(&mut self)
        ensures
            final(self)@ == (ConnectionInfoV {
                state: ConnectionState::Closed,
                closed_at: final(self)@.closed_at,
                ..old(self)@
            }),
            final(self)@.closed_at is Some,
    {
        self.state = ConnectionState::Closed;
        self.closed_at = Some(now_unix_secs());
    }

    /// Adds to the sent-byte counter, saturating at the maximum.
    pub fn add_bytes_sent(&mut self, bytes: u64)
        ensures
            final(self)@ == (ConnectionInfoV {
                bytes_sent: final(self)@.bytes_sent,
                ..old(self)@
            }),
            final(self)@.bytes_sent == (if old(self)@.bytes_sent + bytes <= u64::MAX {
                old(self)@.bytes_sent + bytes
            } else {
                u64::MAX as int
            }),
    {
        self.bytes_sent = self.bytes_sent.saturating_add(bytes);
    }

    /// Adds to the received-byte counter, saturating at the maximum.
    pub fn add_bytes_received(&mut self, bytes: u64)
        ensures
            final(self)@ == (ConnectionInfoV {
                bytes_received: final(self)@.bytes_received,
                ..old(self)@
            }),
            final(self)@.bytes_received == (if old(self)@.bytes_received + bytes <= u64::MAX {
                old(self)@.bytes_received + bytes
            } else {
                u64::MAX as int
            }),
    {
        self.bytes_received = self.bytes_received.saturating_add(bytes);
    }

    /// Connection duration in seconds: up to the close time once
    /// closed, else up to now; differences saturate at the `i64` range.
    pub fn duration_secs(&self) -> (r: i64)
        ensures
            self@.closed_at matches Some(t) ==> r == (if i64::MIN <= t - self@.connected_at
                <= i64::MAX {
                t - self@.connected_at
            } else if t >= self@.connected_at {
                i64::MAX as int
            } else {
                i64::MIN as int
            }),
    {
        let end: i64 = match self.closed_at {
            Some(t) => t,
            None => now_unix_secs(),
        };
        match end.checked_sub(self.connected_at) {
            Some(d) => d,
            None => {
                if end >= self.connected_at {
                    i64::MAX
                } else {
                    i64::MIN
                }
            },
        }
    }

    /// A fresh copy of this record.
    pub fn duplicate(&self) -> (r: ConnectionInfo)
        ensures
            r@ == self@,
    {
        ConnectionInfo {
            id: self.id,
            protocol: self.protocol,
            client_addr: self.client_addr.clone(),
            target_addr: self.target_addr.clone(),
            target_port: self.target_port,
            state: self.state,
            connected_at: self.connected_at,
            closed_at: self.closed_at,
            bytes_sent: self.bytes_sent,
            bytes_received: self.bytes_received,
            username: match &self.username {
                Some(u) => Some(u.clone()),
                None => None,
            },
        }
    }
}

/// A live connection as held by its handling task.
#[derive(Debug)]
pub struct Connection {
    /// The tracked record.
    pub info: ConnectionInfo,
}

impl Connection {
    /// A fresh connection wrapper around a new record.
    pub fn new(protocol: Protocol, client_addr: String, target_addr: String, target_port: u16) -> (r:
        Connection)
        ensures
            r.info@.protocol == protocol,
            r.info@.client_addr == client_addr@,
            r.info@.target_addr == target_addr@,
            r.info@.target_port == target_port,
            r.info@.state == ConnectionState::Connecting,
            r.info@.bytes_sent == 0,
            r.info@.bytes_received == 0,
            r.info@.username is None,
    {
        Connection { info: ConnectionInfo::new(protocol, client_addr, target_addr, target_port) }
    }
}

} // verus!
