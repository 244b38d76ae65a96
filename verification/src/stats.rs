//! Statistics registry: global counters, the live connection set,
//! per-user rollups, and a bounded FIFO history of closed connections.
//!
//! The registry is a plain value here; concurrent access wraps it in a
//! lock outside the crate. Counter updates saturate, which keeps the
//! totals monotone.

use vstd::prelude::*;

use crate::clock::now_unix_secs;
use crate::connection::{conn_views, ConnectionInfo, ConnectionInfoV, ConnectionState};
use crate::text::str_eq;

verus! {

/// Saturating 64-bit addition.
pub open spec fn sat_add64(a: u64, b: u64) -> u64 {
    if a + b <= u64::MAX {
        (a + b) as u64
    } else {
        u64::MAX
    }
}

/// Saturating 64-bit subtraction.
pub open spec fn sat_sub64(a: u64, b: u64) -> u64 {
    if a >= b {
        (a - b) as u64
    } else {
        0
    }
}

/// A finalized connection as kept in the history.
#[derive(Debug)]
pub struct ConnectionStats {
    /// The closed connection's record.
    pub info: ConnectionInfo,
}

impl View for ConnectionStats {
    type V = ConnectionInfoV;

    open spec fn view(&self) -> ConnectionInfoV {
        self.info@
    }
}

/// The views of a list of history entries.
pub open spec fn stat_views(s: Seq<ConnectionStats>) -> Seq<ConnectionInfoV> {
    s.map_values(|c: ConnectionStats| c@)
}

/// Per-user rollup of connection and traffic counters.
#[derive(Debug)]
pub struct UserStats {
    /// Username the rollup belongs to.
    pub username: String,
    /// Connections ever made by this user.
    pub total_connections: u64,
    /// Currently active connections of this user.
    pub active_connections: u64,
    /// Bytes sent on behalf of this user.
    pub total_bytes_sent: u64,
    /// Bytes received on behalf of this user.
    pub total_bytes_received: u64,
    /// Unix seconds of the last recorded activity.
    pub last_activity: Option<i64>,
}

/// Mathematical model of a [`UserStats`].
pub ghost struct UserStatsV {
    pub username: Seq<char>,
    pub total_connections: u64,
    pub active_connections: u64,
    pub total_bytes_sent: u64,
    pub total_bytes_received: u64,
    pub last_activity: Option<i64>,
}

impl View for UserStats {
    type V = UserStatsV;

    open spec fn view(&self) -> UserStatsV {
        UserStatsV {
            username: self.username@,
            total_connections: self.total_connections,
            active_connections: self.active_connections,
            total_bytes_sent: self.total_bytes_sent,
            total_bytes_received: self.total_bytes_received,
            last_activity: self.last_activity,
        }
    }
}

/// The views of a list of user rollups.
pub open spec fn user_stat_views(s: Seq<UserStats>) -> Seq<UserStatsV> {
    s.map_values(|u: UserStats| u@)
}

impl UserStats {
    /// A fresh copy of this rollup.
    pub fn duplicate(&self) -> (r: UserStats)
        ensures
            r@ == self@,
    {
        UserStats {
            username: self.username.clone(),
            total_connections: self.total_connections,
            active_connections: self.active_connections,
            total_bytes_sent: self.total_bytes_sent,
            total_bytes_received: self.total_bytes_received,
            last_activity: self.last_activity,
        }
    }
}

/// First index of a rollup with the given username, or the length of
/// the list when there is none.
pub open spec fn spec_user_stat_index(users: Seq<UserStatsV>, name: Seq<char>) -> int
    decreases users.len(),
{
    if users.len() == 0 {
        0
    } else if users[0].username == name {
        0
    } else {
        1 + spec_user_stat_index(users.drop_first(), name)
    }
}

pub proof fn lemma_user_stat_index_bounds(users: Seq<UserStatsV>, name: Seq<char>)
    ensures
        0 <= spec_user_stat_index(users, name) <= users.len(),
        spec_user_stat_index(users, name) < users.len() ==> users[spec_user_stat_index(
            users,
            name,
        )].username == name,
        forall|j: int| 0 <= j < spec_user_stat_index(users, name) ==> users[j].username != name,
    decreases users.len(),
{
    if users.len() > 0 && users[0].username != name {
        lemma_user_stat_index_bounds(users.drop_first(), name);
        let k = spec_user_stat_index(users, name);
        let kd = spec_user_stat_index(users.drop_first(), name);
        if kd < users.drop_first().len() {
            assert(users[k] == users.drop_first()[kd]);
        }
        assert forall|j: int| 0 <= j < k implies users[j].username != name by {
            if j > 0 {
                assert(users.drop_first()[j - 1] == users[j]);
            }
        }
    }
}

proof fn lemma_user_stat_index_at(users: Seq<UserStatsV>, name: Seq<char>, i: int)
    requires
        0 <= i < users.len(),
        users[i].username == name,
        forall|j: int| 0 <= j < i ==> (#[trigger] users[j]).username != name,
    ensures
        spec_user_stat_index(users, name) == i,
    decreases i,
{
    if i > 0 {
        assert(forall|j: int|
            0 <= j < i - 1 ==> (#[trigger] users.drop_first()[j]).username != name);
        assert(users.drop_first()[i - 1] == users[i]);
        lemma_user_stat_index_at(users.drop_first(), name, i - 1);
    }
}

/// First index of a live connection with the given id, or the length
/// of the list when there is none.
pub open spec fn spec_conn_index(conns: Seq<ConnectionInfoV>, id: u128) -> int
    decreases conns.len(),
{
    if conns.len() == 0 {
        0
    } else if conns[0].id == id {
        0
    } else {
        1 + spec_conn_index(conns.drop_first(), id)
    }
}

pub proof fn lemma_conn_index_bounds(conns: Seq<ConnectionInfoV>, id: u128)
    ensures
        0 <= spec_conn_index(conns, id) <= conns.len(),
        spec_conn_index(conns, id) < conns.len() ==> conns[spec_conn_index(conns, id)].id == id,
        forall|j: int| 0 <= j < spec_conn_index(conns, id) ==> conns[j].id != id,
    decreases conns.len(),
{
    if conns.len() > 0 && conns[0].id != id {
        lemma_conn_index_bounds(conns.drop_first(), id);
        let k = spec_conn_index(conns, id);
        let kd = spec_conn_index(conns.drop_first(), id);
        if kd < conns.drop_first().len() {
            assert(conns[k] == conns.drop_first()[kd]);
        }
        assert forall|j: int| 0 <= j < k implies conns[j].id != id by {
            if j > 0 {
                assert(conns.drop_first()[j - 1] == conns[j]);
            }
        }
    }
}

proof fn lemma_conn_index_at(conns: Seq<ConnectionInfoV>, id: u128, i: int)
    requires
        0 <= i < conns.len(),
        conns[i].id == id,
        forall|j: int| 0 <= j < i ==> (#[trigger] conns[j]).id != id,
    ensures
        spec_conn_index(conns, id) == i,
    decreases i,
{
    if i > 0 {
        assert(forall|j: int| 0 <= j < i - 1 ==> (#[trigger] conns.drop_first()[j]).id != id);
        assert(conns.drop_first()[i - 1] == conns[i]);
        lemma_conn_index_at(conns.drop_first(), id, i - 1);
    }
}

/// Snapshot of the aggregated counters.
#[derive(Debug)]
pub struct AggregatedStats {
    /// Connections accepted since start.
    pub total_connections: u64,
    /// Currently live connections.
    pub active_connections: u64,
    /// Total bytes sent through the relay.
    pub total_bytes_sent: u64,
    /// Total bytes received through the relay.
    pub total_bytes_received: u64,
    /// Seconds since the registry was created.
    pub uptime_secs: i64,
    /// Unix seconds when the registry was created.
    pub started_at: i64,
    /// Snapshot of the per-user rollups.
    pub users: Vec<UserStats>,
}

/// The rollup list after recording a new connection for `username`:
/// an existing rollup has its connection counters bumped and its
/// activity stamped `t`; otherwise a fresh rollup is appended.
pub open spec fn spec_users_after_add(
    uv: Seq<UserStatsV>,
    username: Option<Seq<char>>,
    t: i64,
) -> Seq<UserStatsV> {
    match username {
        None => uv,
        Some(name) => {
            let k = spec_user_stat_index(uv, name);
            if k < uv.len() {
                uv.update(
                    k,
                    UserStatsV {
                        total_connections: sat_add64(uv[k].total_connections, 1),
                        active_connections: sat_add64(uv[k].active_connections, 1),
                        last_activity: Some(t),
                        ..uv[k]
                    },
                )
            } else {
                uv.push(
                    UserStatsV {
                        username: name,
                        total_connections: 1,
                        active_connections: 1,
                        total_bytes_sent: 0,
                        total_bytes_received: 0,
                        last_activity: Some(t),
                    },
                )
            }
        },
    }
}

/// The rollup list after closing a connection of `username` that moved
/// the given byte totals: the matching rollup has its active count
/// decremented (saturating at zero), its byte totals raised, and its
/// activity stamped `t`; a missing rollup is left alone.
pub open spec fn spec_users_after_close(
    uv: Seq<UserStatsV>,
    username: Option<Seq<char>>,
    bytes_sent: u64,
    bytes_received: u64,
    t: i64,
) -> Seq<UserStatsV> {
    match username {
        None => uv,
        Some(name) => {
            let k = spec_user_stat_index(uv, name);
            if k < uv.len() {
                uv.update(
                    k,
                    UserStatsV {
                        active_connections: sat_sub64(uv[k].active_connections, 1),
                        total_bytes_sent: sat_add64(uv[k].total_bytes_sent, bytes_sent),
                        total_bytes_received: sat_add64(
                            uv[k].total_bytes_received,
                            bytes_received,
                        ),
                        last_activity: Some(t),
                        ..uv[k]
                    },
                )
            } else {
                uv
            }
        },
    }
}

/// A connection record finalized at close: state `Closed`, close time
/// `t`, and the relay's byte totals written in.
pub open spec fn spec_closed_record(
    c: ConnectionInfoV,
    bytes_sent: u64,
    bytes_received: u64,
    t: i64,
) -> ConnectionInfoV {
    ConnectionInfoV {
        state: ConnectionState::Closed,
        closed_at: Some(t),
        bytes_sent,
        bytes_received,
        ..c
    }
}

/// The history after appending a closed record to a FIFO bounded at
/// `max`: the oldest entry is dropped first when the buffer is full,
/// and nothing is kept at all when `max` is zero.
pub open spec fn spec_history_after(
    hv: Seq<ConnectionInfoV>,
    max: int,
    cv: ConnectionInfoV,
) -> Seq<ConnectionInfoV> {
    if max == 0 {
        hv
    } else if hv.len() < max {
        hv.push(cv)
    } else {
        hv.drop_first().push(cv)
    }
}

/// The statistics registry.
#[derive(Debug)]
pub struct Stats {
    /// Connections accepted since start; saturating, hence monotone.
    pub total_connections: u64,
    /// Total bytes sent through the relay.
    pub total_bytes_sent: u64,
    /// Total bytes received through the relay.
    pub total_bytes_received: u64,
    /// Unix seconds when the registry was created.
    pub started_at: i64,
    /// Closed connections, oldest first, bounded by `max_history`.
    pub history: Vec<ConnectionStats>,
    /// Live connections.
    pub active: Vec<ConnectionInfo>,
    /// Per-user rollups.
    pub user_stats: Vec<UserStats>,
    /// Bound on the history length.
    pub max_history: usize,
}

/// The effect of recording a new connection, stamped at time `t`.
pub open spec fn spec_add_effect(pre: Stats, post: Stats, info: ConnectionInfoV, t: i64) -> bool {
    user_stat_views(post.user_stats@) == spec_users_after_add(
        user_stat_views(pre.user_stats@),
        info.username,
        t,
    )
}

/// The effect on history and rollups of closing connection record `c`,
/// stamped at time `t`.
pub open spec fn spec_close_effect(
    pre: Stats,
    post: Stats,
    c: ConnectionInfoV,
    bytes_sent: u64,
    bytes_received: u64,
    t: i64,
) -> bool {
    &&& stat_views(post.history@) == spec_history_after(
        stat_views(pre.history@),
        pre.max_history as int,
        spec_closed_record(c, bytes_sent, bytes_received, t),
    )
    &&& user_stat_views(post.user_stats@) == spec_users_after_close(
        user_stat_views(pre.user_stats@),
        c.username,
        bytes_sent,
        bytes_received,
        t,
    )
}

impl Stats {
    /// The registry invariant: the history respects its bound.
    pub open spec fn wf(&self) -> bool {
        self.history@.len() <= self.max_history
    }

    /// A fresh registry with everything at zero.
    pub fn new(max_history: usize) -> (r: Stats)
        ensures
            r.total_connections == 0,
            r.total_bytes_sent == 0,
            r.total_bytes_received == 0,
            r.history@.len() == 0,
            r.active@.len() == 0,
            r.user_stats@.len() == 0,
            r.max_history == max_history,
            r.wf(),
    {
        Stats {
            total_connections: 0,
            total_bytes_sent: 0,
            total_bytes_received: 0,
            started_at: now_unix_secs(),
            history: Vec::new(),
            active: Vec::new(),
            user_stats: Vec::new(),
            max_history,
        }
    }

    /// Adds to the global byte totals, saturating.
    pub fn add_bytes(&mut self, sent: u64, received: u64)
        ensures
            final(self).total_bytes_sent == sat_add64(old(self).total_bytes_sent, sent),
            final(self).total_bytes_received == sat_add64(
                old(self).total_bytes_received,
                received,
            ),
            final(self).total_connections == old(self).total_connections,
            final(self).started_at == old(self).started_at,
            final(self).history@ == old(self).history@,
            final(self).active@ == old(self).active@,
            final(self).user_stats@ == old(self).user_stats@,
            final(self).max_history == old(self).max_history,
    {
        self.total_bytes_sent = self.total_bytes_sent.saturating_add(sent);
        self.total_bytes_received = self.total_bytes_received.saturating_add(received);
    }

    /// Records a new connection: bumps the total, registers the record
    /// as live, and rolls it up under its username when it has one.
    /// Afterwards the user's rollup shows at least one active
    /// connection.
    pub fn add_connection(&mut self, info: ConnectionInfo)
        requires
            old(self).wf(),
        ensures
            final(self).wf(),
            final(self).total_connections == sat_add64(old(self).total_connections, 1),
            conn_views(final(self).active@) == conn_views(old(self).active@).push(info@),
            final(self).history@ == old(self).history@,
            final(self).total_bytes_sent == old(self).total_bytes_sent,
            final(self).total_bytes_received == old(self).total_bytes_received,
            final(self).started_at == old(self).started_at,
            final(self).max_history == old(self).max_history,
            exists|t: i64| #[trigger] spec_add_effect(*old(self), *final(self), info@, t),
            (match info@.username {
                Some(name) => ({
                    let fv = user_stat_views(final(self).user_stats@);
                    let k = spec_user_stat_index(fv, name);
                    k < fv.len() && fv[k].active_connections >= 1
                }),
                None => final(self).user_stats@ == old(self).user_stats@,
            }),
    {
        let ghost pre = *self;
        self.total_connections = self.total_connections.saturating_add(1);
        let t = now_unix_secs();
        let has_user = match &info.username {
            Some(_) => true,
            None => false,
        };
        if has_user {
            let name: &String = match &info.username {
                Some(u) => u,
                None => vstd::pervasive::unreached(),
            };
            let ghost uv = user_stat_views(self.user_stats@);
            proof {
                lemma_user_stat_index_bounds(uv, name@);
            }
            let idx = find_user_stat(&self.user_stats, name.as_str());
            let found = match idx {
                Some(_) => true,
                None => false,
            };
            let i: usize = match idx {
                Some(k) => k,
                None => 0,
            };
            if found {
                proof {
                    lemma_user_stat_index_at(uv, name@, i as int);
                }
                let entry = &mut self.user_stats[i];
                entry.total_connections = entry.total_connections.saturating_add(1);
                entry.active_connections = entry.active_connections.saturating_add(1);
                entry.last_activity = Some(t);
                proof {
                    assert(user_stat_views(self.user_stats@) =~= spec_users_after_add(
                        uv,
                        info@.username,
                        t,
                    ));
                }
            } else {
                proof {
                    lemma_user_stat_index_at_end(uv, name@);
                }
                self.user_stats.push(
                    UserStats {
                        username: name.clone(),
                        total_connections: 1,
                        active_connections: 1,
                        total_bytes_sent: 0,
                        total_bytes_received: 0,
                        last_activity: Some(t),
                    },
                );
                proof {
                    assert(user_stat_views(self.user_stats@) =~= spec_users_after_add(
                        uv,
                        info@.username,
                        t,
                    ));
                }
            }
            proof {
                let fv = user_stat_views(self.user_stats@);
                if found {
                    lemma_user_stat_index_at(fv, name@, i as int);
                    assert(fv[i as int].active_connections >= 1);
                } else {
                    let k = uv.len() as int;
                    lemma_user_stat_index_at(fv, name@, k);
                    assert(fv[k].active_connections >= 1);
                }
            }
        }
        let ghost av = conn_views(self.active@);
        let ghost iv = info@;
        self.active.push(info);
        proof {
            assert(conn_views(self.active@) =~= av.push(iv));
            assert(spec_add_effect(pre, *self, iv, t));
        }
    }
}

proof fn lemma_user_stat_index_at_end(users: Seq<UserStatsV>, name: Seq<char>)
    requires
        forall|j: int| 0 <= j < users.len() ==> (#[trigger] users[j]).username != name,
    ensures
        spec_user_stat_index(users, name) == users.len(),
    decreases users.len(),
{
    if users.len() > 0 {
        assert(forall|j: int|
            0 <= j < users.drop_first().len() ==> (#[trigger] users.drop_first()[j]).username
                != name);
        lemma_user_stat_index_at_end(users.drop_first(), name);
    }
}

impl Stats {
    /// Closes the live connection with the given id: removes it from
    /// the live set, finalizes its byte totals, adds them to the
    /// global and per-user counters, and appends the record to the
    /// bounded history. A missing id is a silent no-op. The live set
    /// shrinks by exactly one, the total connection count is
    /// untouched, the history stays within its bound, and the user's
    /// active count drops by one, saturating at zero.
    pub fn close_connection(&mut self, id: u128, bytes_sent: u64, bytes_received: u64)
        requires
            old(self).wf(),
        ensures
            final(self).wf(),
            final(self).total_connections == old(self).total_connections,
            final(self).started_at == old(self).started_at,
            final(self).max_history == old(self).max_history,
            ({
                let av = conn_views(old(self).active@);
                let ci = spec_conn_index(av, id);
                if ci < av.len() {
                    &&& conn_views(final(self).active@) == av.remove(ci)
                    &&& final(self).active@.len() == old(self).active@.len() - 1
                    &&& final(self).total_bytes_sent == sat_add64(
                        old(self).total_bytes_sent,
                        bytes_sent,
                    )
                    &&& final(self).total_bytes_received == sat_add64(
                        old(self).total_bytes_received,
                        bytes_received,
                    )
                    &&& exists|t: i64| #[trigger] spec_close_effect(
                        *old(self),
                        *final(self),
                        av[ci],
                        bytes_sent,
                        bytes_received,
                        t,
                    )
                    &&& (match av[ci].username {
                        Some(name) => ({
                            let uv = user_stat_views(old(self).user_stats@);
                            let k = spec_user_stat_index(uv, name);
                            k < uv.len() ==> user_stat_views(
                                final(self).user_stats@,
                            )[k].active_connections == sat_sub64(uv[k].active_connections, 1)
                        }),
                        None => final(self).user_stats@ == old(self).user_stats@,
                    })
                } else {
                    &&& final(self).active@ == old(self).active@
                    &&& final(self).history@ == old(self).history@
                    &&& final(self).user_stats@ == old(self).user_stats@
                    &&& final(self).total_bytes_sent == old(self).total_bytes_sent
                    &&& final(self).total_bytes_received == old(self).total_bytes_received
                }
            }),
    {
        let ghost pre = *self;
        let ghost av = conn_views(self.active@);
        proof {
            lemma_conn_index_bounds(av, id);
        }
        let pos = match find_conn(&self.active, id) {
            Some(p) => p,
            None => {
                proof {
                    lemma_conn_index_at_end(av, id);
                }
                return ;
            },
        };
        proof {
            lemma_conn_index_at(av, id, pos as int);
        }
        let mut info = self.active.remove(pos);
        proof {
            assert(conn_views(self.active@) =~= av.remove(pos as int));
        }
        let t = now_unix_secs();
        info.state = ConnectionState::Closed;
        info.closed_at = Some(t);
        info.bytes_sent = bytes_sent;
        info.bytes_received = bytes_received;
        proof {
            assert(info@ == spec_closed_record(av[pos as int], bytes_sent, bytes_received, t));
        }
        self.total_bytes_sent = self.total_bytes_sent.saturating_add(bytes_sent);
        self.total_bytes_received = self.total_bytes_received.saturating_add(bytes_received);
        let ghost uv = user_stat_views(self.user_stats@);
        let has_user = match &info.username {
            Some(_) => true,
            None => false,
        };
        if has_user {
            let name: &String = match &info.username {
                Some(u) => u,
                None => vstd::pervasive::unreached(),
            };
            match find_user_stat(&self.user_stats, name.as_str()) {
                Some(k) => {
                    proof {
                        lemma_user_stat_index_at(uv, name@, k as int);
                    }
                    let entry = &mut self.user_stats[k];
                    entry.active_connections = entry.active_connections.saturating_sub(1);
                    entry.total_bytes_sent = entry.total_bytes_sent.saturating_add(bytes_sent);
                    entry.total_bytes_received = entry.total_bytes_received.saturating_add(
                        bytes_received,
                    );
                    entry.last_activity = Some(t);
                    proof {
                        assert(user_stat_views(self.user_stats@) =~= spec_users_after_close(
                            uv,
                            info@.username,
                            bytes_sent,
                            bytes_received,
                            t,
                        ));
                    }
                },
                None => {
                    proof {
                        lemma_user_stat_index_at_end(uv, name@);
                        assert(user_stat_views(self.user_stats@) =~= spec_users_after_close(
                            uv,
                            info@.username,
                            bytes_sent,
                            bytes_received,
                            t,
                        ));
                    }
                },
            }
        }
        let ghost hv = stat_views(self.history@);
        if self.history.len() >= self.max_history && self.history.len() > 0 {
            self.history.remove(0);
            proof {
                assert(stat_views(self.history@) =~= hv.drop_first());
            }
        }
        let ghost hv2 = stat_views(self.history@);
        if self.max_history > 0 {
            let ghost cv = info@;
            self.history.push(ConnectionStats { info });
            proof {
                assert(stat_views(self.history@) =~= hv2.push(cv));
            }
        }
        proof {
            assert(spec_close_effect(pre, *self, av[pos as int], bytes_sent, bytes_received, t));
        }
    }

    /// Snapshot of the aggregated counters and per-user rollups.
    pub fn get_aggregated(&self) -> (r: AggregatedStats)
        ensures
            r.total_connections == self.total_connections,
            r.active_connections == self.active@.len(),
            r.total_bytes_sent == self.total_bytes_sent,
            r.total_bytes_received == self.total_bytes_received,
            r.started_at == self.started_at,
            user_stat_views(r.users@) == user_stat_views(self.user_stats@),
    {
        AggregatedStats {
            total_connections: self.total_connections,
            active_connections: self.active.len() as u64,
            total_bytes_sent: self.total_bytes_sent,
            total_bytes_received: self.total_bytes_received,
            uptime_secs: uptime_since(self.started_at),
            started_at: self.started_at,
            users: self.get_user_stats(),
        }
    }

    /// Snapshot of the per-user rollups.
    pub fn get_user_stats(&self) -> (r: Vec<UserStats>)
        ensures
            user_stat_views(r@) == user_stat_views(self.user_stats@),
    {
        let ghost uv = user_stat_views(self.user_stats@);
        let mut out: Vec<UserStats> = Vec::new();
        let mut i: usize = 0;
        while i < self.user_stats.len()
            invariant
                i <= self.user_stats@.len(),
                uv == user_stat_views(self.user_stats@),
                out@.len() == i,
                user_stat_views(out@) == uv.take(i as int),
            decreases self.user_stats@.len() - i,
        {
            let ghost prev = out@;
            out.push(self.user_stats[i].duplicate());
            proof {
                assert forall|j: int|
                    0 <= j < i + 1 implies user_stat_views(out@)[j] == uv.take(i + 1)[j] by {
                    assert(out@[j] == (if j < i {
                        prev[j]
                    } else {
                        out@[i as int]
                    }));
                    if j < i {
                        assert(user_stat_views(prev)[j] == uv.take(i as int)[j]);
                    }
                }
                assert(user_stat_views(out@) =~= uv.take(i + 1));
            }
            i += 1;
        }
        proof {
            assert(uv.take(uv.len() as int) =~= uv);
        }
        out
    }

    /// The rollup of one user, when there is one.
    pub fn get_user(&self, username: &str) -> (r: Option<UserStats>)
        ensures
            ({
                let uv = user_stat_views(self.user_stats@);
                let k = spec_user_stat_index(uv, username@);
                match r {
                    Some(u) => k < uv.len() && u@ == uv[k],
                    None => k >= uv.len(),
                }
            }),
    {
        let ghost uv = user_stat_views(self.user_stats@);
        match find_user_stat(&self.user_stats, username) {
            Some(k) => {
                proof {
                    lemma_user_stat_index_at(uv, username@, k as int);
                }
                Some(self.user_stats[k].duplicate())
            },
            None => {
                proof {
                    lemma_user_stat_index_at_end(uv, username@);
                }
                None
            },
        }
    }

    /// Snapshot of the live connection list.
    pub fn get_active(&self) -> (r: Vec<ConnectionInfo>)
        ensures
            conn_views(r@) == conn_views(self.active@),
    {
        let ghost av = conn_views(self.active@);
        let mut out: Vec<ConnectionInfo> = Vec::new();
        let mut i: usize = 0;
        while i < self.active.len()
            invariant
                i <= self.active@.len(),
                av == conn_views(self.active@),
                out@.len() == i,
                conn_views(out@) == av.take(i as int),
            decreases self.active@.len() - i,
        {
            let ghost prev = out@;
            out.push(self.active[i].duplicate());
            proof {
                assert forall|j: int|
                    0 <= j < i + 1 implies conn_views(out@)[j] == av.take(i + 1)[j] by {
                    assert(out@[j] == (if j < i {
                        prev[j]
                    } else {
                        out@[i as int]
                    }));
                    if j < i {
                        assert(conn_views(prev)[j] == av.take(i as int)[j]);
                    }
                }
                assert(conn_views(out@) =~= av.take(i + 1));
            }
            i += 1;
        }
        proof {
            assert(av.take(av.len() as int) =~= av);
        }
        out
    }

    /// Most-recent-first copy of the history, truncated to `limit`
    /// entries when one is given.
    pub fn get_history(&self, limit: Option<usize>) -> (r: Vec<ConnectionStats>)
        ensures
            ({
                let hv = stat_views(self.history@);
                let n = (match limit {
                    Some(l) => if l <= hv.len() {
                        l as int
                    } else {
                        hv.len() as int
                    },
                    None => hv.len() as int,
                });
                r@.len() == n && forall|i: int|
                    0 <= i < n ==> stat_views(r@)[i] == hv[hv.len() - 1 - i]
            }),
    {
        let ghost hv = stat_views(self.history@);
        let n: usize = match limit {
            Some(l) => {
                if l <= self.history.len() {
                    l
                } else {
                    self.history.len()
                }
            },
            None => self.history.len(),
        };
        let mut out: Vec<ConnectionStats> = Vec::new();
        let mut i: usize = 0;
        while i < n
            invariant
                i <= n,
                n <= self.history@.len(),
                hv == stat_views(self.history@),
                out@.len() == i,
                forall|j: int| 0 <= j < i ==> stat_views(out@)[j] == hv[hv.len() - 1 - j],
            decreases n - i,
        {
            let idx: usize = self.history.len() - 1 - i;
            let ghost prev = out@;
            out.push(
                ConnectionStats { info: self.history[idx].info.duplicate() },
            );
            proof {
                assert forall|j: int|
                    0 <= j < i + 1 implies stat_views(out@)[j] == hv[hv.len() - 1 - j] by {
                    assert(out@[j] == (if j < i {
                        prev[j]
                    } else {
                        out@[i as int]
                    }));
                    if j < i {
                        assert(stat_views(prev)[j] == hv[hv.len() - 1 - j]);
                    }
                }
            }
            i += 1;
        }
        out
    }
}

impl Default for Stats {
    /// A fresh registry with the documented default history bound.
    fn default() -> (r: Stats)
        ensures
            r.total_connections == 0,
            r.total_bytes_sent == 0,
            r.total_bytes_received == 0,
            r.history@.len() == 0,
            r.active@.len() == 0,
            r.user_stats@.len() == 0,
            r.max_history == 1000,
            r.wf(),
    {
        Stats::new(1000)
    }
}

/// Seconds elapsed since `started_at`, by the wall clock, saturating.
fn uptime_since(started_at: i64) -> (r: i64)
{
    let t = now_unix_secs();
    match t.checked_sub(started_at) {
        Some(d) => d,
        None => {
            if t >= started_at {
                i64::MAX
            } else {
                i64::MIN
            }
        },
    }
}

proof fn lemma_conn_index_at_end(conns: Seq<ConnectionInfoV>, id: u128)
    requires
        forall|j: int| 0 <= j < conns.len() ==> (#[trigger] conns[j]).id != id,
    ensures
        spec_conn_index(conns, id) == conns.len(),
    decreases conns.len(),
{
    if conns.len() > 0 {
        assert(forall|j: int|
            0 <= j < conns.drop_first().len() ==> (#[trigger] conns.drop_first()[j]).id != id);
        lemma_conn_index_at_end(conns.drop_first(), id);
    }
}

/// First live connection with the given id, by index.
fn find_conn(list: &Vec<ConnectionInfo>, id: u128) -> (r: Option<usize>)
    ensures
        match r {
            Some(i) => i < list@.len() && conn_views(list@)[i as int].id == id && forall|j: int|
                0 <= j < i ==> (#[trigger] conn_views(list@)[j]).id != id,
            None => forall|j: int|
                0 <= j < list@.len() ==> (#[trigger] conn_views(list@)[j]).id != id,
        },
{
    let mut i: usize = 0;
    while i < list.len()
        invariant
            i <= list@.len(),
            forall|j: int| 0 <= j < i ==> (#[trigger] conn_views(list@)[j]).id != id,
        decreases list@.len() - i,
    {
        if list[i].id == id {
            return Some(i);
        }
        i += 1;
    }
    None
}

/// First rollup with the given username, by index.
fn find_user_stat(list: &Vec<UserStats>, name: &str) -> (r: Option<usize>)
    ensures
        match r {
            Some(i) => i < list@.len() && user_stat_views(list@)[i as int].username == name@
                && forall|j: int|
                0 <= j < i ==> (#[trigger] user_stat_views(list@)[j]).username != name@,
            None => forall|j: int|
                0 <= j < list@.len() ==> (#[trigger] user_stat_views(list@)[j]).username != name@,
        },
{
    let mut i: usize = 0;
    while i < list.len()
        invariant
            i <= list@.len(),
            forall|j: int| 0 <= j < i ==> (#[trigger] user_stat_views(list@)[j]).username != name@,
        decreases list@.len() - i,
    {
        if str_eq(list[i].username.as_str(), name) {
            return Some(i);
        }
        i += 1;
    }
    None
}

} // verus!
