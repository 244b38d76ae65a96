//! Configuration data model: server binding, security (users and
//! authentication), limits, statistics settings, and access control
//! (IP lists and domain/path rules), together with the access
//! evaluator that the proxy listeners consult on every connection.

use vstd::prelude::*;

use crate::text::{
    bytes_eq, chars_bytes, ends_with, find_idx, seq_ends_with, seq_starts_with, spec_find_from,
    starts_with, str_eq,
};

verus! {

/// What an access rule does when it matches.
#[derive(Clone, Copy, Debug, PartialEq, Eq, Structural)]
pub enum RuleAction {
    Allow,
    Deny,
}

/// One domain/path rule of the access-control list.
#[derive(Debug)]
pub struct AccessRule {
    /// Rule name/description.
    pub name: String,
    /// Domain pattern; `*.example.com` matches the domain itself and
    /// any of its subdomains.
    pub domain: String,
    /// Optional path prefix the request path must start with.
    pub path: Option<String>,
    /// Action to take when the rule matches.
    pub action: RuleAction,
    /// Disabled rules never match.
    pub enabled: bool,
}

/// Mathematical model of an [`AccessRule`].
pub ghost struct AccessRuleV {
    pub name: Seq<char>,
    pub domain: Seq<char>,
    pub path: Option<Seq<char>>,
    pub action: RuleAction,
    pub enabled: bool,
}

impl View for AccessRule {
    type V = AccessRuleV;

    open spec fn view(&self) -> AccessRuleV {
        AccessRuleV {
            name: self.name@,
            domain: self.domain@,
            path: match self.path {
                Some(p) => Some(p@),
                None => None,
            },
            action: self.action,
            enabled: self.enabled,
        }
    }
}

/// The views of a list of rules.
pub open spec fn rule_views(s: Seq<AccessRule>) -> Seq<AccessRuleV> {
    s.map_values(|r: AccessRule| r@)
}

/// The views of a list of strings.
pub open spec fn string_views(s: Seq<String>) -> Seq<Seq<char>> {
    s.map_values(|x: String| x@)
}

/// IP allow/deny lists and domain rules.
#[derive(Debug)]
pub struct AccessControlConfig {
    /// When non-empty, only addresses matching an entry are accepted.
    pub ip_whitelist: Vec<String>,
    /// Addresses matching an entry are always rejected.
    pub ip_blacklist: Vec<String>,
    /// Rules scanned in order; the first enabled match decides.
    pub rules: Vec<AccessRule>,
    /// Decision when no rule matches: `true` allows (blacklist mode),
    /// `false` denies (whitelist mode).
    pub allow_by_default: bool,
}

impl Default for AccessControlConfig {
    fn default() -> (r: Self)
        ensures
            r.ip_whitelist@.len() == 0,
            r.ip_blacklist@.len() == 0,
            r.rules@.len() == 0,
            r.allow_by_default == true,
    {
        AccessControlConfig {
            ip_whitelist: Vec::new(),
            ip_blacklist: Vec::new(),
            rules: Vec::new(),
            allow_by_default: true,
        }
    }
}

/// One account that the proxies and the dashboard authenticate against.
#[derive(Debug)]
pub struct User {
    pub username: String,
    pub password: String,
    pub enabled: bool,
    pub description: Option<String>,
    pub bandwidth_limit: u64,
    pub connection_limit: u32,
}

/// Mathematical model of a [`User`].
pub ghost struct UserV {
    pub username: Seq<char>,
    pub password: Seq<char>,
    pub enabled: bool,
    pub description: Option<Seq<char>>,
    pub bandwidth_limit: u64,
    pub connection_limit: u32,
}

impl View for User {
    type V = UserV;

    open spec fn view(&self) -> UserV {
        UserV {
            username: self.username@,
            password: self.password@,
            enabled: self.enabled,
            description: match self.description {
                Some(d) => Some(d@),
                None => None,
            },
            bandwidth_limit: self.bandwidth_limit,
            connection_limit: self.connection_limit,
        }
    }
}

/// The views of a list of users.
pub open spec fn user_views(s: Seq<User>) -> Seq<UserV> {
    s.map_values(|u: User| u@)
}

/// Authentication settings and the account list.
#[derive(Debug)]
pub struct SecurityConfig {
    /// Whether the proxies demand client authentication.
    pub auth_enabled: bool,
    /// Accounts, with case-sensitive unique usernames.
    pub users: Vec<User>,
}

impl Default for SecurityConfig {
    fn default() -> (r: Self)
        ensures
            r.auth_enabled == false,
            r.users@.len() == 0,
    {
        SecurityConfig { auth_enabled: false, users: Vec::new() }
    }
}

/// Listener binding configuration.
#[derive(Debug)]
pub struct ServerConfig {
    /// Host address to bind.
    pub host: String,
    /// SOCKS5 proxy port.
    pub socks_port: u16,
    /// HTTP CONNECT proxy port.
    pub http_port: u16,
    /// Management API port.
    pub api_port: u16,
}

impl Default for ServerConfig {
    fn default() -> (r: Self)
        ensures
            r.host@ == "0.0.0.0"@,
            r.socks_port == 1080,
            r.http_port == 8080,
            r.api_port == 3000,
    {
        ServerConfig {
            host: "0.0.0.0".to_owned(),
            socks_port: 1080,
            http_port: 8080,
            api_port: 3000,
        }
    }
}

/// Logging configuration, consumed at startup.
#[derive(Debug)]
pub struct LoggingConfig {
    /// Log level name.
    pub level: String,
    /// Optional log file path.
    pub file: Option<String>,
}

impl Default for LoggingConfig {
    fn default() -> (r: Self)
        ensures
            r.level@ == "info"@,
            r.file is None,
    {
        LoggingConfig { level: "info".to_owned(), file: None }
    }
}

/// Connection limits, declared in the data model; not enforced by the
/// core.
#[derive(Clone, Copy, Debug, PartialEq, Eq, Structural)]
pub struct LimitsConfig {
    pub max_connections: usize,
    pub timeout: u64,
    pub idle_timeout: u64,
}

impl Default for LimitsConfig {
    fn default() -> (r: Self)
        ensures
            r.max_connections == 1000,
            r.timeout == 300,
            r.idle_timeout == 60,
    {
        LimitsConfig { max_connections: 1000, timeout: 300, idle_timeout: 60 }
    }
}

/// Statistics collection settings.
#[derive(Clone, Copy, Debug, PartialEq, Eq, Structural)]
pub struct StatsConfig {
    pub enabled: bool,
    pub retention_hours: u64,
}

impl Default for StatsConfig {
    fn default() -> (r: Self)
        ensures
            r.enabled == true,
            r.retention_hours == 24,
    {
        StatsConfig { enabled: true, retention_hours: 24 }
    }
}

/// The complete configuration value: the single source of truth read
/// by the listeners on every accepted connection.
#[derive(Debug)]
pub struct Config {
    pub server: ServerConfig,
    pub logging: LoggingConfig,
    pub security: SecurityConfig,
    pub limits: LimitsConfig,
    pub stats: StatsConfig,
    pub access_control: AccessControlConfig,
}

impl Default for Config {
    fn default() -> (r: Self)
        ensures
            r.server.host@ == "0.0.0.0"@,
            r.server.socks_port == 1080,
            r.server.http_port == 8080,
            r.server.api_port == 3000,
            r.logging.level@ == "info"@,
            r.logging.file is None,
            r.security.auth_enabled == false,
            r.security.users@.len() == 0,
            r.limits == (LimitsConfig { max_connections: 1000, timeout: 300, idle_timeout: 60 }),
            r.stats == (StatsConfig { enabled: true, retention_hours: 24 }),
            r.access_control.ip_whitelist@.len() == 0,
            r.access_control.ip_blacklist@.len() == 0,
            r.access_control.rules@.len() == 0,
            r.access_control.allow_by_default == true,
    {
        Config {
            server: ServerConfig::default(),
            logging: LoggingConfig::default(),
            security: SecurityConfig::default(),
            limits: LimitsConfig::default(),
            stats: StatsConfig::default(),
            access_control: AccessControlConfig::default(),
        }
    }
}

/// IP pattern matching: a pattern containing `/` matches any address
/// that starts with its part before the first `/`; any other pattern
/// matches only the exact address.
pub open spec fn spec_ip_matches(ip: Seq<char>, pattern: Seq<char>) -> bool {
    let pb = chars_bytes(pattern);
    let k = spec_find_from(pb, 47, 0);
    if k < pb.len() {
        seq_starts_with(chars_bytes(ip), pb.take(k))
    } else {
        ip == pattern
    }
}

pub fn ip_matches(ip: &str, pattern: &str) -> (r: bool)
    ensures
        r == spec_ip_matches(ip@, pattern@),
{
    let pb = pattern.as_bytes();
    let ib = ip.as_bytes();
    let k = find_idx(pb, 47);
    if k < pb.len() {
        let pre = vstd::slice::slice_subrange(pb, 0, k);
        let r = starts_with(ib, pre);
        proof {
            assert(pb@.subrange(0, k as int) =~= pb@.take(k as int));
        }
        r
    } else {
        str_eq(ip, pattern)
    }
}

/// Domain pattern matching: `*.X` matches `X` and any domain ending in
/// `.X`; any other pattern matches only the exact domain.
pub open spec fn spec_domain_matches(domain: Seq<char>, pattern: Seq<char>) -> bool {
    let db = chars_bytes(domain);
    let pb = chars_bytes(pattern);
    if seq_starts_with(pb, seq![42u8, 46u8]) {
        seq_ends_with(db, pb.drop_first()) || db == pb.subrange(2, pb.len() as int)
    } else {
        domain == pattern
    }
}

pub fn domain_matches(domain: &str, pattern: &str) -> (r: bool)
    ensures
        r == spec_domain_matches(domain@, pattern@),
{
    let db = domain.as_bytes();
    let pb = pattern.as_bytes();
    if pb.len() >= 2 && pb[0] == 42 && pb[1] == 46 {
        proof {
            assert(pb@.subrange(0, 2) =~= seq![42u8, 46u8]);
        }
        let suffix = vstd::slice::slice_subrange(pb, 1, pb.len());
        let bare = vstd::slice::slice_subrange(pb, 2, pb.len());
        proof {
            assert(pb@.subrange(1, pb@.len() as int) =~= pb@.drop_first());
        }
        ends_with(db, suffix) || bytes_eq(db, bare)
    } else {
        proof {
            if seq_starts_with(pb@, seq![42u8, 46u8]) {
                assert(pb@.subrange(0, 2) =~= seq![42u8, 46u8]);
                assert(pb@[0] == 42 && pb@[1] == 46);
            }
        }
        str_eq(domain, pattern)
    }
}

/// When an access rule matches a target: the rule is enabled, its
/// domain pattern matches the host, and, when the rule names a path
/// prefix, a request path is present and starts with it.
pub open spec fn spec_rule_matches(rule: AccessRuleV, host: Seq<char>, path: Option<Seq<char>>) -> bool {
    &&& rule.enabled
    &&& spec_domain_matches(host, rule.domain)
    &&& match rule.path {
        Some(rp) => match path {
            Some(q) => seq_starts_with(chars_bytes(q), chars_bytes(rp)),
            None => false,
        },
        None => true,
    }
}

impl AccessRule {
    /// Whether this rule applies to the given host and optional path.
    pub fn matches(&self, host: &str, path: Option<&str>) -> (r: bool)
        ensures
            r == spec_rule_matches(
                self@,
                host@,
                (match path {
                    Some(q) => Some(q@),
                    None => None,
                }),
            ),
    {
        if !self.enabled {
            return false;
        }
        if !domain_matches(host, self.domain.as_str()) {
            return false;
        }
        match &self.path {
            Some(rule_path) => match path {
                Some(request_path) => starts_with(
                    request_path.as_bytes(),
                    rule_path.as_str().as_bytes(),
                ),
                None => false,
            },
            None => true,
        }
    }
}

/// Membership of an address in an IP pattern list.
pub open spec fn spec_ip_in_list(list: Seq<Seq<char>>, ip: Seq<char>) -> bool {
    exists|k: int| 0 <= k < list.len() && spec_ip_matches(ip, #[trigger] list[k])
}

/// The IP admission decision: the blacklist denies first; then a
/// non-empty whitelist admits only its members; otherwise the address
/// is allowed.
pub open spec fn spec_ip_allowed(
    blacklist: Seq<Seq<char>>,
    whitelist: Seq<Seq<char>>,
    ip: Seq<char>,
) -> bool {
    if spec_ip_in_list(blacklist, ip) {
        false
    } else if whitelist.len() > 0 {
        spec_ip_in_list(whitelist, ip)
    } else {
        true
    }
}

fn ip_in_list(list: &Vec<String>, ip: &str) -> (r: bool)
    ensures
        r == spec_ip_in_list(string_views(list@), ip@),
{
    let mut i: usize = 0;
    while i < list.len()
        invariant
            i <= list@.len(),
            forall|k: int|
                0 <= k < i ==> !spec_ip_matches(ip@, #[trigger] string_views(list@)[k]),
        decreases list@.len() - i,
    {
        if ip_matches(ip, list[i].as_str()) {
            proof {
                assert(spec_ip_matches(ip@, string_views(list@)[i as int]));
            }
            return true;
        }
        i += 1;
    }
    false
}

/// The decision of the first enabled matching rule, scanned in order.
pub open spec fn spec_target_decision(
    rules: Seq<AccessRuleV>,
    host: Seq<char>,
    path: Option<Seq<char>>,
) -> Option<RuleAction>
    decreases rules.len(),
{
    if rules.len() == 0 {
        None
    } else if spec_rule_matches(rules[0], host, path) {
        Some(rules[0].action)
    } else {
        spec_target_decision(rules.drop_first(), host, path)
    }
}

/// The target admission decision: the first enabled matching rule
/// decides; when none matches, `allow_by_default` decides.
pub open spec fn spec_target_allowed(
    rules: Seq<AccessRuleV>,
    allow_by_default: bool,
    host: Seq<char>,
    path: Option<Seq<char>>,
) -> bool {
    match spec_target_decision(rules, host, path) {
        Some(a) => a == RuleAction::Allow,
        None => allow_by_default,
    }
}

proof fn lemma_target_decision_step(
    rules: Seq<AccessRuleV>,
    host: Seq<char>,
    path: Option<Seq<char>>,
    i: int,
)
    requires
        0 <= i < rules.len(),
        !spec_rule_matches(rules[i], host, path),
    ensures
        spec_target_decision(rules.skip(i), host, path) == spec_target_decision(
            rules.skip(i + 1),
            host,
            path,
        ),
{
    assert(rules.skip(i)[0] == rules[i]);
    assert(rules.skip(i).drop_first() =~= rules.skip(i + 1));
}

impl AccessControlConfig {
    /// Whether a client address passes the IP lists.
    pub fn is_ip_allowed(&self, ip: &str) -> (r: bool)
        ensures
            r == spec_ip_allowed(
                string_views(self.ip_blacklist@),
                string_views(self.ip_whitelist@),
                ip@,
            ),
    {
        if ip_in_list(&self.ip_blacklist, ip) {
            return false;
        }
        if self.ip_whitelist.len() > 0 {
            return ip_in_list(&self.ip_whitelist, ip);
        }
        true
    }

    /// Whether a target host (and optional path) passes the rules.
    pub fn is_target_allowed(&self, host: &str, path: Option<&str>) -> (r: bool)
        ensures
            r == spec_target_allowed(
                rule_views(self.rules@),
                self.allow_by_default,
                host@,
                (match path {
                    Some(q) => Some(q@),
                    None => None,
                }),
            ),
    {
        let ghost rv = rule_views(self.rules@);
        let ghost pv = match path {
            Some(q) => Some(q@),
            None => None,
        };
        let mut i: usize = 0;
        proof {
            assert(rv.skip(0) =~= rv);
        }
        while i < self.rules.len()
            invariant
                i <= self.rules@.len(),
                rv == rule_views(self.rules@),
                pv == (match path {
                    Some(q) => Some(q@),
                    None => None,
                }),
                spec_target_decision(rv, host@, pv) == spec_target_decision(
                    rv.skip(i as int),
                    host@,
                    pv,
                ),
            decreases self.rules@.len() - i,
        {
            if self.rules[i].matches(host, path) {
                proof {
                    assert(rv.skip(i as int)[0] == rv[i as int]);
                }
                return self.rules[i].action == RuleAction::Allow;
            }
            proof {
                lemma_target_decision_step(rv, host@, pv, i as int);
            }
            i += 1;
        }
        proof {
            assert(rv.skip(i as int) =~= Seq::<AccessRuleV>::empty());
        }
        self.allow_by_default
    }
}

/// The IP admission decision depends on the ACL snapshot and the
/// address alone: equal snapshots and equal addresses always yield the
/// same result.
pub proof fn lemma_ip_allowed_snapshot(
    blacklist1: Seq<Seq<char>>,
    whitelist1: Seq<Seq<char>>,
    ip1: Seq<char>,
    blacklist2: Seq<Seq<char>>,
    whitelist2: Seq<Seq<char>>,
    ip2: Seq<char>,
)
    requires
        blacklist1 == blacklist2,
        whitelist1 == whitelist2,
        ip1 == ip2,
    ensures
        spec_ip_allowed(blacklist1, whitelist1, ip1) == spec_ip_allowed(
            blacklist2,
            whitelist2,
            ip2,
        ),
{
}

/// The first enabled matching rule decides the target admission: when
/// rule `i` matches and no earlier rule does, the decision is exactly
/// whether rule `i` allows.
pub proof fn lemma_first_matching_rule_decides(
    rules: Seq<AccessRuleV>,
    allow_by_default: bool,
    host: Seq<char>,
    path: Option<Seq<char>>,
    i: int,
)
    requires
        0 <= i < rules.len(),
        spec_rule_matches(rules[i], host, path),
        forall|j: int| 0 <= j < i ==> !spec_rule_matches(#[trigger] rules[j], host, path),
    ensures
        spec_target_allowed(rules, allow_by_default, host, path) == (rules[i].action
            == RuleAction::Allow),
    decreases i,
{
    if i == 0 {
    } else {
        assert(rules.drop_first()[i - 1] == rules[i]);
        assert(forall|j: int|
            0 <= j < i - 1 ==> !spec_rule_matches(#[trigger] rules.drop_first()[j], host, path));
        lemma_first_matching_rule_decides(rules.drop_first(), allow_by_default, host, path, i - 1);
    }
}

/// When no rule matches a target, `allow_by_default` decides.
pub proof fn lemma_no_rule_matches_default_decides(
    rules: Seq<AccessRuleV>,
    allow_by_default: bool,
    host: Seq<char>,
    path: Option<Seq<char>>,
)
    requires
        forall|j: int| 0 <= j < rules.len() ==> !spec_rule_matches(#[trigger] rules[j], host, path),
    ensures
        spec_target_allowed(rules, allow_by_default, host, path) == allow_by_default,
    decreases rules.len(),
{
    if rules.len() > 0 {
        assert(forall|j: int|
            0 <= j < rules.drop_first().len() ==> !spec_rule_matches(
                #[trigger] rules.drop_first()[j],
                host,
                path,
            ));
        lemma_no_rule_matches_default_decides(rules.drop_first(), allow_by_default, host, path);
    }
}

/// The string list with every entry equal to `x` removed, in order.
pub open spec fn spec_remove_string(l: Seq<Seq<char>>, x: Seq<char>) -> Seq<Seq<char>>
    decreases l.len(),
{
    if l.len() == 0 {
        Seq::empty()
    } else {
        let rest = spec_remove_string(l.drop_last(), x);
        if l.last() == x {
            rest
        } else {
            rest.push(l.last())
        }
    }
}

/// Membership of a string in a list, by value.
pub open spec fn spec_string_in_list(l: Seq<Seq<char>>, x: Seq<char>) -> bool {
    exists|k: int| 0 <= k < l.len() && #[trigger] l[k] == x
}

fn list_contains(list: &Vec<String>, x: &str) -> (r: bool)
    ensures
        r == spec_string_in_list(string_views(list@), x@),
{
    let mut i: usize = 0;
    while i < list.len()
        invariant
            i <= list@.len(),
            forall|k: int| 0 <= k < i ==> #[trigger] string_views(list@)[k] != x@,
        decreases list@.len() - i,
    {
        if str_eq(list[i].as_str(), x) {
            proof {
                assert(string_views(list@)[i as int] == x@);
            }
            return true;
        }
        i += 1;
    }
    false
}

/// Removes every entry equal to `x` from a string list, keeping order.
fn list_remove(list: &mut Vec<String>, x: &str)
    ensures
        string_views(final(list)@) == spec_remove_string(string_views(old(list)@), x@),
{
    let ghost lv = string_views(list@);
    let mut kept: Vec<String> = Vec::new();
    let mut i: usize = 0;
    proof {
        assert(lv.take(0) =~= Seq::<Seq<char>>::empty());
    }
    while i < list.len()
        invariant
            i <= list@.len(),
            lv == string_views(list@),
            list@ == old(list)@,
            string_views(kept@) == spec_remove_string(lv.take(i as int), x@),
        decreases list@.len() - i,
    {
        let ghost pre = lv.take(i as int);
        proof {
            assert(lv.take(i + 1).drop_last() =~= pre);
            assert(lv.take(i + 1).last() == lv[i as int]);
        }
        if !str_eq(list[i].as_str(), x) {
            kept.push(list[i].clone());
            proof {
                assert(string_views(kept@) =~= spec_remove_string(pre, x@).push(lv[i as int]));
            }
        }
        i += 1;
    }
    proof {
        assert(lv.take(lv.len() as int) =~= lv);
    }
    *list = kept;
}

impl AccessControlConfig {
    /// Adds an address pattern to the blacklist unless already present.
    pub fn add_blacklist_ip(&mut self, ip: String) -> (added: bool)
        ensures
            added == !spec_string_in_list(string_views(old(self).ip_blacklist@), ip@),
            added ==> string_views(final(self).ip_blacklist@) == string_views(
                old(self).ip_blacklist@,
            ).push(ip@),
            !added ==> final(self).ip_blacklist@ == old(self).ip_blacklist@,
            final(self).ip_whitelist@ == old(self).ip_whitelist@,
            final(self).rules@ == old(self).rules@,
            final(self).allow_by_default == old(self).allow_by_default,
    {
        if list_contains(&self.ip_blacklist, ip.as_str()) {
            return false;
        }
        let ghost lv = string_views(self.ip_blacklist@);
        self.ip_blacklist.push(ip);
        proof {
            assert(string_views(final(self).ip_blacklist@) =~= lv.push(ip@));
        }
        true
    }

    /// Removes an address pattern from the blacklist.
    pub fn remove_blacklist_ip(&mut self, ip: &str)
        ensures
            string_views(final(self).ip_blacklist@) == spec_remove_string(
                string_views(old(self).ip_blacklist@),
                ip@,
            ),
            final(self).ip_whitelist@ == old(self).ip_whitelist@,
            final(self).rules@ == old(self).rules@,
            final(self).allow_by_default == old(self).allow_by_default,
    {
        list_remove(&mut self.ip_blacklist, ip);
    }

    /// Adds an address pattern to the whitelist unless already present.
    pub fn add_whitelist_ip(&mut self, ip: String) -> (added: bool)
        ensures
            added == !spec_string_in_list(string_views(old(self).ip_whitelist@), ip@),
            added ==> string_views(final(self).ip_whitelist@) == string_views(
                old(self).ip_whitelist@,
            ).push(ip@),
            !added ==> final(self).ip_whitelist@ == old(self).ip_whitelist@,
            final(self).ip_blacklist@ == old(self).ip_blacklist@,
            final(self).rules@ == old(self).rules@,
            final(self).allow_by_default == old(self).allow_by_default,
    {
        if list_contains(&self.ip_whitelist, ip.as_str()) {
            return false;
        }
        let ghost lv = string_views(self.ip_whitelist@);
        self.ip_whitelist.push(ip);
        proof {
            assert(string_views(final(self).ip_whitelist@) =~= lv.push(ip@));
        }
        true
    }

    /// Removes an address pattern from the whitelist.
    pub fn remove_whitelist_ip(&mut self, ip: &str)
        ensures
            string_views(final(self).ip_whitelist@) == spec_remove_string(
                string_views(old(self).ip_whitelist@),
                ip@,
            ),
            final(self).ip_blacklist@ == old(self).ip_blacklist@,
            final(self).rules@ == old(self).rules@,
            final(self).allow_by_default == old(self).allow_by_default,
    {
        list_remove(&mut self.ip_whitelist, ip);
    }

    /// Appends a rule to the end of the rule list.
    pub fn add_rule(&mut self, rule: AccessRule)
        ensures
            rule_views(final(self).rules@) == rule_views(old(self).rules@).push(rule@),
            final(self).ip_blacklist@ == old(self).ip_blacklist@,
            final(self).ip_whitelist@ == old(self).ip_whitelist@,
            final(self).allow_by_default == old(self).allow_by_default,
    {
        let ghost rv = rule_views(self.rules@);
        let ghost rview = rule@;
        self.rules.push(rule);
        proof {
            assert(rule_views(final(self).rules@) =~= rv.push(rview));
        }
    }

    /// Removes the rule at `index`; out-of-range indexes are ignored.
    pub fn remove_rule(&mut self, index: usize)
        ensures
            index < old(self).rules@.len() ==> final(self).rules@ == old(self).rules@.remove(
                index as int,
            ),
            index >= old(self).rules@.len() ==> final(self).rules@ == old(self).rules@,
            final(self).ip_blacklist@ == old(self).ip_blacklist@,
            final(self).ip_whitelist@ == old(self).ip_whitelist@,
            final(self).allow_by_default == old(self).allow_by_default,
    {
        if index < self.rules.len() {
            self.rules.remove(index);
        }
    }
}

/// An account authenticating the given credentials: enabled, with
/// exactly matching username and password.
pub open spec fn spec_auth_match(u: UserV, name: Seq<char>, pass: Seq<char>) -> bool {
    u.enabled && u.username == name && u.password == pass
}

/// Whether some account authenticates the given credentials.
pub open spec fn spec_auth_ok(users: Seq<UserV>, name: Seq<char>, pass: Seq<char>) -> bool {
    exists|k: int| 0 <= k < users.len() && spec_auth_match(#[trigger] users[k], name, pass)
}

/// First index of an account with the given username, or the length of
/// the list when there is none.
pub open spec fn spec_user_index(users: Seq<UserV>, name: Seq<char>) -> int
    decreases users.len(),
{
    if users.len() == 0 {
        0
    } else if users[0].username == name {
        0
    } else {
        1 + spec_user_index(users.drop_first(), name)
    }
}

pub proof fn lemma_user_index_bounds(users: Seq<UserV>, name: Seq<char>)
    ensures
        0 <= spec_user_index(users, name) <= users.len(),
        spec_user_index(users, name) < users.len() ==> users[spec_user_index(
            users,
            name,
        )].username == name,
        forall|j: int| 0 <= j < spec_user_index(users, name) ==> users[j].username != name,
    decreases users.len(),
{
    if users.len() > 0 && users[0].username != name {
        lemma_user_index_bounds(users.drop_first(), name);
        let k = spec_user_index(users, name);
        let kd = spec_user_index(users.drop_first(), name);
        if kd < users.drop_first().len() {
            assert(users[k] == users.drop_first()[kd]);
        }
        assert forall|j: int| 0 <= j < k implies users[j].username != name by {
            if j > 0 {
                assert(users.drop_first()[j - 1] == users[j]);
            }
        }
    }
}

/// The user list with every account of the given username removed.
pub open spec fn spec_remove_user(users: Seq<UserV>, name: Seq<char>) -> Seq<UserV>
    decreases users.len(),
{
    if users.len() == 0 {
        Seq::empty()
    } else {
        let rest = spec_remove_user(users.drop_last(), name);
        if users.last().username == name {
            rest
        } else {
            rest.push(users.last())
        }
    }
}

impl User {
    /// A fresh copy of this account.
    pub fn duplicate(&self) -> (r: User)
        ensures
            r@ == self@,
    {
        User {
            username: self.username.clone(),
            password: self.password.clone(),
            enabled: self.enabled,
            description: match &self.description {
                Some(d) => Some(d.clone()),
                None => None,
            },
            bandwidth_limit: self.bandwidth_limit,
            connection_limit: self.connection_limit,
        }
    }
}

impl SecurityConfig {
    /// Authentication: returns the stored username exactly when an
    /// enabled account matches the credentials, case-sensitively.
    pub fn authenticate(&self, username: &str, password: &str) -> (r: Option<String>)
        ensures
            r is Some <==> spec_auth_ok(user_views(self.users@), username@, password@),
            r matches Some(u) ==> u@ == username@,
    {
        let ghost uv = user_views(self.users@);
        let mut i: usize = 0;
        while i < self.users.len()
            invariant
                i <= self.users@.len(),
                uv == user_views(self.users@),
                forall|k: int| 0 <= k < i ==> !spec_auth_match(#[trigger] uv[k], username@, password@),
            decreases self.users@.len() - i,
        {
            let u = &self.users[i];
            if u.enabled && str_eq(u.username.as_str(), username) && str_eq(
                u.password.as_str(),
                password,
            ) {
                proof {
                    assert(spec_auth_match(uv[i as int], username@, password@));
                }
                return Some(u.username.clone());
            }
            i += 1;
        }
        None
    }

    /// Dashboard authentication: the same account list decides, and
    /// only whether the credentials match is reported.
    pub fn authenticate_dashboard(&self, username: &str, password: &str) -> (r: bool)
        ensures
            r == spec_auth_ok(user_views(self.users@), username@, password@),
    {
        match self.authenticate(username, password) {
            Some(_) => true,
            None => false,
        }
    }

    /// Adds an account; refused when the username is already taken.
    pub fn add_user(&mut self, user: User) -> (r: bool)
        ensures
            r == (forall|k: int|
                0 <= k < user_views(old(self).users@).len() ==> user_views(old(self).users@)[k].username
                    != user@.username),
            r ==> user_views(final(self).users@) == user_views(old(self).users@).push(user@),
            !r ==> final(self).users@ == old(self).users@,
            final(self).auth_enabled == old(self).auth_enabled,
    {
        let ghost uv = user_views(self.users@);
        let mut i: usize = 0;
        while i < self.users.len()
            invariant
                i <= self.users@.len(),
                uv == user_views(self.users@),
                self.users@ == old(self).users@,
                self.auth_enabled == old(self).auth_enabled,
                forall|k: int| 0 <= k < i ==> (#[trigger] uv[k]).username != user@.username,
            decreases self.users@.len() - i,
        {
            if str_eq(self.users[i].username.as_str(), user.username.as_str()) {
                proof {
                    assert(uv[i as int].username == user@.username);
                }
                return false;
            }
            i += 1;
        }
        self.users.push(user);
        proof {
            assert(user_views(final(self).users@) =~= uv.push(user@));
        }
        true
    }

    /// Removes every account with the given username.
    pub fn remove_user(&mut self, username: &str)
        ensures
            user_views(final(self).users@) == spec_remove_user(
                user_views(old(self).users@),
                username@,
            ),
            final(self).auth_enabled == old(self).auth_enabled,
    {
        let ghost uv = user_views(self.users@);
        let mut kept: Vec<User> = Vec::new();
        let mut i: usize = 0;
        proof {
            assert(uv.take(0) =~= Seq::<UserV>::empty());
        }
        while i < self.users.len()
            invariant
                i <= self.users@.len(),
                uv == user_views(self.users@),
                self.users@ == old(self).users@,
                self.auth_enabled == old(self).auth_enabled,
                user_views(kept@) == spec_remove_user(uv.take(i as int), username@),
            decreases self.users@.len() - i,
        {
            let ghost pre = uv.take(i as int);
            proof {
                assert(uv.take(i + 1).drop_last() =~= pre);
                assert(uv.take(i + 1).last() == uv[i as int]);
            }
            if !str_eq(self.users[i].username.as_str(), username) {
                kept.push(self.users[i].duplicate());
                proof {
                    assert(user_views(kept@) =~= spec_remove_user(pre, username@).push(
                        uv[i as int],
                    ));
                }
            }
            i += 1;
        }
        proof {
            assert(uv.take(uv.len() as int) =~= uv);
        }
        self.users = kept;
    }

    /// Updates an account in place: each given field replaces the
    /// stored one. Returns whether the username was found.
    pub fn update_user(
        &mut self,
        username: &str,
        password: Option<String>,
        enabled: Option<bool>,
        description: Option<String>,
    ) -> (r: bool)
        ensures
            r == (spec_user_index(user_views(old(self).users@), username@) < user_views(
                old(self).users@,
            ).len()),
            final(self).auth_enabled == old(self).auth_enabled,
            !r ==> final(self).users@ == old(self).users@,
            r ==> (({
                let uv = user_views(old(self).users@);
                let k = spec_user_index(uv, username@);
                let u = uv[k];
                user_views(final(self).users@) == uv.update(
                    k,
                    UserV {
                        password: match password {
                            Some(p) => p@,
                            None => u.password,
                        },
                        enabled: match enabled {
                            Some(e) => e,
                            None => u.enabled,
                        },
                        description: match description {
                            Some(d) => Some(d@),
                            None => u.description,
                        },
                        ..u
                    },
                )
            })),
    {
        let ghost uv = user_views(self.users@);
        proof {
            lemma_user_index_bounds(uv, username@);
        }
        let mut i: usize = 0;
        while i < self.users.len()
            invariant
                i <= self.users@.len(),
                uv == user_views(self.users@),
                self.users@ == old(self).users@,
                self.auth_enabled == old(self).auth_enabled,
                forall|k: int| 0 <= k < i ==> (#[trigger] uv[k]).username != username@,
            decreases self.users@.len() - i,
        {
            if str_eq(self.users[i].username.as_str(), username) {
                proof {
                    lemma_user_index_at(uv, username@, i as int);
                }
                let entry = &mut self.users[i];
                match password {
                    Some(p) => {
                        entry.password = p;
                    },
                    None => {},
                }
                match enabled {
                    Some(e) => {
                        entry.enabled = e;
                    },
                    None => {},
                }
                match description {
                    Some(d) => {
                        entry.description = Some(d);
                    },
                    None => {},
                }
                proof {
                    assert(user_views(final(self).users@) =~= uv.update(
                        i as int,
                        user_views(final(self).users@)[i as int],
                    ));
                }
                return true;
            }
            i += 1;
        }
        false
    }
}

proof fn lemma_user_index_at(users: Seq<UserV>, name: Seq<char>, i: int)
    requires
        0 <= i < users.len(),
        users[i].username == name,
        forall|j: int| 0 <= j < i ==> (#[trigger] users[j]).username != name,
    ensures
        spec_user_index(users, name) == i,
    decreases i,
{
    if i > 0 {
        assert(forall|j: int|
            0 <= j < i - 1 ==> (#[trigger] users.drop_first()[j]).username != name);
        assert(users.drop_first()[i - 1] == users[i]);
        lemma_user_index_at(users.drop_first(), name, i - 1);
    }
}

} // verus!
