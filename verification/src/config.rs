//! Configuration of MCP servers: the settings, the server list, and the
//! rules that add, replace, remove and look up servers by name.

use crate::types::TrustLevel;
use vstd::prelude::*;

verus! {

/// Top-level MCP config.
#[derive(Debug, Clone)]
pub struct McpConfig {
    pub settings: McpSettings,
    pub servers: Vec<McpServerConfig>,
}

/// Global MCP settings.
#[derive(Debug, Clone)]
pub struct McpSettings {
    /// Whether to auto-connect all servers on startup.
    pub auto_connect: bool,
    /// Default timeout for tool calls (seconds).
    pub default_timeout_secs: u64,
    /// Whether to enable the self-foraging registry.
    pub registry_enabled: bool,
    /// Whether to auto-restart crashed servers.
    pub auto_restart: bool,
    /// Maximum number of restart attempts.
    pub max_restarts: u32,
    /// Health check interval in seconds.
    pub health_check_interval_secs: u64,
    /// Trust level for servers not explicitly configured.
    pub default_trust: TrustLevel,
}

/// Configuration for a single MCP server.
#[derive(Debug, Clone)]
pub struct McpServerConfig {
    /// Unique server name.
    pub name: String,
    /// Transport type: "stdio", "http", "sse".
    pub transport: String,
    /// Command to run (for stdio transport).
    pub command: Option<String>,
    /// Arguments for the command.
    pub args: Vec<String>,
    /// URL (for http/sse transport).
    pub url: Option<String>,
    /// HTTP headers, each name at most once.
    pub headers: Vec<(String, String)>,
    /// Environment variables to pass to the process, each name at most once.
    pub env: Vec<(String, String)>,
    /// Whether this server is enabled.
    pub enabled: bool,
    /// Human-readable description.
    pub description: Option<String>,
    /// Trust level override.
    pub trust: Option<TrustLevel>,
}

/// The value of a setting that is on unless the file says otherwise.
pub fn default_true() -> (r: bool)
    ensures
        r,
{
    true
}

/// The default tool-call timeout in seconds.
pub fn default_timeout() -> (r: u64)
    ensures
        r == 30,
{
    30
}

/// The default number of restart attempts.
pub fn default_max_restarts() -> (r: u32)
    ensures
        r == 3,
{
    3
}

/// The default health check interval in seconds.
pub fn default_health_interval() -> (r: u64)
    ensures
        r == 60,
{
    60
}

/// The transport of a server entry that names none.
pub fn default_transport() -> (r: String)
    ensures
        r@ == "stdio"@,
{
    crate::text::to_string("stdio")
}

impl McpSettings {
    /// The settings of a config file that sets nothing.
    pub open spec fn is_default(&self) -> bool {
        &&& self.auto_connect
        &&& self.default_timeout_secs == 30
        &&& self.registry_enabled
        &&& self.auto_restart
        &&& self.max_restarts == 3
        &&& self.health_check_interval_secs == 60
        &&& self.default_trust == TrustLevel::Sandboxed
    }
}

impl Default for McpSettings {
    fn default() -> (r: Self)
        ensures
            r.is_default(),
    {
        McpSettings {
            auto_connect: true,
            default_timeout_secs: 30,
            registry_enabled: true,
            auto_restart: true,
            max_restarts: 3,
            health_check_interval_secs: 60,
            default_trust: TrustLevel::Sandboxed,
        }
    }
}

impl Default for McpConfig {
    fn default() -> (r: Self)
        ensures
            r.settings.is_default(),
            r.servers@.len() == 0,
    {
        McpConfig { settings: McpSettings::default(), servers: Vec::new() }
    }
}

// ── the server list ────────────────────────────────────────────────

/// The index of the first server named `name`, or the length of the list
/// when there is none.
pub open spec fn index_of_server(servers: Seq<McpServerConfig>, name: Seq<char>) -> nat
    decreases servers.len(),
{
    if servers.len() == 0 {
        0
    } else if servers[0].name@ == name {
        0
    } else {
        1 + index_of_server(servers.drop_first(), name)
    }
}

/// The first server named `name`.
pub open spec fn find_server(servers: Seq<McpServerConfig>, name: Seq<char>) -> Option<
    McpServerConfig,
> {
    let i = index_of_server(servers, name);
    if i < servers.len() {
        Some(servers[i as int])
    } else {
        None
    }
}

/// No two servers share a name.
pub open spec fn unique_names(servers: Seq<McpServerConfig>) -> bool {
    forall|i: int, j: int|
        0 <= i < servers.len() && 0 <= j < servers.len() && i != j ==> servers[i].name@
            != servers[j].name@
}

pub proof fn lemma_index_of_server(servers: Seq<McpServerConfig>, name: Seq<char>)
    ensures
        index_of_server(servers, name) <= servers.len(),
        index_of_server(servers, name) < servers.len() ==> servers[index_of_server(
            servers,
            name,
        ) as int].name@ == name,
        forall|j: int| 0 <= j < index_of_server(servers, name) ==> servers[j].name@ != name,
    decreases servers.len(),
{
    if servers.len() > 0 && servers[0].name@ != name {
        lemma_index_of_server(servers.drop_first(), name);
        assert forall|j: int| 0 <= j < index_of_server(servers, name) implies servers[j].name@
            != name by {
            if j > 0 {
                assert(servers[j] == servers.drop_first()[j - 1]);
            }
        }
    }
}

pub proof fn lemma_index_of_server_is(servers: Seq<McpServerConfig>, name: Seq<char>, m: int)
    requires
        0 <= m <= servers.len(),
        forall|j: int| 0 <= j < m ==> servers[j].name@ != name,
        m == servers.len() || servers[m].name@ == name,
    ensures
        index_of_server(servers, name) == m,
    decreases m,
{
    if m > 0 {
        assert forall|j: int| 0 <= j < m - 1 implies servers.drop_first()[j].name@ != name by {
            assert(servers.drop_first()[j] == servers[j + 1]);
        }
        if m < servers.len() {
            assert(servers.drop_first()[m - 1] == servers[m]);
        }
        lemma_index_of_server_is(servers.drop_first(), name, m - 1);
    }
}

/// The list after `upsert_server`: the first server of the same name
/// replaced, or the server added at the end.
pub open spec fn upsert_spec(servers: Seq<McpServerConfig>, server: McpServerConfig) -> Seq<
    McpServerConfig,
> {
    let i = index_of_server(servers, server.name@);
    if i < servers.len() {
        servers.update(i as int, server)
    } else {
        servers.push(server)
    }
}

/// Whether a server config is not named `name`.
pub open spec fn not_named(name: Seq<char>) -> spec_fn(McpServerConfig) -> bool {
    |s: McpServerConfig| s.name@ != name
}

/// The list after `remove_server`: every server of that name dropped.
pub open spec fn remove_spec(servers: Seq<McpServerConfig>, name: Seq<char>) -> Seq<McpServerConfig> {
    servers.filter(not_named(name))
}

/// The enabled servers, in order.
pub open spec fn enabled_spec(servers: Seq<McpServerConfig>) -> Seq<McpServerConfig> {
    servers.filter(|s: McpServerConfig| s.enabled)
}

impl McpConfig {
    /// Adds a server config, or replaces the first one of the same name.
    pub fn upsert_server(&mut self, server: McpServerConfig)
        ensures
            final(self).settings == old(self).settings,
            final(self).servers@ == upsert_spec(old(self).servers@, server),
    {
        let ghost name = server.name@;
        let mut i: usize = 0;
        while i < self.servers.len()
            invariant
                0 <= i <= self.servers.len(),
                self.servers@ == old(self).servers@,
                self.settings == old(self).settings,
                name == server.name@,
                forall|j: int| 0 <= j < i ==> self.servers@[j].name@ != name,
            decreases self.servers.len() - i,
        {
            if crate::text::str_eq(self.servers[i].name.as_str(), server.name.as_str()) {
                proof {
                    lemma_index_of_server_is(self.servers@, name, i as int);
                }
                self.servers.set(i, server);
                return;
            }
            i = i + 1;
        }
        proof {
            lemma_index_of_server_is(self.servers@, name, self.servers@.len() as int);
        }
        self.servers.push(server);
    }

    /// Removes every server config of the given name; true if any was there.
    pub fn remove_server(&mut self, name: &str) -> (r: bool)
        ensures
            final(self).settings == old(self).settings,
            final(self).servers@ == remove_spec(old(self).servers@, name@),
            r == (find_server(old(self).servers@, name@) is Some),
    {
        let ghost orig = self.servers@;
        let ghost pred = not_named(name@);
        let len_before = self.servers.len();
        let mut i: usize = 0;
        let ghost mut j: int = 0;
        proof {
            assert(orig.take(0).filter(pred) =~= Seq::<McpServerConfig>::empty());
            assert(orig.skip(0) =~= orig);
        }
        while i < self.servers.len()
            invariant
                0 <= j <= orig.len(),
                orig == old(self).servers@,
                self.settings == old(self).settings,
                self.servers@ == orig.take(j).filter(pred) + orig.skip(j),
                i == orig.take(j).filter(pred).len(),
                orig.len() == len_before,
                pred == not_named(name@),
                (self.servers@.len() < len_before) == (exists|k: int|
                    0 <= k < j && orig[k].name@ == name@),
            decreases self.servers.len() - i,
        {
            proof {
                reveal_with_fuel(Seq::filter, 1);
                assert(orig.take(j + 1).drop_last() =~= orig.take(j));
                assert(orig.take(j + 1).last() == orig[j]);
                assert(self.servers@[i as int] == orig[j]);
                lemma_filter_len(orig.take(j), pred);
            }
            if crate::text::str_eq(self.servers[i].name.as_str(), name) {
                self.servers.remove(i);
                proof {
                    assert(self.servers@ =~= orig.take(j + 1).filter(pred) + orig.skip(j + 1));
                    j = j + 1;
                }
            } else {
                i = i + 1;
                proof {
                    assert(self.servers@ =~= orig.take(j + 1).filter(pred) + orig.skip(j + 1));
                    lemma_filter_len(orig.take(j), pred);
                    j = j + 1;
                }
            }
        }
        proof {
            assert(orig.skip(j).len() == 0);
            assert(j == orig.len());
            assert(orig.take(j) =~= orig);
            assert(self.servers@ =~= orig.filter(pred));
            lemma_index_of_server(orig, name@);
            if exists|k: int| 0 <= k < j && orig[k].name@ == name@ {
                let k = choose|k: int| 0 <= k < j && orig[k].name@ == name@;
                assert(index_of_server(orig, name@) <= k);
            }
        }
        self.servers.len() < len_before
    }

    /// The first server config of the given name.
    pub fn get_server(&self, name: &str) -> (r: Option<&McpServerConfig>)
        ensures
            match r {
                Some(x) => find_server(self.servers@, name@) == Some(*x),
                None => find_server(self.servers@, name@) is None,
            },
    {
        let mut i: usize = 0;
        while i < self.servers.len()
            invariant
                0 <= i <= self.servers.len(),
                forall|j: int| 0 <= j < i ==> self.servers@[j].name@ != name@,
            decreases self.servers.len() - i,
        {
            if crate::text::str_eq(self.servers[i].name.as_str(), name) {
                proof {
                    lemma_index_of_server_is(self.servers@, name@, i as int);
                }
                return Some(&self.servers[i]);
            }
            i = i + 1;
        }
        proof {
            lemma_index_of_server_is(self.servers@, name@, self.servers@.len() as int);
        }
        None
    }

    /// The enabled server configs, in order.
    pub fn enabled_servers(&self) -> (r: Vec<&McpServerConfig>)
        ensures
            r@.len() == enabled_spec(self.servers@).len(),
            forall|k: int| 0 <= k < r@.len() ==> *r@[k] == enabled_spec(self.servers@)[k],
    {
        let ghost pred = |s: McpServerConfig| s.enabled;
        let mut out: Vec<&McpServerConfig> = Vec::new();
        let mut i: usize = 0;
        assert(self.servers@.take(0).filter(pred) =~= Seq::<McpServerConfig>::empty());
        while i < self.servers.len()
            invariant
                0 <= i <= self.servers.len(),
                pred == (|s: McpServerConfig| s.enabled),
                out@.len() == self.servers@.take(i as int).filter(pred).len(),
                forall|k: int|
                    0 <= k < out@.len() ==> *out@[k] == self.servers@.take(i as int).filter(
                        pred,
                    )[k],
            decreases self.servers.len() - i,
        {
            proof {
                reveal_with_fuel(Seq::filter, 1);
                assert(self.servers@.take(i + 1).drop_last() =~= self.servers@.take(i as int));
                assert(self.servers@.take(i + 1).last() == self.servers@[i as int]);
            }
            if self.servers[i].enabled {
                out.push(&self.servers[i]);
            }
            i = i + 1;
        }
        assert(self.servers@.take(self.servers.len() as int) =~= self.servers@);
        out
    }
}

proof fn lemma_filter_len(s: Seq<McpServerConfig>, pred: spec_fn(McpServerConfig) -> bool)
    ensures
        s.filter(pred).len() <= s.len(),
        (s.filter(pred).len() < s.len()) == (exists|k: int| 0 <= k < s.len() && !pred(s[k])),
    decreases s.len(),
{
    reveal_with_fuel(Seq::filter, 1);
    if s.len() > 0 {
        lemma_filter_len(s.drop_last(), pred);
        if exists|k: int| 0 <= k < s.drop_last().len() && !pred(s.drop_last()[k]) {
            let k = choose|k: int| 0 <= k < s.drop_last().len() && !pred(s.drop_last()[k]);
            assert(!pred(s[k]));
        }
        if exists|k: int| 0 <= k < s.len() && !pred(s[k]) {
            let k = choose|k: int| 0 <= k < s.len() && !pred(s[k]);
            if k < s.len() - 1 {
                assert(s.drop_last()[k] == s[k]);
            }
        }
    }
}

// ── laws of the server list ────────────────────────────────────────

proof fn lemma_find_prepend(x: McpServerConfig, t: Seq<McpServerConfig>, n: Seq<char>)
    ensures
        find_server(seq![x] + t, n) == (if x.name@ == n {
            Some(x)
        } else {
            find_server(t, n)
        }),
{
    let s = seq![x] + t;
    assert(s[0] == x);
    assert(s.drop_first() =~= t);
    if x.name@ != n {
        lemma_index_of_server(t, n);
        let i = index_of_server(t, n);
        assert(index_of_server(s, n) == 1 + i);
        if i < t.len() {
            assert(s[1 + i as int] == t[i as int]);
        }
    }
}

/// After a server config is added or replaced, looking up its name gives
/// exactly that config.
pub proof fn law_upsert_then_get(servers: Seq<McpServerConfig>, server: McpServerConfig)
    ensures
        find_server(upsert_spec(servers, server), server.name@) == Some(server),
{
    let n = server.name@;
    lemma_index_of_server(servers, n);
    let i = index_of_server(servers, n);
    let after = upsert_spec(servers, server);
    if i < servers.len() {
        assert forall|j: int| 0 <= j < i implies after[j].name@ != n by {
            assert(after[j] == servers[j]);
        }
        lemma_index_of_server_is(after, n, i as int);
    } else {
        assert forall|j: int| 0 <= j < servers.len() implies after[j].name@ != n by {
            assert(after[j] == servers[j]);
        }
        lemma_index_of_server_is(after, n, servers.len() as int);
    }
}

/// Adding or replacing one server config leaves the lookup of every other
/// name unchanged.
pub proof fn law_upsert_keeps_others(
    servers: Seq<McpServerConfig>,
    server: McpServerConfig,
    other: Seq<char>,
)
    requires
        other != server.name@,
    ensures
        find_server(upsert_spec(servers, server), other) == find_server(servers, other),
{
    let n = server.name@;
    lemma_index_of_server(servers, n);
    lemma_index_of_server(servers, other);
    let i = index_of_server(servers, n);
    let k = index_of_server(servers, other);
    let after = upsert_spec(servers, server);
    if k < servers.len() {
        assert(k != i);
        assert forall|j: int| 0 <= j < k implies after[j].name@ != other by {
            if j < servers.len() {
                if j == i {
                    assert(after[j] == server);
                } else {
                    assert(after[j] == servers[j]);
                }
            }
        }
        assert(after[k as int] == servers[k as int]);
        lemma_index_of_server_is(after, other, k as int);
    } else {
        assert forall|j: int| 0 <= j < after.len() implies after[j].name@ != other by {
            if j < servers.len() && j != i {
                assert(after[j] == servers[j]);
            }
        }
        lemma_index_of_server_is(after, other, after.len() as int);
    }
}

/// Adding or replacing a server config keeps the names distinct.
pub proof fn law_upsert_keeps_names_unique(servers: Seq<McpServerConfig>, server: McpServerConfig)
    requires
        unique_names(servers),
    ensures
        unique_names(upsert_spec(servers, server)),
{
    let n = server.name@;
    lemma_index_of_server(servers, n);
    let i = index_of_server(servers, n);
    let after = upsert_spec(servers, server);
    assert forall|a: int, b: int|
        0 <= a < after.len() && 0 <= b < after.len() && a != b implies after[a].name@
        != after[b].name@ by {
        if i < servers.len() {
            if a == i {
                assert(servers[i as int].name@ == n);
            } else if b == i {
                assert(servers[i as int].name@ == n);
            }
        } else {
            if a == servers.len() {
                assert(after[b] == servers[b]);
            } else if b == servers.len() {
                assert(after[a] == servers[a]);
            }
        }
    }
}

/// After removing a name, no server config of that name is left.
pub proof fn law_remove_then_get(servers: Seq<McpServerConfig>, name: Seq<char>)
    ensures
        find_server(remove_spec(servers, name), name) is None,
{
    broadcast use vstd::seq_lib::group_filter_ensures;

    let after = remove_spec(servers, name);
    assert forall|j: int| 0 <= j < after.len() implies after[j].name@ != name by {
        servers.lemma_filter_pred(not_named(name), j);
    }
    lemma_index_of_server_is(after, name, after.len() as int);
}

/// Removing one name leaves the lookup of every other name unchanged.
pub proof fn law_remove_keeps_others(servers: Seq<McpServerConfig>, name: Seq<char>, other: Seq<char>)
    requires
        other != name,
    ensures
        find_server(remove_spec(servers, name), other) == find_server(servers, other),
    decreases servers.len(),
{
    if servers.len() == 0 {
        assert(remove_spec(servers, name) =~= servers) by {
            reveal_with_fuel(Seq::filter, 1);
        }
    } else {
        let x = servers[0];
        let t = servers.drop_first();
        assert(servers =~= seq![x] + t);
        let p = not_named(name);
        t.lemma_filter_prepend(x, p);
        law_remove_keeps_others(t, name, other);
        lemma_find_prepend(x, t, other);
        if p(x) {
            lemma_find_prepend(x, t.filter(p), other);
        } else {
            assert(remove_spec(servers, name) =~= t.filter(p));
        }
    }
}

/// Removing a name keeps the names distinct.
pub proof fn law_remove_keeps_names_unique(servers: Seq<McpServerConfig>, name: Seq<char>)
    requires
        unique_names(servers),
    ensures
        unique_names(remove_spec(servers, name)),
    decreases servers.len(),
{
    if servers.len() > 0 {
        broadcast use vstd::seq_lib::group_filter_ensures;

        let x = servers[0];
        let t = servers.drop_first();
        assert(servers =~= seq![x] + t);
        let p = not_named(name);
        t.lemma_filter_prepend(x, p);
        assert(unique_names(t)) by {
            assert forall|a: int, b: int|
                0 <= a < t.len() && 0 <= b < t.len() && a != b implies t[a].name@
                != t[b].name@ by {
                assert(t[a] == servers[a + 1] && t[b] == servers[b + 1]);
            }
        }
        law_remove_keeps_names_unique(t, name);
        if p(x) {
            let f = t.filter(p);
            let after = seq![x] + f;
            assert forall|a: int, b: int|
                0 <= a < after.len() && 0 <= b < after.len() && a != b implies after[a].name@
                != after[b].name@ by {
                if a == 0 || b == 0 {
                    let k = if a == 0 {
                        b - 1
                    } else {
                        a - 1
                    };
                    assert(f.contains(f[k]));
                    t.lemma_filter_contains_rev(p, f[k]);
                    let m = choose|m: int| 0 <= m < t.len() && t[m] == f[k];
                    assert(servers[m + 1] == t[m]);
                } else {
                    assert(after[a] == f[a - 1] && after[b] == f[b - 1]);
                }
            }
        }
    }
}

} // verus!
