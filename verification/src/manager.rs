//! The manager's bookkeeping of connected servers: the table of server
//! states by name, the tool, resource and prompt listings across servers,
//! status reports, capability pins and tool display names. Connections
//! themselves are held by the caller beside this table.

use crate::client::{tools_view, McpServerInfo, McpToolInfo, ToolInfoView};
use crate::config::{McpServerConfig, McpSettings};
use crate::error::McpError;
use crate::json::{opt_data, JsonData, JsonValue};
use crate::text::{concat, decimal, first_index, push_str, split_once, to_string, u64_to_decimal};
use crate::types::{CapabilityPin, McpPrompt, McpResource, McpToolDescriptor};
use vstd::prelude::*;
use vstd::string::StringSliceAdditionalSpecFns;

verus! {

/// What the manager keeps of a connected server, besides its connection.
#[derive(Debug, Clone)]
pub struct ServerState {
    pub config: McpServerConfig,
    pub info: Option<McpServerInfo>,
    pub tools: Vec<McpToolInfo>,
    pub resources: Vec<McpResource>,
    pub prompts: Vec<McpPrompt>,
    pub restart_count: u32,
    pub capability_pin: Option<CapabilityPin>,
}

/// The connected servers by name, in the order they were first connected.
#[derive(Debug)]
pub struct ServerTable {
    entries: Vec<(String, ServerState)>,
}

/// The names of the entries, in order.
pub open spec fn names_of(entries: Seq<(String, ServerState)>) -> Seq<Seq<char>> {
    Seq::new(entries.len(), |i: int| entries[i].0@)
}

/// No name stands twice.
pub open spec fn distinct_names(entries: Seq<(String, ServerState)>) -> bool {
    forall|i: int, j: int|
        0 <= i < entries.len() && 0 <= j < entries.len() && i != j ==> entries[i].0@
            != entries[j].0@
}

/// The position of the entry named `name`, if there is one.
pub open spec fn position(entries: Seq<(String, ServerState)>, name: Seq<char>) -> Option<int> {
    if exists|i: int| 0 <= i < entries.len() && entries[i].0@ == name {
        Some(choose|i: int| 0 <= i < entries.len() && entries[i].0@ == name)
    } else {
        None
    }
}

/// The state kept under `name`.
pub open spec fn state_of(entries: Seq<(String, ServerState)>, name: Seq<char>) -> Option<
    ServerState,
> {
    match position(entries, name) {
        Some(i) => Some(entries[i].1),
        None => None,
    }
}

proof fn lemma_position_unique(entries: Seq<(String, ServerState)>, i: int)
    requires
        distinct_names(entries),
        0 <= i < entries.len(),
    ensures
        position(entries, entries[i].0@) == Some(i),
{
}

proof fn lemma_position_none(entries: Seq<(String, ServerState)>, name: Seq<char>)
    requires
        forall|j: int| 0 <= j < entries.len() ==> entries[j].0@ != name,
    ensures
        position(entries, name) is None,
{
}

/// The table after `insert`: the state of that name replaced in place, or
/// the name added at the end.
pub open spec fn insert_spec(
    entries: Seq<(String, ServerState)>,
    name: String,
    state: ServerState,
) -> Seq<(String, ServerState)> {
    match position(entries, name@) {
        Some(i) => entries.update(i, (entries[i].0, state)),
        None => entries.push((name, state)),
    }
}

/// The table after `remove`: the entry of that name dropped.
pub open spec fn remove_entry_spec(entries: Seq<(String, ServerState)>, name: Seq<char>) -> Seq<
    (String, ServerState),
> {
    match position(entries, name) {
        Some(i) => entries.remove(i),
        None => entries,
    }
}

impl ServerTable {
    /// The entries of the table, in order.
    pub closed spec fn entries_spec(&self) -> Seq<(String, ServerState)> {
        self.entries@
    }

    /// The table keeps each name once.
    pub open spec fn wf(&self) -> bool {
        distinct_names(self.entries_spec())
    }

    /// An empty table.
    pub fn new() -> (r: Self)
        ensures
            r.wf(),
            r.entries_spec().len() == 0,
    {
        ServerTable { entries: Vec::new() }
    }

    /// The number of servers.
    pub fn len(&self) -> (r: usize)
        ensures
            r == self.entries_spec().len(),
    {
        self.entries.len()
    }

    /// The names of the servers, in order.
    pub fn names(&self) -> (r: Vec<String>)
        ensures
            r@.len() == self.entries_spec().len(),
            forall|i: int| 0 <= i < r@.len() ==> #[trigger] r@[i]@ == self.entries_spec()[i].0@,
    {
        let mut out: Vec<String> = Vec::new();
        let mut i: usize = 0;
        while i < self.entries.len()
            invariant
                0 <= i <= self.entries.len(),
                out@.len() == i,
                forall|j: int| 0 <= j < i ==> #[trigger] out@[j]@ == self.entries@[j].0@,
            decreases self.entries.len() - i,
        {
            out.push(self.entries[i].0.clone());
            i = i + 1;
        }
        out
    }

    fn index_of(&self, name: &str) -> (r: Option<usize>)
        ensures
            match r {
                Some(i) => i < self.entries@.len() && self.entries@[i as int].0@ == name@,
                None => forall|j: int|
                    0 <= j < self.entries@.len() ==> self.entries@[j].0@ != name@,
            },
    {
        let mut i: usize = 0;
        while i < self.entries.len()
            invariant
                0 <= i <= self.entries.len(),
                forall|j: int| 0 <= j < i ==> self.entries@[j].0@ != name@,
            decreases self.entries.len() - i,
        {
            if crate::text::str_eq(self.entries[i].0.as_str(), name) {
                return Some(i);
            }
            i = i + 1;
        }
        None
    }

    /// The state of the server of that name.
    pub fn get(&self, name: &str) -> (r: Option<&ServerState>)
        requires
            self.wf(),
        ensures
            match r {
                Some(s) => state_of(self.entries_spec(), name@) == Some(*s),
                None => state_of(self.entries_spec(), name@) is None,
            },
    {
        match self.index_of(name) {
            Some(i) => {
                proof {
                    lemma_position_unique(self.entries@, i as int);
                }
                Some(&self.entries[i].1)
            },
            None => {
                proof {
                    lemma_position_none(self.entries@, name@);
                }
                None
            },
        }
    }

    /// Keeps `state` under `name`, replacing the state kept there before.
    pub fn insert(&mut self, name: String, state: ServerState)
        requires
            old(self).wf(),
        ensures
            final(self).wf(),
            final(self).entries_spec() == insert_spec(old(self).entries_spec(), name, state),
    {
        match self.index_of(name.as_str()) {
            Some(i) => {
                proof {
                    lemma_position_unique(self.entries@, i as int);
                }
                let (n, _old_state) = self.entries.remove(i);
                self.entries.insert(i, (n, state));
                proof {
                    assert(self.entries@ =~= old(self).entries@.update(
                        i as int,
                        (old(self).entries@[i as int].0, state),
                    ));
                    assert forall|a: int, b: int|
                        0 <= a < self.entries@.len() && 0 <= b < self.entries@.len() && a != b implies self.entries@[a].0@
                        != self.entries@[b].0@ by {
                        assert(self.entries@[a].0 == old(self).entries@[a].0);
                        assert(self.entries@[b].0 == old(self).entries@[b].0);
                    }
                }
            },
            None => {
                proof {
                    lemma_position_none(self.entries@, name@);
                }
                self.entries.push((name, state));
            },
        }
    }

    /// Takes the server of that name out of the table.
    pub fn remove(&mut self, name: &str) -> (r: Option<ServerState>)
        requires
            old(self).wf(),
        ensures
            final(self).wf(),
            final(self).entries_spec() == remove_entry_spec(old(self).entries_spec(), name@),
            r == state_of(old(self).entries_spec(), name@),
    {
        match self.index_of(name) {
            Some(i) => {
                proof {
                    lemma_position_unique(self.entries@, i as int);
                }
                let (_n, st) = self.entries.remove(i);
                proof {
                    assert forall|a: int, b: int|
                        0 <= a < self.entries@.len() && 0 <= b < self.entries@.len() && a != b implies self.entries@[a].0@
                        != self.entries@[b].0@ by {
                        let oa = if a < i {
                            a
                        } else {
                            a + 1
                        };
                        let ob = if b < i {
                            b
                        } else {
                            b + 1
                        };
                        assert(self.entries@[a] == old(self).entries@[oa]);
                        assert(self.entries@[b] == old(self).entries@[ob]);
                    }
                }
                Some(st)
            },
            None => {
                proof {
                    lemma_position_none(self.entries@, name@);
                }
                None
            },
        }
    }

    /// Takes every server out of the table, in order.
    pub fn drain(&mut self) -> (r: Vec<(String, ServerState)>)
        ensures
            final(self).wf(),
            final(self).entries_spec().len() == 0,
            r@ == old(self).entries_spec(),
    {
        let mut out: Vec<(String, ServerState)> = Vec::new();
        std::mem::swap(&mut out, &mut self.entries);
        out
    }
}

// ── restarts ───────────────────────────────────────────────────────

/// Whether a server found unhealthy is restarted: when restarts are on and
/// it has been restarted fewer times than allowed.
pub fn should_restart(settings: &McpSettings, restart_count: u32, healthy: bool) -> (r: bool)
    ensures
        r == (!healthy && settings.auto_restart && restart_count < settings.max_restarts),
{
    !healthy && settings.auto_restart && restart_count < settings.max_restarts
}

/// The table after `note_restart`: the restart count of the server of that
/// name set, all else kept.
pub open spec fn note_restart_spec(
    entries: Seq<(String, ServerState)>,
    name: Seq<char>,
    count: u32,
) -> Seq<(String, ServerState)> {
    match position(entries, name) {
        Some(i) => entries.update(
            i,
            (entries[i].0, ServerState { restart_count: count, ..entries[i].1 }),
        ),
        None => entries,
    }
}

impl ServerTable {
    /// Records how many times the server of that name has been restarted.
    pub fn note_restart(&mut self, name: &str, count: u32)
        requires
            old(self).wf(),
        ensures
            final(self).wf(),
            final(self).entries_spec() == note_restart_spec(old(self).entries_spec(), name@, count),
    {
        match self.index_of(name) {
            Some(i) => {
                proof {
                    lemma_position_unique(self.entries@, i as int);
                }
                let (n, st) = self.entries.remove(i);
                let st2 = ServerState { restart_count: count, ..st };
                self.entries.insert(i, (n, st2));
                proof {
                    assert(self.entries@ =~= note_restart_spec(old(self).entries@, name@, count));
                    assert forall|a: int, b: int|
                        0 <= a < self.entries@.len() && 0 <= b < self.entries@.len() && a != b implies self.entries@[a].0@
                        != self.entries@[b].0@ by {
                        assert(self.entries@[a].0 == old(self).entries@[a].0);
                        assert(self.entries@[b].0 == old(self).entries@[b].0);
                    }
                }
            },
            None => {
                proof {
                    lemma_position_none(self.entries@, name@);
                }
            },
        }
    }
}

// ── listings across servers ────────────────────────────────────────

pub struct DescriptorView {
    pub display_name: Seq<char>,
    pub tool_name: Seq<char>,
    pub server_name: Seq<char>,
    pub description: Seq<char>,
    pub input_schema: JsonData,
    pub output_schema: Option<JsonData>,
}

impl View for McpToolDescriptor {
    type V = DescriptorView;

    open spec fn view(&self) -> DescriptorView {
        DescriptorView {
            display_name: self.display_name@,
            tool_name: self.tool_name@,
            server_name: self.server_name@,
            description: self.description@,
            input_schema: self.input_schema@,
            output_schema: opt_data(self.output_schema),
        }
    }
}

/// The display name of a tool: `server:tool`.
pub open spec fn display_name_spec(server: Seq<char>, tool: Seq<char>) -> Seq<char> {
    server + ":"@ + tool
}

/// The descriptor of a tool of a server.
pub open spec fn descriptor_of(server: Seq<char>, t: ToolInfoView) -> DescriptorView {
    DescriptorView {
        display_name: display_name_spec(server, t.name),
        tool_name: t.name,
        server_name: server,
        description: t.description,
        input_schema: t.input_schema,
        output_schema: t.output_schema,
    }
}

/// The descriptors of the tools of every server, server by server in table
/// order, each server's tools in their order.
pub open spec fn all_descriptors(entries: Seq<(String, ServerState)>) -> Seq<DescriptorView>
    decreases entries.len(),
{
    if entries.len() == 0 {
        Seq::empty()
    } else {
        let e = entries.last();
        all_descriptors(entries.drop_last()) + tools_view(e.1.tools@).map_values(
            |t: ToolInfoView| descriptor_of(e.0@, t),
        )
    }
}

/// The content of a list of descriptors.
pub open spec fn descriptors_view(v: Seq<McpToolDescriptor>) -> Seq<DescriptorView> {
    Seq::new(v.len(), |i: int| v[i]@)
}

/// The display name of a tool: the server name, `:`, the tool name.
pub fn display_name(server: &str, tool: &str) -> (r: String)
    ensures
        r@ == display_name_spec(server@, tool@),
{
    let mut d = concat(server, ":");
    push_str(&mut d, tool);
    d
}

fn descriptor(server: &String, t: &McpToolInfo) -> (r: McpToolDescriptor)
    ensures
        r@ == descriptor_of(server@, t@),
{
    McpToolDescriptor {
        display_name: display_name(server.as_str(), t.name.as_str()),
        tool_name: t.name.clone(),
        server_name: server.clone(),
        description: t.description.clone(),
        input_schema: t.input_schema.clone_value(),
        output_schema: match &t.output_schema {
            Some(o) => Some(o.clone_value()),
            None => None,
        },
    }
}

/// The content of a resource with its server's name.
pub open spec fn res_pair_view(p: (String, McpResource)) -> (Seq<char>, crate::client::ResourceView) {
    (p.0@, crate::client::resource_view(p.1))
}

impl ServerTable {
    /// All tools across all connected servers, as descriptors.
    pub fn tool_descriptors(&self) -> (r: Vec<McpToolDescriptor>)
        ensures
            descriptors_view(r@) == all_descriptors(self.entries_spec()),
    {
        let mut out: Vec<McpToolDescriptor> = Vec::new();
        let mut i: usize = 0;
        assert(self.entries@.take(0) =~= Seq::<(String, ServerState)>::empty());
        assert(descriptors_view(out@) =~= Seq::<DescriptorView>::empty());
        while i < self.entries.len()
            invariant
                0 <= i <= self.entries.len(),
                descriptors_view(out@) == all_descriptors(self.entries@.take(i as int)),
            decreases self.entries.len() - i,
        {
            let server = &self.entries[i].0;
            let tools = &self.entries[i].1.tools;
            let ghost base = out@;
            let ghost f = |t: ToolInfoView| descriptor_of(server@, t);
            let mut k: usize = 0;
            while k < tools.len()
                invariant
                    0 <= k <= tools.len(),
                    out@.len() == base.len() + k,
                    forall|j: int| 0 <= j < base.len() ==> #[trigger] out@[j] == base[j],
                    forall|j: int|
                        0 <= j < k ==> #[trigger] out@[base.len() + j]@ == descriptor_of(
                            server@,
                            tools@[j]@,
                        ),
                decreases tools.len() - k,
            {
                out.push(descriptor(server, &tools[k]));
                k = k + 1;
            }
            proof {
                let e = self.entries@[i as int];
                assert(self.entries@.take(i + 1).drop_last() =~= self.entries@.take(i as int));
                assert(self.entries@.take(i + 1).last() == e);
                assert(server@ == e.0@);
                assert(tools@ == e.1.tools@);
                let tail = tools_view(e.1.tools@).map_values(|t: ToolInfoView| descriptor_of(e.0@, t));
                assert forall|j: int| 0 <= j < out@.len() implies descriptors_view(out@)[j] == (
                descriptors_view(base) + tail)[j] by {
                    if j >= base.len() {
                        assert(out@[base.len() + (j - base.len())] == out@[j]);
                    }
                }
                assert(descriptors_view(out@) =~= descriptors_view(base) + tools_view(
                    e.1.tools@,
                ).map_values(|t: ToolInfoView| descriptor_of(e.0@, t)));
            }
            i = i + 1;
        }
        assert(self.entries@.take(self.entries.len() as int) =~= self.entries@);
        out
    }

    /// All resources across all connected servers, each with its server.
    pub fn resource_list(&self) -> (r: Vec<(String, McpResource)>)
        ensures
            r@.len() == all_resources(self.entries_spec()).len(),
            forall|i: int|
                0 <= i < r@.len() ==> res_pair_view(#[trigger] r@[i]) == all_resources(
                    self.entries_spec(),
                )[i],
    {
        let mut out: Vec<(String, McpResource)> = Vec::new();
        let mut i: usize = 0;
        assert(self.entries@.take(0) =~= Seq::<(String, ServerState)>::empty());
        while i < self.entries.len()
            invariant
                0 <= i <= self.entries.len(),
                out@.len() == all_resources(self.entries@.take(i as int)).len(),
                forall|j: int|
                    0 <= j < out@.len() ==> res_pair_view(#[trigger] out@[j]) == all_resources(
                        self.entries@.take(i as int),
                    )[j],
            decreases self.entries.len() - i,
        {
            let server = &self.entries[i].0;
            let res = &self.entries[i].1.resources;
            let ghost base = out@;
            let ghost prev = all_resources(self.entries@.take(i as int));
            let mut k: usize = 0;
            while k < res.len()
                invariant
                    0 <= k <= res.len(),
                    out@.len() == base.len() + k,
                    base.len() == prev.len(),
                    forall|j: int| 0 <= j < base.len() ==> #[trigger] out@[j] == base[j],
                    forall|j: int| 0 <= j < base.len() ==> res_pair_view(#[trigger] base[j]) == prev[j],
                    forall|j: int|
                        0 <= j < k ==> res_pair_view(#[trigger] out@[base.len() + j]) == (
                            server@,
                            crate::client::resource_view(res@[j]),
                        ),
                decreases res.len() - k,
            {
                out.push((server.clone(), clone_resource(&res[k])));
                k = k + 1;
            }
            proof {
                let e = self.entries@[i as int];
                assert(self.entries@.take(i + 1).drop_last() =~= self.entries@.take(i as int));
                assert(self.entries@.take(i + 1).last() == e);
                let now = all_resources(self.entries@.take(i + 1));
                assert forall|j: int| 0 <= j < out@.len() implies res_pair_view(#[trigger] out@[j])
                    == now[j] by {
                    if j < base.len() {
                        assert(out@[j] == base[j]);
                    } else {
                        assert(out@[base.len() + (j - base.len())] == out@[j]);
                    }
                }
            }
            i = i + 1;
        }
        assert(self.entries@.take(self.entries.len() as int) =~= self.entries@);
        out
    }
}

/// The resources of every server, each with the server's name, server by
/// server in table order.
pub open spec fn all_resources(entries: Seq<(String, ServerState)>) -> Seq<
    (Seq<char>, crate::client::ResourceView),
>
    decreases entries.len(),
{
    if entries.len() == 0 {
        Seq::empty()
    } else {
        let e = entries.last();
        all_resources(entries.drop_last()) + e.1.resources@.map_values(
            |r: McpResource| (e.0@, crate::client::resource_view(r)),
        )
    }
}

/// A copy of a resource description.
pub fn clone_resource(r: &McpResource) -> (c: McpResource)
    ensures
        crate::client::resource_view(c) == crate::client::resource_view(*r),
{
    McpResource {
        uri: r.uri.clone(),
        name: r.name.clone(),
        title: r.title.clone(),
        description: r.description.clone(),
        mime_type: r.mime_type.clone(),
    }
}

// ── prompts ────────────────────────────────────────────────────────

pub struct PromptView {
    pub name: Seq<char>,
    pub description: Option<Seq<char>>,
    pub arguments: Seq<(Seq<char>, Option<Seq<char>>, bool)>,
}

pub open spec fn prompt_view(p: McpPrompt) -> PromptView {
    PromptView {
        name: p.name@,
        description: crate::client::opt_view(p.description),
        arguments: Seq::new(
            p.arguments@.len(),
            |i: int|
                (
                    p.arguments@[i].name@,
                    crate::client::opt_view(p.arguments@[i].description),
                    p.arguments@[i].required,
                ),
        ),
    }
}

/// A copy of a prompt description.
pub fn clone_prompt(p: &McpPrompt) -> (c: McpPrompt)
    ensures
        prompt_view(c) == prompt_view(*p),
{
    let mut args: Vec<crate::types::McpPromptArgument> = Vec::new();
    let mut i: usize = 0;
    while i < p.arguments.len()
        invariant
            0 <= i <= p.arguments.len(),
            args@.len() == i,
            forall|j: int|
                0 <= j < i ==> #[trigger] args@[j].name@ == p.arguments@[j].name@
                    && args@[j].description == p.arguments@[j].description && args@[j].required
                    == p.arguments@[j].required,
        decreases p.arguments.len() - i,
    {
        let a = &p.arguments[i];
        args.push(
            crate::types::McpPromptArgument {
                name: a.name.clone(),
                description: a.description.clone(),
                required: a.required,
            },
        );
        i = i + 1;
    }
    let c = McpPrompt { name: p.name.clone(), description: p.description.clone(), arguments: args };
    assert(prompt_view(c).arguments =~= prompt_view(*p).arguments);
    c
}

/// The content of a prompt with its server's name.
pub open spec fn prompt_pair_view(p: (String, McpPrompt)) -> (Seq<char>, PromptView) {
    (p.0@, prompt_view(p.1))
}

/// The prompts of every server, each with the server's name, server by
/// server in table order.
pub open spec fn all_prompts(entries: Seq<(String, ServerState)>) -> Seq<(Seq<char>, PromptView)>
    decreases entries.len(),
{
    if entries.len() == 0 {
        Seq::empty()
    } else {
        let e = entries.last();
        all_prompts(entries.drop_last()) + e.1.prompts@.map_values(
            |p: McpPrompt| (e.0@, prompt_view(p)),
        )
    }
}

impl ServerTable {
    /// All prompts across all connected servers, each with its server.
    pub fn prompt_list(&self) -> (r: Vec<(String, McpPrompt)>)
        ensures
            r@.len() == all_prompts(self.entries_spec()).len(),
            forall|i: int|
                0 <= i < r@.len() ==> prompt_pair_view(#[trigger] r@[i]) == all_prompts(
                    self.entries_spec(),
                )[i],
    {
        let mut out: Vec<(String, McpPrompt)> = Vec::new();
        let mut i: usize = 0;
        assert(self.entries@.take(0) =~= Seq::<(String, ServerState)>::empty());
        while i < self.entries.len()
            invariant
                0 <= i <= self.entries.len(),
                out@.len() == all_prompts(self.entries@.take(i as int)).len(),
                forall|j: int|
                    0 <= j < out@.len() ==> prompt_pair_view(#[trigger] out@[j]) == all_prompts(
                        self.entries@.take(i as int),
                    )[j],
            decreases self.entries.len() - i,
        {
            let server = &self.entries[i].0;
            let ps = &self.entries[i].1.prompts;
            let ghost base = out@;
            let ghost prev = all_prompts(self.entries@.take(i as int));
            let mut k: usize = 0;
            while k < ps.len()
                invariant
                    0 <= k <= ps.len(),
                    out@.len() == base.len() + k,
                    base.len() == prev.len(),
                    forall|j: int| 0 <= j < base.len() ==> #[trigger] out@[j] == base[j],
                    forall|j: int| 0 <= j < base.len() ==> prompt_pair_view(#[trigger] base[j]) == prev[j],
                    forall|j: int|
                        0 <= j < k ==> prompt_pair_view(#[trigger] out@[base.len() + j]) == (
                            server@,
                            prompt_view(ps@[j]),
                        ),
                decreases ps.len() - k,
            {
                out.push((server.clone(), clone_prompt(&ps[k])));
                k = k + 1;
            }
            proof {
                let e = self.entries@[i as int];
                assert(self.entries@.take(i + 1).drop_last() =~= self.entries@.take(i as int));
                assert(self.entries@.take(i + 1).last() == e);
                let now = all_prompts(self.entries@.take(i + 1));
                assert forall|j: int| 0 <= j < out@.len() implies prompt_pair_view(#[trigger] out@[j])
                    == now[j] by {
                    if j < base.len() {
                        assert(out@[j] == base[j]);
                    } else {
                        assert(out@[base.len() + (j - base.len())] == out@[j]);
                    }
                }
            }
            i = i + 1;
        }
        assert(self.entries@.take(self.entries.len() as int) =~= self.entries@);
        out
    }
}

// ── status and attestation ─────────────────────────────────────────

/// Server status for display.
#[derive(Debug, Clone)]
pub struct ServerStatus {
    pub name: String,
    pub connected: bool,
    pub server_info: Option<String>,
    pub tool_count: usize,
    pub resource_count: usize,
    pub prompt_count: usize,
    pub restart_count: u32,
    pub transport: String,
}

pub struct StatusView {
    pub name: Seq<char>,
    pub connected: bool,
    pub server_info: Option<Seq<char>>,
    pub tool_count: nat,
    pub resource_count: nat,
    pub prompt_count: nat,
    pub restart_count: u32,
    pub transport: Seq<char>,
}

impl View for ServerStatus {
    type V = StatusView;

    open spec fn view(&self) -> StatusView {
        StatusView {
            name: self.name@,
            connected: self.connected,
            server_info: crate::client::opt_view(self.server_info),
            tool_count: self.tool_count as nat,
            resource_count: self.resource_count as nat,
            prompt_count: self.prompt_count as nat,
            restart_count: self.restart_count,
            transport: self.transport@,
        }
    }
}

/// The status of a server, given whether its connection is alive; its info
/// reads `<name> v<version>`.
pub open spec fn status_of(e: (String, ServerState), alive: bool) -> StatusView {
    StatusView {
        name: e.0@,
        connected: alive,
        server_info: match e.1.info {
            Some(i) => Some(i.name@ + " v"@ + i.version@),
            None => None,
        },
        tool_count: e.1.tools@.len(),
        resource_count: e.1.resources@.len(),
        prompt_count: e.1.prompts@.len(),
        restart_count: e.1.restart_count,
        transport: e.1.config.transport@,
    }
}

/// The warning for a server whose tool list changed since it was pinned:
/// its current tools no longer hash to the pinned hash. The warning names
/// the old and new counts where the count changed.
pub open spec fn warning_of(e: (String, ServerState)) -> Option<Seq<char>> {
    match e.1.capability_pin {
        Some(pin) => if pin.tools_hash@ != tools_hash_spec(e.1.tools@) {
            if e.1.tools@.len() != pin.tool_count {
                Some(
                    "Server '"@ + e.0@ + "': tool count changed from "@ + decimal(
                        pin.tool_count as nat,
                    ) + " to "@ + decimal(e.1.tools@.len()),
                )
            } else {
                Some("Server '"@ + e.0@ + "': tool list changed since pinning"@)
            }
        } else {
            None
        },
        None => None,
    }
}

impl ServerTable {
    /// The status of every server, given whether each connection (in table
    /// order) is alive.
    pub fn statuses(&self, alive: &Vec<bool>) -> (r: Vec<ServerStatus>)
        requires
            alive@.len() == self.entries_spec().len(),
        ensures
            r@.len() == self.entries_spec().len(),
            forall|i: int|
                0 <= i < r@.len() ==> #[trigger] r@[i]@ == status_of(
                    self.entries_spec()[i],
                    alive@[i],
                ),
    {
        let mut out: Vec<ServerStatus> = Vec::new();
        let mut i: usize = 0;
        while i < self.entries.len()
            invariant
                0 <= i <= self.entries.len(),
                alive@.len() == self.entries@.len(),
                out@.len() == i,
                forall|j: int|
                    0 <= j < i ==> #[trigger] out@[j]@ == status_of(self.entries@[j], alive@[j]),
            decreases self.entries.len() - i,
        {
            let (name, st) = (&self.entries[i].0, &self.entries[i].1);
            let server_info = match &st.info {
                Some(info) => {
                    let mut t = concat(info.name.as_str(), " v");
                    push_str(&mut t, info.version.as_str());
                    Some(t)
                },
                None => None,
            };
            out.push(
                ServerStatus {
                    name: name.clone(),
                    connected: alive[i],
                    server_info,
                    tool_count: st.tools.len(),
                    resource_count: st.resources.len(),
                    prompt_count: st.prompts.len(),
                    restart_count: st.restart_count,
                    transport: st.config.transport.clone(),
                },
            );
            i = i + 1;
        }
        out
    }

    /// Capability attestation: a warning for each server whose tool count
    /// changed since it was pinned, in table order.
    pub fn capability_warnings(&self) -> (r: Vec<String>)
        ensures
            r@.len() == self.entries_spec().filter_map(|e: (String, ServerState)| warning_of(e)).len(),
            forall|i: int|
                0 <= i < r@.len() ==> #[trigger] r@[i]@ == self.entries_spec().filter_map(
                    |e: (String, ServerState)| warning_of(e),
                )[i],
    {
        let ghost f = |e: (String, ServerState)| warning_of(e);
        let mut out: Vec<String> = Vec::new();
        let mut i: usize = 0;
        assert(self.entries@.take(0) =~= Seq::<(String, ServerState)>::empty());
        while i < self.entries.len()
            invariant
                0 <= i <= self.entries.len(),
                f == (|e: (String, ServerState)| warning_of(e)),
                out@.len() == self.entries@.take(i as int).filter_map(f).len(),
                forall|j: int|
                    0 <= j < out@.len() ==> #[trigger] out@[j]@ == self.entries@.take(
                        i as int,
                    ).filter_map(f)[j],
            decreases self.entries.len() - i,
        {
            proof {
                self.entries@.lemma_filter_map_take_succ(f, i as int);
            }
            let (name, st) = (&self.entries[i].0, &self.entries[i].1);
            match &st.capability_pin {
                Some(pin) => {
                    let now = tools_hash(&st.tools);
                    if !crate::text::str_eq(pin.tools_hash.as_str(), now.as_str()) {
                        let mut w = concat("Server '", name.as_str());
                        if st.tools.len() != pin.tool_count {
                            push_str(&mut w, "': tool count changed from ");
                            let a = u64_to_decimal(pin.tool_count as u64);
                            push_str(&mut w, a.as_str());
                            push_str(&mut w, " to ");
                            let b = u64_to_decimal(st.tools.len() as u64);
                            push_str(&mut w, b.as_str());
                        } else {
                            push_str(&mut w, "': tool list changed since pinning");
                        }
                        out.push(w);
                    }
                },
                None => {},
            }
            i = i + 1;
        }
        assert(self.entries@.take(self.entries.len() as int) =~= self.entries@);
        out
    }
}

// ── names of tools and servers ─────────────────────────────────────

/// The message of a display name without a `:`.
pub open spec fn bad_display_name_text(d: Seq<char>) -> Seq<char> {
    "Invalid tool display name '"@ + d + "' — expected 'server:tool'"@
}

/// Splits a display name `server:tool` at its first `:`; a protocol error
/// for a name without one.
pub fn split_display_name(display: &str) -> (r: Result<(String, String), McpError>)
    ensures
        first_index(display@, ':') < display@.len() ==> (r matches Ok(p) && p.0@ == display@.take(
            first_index(display@, ':') as int,
        ) && p.1@ == display@.skip(first_index(display@, ':') + 1int)),
        first_index(display@, ':') >= display@.len() ==> (r matches Err(e) && e is Protocol
            && e.detail_spec() == bad_display_name_text(display@)),
{
    proof {
        crate::text::lemma_first_index_bound(display@, ':');
    }
    match split_once(display, ':') {
        Some(p) => Ok(p),
        None => {
            let mut m = concat("Invalid tool display name '", display);
            push_str(&mut m, "' — expected 'server:tool'");
            Err(McpError::Protocol(m))
        },
    }
}

/// The message for a server that is not connected.
pub open spec fn not_connected_text(name: Seq<char>) -> Seq<char> {
    "Server '"@ + name + "' not connected"@
}

/// The error for a server that is not connected.
pub fn not_connected(name: &str) -> (r: McpError)
    ensures
        r is NotFound,
        r.detail_spec() == not_connected_text(name@),
{
    let mut m = concat("Server '", name);
    push_str(&mut m, "' not connected");
    McpError::NotFound(m)
}

impl ServerTable {
    /// Resolves a display name `server:tool` to a connected server and its
    /// tool name; a protocol error for a name without `:`, a not-found
    /// error for a server that is not connected.
    pub fn resolve_display_name(&self, display: &str) -> (r: Result<(String, String), McpError>)
        requires
            self.wf(),
        ensures
            ({
                let k = first_index(display@, ':');
                &&& k >= display@.len() ==> (r matches Err(e) && e is Protocol && e.detail_spec()
                    == bad_display_name_text(display@))
                &&& k < display@.len() && state_of(self.entries_spec(), display@.take(k as int))
                    is None ==> (r matches Err(e) && e is NotFound && e.detail_spec()
                    == not_connected_text(display@.take(k as int)))
                &&& k < display@.len() && state_of(self.entries_spec(), display@.take(k as int))
                    is Some ==> (r matches Ok(p) && p.0@ == display@.take(k as int) && p.1@
                    == display@.skip(k + 1int))
            }),
    {
        match split_display_name(display) {
            Err(e) => Err(e),
            Ok((server, tool)) => {
                if self.get(server.as_str()).is_some() {
                    Ok((server, tool))
                } else {
                    Err(not_connected(server.as_str()))
                }
            },
        }
    }
}

// ── installing from the registry ───────────────────────────────────

/// The names in order, each kept at its first place only.
pub open spec fn dedup(s: Seq<Seq<char>>) -> Seq<Seq<char>>
    decreases s.len(),
{
    if s.len() == 0 {
        Seq::empty()
    } else {
        let d = dedup(s.drop_last());
        if d.contains(s.last()) {
            d
        } else {
            d.push(s.last())
        }
    }
}

/// The environment of an installed server: each variable the entry needs,
/// once, with an empty value.
pub open spec fn env_from(env_vars: Seq<Seq<char>>) -> Seq<(Seq<char>, Seq<char>)> {
    dedup(env_vars).map_values(|k: Seq<char>| (k, Seq::<char>::empty()))
}

/// The server config that installing a registry entry saves: enabled, with
/// the entry's description and no trust override.
pub fn config_from_entry(entry: &crate::registry::RegistryEntry) -> (r: McpServerConfig)
    ensures
        r.name@ == entry.name@,
        r.transport@ == entry.transport@,
        crate::client::opt_view(r.command) == crate::client::opt_view(entry.command),
        crate::registry::strings_view(r.args@) == crate::registry::strings_view(entry.args@),
        crate::client::opt_view(r.url) == crate::client::opt_view(entry.url),
        crate::registry::pairs_view(r.headers@) == crate::registry::pairs_view(entry.headers@),
        crate::registry::pairs_view(r.env@) == env_from(crate::registry::strings_view(entry.env_vars@)),
        r.enabled,
        r.description matches Some(d) && d@ == entry.description@,
        r.trust is None,
{
    let ghost vars = crate::registry::strings_view(entry.env_vars@);
    let mut keys: Vec<String> = Vec::new();
    let mut i: usize = 0;
    assert(vars.take(0) =~= Seq::<Seq<char>>::empty());
    assert(crate::registry::strings_view(keys@) =~= Seq::<Seq<char>>::empty());
    while i < entry.env_vars.len()
        invariant
            0 <= i <= entry.env_vars.len(),
            vars == crate::registry::strings_view(entry.env_vars@),
            crate::registry::strings_view(keys@) == dedup(vars.take(i as int)),
        decreases entry.env_vars.len() - i,
    {
        let k = &entry.env_vars[i];
        let mut seen = false;
        let mut j: usize = 0;
        while j < keys.len()
            invariant
                0 <= j <= keys.len(),
                seen == (exists|m: int| 0 <= m < j && keys@[m]@ == k@),
            decreases keys.len() - j,
        {
            if crate::text::str_eq(keys[j].as_str(), k.as_str()) {
                seen = true;
            }
            j = j + 1;
        }
        proof {
            assert(vars.take(i + 1).drop_last() =~= vars.take(i as int));
            assert(vars.take(i + 1).last() == k@);
            let d = dedup(vars.take(i as int));
            if seen {
                let m = choose|m: int| 0 <= m < keys@.len() && keys@[m]@ == k@;
                assert(d[m] == k@);
            } else {
                assert forall|m: int| 0 <= m < d.len() implies d[m] != k@ by {
                    assert(d[m] == keys@[m]@);
                }
            }
        }
        let ghost before = keys@;
        if !seen {
            keys.push(k.clone());
            assert(crate::registry::strings_view(keys@) =~= crate::registry::strings_view(before).push(k@));
        }
        i = i + 1;
    }
    assert(vars.take(entry.env_vars.len() as int) =~= vars);
    let mut env: Vec<(String, String)> = Vec::new();
    let mut i: usize = 0;
    while i < keys.len()
        invariant
            0 <= i <= keys.len(),
            env@.len() == i,
            forall|m: int| 0 <= m < i ==> #[trigger] env@[m].0@ == keys@[m]@ && env@[m].1@ == Seq::<char>::empty(),
        decreases keys.len() - i,
    {
        env.push((keys[i].clone(), String::new()));
        i = i + 1;
    }
    assert(crate::registry::pairs_view(env@) =~= env_from(vars));
    let mut headers: Vec<(String, String)> = Vec::new();
    let mut i: usize = 0;
    while i < entry.headers.len()
        invariant
            0 <= i <= entry.headers.len(),
            headers@.len() == i,
            forall|m: int|
                0 <= m < i ==> #[trigger] headers@[m].0@ == entry.headers@[m].0@ && headers@[m].1@
                    == entry.headers@[m].1@,
        decreases entry.headers.len() - i,
    {
        headers.push((entry.headers[i].0.clone(), entry.headers[i].1.clone()));
        i = i + 1;
    }
    assert(crate::registry::pairs_view(headers@) =~= crate::registry::pairs_view(entry.headers@));
    McpServerConfig {
        name: entry.name.clone(),
        transport: entry.transport.clone(),
        command: entry.command.clone(),
        args: crate::registry::clone_strings(&entry.args),
        url: entry.url.clone(),
        headers,
        env,
        enabled: true,
        description: Some(entry.description.clone()),
        trust: None,
    }
}

// ── capability pins ────────────────────────────────────────────────

/// The SHA-256 digest of a byte sequence as the `sha2` crate computes it.
pub uninterp spec fn sha256_spec(data: Seq<u8>) -> Seq<u8>;

/// `sha2::Sha256` over `data`: the digest is `sha256_spec` of the bytes,
/// 32 bytes long (the output size of SHA-256).
#[verifier::external_body]
fn sha256(data: &[u8]) -> (r: Vec<u8>)
    ensures
        r@ == sha256_spec(data@),
        r@.len() == 32,
{
    sha2::Digest::finalize(<sha2::Sha256 as sha2::Digest>::new_with_prefix(data)).to_vec()
}

/// The current time, in whole seconds since the Unix epoch
/// (`chrono::Utc::now().timestamp()`); nothing is stated of its value.
#[verifier::external_body]
fn unix_now() -> (r: i64) {
    chrono::Utc::now().timestamp()
}

/// The JSON list of the tool names.
pub open spec fn tool_names_json(tools: Seq<McpToolInfo>) -> JsonData {
    JsonData::Array(Seq::new(tools.len(), |i: int| JsonData::Str(tools[i].name@)))
}

/// The pin's hash: lower-case hexadecimal SHA-256 of the UTF-8 text of the
/// JSON list of tool names.
pub open spec fn tools_hash_spec(tools: Seq<McpToolInfo>) -> Seq<char> {
    crate::text::hex_bytes(
        sha256_spec(vstd::utf8::encode_utf8(crate::json::json_text(tool_names_json(tools)))),
        false,
    )
}

/// The hash of a tool list: lower-case hexadecimal SHA-256 of the JSON list
/// of the tool names.
pub fn tools_hash(tools: &Vec<McpToolInfo>) -> (r: String)
    ensures
        r@ == tools_hash_spec(tools@),
{
    let mut names: Vec<JsonValue> = Vec::new();
    let mut i: usize = 0;
    while i < tools.len()
        invariant
            0 <= i <= tools.len(),
            names@.len() == i,
            forall|m: int| 0 <= m < i ==> #[trigger] names@[m]@ == JsonData::Str(tools@[m].name@),
        decreases tools.len() - i,
    {
        names.push(JsonValue::from_str(tools[i].name.as_str()));
        i = i + 1;
    }
    let list = JsonValue::array(names);
    assert(crate::json::items_data(names@) =~= tool_names_json(tools@)->Array_0);
    let text = crate::json::json_to_string(&list);
    let digest = sha256(text.as_str().as_bytes());
    crate::text::to_hex_lower(digest.as_slice())
}

/// A pin of a server's tools at the given time; none for a server without
/// tools.
pub fn pin_capabilities_at(server_name: &str, tools: &Vec<McpToolInfo>, now: i64) -> (r: Option<
    CapabilityPin,
>)
    ensures
        tools@.len() == 0 ==> r is None,
        tools@.len() > 0 ==> (r matches Some(p) && p.server_name@ == server_name@ && p.tools_hash@
            == tools_hash_spec(tools@) && p.pinned_at == now && p.tool_count == tools@.len()),
{
    if tools.len() == 0 {
        return None;
    }
    let hash = tools_hash(tools);
    Some(
        CapabilityPin {
            server_name: to_string(server_name),
            tools_hash: hash,
            pinned_at: now,
            tool_count: tools.len(),
        },
    )
}

/// A pin of a server's tools, made now; none for a server without tools.
pub fn pin_capabilities(server_name: &str, tools: &Vec<McpToolInfo>) -> (r: Option<CapabilityPin>)
    ensures
        tools@.len() == 0 ==> r is None,
        tools@.len() > 0 ==> (r matches Some(p) && p.server_name@ == server_name@ && p.tools_hash@
            == tools_hash_spec(tools@) && p.tool_count == tools@.len()),
{
    let now = unix_now();
    pin_capabilities_at(server_name, tools, now)
}

// ── connecting a server ────────────────────────────────────────────

/// What a discovery step leaves: the listing where the server offers that
/// kind and the listing succeeded, else nothing.
pub open spec fn discovered<T>(offered: bool, listed: Option<Vec<T>>) -> Seq<T> {
    if offered && listed is Some {
        listed->Some_0@
    } else {
        Seq::empty()
    }
}

fn keep_discovered<T>(offered: bool, listed: Option<Vec<T>>) -> (r: Vec<T>)
    ensures
        r@ == discovered(offered, listed),
{
    match listed {
        Some(v) => if offered {
            v
        } else {
            Vec::new()
        },
        None => Vec::new(),
    }
}

impl ServerState {
    /// The state of a freshly connected server, given its config, what it
    /// said of itself, and the tool, resource and prompt listings (`None`
    /// where a listing failed or was not made). A kind the server does not
    /// offer, or whose listing failed, is empty. No restarts so far, and a
    /// pin of the tools, made now, where there are any.
    pub fn connected(
        config: McpServerConfig,
        info: McpServerInfo,
        tools: Option<Vec<McpToolInfo>>,
        resources: Option<Vec<McpResource>>,
        prompts: Option<Vec<McpPrompt>>,
    ) -> (r: ServerState)
        ensures
            r.config == config,
            r.info == Some(info),
            r.tools@ == discovered(info.capabilities.tools, tools),
            r.resources@ == discovered(info.capabilities.resources, resources),
            r.prompts@ == discovered(info.capabilities.prompts, prompts),
            r.restart_count == 0,
            r.tools@.len() == 0 ==> r.capability_pin is None,
            r.tools@.len() > 0 ==> (r.capability_pin matches Some(p) && p.server_name@
                == config.name@ && p.tools_hash@ == tools_hash_spec(r.tools@) && p.tool_count
                == r.tools@.len()),
    {
        let tools = keep_discovered(info.capabilities.tools, tools);
        let resources = keep_discovered(info.capabilities.resources, resources);
        let prompts = keep_discovered(info.capabilities.prompts, prompts);
        let capability_pin = pin_capabilities(config.name.as_str(), &tools);
        ServerState {
            config,
            info: Some(info),
            tools,
            resources,
            prompts,
            restart_count: 0,
            capability_pin,
        }
    }
}

// ── laws of the table ──────────────────────────────────────────────

proof fn lemma_insert_distinct(entries: Seq<(String, ServerState)>, name: String, state: ServerState)
    requires
        distinct_names(entries),
    ensures
        distinct_names(insert_spec(entries, name, state)),
        names_of(insert_spec(entries, name, state)) == (match position(entries, name@) {
            Some(i) => names_of(entries),
            None => names_of(entries).push(name@),
        }),
{
    let r = insert_spec(entries, name, state);
    match position(entries, name@) {
        Some(i) => {
            assert forall|a: int, b: int|
                0 <= a < r.len() && 0 <= b < r.len() && a != b implies r[a].0@ != r[b].0@ by {
                assert(r[a].0 == entries[a].0);
                assert(r[b].0 == entries[b].0);
            }
            assert(names_of(r) =~= names_of(entries));
        },
        None => {
            assert forall|a: int, b: int|
                0 <= a < r.len() && 0 <= b < r.len() && a != b implies r[a].0@ != r[b].0@ by {
                if a < entries.len() && b < entries.len() {
                    assert(r[a] == entries[a]);
                    assert(r[b] == entries[b]);
                } else if a < entries.len() {
                    assert(r[a] == entries[a]);
                } else {
                    assert(r[b] == entries[b]);
                }
            }
            assert(names_of(r) =~= names_of(entries).push(name@));
        },
    }
}

proof fn lemma_remove_distinct(entries: Seq<(String, ServerState)>, name: Seq<char>)
    requires
        distinct_names(entries),
    ensures
        distinct_names(remove_entry_spec(entries, name)),
        forall|j: int|
            0 <= j < remove_entry_spec(entries, name).len() ==> #[trigger] remove_entry_spec(
                entries,
                name,
            )[j].0@ != name,
{
    let r = remove_entry_spec(entries, name);
    match position(entries, name) {
        Some(i) => {
            assert forall|a: int, b: int|
                0 <= a < r.len() && 0 <= b < r.len() && a != b implies r[a].0@ != r[b].0@ by {
                let oa = if a < i { a } else { a + 1 };
                let ob = if b < i { b } else { b + 1 };
                assert(r[a] == entries[oa]);
                assert(r[b] == entries[ob]);
            }
            assert forall|j: int| 0 <= j < r.len() implies #[trigger] r[j].0@ != name by {
                let oj = if j < i { j } else { j + 1 };
                assert(r[j] == entries[oj]);
            }
        },
        None => {},
    }
}

/// After `insert`, the table holds the inserted state under its name, each
/// name still stands once, and the names are those before, with the new
/// name last if it was not there.
pub proof fn law_table_insert_then_get(
    entries: Seq<(String, ServerState)>,
    name: String,
    state: ServerState,
)
    requires
        distinct_names(entries),
    ensures
        distinct_names(insert_spec(entries, name, state)),
        state_of(insert_spec(entries, name, state), name@) == Some(state),
        state_of(entries, name@) is Some ==> names_of(insert_spec(entries, name, state))
            == names_of(entries),
        state_of(entries, name@) is None ==> names_of(insert_spec(entries, name, state))
            == names_of(entries).push(name@),
{
    lemma_insert_distinct(entries, name, state);
    let r = insert_spec(entries, name, state);
    match position(entries, name@) {
        Some(i) => {
            assert(r[i].0 == entries[i].0);
            lemma_position_unique(r, i);
        },
        None => {
            assert(r[entries.len() as int] == (name, state));
            lemma_position_unique(r, entries.len() as int);
        },
    }
}

/// `insert` leaves the state kept under every other name as it was.
pub proof fn law_table_insert_keeps_others(
    entries: Seq<(String, ServerState)>,
    name: String,
    state: ServerState,
    other: Seq<char>,
)
    requires
        distinct_names(entries),
        other != name@,
    ensures
        state_of(insert_spec(entries, name, state), other) == state_of(entries, other),
{
    lemma_insert_distinct(entries, name, state);
    let r = insert_spec(entries, name, state);
    match position(entries, other) {
        Some(k) => {
            assert(entries[k].0@ == other);
            assert(r[k] == entries[k]);
            lemma_position_unique(r, k);
            lemma_position_unique(entries, k);
        },
        None => {
            assert forall|j: int| 0 <= j < r.len() implies r[j].0@ != other by {
                if j < entries.len() {
                    assert(r[j].0 == entries[j].0);
                }
            }
            lemma_position_none(r, other);
        },
    }
}

/// After `remove`, nothing is kept under that name and each name still
/// stands once.
pub proof fn law_table_remove_then_get(entries: Seq<(String, ServerState)>, name: Seq<char>)
    requires
        distinct_names(entries),
    ensures
        distinct_names(remove_entry_spec(entries, name)),
        state_of(remove_entry_spec(entries, name), name) is None,
{
    lemma_remove_distinct(entries, name);
    let r = remove_entry_spec(entries, name);
    assert forall|j: int| 0 <= j < r.len() implies r[j].0@ != name by {
        assert(r[j].0@ != name);
    }
    lemma_position_none(r, name);
}

/// `remove` leaves the state kept under every other name as it was.
pub proof fn law_table_remove_keeps_others(
    entries: Seq<(String, ServerState)>,
    name: Seq<char>,
    other: Seq<char>,
)
    requires
        distinct_names(entries),
        other != name,
    ensures
        state_of(remove_entry_spec(entries, name), other) == state_of(entries, other),
{
    lemma_remove_distinct(entries, name);
    let r = remove_entry_spec(entries, name);
    match position(entries, name) {
        Some(i) => {
            match position(entries, other) {
                Some(k) => {
                    assert(entries[k].0@ == other);
                    assert(k != i);
                    let rk = if k < i { k } else { k - 1 };
                    assert(r[rk] == entries[k]);
                    lemma_position_unique(r, rk);
                    lemma_position_unique(entries, k);
                },
                None => {
                    assert forall|j: int| 0 <= j < r.len() implies r[j].0@ != other by {
                        let oj = if j < i { j } else { j + 1 };
                        assert(r[j] == entries[oj]);
                    }
                    lemma_position_none(r, other);
                },
            }
        },
        None => {},
    }
}

// ── laws of the listings ───────────────────────────────────────────

/// Where a listed descriptor comes from: the server at `mk.0` and its tool
/// at `mk.1`.
proof fn lemma_descriptor_source(entries: Seq<(String, ServerState)>, i: int) -> (mk: (int, int))
    requires
        0 <= i < all_descriptors(entries).len(),
    ensures
        0 <= mk.0 < entries.len(),
        0 <= mk.1 < entries[mk.0].1.tools@.len(),
        all_descriptors(entries)[i] == descriptor_of(
            entries[mk.0].0@,
            entries[mk.0].1.tools@[mk.1]@,
        ),
        i == all_descriptors(entries.take(mk.0)).len() + mk.1,
    decreases entries.len(),
{
    let prev = entries.drop_last();
    let e = entries.last();
    if i < all_descriptors(prev).len() {
        let mk = lemma_descriptor_source(prev, i);
        assert(prev[mk.0] == entries[mk.0]);
        assert(prev.take(mk.0) =~= entries.take(mk.0));
        mk
    } else {
        let k = i - all_descriptors(prev).len();
        assert(tools_view(e.1.tools@)[k] == e.1.tools@[k]@);
        assert(entries.take(entries.len() - 1) =~= prev);
        (entries.len() - 1, k)
    }
}

/// A tool listed by `tool_descriptors` is found again by its display name:
/// where no server name holds a `:`, splitting the display name at its first
/// `:` (as `split_display_name` does) gives the descriptor's server and tool
/// names, that server stands in the table, and one of its tools has that
/// name.
pub proof fn law_descriptor_routes_back(entries: Seq<(String, ServerState)>, i: int)
    requires
        distinct_names(entries),
        forall|j: int| 0 <= j < entries.len() ==> !(#[trigger] entries[j].0@).contains(':'),
        0 <= i < all_descriptors(entries).len(),
    ensures
        ({
            let d = all_descriptors(entries)[i];
            &&& first_index(d.display_name, ':') == d.server_name.len()
            &&& d.display_name.take(d.server_name.len() as int) == d.server_name
            &&& d.display_name.skip(d.server_name.len() + 1int) == d.tool_name
            &&& state_of(entries, d.server_name) matches Some(st) && exists|k: int|
                0 <= k < st.tools@.len() && #[trigger] st.tools@[k].name@ == d.tool_name
        }),
{
    let mk = lemma_descriptor_source(entries, i);
    let (m, k) = mk;
    let server = entries[m].0@;
    let tool = entries[m].1.tools@[k]@.name;
    let d = all_descriptors(entries)[i];
    reveal_strlit(":");
    let disp = server + ":"@ + tool;
    assert(d.display_name == disp);
    assert forall|j: int| 0 <= j < server.len() implies disp[j] != ':' by {
        assert(disp[j] == server[j]);
        if server[j] == ':' {
            assert(server.contains(':'));
        }
    }
    assert(disp[server.len() as int] == ':');
    crate::text::lemma_first_index(disp, ':', server.len() as int);
    assert(disp.take(server.len() as int) =~= server);
    assert(disp.skip(server.len() + 1int) =~= tool);
    lemma_position_unique(entries, m);
    assert(entries[m].1.tools@[k].name@ == tool);
}

/// A server whose tools still hash to its pin raises no capability
/// warning; in particular a freshly connected one does not.
pub proof fn law_fresh_pin_no_warning(name: String, state: ServerState)
    requires
        state.tools@.len() == 0 ==> state.capability_pin is None,
        state.tools@.len() > 0 ==> (state.capability_pin matches Some(p) && p.tools_hash@
            == tools_hash_spec(state.tools@)),
    ensures
        warning_of((name, state)) is None,
{
}

/// A pin's hash depends on the tools' names alone: two tool lists with the
/// same names in the same order pin to the same hash.
pub proof fn law_pin_hash_by_names(a: Seq<McpToolInfo>, b: Seq<McpToolInfo>)
    requires
        a.len() == b.len(),
        forall|i: int| 0 <= i < a.len() ==> #[trigger] a[i].name@ == b[i].name@,
    ensures
        tools_hash_spec(a) == tools_hash_spec(b),
{
    let ja = tool_names_json(a)->Array_0;
    let jb = tool_names_json(b)->Array_0;
    assert(ja =~= jb);
}

/// Tool drift is caught: a server raises a capability warning exactly when
/// it was pinned and its current tool list does not hash to the pinned
/// hash.
pub proof fn law_drift_is_warned(name: String, state: ServerState)
    ensures
        warning_of((name, state)) is Some <==> (state.capability_pin matches Some(p)
            && p.tools_hash@ != tools_hash_spec(state.tools@)),
{
}

/// Display names are unique where the names allow it: when server names
/// are distinct and hold no `:`, and each server's tool names are distinct,
/// no two listed tools share a display name.
pub proof fn law_display_names_distinct(entries: Seq<(String, ServerState)>, i: int, j: int)
    requires
        distinct_names(entries),
        forall|m: int| 0 <= m < entries.len() ==> !(#[trigger] entries[m].0@).contains(':'),
        forall|m: int, a: int, b: int|
            0 <= m < entries.len() && 0 <= a < entries[m].1.tools@.len() && 0 <= b
                < entries[m].1.tools@.len() && a != b ==> #[trigger] entries[m].1.tools@[a].name@
                != #[trigger] entries[m].1.tools@[b].name@,
        0 <= i < all_descriptors(entries).len(),
        0 <= j < all_descriptors(entries).len(),
        i != j,
    ensures
        all_descriptors(entries)[i].display_name != all_descriptors(entries)[j].display_name,
{
    let (m1, k1) = lemma_descriptor_source(entries, i);
    let (m2, k2) = lemma_descriptor_source(entries, j);
    law_descriptor_routes_back(entries, i);
    law_descriptor_routes_back(entries, j);
    let di = all_descriptors(entries)[i];
    let dj = all_descriptors(entries)[j];
    if di.display_name == dj.display_name {
        assert(di.server_name == dj.server_name);
        assert(di.tool_name == dj.tool_name);
        assert(entries[m1].0@ == entries[m2].0@);
        assert(m1 == m2);
        assert(entries[m1].1.tools@[k1].name@ == entries[m1].1.tools@[k2].name@);
        assert(k1 == k2);
    }
}


/// The status reported for each server names a server of the table, and
/// counts exactly the tools, resources and prompts kept under that name;
/// it is connected exactly when its connection is alive, and carries the
/// restarts and transport kept for it.
pub proof fn law_status_reports_kept_state(
    entries: Seq<(String, ServerState)>,
    alive: Seq<bool>,
    i: int,
)
    requires
        distinct_names(entries),
        alive.len() == entries.len(),
        0 <= i < entries.len(),
    ensures
        state_of(entries, status_of(entries[i], alive[i]).name) is Some,
        status_of(entries[i], alive[i]).tool_count == state_of(
            entries,
            status_of(entries[i], alive[i]).name,
        ).unwrap().tools@.len(),
        status_of(entries[i], alive[i]).resource_count == state_of(
            entries,
            status_of(entries[i], alive[i]).name,
        ).unwrap().resources@.len(),
        status_of(entries[i], alive[i]).prompt_count == state_of(
            entries,
            status_of(entries[i], alive[i]).name,
        ).unwrap().prompts@.len(),
        status_of(entries[i], alive[i]).restart_count == state_of(
            entries,
            status_of(entries[i], alive[i]).name,
        ).unwrap().restart_count,
        status_of(entries[i], alive[i]).transport == state_of(
            entries,
            status_of(entries[i], alive[i]).name,
        ).unwrap().config.transport@,
        status_of(entries[i], alive[i]).connected == alive[i],
{
    lemma_position_unique(entries, i);
}

} // verus!
