//! The server side of MCP: how a server that offers tools answers the
//! requests of its clients. The tools' handlers run outside this module:
//! for each request the server decides the reply, or the handler call to
//! make, and it turns a handler's outcome into the reply.

pub mod http_server;

use crate::error::McpError;
use crate::json::{items_data, members_data, push_member, JsonData, JsonValue};
use crate::jsonrpc::{ErrorView, JsonRpcRequest, JsonRpcResponse, RequestView, ResponseView};
use crate::text::{concat, str_eq, to_string};
use vstd::prelude::*;

verus! {

/// Result from a tool handler.
#[derive(Debug, Clone)]
pub struct ToolHandlerResult {
    pub content: String,
    pub is_error: bool,
}

/// What the server offers of one tool: its name, description and the JSON
/// schema of its input.
#[derive(Debug, Clone)]
pub struct ToolSpec {
    pub name: String,
    pub description: String,
    pub input_schema: JsonValue,
}

pub struct ToolSpecView {
    pub name: Seq<char>,
    pub description: Seq<char>,
    pub input_schema: JsonData,
}

impl View for ToolSpec {
    type V = ToolSpecView;

    open spec fn view(&self) -> ToolSpecView {
        ToolSpecView {
            name: self.name@,
            description: self.description@,
            input_schema: self.input_schema@,
        }
    }
}

/// MCP server: its name and version, and the tools it offers, each name
/// once.
pub struct McpServer {
    tools: Vec<ToolSpec>,
    server_name: String,
    server_version: String,
}

pub struct ServerView {
    pub name: Seq<char>,
    pub version: Seq<char>,
    pub tools: Seq<ToolSpecView>,
}

/// No tool name stands twice.
pub open spec fn unique_tool_names(tools: Seq<ToolSpecView>) -> bool {
    forall|i: int, j: int|
        0 <= i < tools.len() && 0 <= j < tools.len() && i != j ==> tools[i].name != tools[j].name
}

/// Whether a tool of that name is offered.
pub open spec fn has_tool(tools: Seq<ToolSpecView>, name: Seq<char>) -> bool {
    exists|i: int| 0 <= i < tools.len() && tools[i].name == name
}

/// The tools after registering `t`: the tool of that name replaced in
/// place, or `t` added at the end.
pub open spec fn register_spec(tools: Seq<ToolSpecView>, t: ToolSpecView) -> Seq<ToolSpecView> {
    if has_tool(tools, t.name) {
        let i = choose|i: int| 0 <= i < tools.len() && tools[i].name == t.name;
        tools.update(i, t)
    } else {
        tools.push(t)
    }
}

impl View for McpServer {
    type V = ServerView;

    closed spec fn view(&self) -> ServerView {
        ServerView {
            name: self.server_name@,
            version: self.server_version@,
            tools: Seq::new(self.tools@.len(), |i: int| self.tools@[i]@),
        }
    }
}

/// What the server does with a request: reply at once, or call the handler
/// of a tool and reply with its outcome (see `tool_call_response`).
#[derive(Debug)]
pub enum ServerAction {
    Reply(JsonRpcResponse),
    CallTool { id: JsonValue, name: String, arguments: JsonValue },
}

pub enum ActionView {
    Reply(ResponseView),
    CallTool { id: JsonData, name: Seq<char>, arguments: JsonData },
}

impl View for ServerAction {
    type V = ActionView;

    open spec fn view(&self) -> ActionView {
        match self {
            ServerAction::Reply(r) => ActionView::Reply(r@),
            ServerAction::CallTool { id, name, arguments } => ActionView::CallTool {
                id: id@,
                name: name@,
                arguments: arguments@,
            },
        }
    }
}

// ── the replies ────────────────────────────────────────────────────

/// A success response.
pub open spec fn success_view(id: JsonData, result: JsonData) -> ResponseView {
    ResponseView { jsonrpc: "2.0"@, id, result: Some(result), error: None }
}

/// An error response.
pub open spec fn error_view(id: JsonData, code: int, message: Seq<char>) -> ResponseView {
    ResponseView {
        jsonrpc: "2.0"@,
        id,
        result: None,
        error: Some(ErrorView { code, message, data: None }),
    }
}

/// `{}`.
pub open spec fn empty_object() -> JsonData {
    JsonData::Object(Seq::empty())
}

/// The result of `initialize`: the protocol version, a tools capability,
/// and the server's name and version.
pub open spec fn initialize_result(name: Seq<char>, version: Seq<char>) -> JsonData {
    JsonData::Object(
        seq![
            ("protocolVersion"@, JsonData::Str("2024-11-05"@)),
            ("capabilities"@, JsonData::Object(seq![("tools"@, empty_object())])),
            (
                "serverInfo"@,
                JsonData::Object(
                    seq![("name"@, JsonData::Str(name)), ("version"@, JsonData::Str(version))],
                ),
            ),
        ],
    )
}

/// How a tool is listed: its name, description and input schema.
pub open spec fn tool_entry(t: ToolSpecView) -> JsonData {
    JsonData::Object(
        seq![
            ("name"@, JsonData::Str(t.name)),
            ("description"@, JsonData::Str(t.description)),
            ("inputSchema"@, t.input_schema),
        ],
    )
}

/// The result of `tools/list`: every tool offered, in order.
pub open spec fn tools_list_result(tools: Seq<ToolSpecView>) -> JsonData {
    JsonData::Object(
        seq![("tools"@, JsonData::Array(tools.map_values(|t: ToolSpecView| tool_entry(t))))],
    )
}

/// An object with one member, an empty list.
pub open spec fn empty_list_result(key: Seq<char>) -> JsonData {
    JsonData::Object(seq![(key, JsonData::Array(Seq::empty()))])
}

/// What `tools/call` does with its params: an error for missing params or a
/// missing tool name, or for a tool that is not offered; else the call of
/// that tool with the `arguments` member (`{}` where there is none).
pub open spec fn tools_call_spec(
    tools: Seq<ToolSpecView>,
    id: JsonData,
    params: Option<JsonData>,
) -> ActionView {
    match params {
        None => ActionView::Reply(error_view(id, -32602, "Missing params"@)),
        Some(p) => match p.get_str("name"@) {
            None => ActionView::Reply(error_view(id, -32602, "Missing tool name"@)),
            Some(name) => if has_tool(tools, name) {
                ActionView::CallTool {
                    id,
                    name,
                    arguments: match p.get("arguments"@) {
                        Some(a) => a,
                        None => empty_object(),
                    },
                }
            } else {
                ActionView::Reply(error_view(id, -32602, "Tool not found: "@ + name))
            },
        },
    }
}

/// What the server does with a request, by its method.
pub open spec fn dispatch_spec(s: ServerView, r: RequestView) -> ActionView {
    let m = r.method;
    if m == "initialize"@ {
        ActionView::Reply(success_view(r.id, initialize_result(s.name, s.version)))
    } else if m == "notifications/initialized"@ || m == "ping"@ {
        ActionView::Reply(success_view(r.id, empty_object()))
    } else if m == "tools/list"@ {
        ActionView::Reply(success_view(r.id, tools_list_result(s.tools)))
    } else if m == "tools/call"@ {
        tools_call_spec(s.tools, r.id, r.params)
    } else if m == "resources/list"@ {
        ActionView::Reply(success_view(r.id, empty_list_result("resources"@)))
    } else if m == "prompts/list"@ {
        ActionView::Reply(success_view(r.id, empty_list_result("prompts"@)))
    } else {
        ActionView::Reply(error_view(r.id, -32601, "Method not found: "@ + m))
    }
}

/// The text that a tool call's outcome shows: the handler's content, or
/// `Error: ` and the error's text.
pub open spec fn outcome_text(outcome: Result<ToolHandlerResult, McpError>) -> Seq<char> {
    match outcome {
        Ok(t) => t.content@,
        Err(e) => "Error: "@ + e.text_spec(),
    }
}

/// Whether a tool call's outcome is an error: as the handler says, and
/// always where the handler failed.
pub open spec fn outcome_is_error(outcome: Result<ToolHandlerResult, McpError>) -> bool {
    match outcome {
        Ok(t) => t.is_error,
        Err(_) => true,
    }
}

/// The result of a tool call: one text item, and whether it is an error.
pub open spec fn call_result(text: Seq<char>, is_error: bool) -> JsonData {
    JsonData::Object(
        seq![
            (
                "content"@,
                JsonData::Array(
                    seq![
                        JsonData::Object(
                            seq![("type"@, JsonData::Str("text"@)), ("text"@, JsonData::Str(text))],
                        ),
                    ],
                ),
            ),
            ("isError"@, JsonData::Bool(is_error)),
        ],
    )
}

fn success(id: JsonValue, result: JsonValue) -> (r: JsonRpcResponse)
    ensures
        r@ == success_view(id@, result@),
{
    JsonRpcResponse::success(id, result)
}

fn error(id: JsonValue, code: i64, message: &str) -> (r: JsonRpcResponse)
    ensures
        r@ == error_view(id@, code as int, message@),
{
    JsonRpcResponse::error(id, code, message)
}

fn empty_object_value() -> (r: JsonValue)
    ensures
        r@ == empty_object(),
{
    let m: Vec<(String, JsonValue)> = Vec::new();
    assert(members_data(m@) =~= Seq::<(Seq<char>, JsonData)>::empty());
    JsonValue::object(m)
}

fn empty_list_value(key: &str) -> (r: JsonValue)
    ensures
        r@ == empty_list_result(key@),
{
    let items: Vec<JsonValue> = Vec::new();
    assert(items_data(items@) =~= Seq::<JsonData>::empty());
    let mut m: Vec<(String, JsonValue)> = Vec::new();
    push_member(&mut m, key, JsonValue::array(items));
    assert(members_data(m@) =~= empty_list_result(key@)->Object_0);
    JsonValue::object(m)
}

fn tool_entry_value(t: &ToolSpec) -> (r: JsonValue)
    ensures
        r@ == tool_entry(t@),
{
    let mut m: Vec<(String, JsonValue)> = Vec::new();
    push_member(&mut m, "name", JsonValue::from_str(t.name.as_str()));
    push_member(&mut m, "description", JsonValue::from_str(t.description.as_str()));
    push_member(&mut m, "inputSchema", t.input_schema.clone_value());
    assert(members_data(m@) =~= tool_entry(t@)->Object_0);
    JsonValue::object(m)
}

/// The reply to a tool call, given the handler's outcome.
pub fn tool_call_response(id: JsonValue, outcome: Result<ToolHandlerResult, McpError>) -> (r:
    JsonRpcResponse)
    ensures
        r@ == success_view(id@, call_result(outcome_text(outcome), outcome_is_error(outcome))),
{
    let (text, is_error) = match &outcome {
        Ok(t) => (t.content.clone(), t.is_error),
        Err(e) => {
            let d = e.to_string();
            (concat("Error: ", d.as_str()), true)
        },
    };
    let mut item: Vec<(String, JsonValue)> = Vec::new();
    push_member(&mut item, "type", JsonValue::from_str("text"));
    push_member(&mut item, "text", JsonValue::from_str(text.as_str()));
    let mut items: Vec<JsonValue> = Vec::new();
    items.push(JsonValue::object(item));
    let mut m: Vec<(String, JsonValue)> = Vec::new();
    push_member(&mut m, "content", JsonValue::array(items));
    push_member(&mut m, "isError", JsonValue::Bool(is_error));
    proof {
        let cr = call_result(outcome_text(outcome), outcome_is_error(outcome));
        let inner = JsonData::Object(
            seq![("type"@, JsonData::Str("text"@)), ("text"@, JsonData::Str(text@))],
        );
        assert(members_data(item@) =~= inner->Object_0);
        assert(items_data(items@) =~= seq![inner]);
        assert(members_data(m@) =~= cr->Object_0);
    }
    success(id, JsonValue::object(m))
}

impl McpServer {
    /// The tools offered keep each name once.
    pub closed spec fn wf(&self) -> bool {
        unique_tool_names(self@.tools)
    }

    /// A server of that name and version, offering no tools.
    pub fn new(name: &str, version: &str) -> (r: Self)
        ensures
            r.wf(),
            r@ == (ServerView { name: name@, version: version@, tools: Seq::empty() }),
    {
        let r = McpServer {
            tools: Vec::new(),
            server_name: to_string(name),
            server_version: to_string(version),
        };
        assert(r@.tools =~= Seq::<ToolSpecView>::empty());
        r
    }

    fn tool_index(&self, name: &str) -> (r: Option<usize>)
        ensures
            match r {
                Some(i) => i < self@.tools.len() && self@.tools[i as int].name == name@,
                None => !has_tool(self@.tools, name@),
            },
    {
        let mut i: usize = 0;
        while i < self.tools.len()
            invariant
                0 <= i <= self.tools.len(),
                forall|j: int| 0 <= j < i ==> self@.tools[j].name != name@,
            decreases self.tools.len() - i,
        {
            if str_eq(self.tools[i].name.as_str(), name) {
                return Some(i);
            }
            i = i + 1;
        }
        None
    }

    /// Registers a tool, replacing the one of that name.
    pub fn register_tool(&mut self, tool: ToolSpec)
        requires
            old(self).wf(),
        ensures
            final(self).wf(),
            final(self)@ == (ServerView {
                name: old(self)@.name,
                version: old(self)@.version,
                tools: register_spec(old(self)@.tools, tool@),
            }),
    {
        let ghost before = self@.tools;
        let ghost t = tool@;
        match self.tool_index(tool.name.as_str()) {
            Some(i) => {
                let ghost k = choose|k: int| 0 <= k < before.len() && before[k].name == t.name;
                assert(k == i);
                self.tools.set(i, tool);
                assert(self@.tools =~= before.update(i as int, t));
            },
            None => {
                self.tools.push(tool);
                assert(self@.tools =~= before.push(t));
            },
        }
    }

    fn tools_list_value(&self) -> (r: JsonValue)
        ensures
            r@ == tools_list_result(self@.tools),
    {
        let mut items: Vec<JsonValue> = Vec::new();
        let mut i: usize = 0;
        while i < self.tools.len()
            invariant
                0 <= i <= self.tools.len(),
                items@.len() == i,
                forall|j: int| 0 <= j < i ==> #[trigger] items@[j]@ == tool_entry(self@.tools[j]),
            decreases self.tools.len() - i,
        {
            items.push(tool_entry_value(&self.tools[i]));
            i = i + 1;
        }
        assert(items_data(items@) =~= self@.tools.map_values(|t: ToolSpecView| tool_entry(t)));
        let mut m: Vec<(String, JsonValue)> = Vec::new();
        push_member(&mut m, "tools", JsonValue::array(items));
        assert(members_data(m@) =~= tools_list_result(self@.tools)->Object_0);
        JsonValue::object(m)
    }

    fn initialize_value(&self) -> (r: JsonValue)
        ensures
            r@ == initialize_result(self@.name, self@.version),
    {
        let mut caps: Vec<(String, JsonValue)> = Vec::new();
        push_member(&mut caps, "tools", empty_object_value());
        let mut info: Vec<(String, JsonValue)> = Vec::new();
        push_member(&mut info, "name", JsonValue::from_str(self.server_name.as_str()));
        push_member(&mut info, "version", JsonValue::from_str(self.server_version.as_str()));
        let mut m: Vec<(String, JsonValue)> = Vec::new();
        push_member(&mut m, "protocolVersion", JsonValue::from_str("2024-11-05"));
        push_member(&mut m, "capabilities", JsonValue::object(caps));
        push_member(&mut m, "serverInfo", JsonValue::object(info));
        proof {
            assert(members_data(caps@) =~= seq![("tools"@, empty_object())]);
            assert(members_data(info@) =~= seq![
                ("name"@, JsonData::Str(self@.name)),
                ("version"@, JsonData::Str(self@.version)),
            ]);
            assert(members_data(m@) =~= initialize_result(self@.name, self@.version)->Object_0);
        }
        JsonValue::object(m)
    }

    fn handle_tools_call(&self, id: JsonValue, params: Option<JsonValue>) -> (r: ServerAction)
        ensures
            r@ == tools_call_spec(self@.tools, id@, crate::json::opt_data(params)),
    {
        let p = match params {
            Some(p) => p,
            None => {
                return ServerAction::Reply(error(id, -32602, "Missing params"));
            },
        };
        let name = match p.get_str("name") {
            Some(n) => n.clone(),
            None => {
                return ServerAction::Reply(error(id, -32602, "Missing tool name"));
            },
        };
        match self.tool_index(name.as_str()) {
            Some(_) => {
                let arguments = match p.get("arguments") {
                    Some(a) => a.clone_value(),
                    None => empty_object_value(),
                };
                ServerAction::CallTool { id, name, arguments }
            },
            None => {
                let m = concat("Tool not found: ", name.as_str());
                ServerAction::Reply(error(id, -32602, m.as_str()))
            },
        }
    }

    /// What the server does with a request: the reply, or the tool call to
    /// make, as `dispatch_spec` says for each method.
    pub fn handle_request(&self, request: JsonRpcRequest) -> (r: ServerAction)
        ensures
            r@ == dispatch_spec(self@, request@),
    {
        let m = request.method.as_str();
        if str_eq(m, "initialize") {
            let res = self.initialize_value();
            ServerAction::Reply(success(request.id, res))
        } else if str_eq(m, "notifications/initialized") || str_eq(m, "ping") {
            ServerAction::Reply(success(request.id, empty_object_value()))
        } else if str_eq(m, "tools/list") {
            let res = self.tools_list_value();
            ServerAction::Reply(success(request.id, res))
        } else if str_eq(m, "tools/call") {
            self.handle_tools_call(request.id, request.params)
        } else if str_eq(m, "resources/list") {
            ServerAction::Reply(success(request.id, empty_list_value("resources")))
        } else if str_eq(m, "prompts/list") {
            ServerAction::Reply(success(request.id, empty_list_value("prompts")))
        } else {
            let msg = concat("Method not found: ", m);
            ServerAction::Reply(error(request.id, -32601, msg.as_str()))
        }
    }
}

// ── laws ───────────────────────────────────────────────────────────

/// Every reply carries the id of the request it answers, and so does every
/// tool call the server decides on.
pub proof fn law_reply_keeps_id(s: ServerView, r: RequestView)
    ensures
        match dispatch_spec(s, r) {
            ActionView::Reply(resp) => resp.id == r.id,
            ActionView::CallTool { id, .. } => id == r.id,
        },
{
}

/// After a tool is registered, it is offered (listed by `tools/list` in
/// its place), the names stay unique, and a `tools/call` naming it with no
/// arguments calls it with `{}`.
pub proof fn law_registered_tool_is_called(tools: Seq<ToolSpecView>, t: ToolSpecView, id: JsonData)
    requires
        unique_tool_names(tools),
    ensures
        unique_tool_names(register_spec(tools, t)),
        has_tool(register_spec(tools, t), t.name),
        tools_call_spec(
            register_spec(tools, t),
            id,
            Some(JsonData::Object(seq![("name"@, JsonData::Str(t.name))])),
        ) == (ActionView::CallTool { id, name: t.name, arguments: empty_object() }),
{
    let r = register_spec(tools, t);
    if has_tool(tools, t.name) {
        let i = choose|i: int| 0 <= i < tools.len() && tools[i].name == t.name;
        assert(r[i] == t);
        assert forall|a: int, b: int|
            0 <= a < r.len() && 0 <= b < r.len() && a != b implies r[a].name != r[b].name by {
            if a != i && b != i {
                assert(r[a] == tools[a] && r[b] == tools[b]);
            } else if a == i {
                assert(r[b] == tools[b]);
            } else {
                assert(r[a] == tools[a]);
            }
        }
    } else {
        assert(r[tools.len() as int] == t);
        assert forall|a: int, b: int|
            0 <= a < r.len() && 0 <= b < r.len() && a != b implies r[a].name != r[b].name by {
            if a < tools.len() && b < tools.len() {
                assert(r[a] == tools[a] && r[b] == tools[b]);
            } else if a < tools.len() {
                assert(r[a] == tools[a]);
                assert(tools[a].name != t.name);
            } else {
                assert(r[b] == tools[b]);
                assert(tools[b].name != t.name);
            }
        }
    }
    reveal_strlit("name");
    reveal_strlit("arguments");
    let p = JsonData::Object(seq![("name"@, JsonData::Str(t.name))]);
    assert("name"@.len() != "arguments"@.len());
    assert(p.get("arguments"@) is None) by {
        reveal_with_fuel(crate::json::lookup, 2);
    }
    assert(p.get_str("name"@) == Some(t.name));
}

/// Registering a tool whose name is not yet offered adds it at the end;
/// registering one whose name is offered keeps the count and replaces it.
pub proof fn law_register_count(tools: Seq<ToolSpecView>, t: ToolSpecView)
    ensures
        has_tool(tools, t.name) ==> register_spec(tools, t).len() == tools.len(),
        !has_tool(tools, t.name) ==> register_spec(tools, t) == tools.push(t),
{
}


/// Whether a listed entry shows a tool as it was registered: its name, its
/// description and its input schema.
pub open spec fn lists_tool(entry: JsonData, t: ToolSpecView) -> bool {
    &&& entry.get("name"@) == Some(JsonData::Str(t.name))
    &&& entry.get("description"@) == Some(JsonData::Str(t.description))
    &&& entry.get("inputSchema"@) == Some(t.input_schema)
}

/// `tools/list` answers, with the request's id, a `tools` array with one
/// entry per offered tool, in order, each showing that tool's name,
/// description and input schema.
pub proof fn law_tools_list_shows_tools(s: ServerView, r: RequestView)
    requires
        r.method == "tools/list"@,
    ensures
        dispatch_spec(s, r) is Reply,
        dispatch_spec(s, r)->Reply_0.id == r.id,
        dispatch_spec(s, r)->Reply_0.error is None,
        dispatch_spec(s, r)->Reply_0.result is Some,
        dispatch_spec(s, r)->Reply_0.result.unwrap().get("tools"@) is Some,
        dispatch_spec(s, r)->Reply_0.result.unwrap().get("tools"@).unwrap() is Array,
        dispatch_spec(s, r)->Reply_0.result.unwrap().get("tools"@).unwrap()->Array_0.len()
            == s.tools.len(),
        forall|i: int|
            0 <= i < s.tools.len() ==> lists_tool(
                #[trigger] dispatch_spec(s, r)->Reply_0.result.unwrap().get(
                    "tools"@,
                ).unwrap()->Array_0[i],
                s.tools[i],
            ),
{
    reveal_strlit("tools/list");
    reveal_strlit("initialize");
    reveal_strlit("notifications/initialized");
    reveal_strlit("ping");
    reveal_strlit("name");
    reveal_strlit("description");
    reveal_strlit("inputSchema");
    reveal_with_fuel(crate::json::lookup, 4);
    let a = s.tools.map_values(|t: ToolSpecView| tool_entry(t));
    let res = tools_list_result(s.tools);
    assert("tools/list"@[0] != "initialize"@[0]);
    assert("tools/list"@.len() != "notifications/initialized"@.len());
    assert("tools/list"@.len() != "ping"@.len());
    assert("name"@.len() != "description"@.len());
    assert("name"@.len() != "inputSchema"@.len());
    assert("description"@[0] != "inputSchema"@[0]);
    assert(dispatch_spec(s, r) == ActionView::Reply(success_view(r.id, res)));
    assert(res.get("tools"@) == Some(JsonData::Array(a)));
    assert forall|i: int| 0 <= i < s.tools.len() implies lists_tool(#[trigger] a[i], s.tools[i]) by {
        let tool = s.tools[i];
        let m = seq![
            ("name"@, JsonData::Str(tool.name)),
            ("description"@, JsonData::Str(tool.description)),
            ("inputSchema"@, tool.input_schema),
        ];
        assert(a[i] == JsonData::Object(m));
        assert(m.drop_first() =~= seq![
            ("description"@, JsonData::Str(tool.description)),
            ("inputSchema"@, tool.input_schema),
        ]);
        assert(m.drop_first().drop_first() =~= seq![("inputSchema"@, tool.input_schema)]);
        assert(a[i].get("name"@) == Some(JsonData::Str(tool.name)));
        assert(a[i].get("description"@) == Some(JsonData::Str(tool.description)));
        assert(a[i].get("inputSchema"@) == Some(tool.input_schema));
    }
}

/// Once a tool is registered, `tools/list` shows it with the input schema
/// it was registered with.
pub proof fn law_registered_tool_is_listed(s: ServerView, t: ToolSpecView, r: RequestView)
    requires
        r.method == "tools/list"@,
    ensures
        exists|i: int|
            0 <= i < register_spec(s.tools, t).len() && lists_tool(
                #[trigger] dispatch_spec(
                    ServerView { tools: register_spec(s.tools, t), ..s },
                    r,
                )->Reply_0.result.unwrap().get("tools"@).unwrap()->Array_0[i],
                t,
            ),
{
    let s2 = ServerView { tools: register_spec(s.tools, t), ..s };
    law_tools_list_shows_tools(s2, r);
    let i = if has_tool(s.tools, t.name) {
        choose|i: int| 0 <= i < s.tools.len() && s.tools[i].name == t.name
    } else {
        s.tools.len() as int
    };
    assert(s2.tools[i] == t);
    assert(lists_tool(
        dispatch_spec(s2, r)->Reply_0.result.unwrap().get("tools"@).unwrap()->Array_0[i],
        s2.tools[i],
    ));
}

} // verus!
