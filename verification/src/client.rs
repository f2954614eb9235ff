//! The client side of the MCP protocol: what the client sends for each
//! operation and how it reads the server's results. The requests travel
//! over a transport that the caller owns.

use crate::json::{items_data, members_data, opt_data, JsonData, JsonValue};
use crate::registry::remote::{array_items, lemma_filter_map_total, str_or};
use crate::text::{push_str, to_string};
use crate::jsonrpc::{JsonRpcResponse, ResponseView};
use crate::json::push_member;
use crate::types::{
    ClientCapabilities, ElicitationAction, ElicitationResponse, McpMessageContent, McpResource,
    McpResourceContent, McpToolResult, SamplingResponse, ServerCapabilities,
};
use vstd::prelude::*;

verus! {

/// Information about a connected MCP server.
#[derive(Debug, Clone)]
pub struct McpServerInfo {
    pub name: String,
    pub version: String,
    pub protocol_version: String,
    pub capabilities: ServerCapabilities,
}

/// Raw tool info from the MCP server (before it becomes a descriptor).
#[derive(Debug, Clone)]
pub struct McpToolInfo {
    pub name: String,
    pub description: String,
    pub input_schema: JsonValue,
    pub output_schema: Option<JsonValue>,
}

pub struct ServerInfoView {
    pub name: Seq<char>,
    pub version: Seq<char>,
    pub protocol_version: Seq<char>,
    pub capabilities: ServerCapabilities,
}

pub struct ToolInfoView {
    pub name: Seq<char>,
    pub description: Seq<char>,
    pub input_schema: JsonData,
    pub output_schema: Option<JsonData>,
}

impl View for McpServerInfo {
    type V = ServerInfoView;

    open spec fn view(&self) -> ServerInfoView {
        ServerInfoView {
            name: self.name@,
            version: self.version@,
            protocol_version: self.protocol_version@,
            capabilities: self.capabilities,
        }
    }
}

impl View for McpToolInfo {
    type V = ToolInfoView;

    open spec fn view(&self) -> ToolInfoView {
        ToolInfoView {
            name: self.name@,
            description: self.description@,
            input_schema: self.input_schema@,
            output_schema: opt_data(self.output_schema),
        }
    }
}

/// The content of a list of tool infos.
pub open spec fn tools_view(v: Seq<McpToolInfo>) -> Seq<ToolInfoView> {
    Seq::new(v.len(), |i: int| v[i]@)
}

/// The protocol version the client asks for.
pub open spec fn protocol_version() -> Seq<char> {
    "2024-11-05"@
}

/// An empty JSON object.
pub open spec fn empty_object() -> JsonData {
    JsonData::Object(Seq::empty())
}

/// The capabilities the client announces: always tools, and sampling, roots
/// (with list changes) and elicitation as declared.
pub open spec fn capabilities_object(caps: ClientCapabilities) -> JsonData {
    JsonData::Object(
        seq![("tools"@, empty_object())] + (if caps.sampling {
            seq![("sampling"@, empty_object())]
        } else {
            Seq::empty()
        }) + (if caps.roots {
            seq![("roots"@, JsonData::Object(seq![("listChanged"@, JsonData::Bool(true))]))]
        } else {
            Seq::empty()
        }) + (if caps.elicitation {
            seq![("elicitation"@, empty_object())]
        } else {
            Seq::empty()
        }),
    )
}

/// The `initialize` parameters.
pub open spec fn initialize_params_spec(
    caps: ClientCapabilities,
    client_name: Seq<char>,
    client_version: Seq<char>,
) -> JsonData {
    JsonData::Object(
        seq![
            ("protocolVersion"@, JsonData::Str(protocol_version())),
            ("capabilities"@, capabilities_object(caps)),
            (
                "clientInfo"@,
                JsonData::Object(
                    seq![("name"@, JsonData::Str(client_name)), ("version"@, JsonData::Str(client_version))],
                ),
            ),
        ],
    )
}

fn member(key: &str, v: JsonValue) -> (r: (String, JsonValue))
    ensures
        r.0@ == key@,
        r.1@ == v@,
{
    (to_string(key), v)
}

fn empty_obj() -> (r: JsonValue)
    ensures
        r@ == empty_object(),
{
    let v: Vec<(String, JsonValue)> = Vec::new();
    let r = JsonValue::object(v);
    assert(members_data(v@) =~= Seq::empty());
    r
}

/// The parameters of the `initialize` request.
pub fn initialize_params(caps: ClientCapabilities, client_name: &str, client_version: &str) -> (r:
    JsonValue)
    ensures
        r@ == initialize_params_spec(caps, client_name@, client_version@),
{
    let mut cm: Vec<(String, JsonValue)> = Vec::new();
    cm.push(member("tools", empty_obj()));
    if caps.sampling {
        cm.push(member("sampling", empty_obj()));
    }
    if caps.roots {
        let mut lc: Vec<(String, JsonValue)> = Vec::new();
        lc.push(member("listChanged", JsonValue::Bool(true)));
        let lcv = JsonValue::object(lc);
        assert(members_data(lc@) =~= seq![("listChanged"@, JsonData::Bool(true))]);
        cm.push(member("roots", lcv));
    }
    if caps.elicitation {
        cm.push(member("elicitation", empty_obj()));
    }
    let capv = JsonValue::object(cm);
    assert(members_data(cm@) =~= capabilities_object(caps)->Object_0);
    let mut info: Vec<(String, JsonValue)> = Vec::new();
    info.push(member("name", JsonValue::from_str(client_name)));
    info.push(member("version", JsonValue::from_str(client_version)));
    let infov = JsonValue::object(info);
    assert(members_data(info@) =~= seq![
        ("name"@, JsonData::Str(client_name@)),
        ("version"@, JsonData::Str(client_version@)),
    ]);
    let mut top: Vec<(String, JsonValue)> = Vec::new();
    top.push(member("protocolVersion", JsonValue::from_str("2024-11-05")));
    top.push(member("capabilities", capv));
    top.push(member("clientInfo", infov));
    let r = JsonValue::object(top);
    assert(members_data(top@) =~= initialize_params_spec(caps, client_name@, client_version@)->Object_0);
    r
}

/// A member that is present (of any value, `null` too).
pub open spec fn has(d: Option<JsonData>, key: Seq<char>) -> bool {
    match d {
        Some(x) => x.get(key) is Some,
        None => false,
    }
}

/// What the server's `initialize` result says of it: capabilities by the
/// presence of their members, `subscribe` of resources if it is `true`, and
/// `unknown`, `0.0.0`, `unknown` where name, version or protocol version are
/// not strings.
pub open spec fn server_info_from(result: JsonData) -> ServerInfoView {
    let caps = result.get("capabilities"@);
    let info = result.get("serverInfo"@);
    ServerInfoView {
        name: str_or(
            match info {
                Some(i) => i.get_str("name"@),
                None => None,
            },
            "unknown"@,
        ),
        version: str_or(
            match info {
                Some(i) => i.get_str("version"@),
                None => None,
            },
            "0.0.0"@,
        ),
        protocol_version: str_or(result.get_str("protocolVersion"@), "unknown"@),
        capabilities: ServerCapabilities {
            tools: has(caps, "tools"@),
            resources: has(caps, "resources"@),
            resource_subscribe: match caps {
                Some(c) => match c.get("resources"@) {
                    Some(r) => r.get("subscribe"@) == Some(JsonData::Bool(true)),
                    None => false,
                },
                None => false,
            },
            prompts: has(caps, "prompts"@),
            logging: has(caps, "logging"@),
        },
    }
}

fn str_or_default(v: Option<&String>, default: &str) -> (r: String)
    ensures
        r@ == str_or(
            match v {
                Some(x) => Some(x@),
                None => None,
            },
            default@,
        ),
{
    match v {
        Some(x) => x.clone(),
        None => to_string(default),
    }
}

fn has_member(d: Option<&JsonValue>, key: &str) -> (r: bool)
    ensures
        r == has(
            match d {
                Some(x) => Some(x@),
                None => None,
            },
            key@,
        ),
{
    match d {
        Some(x) => x.get(key).is_some(),
        None => false,
    }
}

/// Reads the result of `initialize`.
pub fn parse_initialize_result(result: &JsonValue) -> (r: McpServerInfo)
    ensures
        r@ == server_info_from(result@),
{
    let caps = result.get("capabilities");
    let info = result.get("serverInfo");
    let subscribe = match caps {
        Some(c) => match c.get("resources") {
            Some(res) => match res.get("subscribe") {
                Some(JsonValue::Bool(b)) => *b,
                _ => false,
            },
            None => false,
        },
        None => false,
    };
    let name = match info {
        Some(i) => str_or_default(i.get_str("name"), "unknown"),
        None => to_string("unknown"),
    };
    let version = match info {
        Some(i) => str_or_default(i.get_str("version"), "0.0.0"),
        None => to_string("0.0.0"),
    };
    McpServerInfo {
        name,
        version,
        protocol_version: str_or_default(result.get_str("protocolVersion"), "unknown"),
        capabilities: ServerCapabilities {
            tools: has_member(caps, "tools"),
            resources: has_member(caps, "resources"),
            resource_subscribe: subscribe,
            prompts: has_member(caps, "prompts"),
            logging: has_member(caps, "logging"),
        },
    }
}

/// The items of the array member `key` of a result (nothing when it is
/// missing or not an array).
pub open spec fn result_items(result: JsonData, key: Seq<char>) -> Seq<JsonData> {
    array_items(result.get(key))
}

/// A borrowed view of the items of the array member `key`.
fn items_of<'a>(result: &'a JsonValue, key: &str) -> (r: Option<&'a Vec<JsonValue>>)
    ensures
        match r {
            Some(a) => items_data(a@) == result_items(result@, key@),
            None => result_items(result@, key@) == Seq::<JsonData>::empty(),
        },
{
    match result.get(key) {
        Some(JsonValue::Array(a)) => {
            assert(result@.get(key@).unwrap().as_array() == Some(items_data(a@)));
            Some(a)
        },
        _ => None,
    }
}

/// One tool of a `tools/list` result; `None` for a tool without a string
/// `name`. The description defaults to empty and the input schema to
/// `{"type": "object"}`.
pub open spec fn tool_info_from(t: JsonData) -> Option<ToolInfoView> {
    match t.get_str("name"@) {
        None => None,
        Some(name) => Some(
            ToolInfoView {
                name,
                description: str_or(t.get_str("description"@), ""@),
                input_schema: match t.get("inputSchema"@) {
                    Some(x) => x,
                    None => JsonData::Object(seq![("type"@, JsonData::Str("object"@))]),
                },
                output_schema: t.get("outputSchema"@),
            },
        ),
    }
}

/// The tools of a `tools/list` result.
pub open spec fn tools_from(result: JsonData) -> Seq<ToolInfoView> {
    result_items(result, "tools"@).filter_map(|t: JsonData| tool_info_from(t))
}

fn opt_clone(v: Option<&JsonValue>) -> (r: Option<JsonValue>)
    ensures
        opt_data(r) == match v {
            Some(x) => Some(x@),
            None => None,
        },
{
    match v {
        Some(x) => Some(x.clone_value()),
        None => None,
    }
}

fn opt_string(v: Option<&String>) -> (r: Option<String>)
    ensures
        r.is_some() == v.is_some(),
        r is Some ==> r.unwrap()@ == v.unwrap()@,
{
    match v {
        Some(x) => Some(x.clone()),
        None => None,
    }
}

fn tool_info_from_value(t: &JsonValue) -> (r: Option<McpToolInfo>)
    ensures
        match r {
            Some(x) => tool_info_from(t@) == Some(x@),
            None => tool_info_from(t@) is None,
        },
{
    let name = match t.get_str("name") {
        Some(n) => n.clone(),
        None => {
            return None;
        },
    };
    let input_schema = match t.get("inputSchema") {
        Some(x) => x.clone_value(),
        None => {
            let mut m: Vec<(String, JsonValue)> = Vec::new();
            m.push((to_string("type"), JsonValue::from_str("object")));
            let v = JsonValue::object(m);
            assert(members_data(m@) =~= seq![("type"@, JsonData::Str("object"@))]);
            v
        },
    };
    Some(
        McpToolInfo {
            name,
            description: str_or_default(t.get_str("description"), ""),
            input_schema,
            output_schema: opt_clone(t.get("outputSchema")),
        },
    )
}

/// Reads the tools of a `tools/list` result.
pub fn parse_tools_list(result: &JsonValue) -> (r: Vec<McpToolInfo>)
    ensures
        tools_view(r@) == tools_from(result@),
{
    let mut out: Vec<McpToolInfo> = Vec::new();
    let ghost f = |t: JsonData| tool_info_from(t);
    match items_of(result, "tools") {
        None => {
            assert(tools_view(out@) =~= Seq::<ToolInfoView>::empty());
            out
        },
        Some(a) => {
            let ghost d = items_data(a@);
            assert(d.take(0) =~= Seq::<JsonData>::empty());
            assert(tools_view(out@) =~= Seq::<ToolInfoView>::empty());
            let mut i: usize = 0;
            while i < a.len()
                invariant
                    0 <= i <= a.len(),
                    d == items_data(a@),
                    f == (|t: JsonData| tool_info_from(t)),
                    tools_view(out@) == d.take(i as int).filter_map(f),
                decreases a.len() - i,
            {
                proof {
                    d.lemma_filter_map_take_succ(f, i as int);
                }
                let ghost before = out@;
                match tool_info_from_value(&a[i]) {
                    Some(x) => {
                        out.push(x);
                        assert(tools_view(out@) =~= tools_view(before) + seq![out@.last()@]);
                    },
                    None => {},
                }
                i = i + 1;
            }
            assert(d.take(a.len() as int) =~= d);
            out
        },
    }
}

/// The parameters of a `tools/call` request.
pub fn call_tool_params(name: &str, arguments: JsonValue) -> (r: JsonValue)
    ensures
        r@ == JsonData::Object(seq![("name"@, JsonData::Str(name@)), ("arguments"@, arguments@)]),
{
    let mut m: Vec<(String, JsonValue)> = Vec::new();
    m.push(member("name", JsonValue::from_str(name)));
    let ghost a = arguments@;
    m.push(member("arguments", arguments));
    let r = JsonValue::object(m);
    assert(members_data(m@) =~= seq![("name"@, JsonData::Str(name@)), ("arguments"@, a)]);
    r
}

/// Texts joined with a separator between them.
pub open spec fn join(parts: Seq<Seq<char>>, sep: Seq<char>) -> Seq<char>
    decreases parts.len(),
{
    if parts.len() == 0 {
        Seq::empty()
    } else if parts.len() == 1 {
        parts[0]
    } else {
        join(parts.drop_last(), sep) + sep + parts.last()
    }
}

/// The text of a content item: its `text` when its `type` is `text`.
pub open spec fn text_of_item(item: JsonData) -> Option<Seq<char>> {
    if item.get_str("type"@) == Some("text"@) {
        item.get_str("text"@)
    } else {
        None
    }
}

/// The result of a tool call: the texts of its text content items joined by
/// line breaks, `isError` if it is a boolean (else false), and the
/// `structuredContent` member as it stands.
pub open spec fn tool_result_from(result: JsonData) -> (Seq<char>, bool, Option<JsonData>) {
    (
        join(result_items(result, "content"@).filter_map(|i: JsonData| text_of_item(i)), "\n"@),
        match result.get("isError"@) {
            Some(JsonData::Bool(b)) => b,
            _ => false,
        },
        result.get("structuredContent"@),
    )
}

/// Reads the result of `tools/call`.
pub fn parse_tool_call_result(result: &JsonValue) -> (r: McpToolResult)
    ensures
        (r.content@, r.is_error, opt_data(r.structured)) == tool_result_from(result@),
{
    let is_error = match result.get("isError") {
        Some(JsonValue::Bool(b)) => *b,
        _ => false,
    };
    let structured = opt_clone(result.get("structuredContent"));
    let mut content = String::new();
    let ghost f = |i: JsonData| text_of_item(i);
    match items_of(result, "content") {
        None => {
            assert(Seq::<JsonData>::empty().filter_map(f) =~= Seq::<Seq<char>>::empty());
        },
        Some(a) => {
            let ghost d = items_data(a@);
            assert(d.take(0) =~= Seq::<JsonData>::empty());
            let mut i: usize = 0;
            let mut count: usize = 0;
            while i < a.len()
                invariant
                    0 <= i <= a.len(),
                    d == items_data(a@),
                    f == (|i: JsonData| text_of_item(i)),
                    count == d.take(i as int).filter_map(f).len(),
                    count <= i,
                    content@ == join(d.take(i as int).filter_map(f), "\n"@),
                decreases a.len() - i,
            {
                proof {
                    d.lemma_filter_map_take_succ(f, i as int);
                }
                let item = &a[i];
                let is_text = match item.get_str("type") {
                    Some(t) => crate::text::str_eq(t.as_str(), "text"),
                    None => false,
                };
                if is_text {
                    match item.get_str("text") {
                        Some(t) => {
                            let ghost parts = d.take(i as int).filter_map(f);
                            if count > 0 {
                                push_str(&mut content, "\n");
                            }
                            push_str(&mut content, t.as_str());
                            proof {
                                let np = parts + seq![t@];
                                assert(np.drop_last() =~= parts);
                                if count == 0 {
                                    assert(parts =~= Seq::<Seq<char>>::empty());
                                }
                            }
                            count = count + 1;
                        },
                        None => {},
                    }
                }
                i = i + 1;
            }
            assert(d.take(a.len() as int) =~= d);
        },
    }
    McpToolResult { content, is_error, structured }
}

// ── resources ──────────────────────────────────────────────────────

pub struct ResourceView {
    pub uri: Seq<char>,
    pub name: Seq<char>,
    pub title: Option<Seq<char>>,
    pub description: Option<Seq<char>>,
    pub mime_type: Option<Seq<char>>,
}

pub struct ResourceContentView {
    pub uri: Seq<char>,
    pub mime_type: Option<Seq<char>>,
    pub text: Option<Seq<char>>,
    pub blob: Option<Seq<char>>,
}

pub open spec fn opt_view(v: Option<String>) -> Option<Seq<char>> {
    match v {
        Some(s) => Some(s@),
        None => None,
    }
}

pub open spec fn resource_view(r: McpResource) -> ResourceView {
    ResourceView {
        uri: r.uri@,
        name: r.name@,
        title: opt_view(r.title),
        description: opt_view(r.description),
        mime_type: opt_view(r.mime_type),
    }
}

pub open spec fn content_view(c: McpResourceContent) -> ResourceContentView {
    ResourceContentView {
        uri: c.uri@,
        mime_type: opt_view(c.mime_type),
        text: opt_view(c.text),
        blob: opt_view(c.blob),
    }
}

/// One resource of a `resources/list` result; `None` without string `uri`
/// and `name`.
pub open spec fn resource_from(r: JsonData) -> Option<ResourceView> {
    match (r.get_str("uri"@), r.get_str("name"@)) {
        (Some(uri), Some(name)) => Some(
            ResourceView {
                uri,
                name,
                title: r.get_str("title"@),
                description: r.get_str("description"@),
                mime_type: r.get_str("mimeType"@),
            },
        ),
        _ => None,
    }
}

/// The resources of a `resources/list` result.
pub open spec fn resources_from(result: JsonData) -> Seq<ResourceView> {
    result_items(result, "resources"@).filter_map(|r: JsonData| resource_from(r))
}

fn resource_from_value(v: &JsonValue) -> (r: Option<McpResource>)
    ensures
        match r {
            Some(x) => resource_from(v@) == Some(resource_view(x)),
            None => resource_from(v@) is None,
        },
{
    match (v.get_str("uri"), v.get_str("name")) {
        (Some(uri), Some(name)) => Some(
            McpResource {
                uri: uri.clone(),
                name: name.clone(),
                title: opt_string(v.get_str("title")),
                description: opt_string(v.get_str("description")),
                mime_type: opt_string(v.get_str("mimeType")),
            },
        ),
        _ => None,
    }
}

/// Reads the resources of a `resources/list` result.
pub fn parse_resources_list(result: &JsonValue) -> (r: Vec<McpResource>)
    ensures
        r@.map_values(|x: McpResource| resource_view(x)) == resources_from(result@),
{
    let mut out: Vec<McpResource> = Vec::new();
    let ghost f = |r: JsonData| resource_from(r);
    let ghost g = |x: McpResource| resource_view(x);
    match items_of(result, "resources") {
        None => {
            assert(out@.map_values(g) =~= Seq::<ResourceView>::empty());
            out
        },
        Some(a) => {
            let ghost d = items_data(a@);
            assert(d.take(0) =~= Seq::<JsonData>::empty());
            assert(out@.map_values(g) =~= Seq::<ResourceView>::empty());
            let mut i: usize = 0;
            while i < a.len()
                invariant
                    0 <= i <= a.len(),
                    d == items_data(a@),
                    f == (|r: JsonData| resource_from(r)),
                    g == (|x: McpResource| resource_view(x)),
                    out@.map_values(g) == d.take(i as int).filter_map(f),
                decreases a.len() - i,
            {
                proof {
                    d.lemma_filter_map_take_succ(f, i as int);
                }
                let ghost before = out@;
                match resource_from_value(&a[i]) {
                    Some(x) => {
                        out.push(x);
                        assert(out@.map_values(g) =~= before.map_values(g) + seq![g(out@.last())]);
                    },
                    None => {},
                }
                i = i + 1;
            }
            assert(d.take(a.len() as int) =~= d);
            out
        },
    }
}

/// The parameters of a `resources/read` request.
pub fn read_resource_params(uri: &str) -> (r: JsonValue)
    ensures
        r@ == JsonData::Object(seq![("uri"@, JsonData::Str(uri@))]),
{
    let mut m: Vec<(String, JsonValue)> = Vec::new();
    m.push(member("uri", JsonValue::from_str(uri)));
    let r = JsonValue::object(m);
    assert(members_data(m@) =~= seq![("uri"@, JsonData::Str(uri@))]);
    r
}

/// One content item of a `resources/read` result; its `uri` defaults to
/// the one that was read.
pub open spec fn content_from(c: JsonData, uri: Seq<char>) -> ResourceContentView {
    ResourceContentView {
        uri: str_or(c.get_str("uri"@), uri),
        mime_type: c.get_str("mimeType"@),
        text: c.get_str("text"@),
        blob: c.get_str("blob"@),
    }
}

/// The contents of a `resources/read` result.
pub open spec fn contents_from(result: JsonData, uri: Seq<char>) -> Seq<ResourceContentView> {
    result_items(result, "contents"@).map_values(|c: JsonData| content_from(c, uri))
}

/// Reads the result of `resources/read` for the given URI.
pub fn parse_resource_contents(result: &JsonValue, uri: &str) -> (r: Vec<McpResourceContent>)
    ensures
        r@.map_values(|x: McpResourceContent| content_view(x)) == contents_from(result@, uri@),
{
    let mut out: Vec<McpResourceContent> = Vec::new();
    match items_of(result, "contents") {
        None => {
            assert(out@.map_values(|x: McpResourceContent| content_view(x)) =~= contents_from(
                result@,
                uri@,
            ));
            out
        },
        Some(a) => {
            let ghost d = items_data(a@);
            let mut i: usize = 0;
            while i < a.len()
                invariant
                    0 <= i <= a.len(),
                    d == items_data(a@),
                    out@.len() == i,
                    forall|j: int| 0 <= j < i ==> #[trigger] content_view(out@[j]) == content_from(
                        d[j],
                        uri@,
                    ),
                decreases a.len() - i,
            {
                let c = &a[i];
                out.push(
                    McpResourceContent {
                        uri: str_or_default(c.get_str("uri"), uri),
                        mime_type: opt_string(c.get_str("mimeType")),
                        text: opt_string(c.get_str("text")),
                        blob: opt_string(c.get_str("blob")),
                    },
                );
                i = i + 1;
            }
            assert(out@.map_values(|x: McpResourceContent| content_view(x)) =~= contents_from(
                result@,
                uri@,
            ));
            out
        },
    }
}

// ── prompts ────────────────────────────────────────────────────────

/// The parameters of a `prompts/get` request: the name, and the arguments
/// when there are any.
pub fn get_prompt_params(name: &str, arguments: Option<JsonValue>) -> (r: JsonValue)
    ensures
        r@ == JsonData::Object(
            seq![("name"@, JsonData::Str(name@))] + match arguments {
                Some(a) => seq![("arguments"@, a@)],
                None => Seq::empty(),
            },
        ),
{
    let mut m: Vec<(String, JsonValue)> = Vec::new();
    m.push(member("name", JsonValue::from_str(name)));
    let ghost extra = match &arguments {
        Some(a) => seq![("arguments"@, a@)],
        None => Seq::<(Seq<char>, JsonData)>::empty(),
    };
    match arguments {
        Some(a) => m.push(member("arguments", a)),
        None => {},
    }
    let r = JsonValue::object(m);
    assert(members_data(m@) =~= seq![("name"@, JsonData::Str(name@))] + extra);
    r
}

/// The items of the array member `key` of a result, such as the `prompts`
/// of `prompts/list` or the `messages` of `prompts/get`, for the caller to
/// read each one as a prompt or a message.
pub fn result_array_items(result: &JsonValue, key: &str) -> (r: Vec<JsonValue>)
    ensures
        items_data(r@) == result_items(result@, key@),
{
    let mut out: Vec<JsonValue> = Vec::new();
    match items_of(result, key) {
        None => {
            assert(items_data(out@) =~= Seq::<JsonData>::empty());
            out
        },
        Some(a) => {
            let mut i: usize = 0;
            while i < a.len()
                invariant
                    0 <= i <= a.len(),
                    out@.len() == i,
                    forall|j: int| 0 <= j < i ==> #[trigger] out@[j]@ == a@[j]@,
                decreases a.len() - i,
            {
                out.push(a[i].clone_value());
                i = i + 1;
            }
            assert(items_data(out@) =~= items_data(a@));
            out
        },
    }
}

// ── request ids ────────────────────────────────────────────────────

/// The ids of a client's requests: 1, 2, 3, ... in the order they are
/// taken, wrapping around after `u64::MAX`.
#[derive(Debug)]
pub struct RequestIds {
    next: u64,
}

impl RequestIds {
    /// The id the next request gets.
    pub closed spec fn next_spec(&self) -> u64 {
        self.next
    }

    /// Ids starting at 1.
    pub fn new() -> (r: Self)
        ensures
            r.next_spec() == 1,
    {
        RequestIds { next: 1 }
    }

    /// Takes the next id.
    pub fn next_id(&mut self) -> (r: u64)
        ensures
            r == old(self).next_spec(),
            final(self).next_spec() == id_step(old(self).next_spec()),
    {
        let r = self.next;
        self.next = self.next.wrapping_add(1);
        r
    }
}

/// The id after `n`, wrapping around after `u64::MAX`.
pub open spec fn id_step(n: u64) -> u64 {
    if n == u64::MAX {
        0
    } else {
        (n + 1) as u64
    }
}

/// The id held after `k` ids were taken from fresh `RequestIds`.
pub open spec fn id_after(k: nat) -> u64
    decreases k,
{
    if k == 0 {
        1
    } else {
        id_step(id_after((k - 1) as nat))
    }
}

/// The ids count up from 1: the `k`-th id a client takes is `k` (as long as
/// `u64::MAX` is not passed), so no two of its requests share an id.
pub proof fn law_request_ids_count_up(k: nat)
    requires
        k < u64::MAX,
    ensures
        id_after(k) == k + 1,
    decreases k,
{
    if k > 0 {
        law_request_ids_count_up((k - 1) as nat);
    }
}

// ── replies to server-initiated requests ───────────────────────────

/// A member written only where the value is set.
pub open spec fn opt_str_member(key: Seq<char>, v: Option<String>) -> Seq<(Seq<char>, JsonData)> {
    match v {
        Some(s) => seq![(key, JsonData::Str(s@))],
        None => Seq::empty(),
    }
}

/// A resource content as JSON: `uri`, and `mime_type`, `text`, `blob`
/// where set.
pub open spec fn resource_content_json(c: McpResourceContent) -> JsonData {
    JsonData::Object(
        seq![("uri"@, JsonData::Str(c.uri@))] + opt_str_member("mime_type"@, c.mime_type)
            + opt_str_member("text"@, c.text) + opt_str_member("blob"@, c.blob),
    )
}

/// A message content as JSON, tagged by its `type`.
pub open spec fn message_content_json(c: McpMessageContent) -> JsonData {
    match c {
        McpMessageContent::Text { text } => JsonData::Object(
            seq![("type"@, JsonData::Str("text"@)), ("text"@, JsonData::Str(text@))],
        ),
        McpMessageContent::Image { data, mime_type } => JsonData::Object(
            seq![
                ("type"@, JsonData::Str("image"@)),
                ("data"@, JsonData::Str(data@)),
                ("mime_type"@, JsonData::Str(mime_type@)),
            ],
        ),
        McpMessageContent::Resource { resource } => JsonData::Object(
            seq![("type"@, JsonData::Str("resource"@)), ("resource"@, resource_content_json(resource))],
        ),
    }
}

/// A sampling response as JSON: `role`, `content`, `model`, and
/// `stop_reason` where set.
pub open spec fn sampling_response_json(r: SamplingResponse) -> JsonData {
    JsonData::Object(
        seq![
            ("role"@, JsonData::Str(r.role@)),
            ("content"@, message_content_json(r.content)),
            ("model"@, JsonData::Str(r.model@)),
        ] + opt_str_member("stop_reason"@, r.stop_reason),
    )
}

/// The name of a user's action, in lower case.
pub open spec fn action_name(a: ElicitationAction) -> Seq<char> {
    match a {
        ElicitationAction::Accept => "accept"@,
        ElicitationAction::Decline => "decline"@,
        ElicitationAction::Cancel => "cancel"@,
    }
}

/// An elicitation response as JSON: `action`, and `content` where set.
pub open spec fn elicitation_response_json(r: ElicitationResponse) -> JsonData {
    JsonData::Object(
        seq![("action"@, JsonData::Str(action_name(r.action)))] + match r.content {
            Some(c) => seq![("content"@, c@)],
            None => Seq::empty(),
        },
    )
}

fn push_opt_str(m: &mut Vec<(String, JsonValue)>, key: &str, v: &Option<String>)
    ensures
        members_data(final(m)@) == members_data(old(m)@) + opt_str_member(key@, *v),
{
    match v {
        Some(s) => push_member(m, key, JsonValue::from_str(s.as_str())),
        None => {},
    }
    assert(members_data(m@) =~= members_data(old(m)@) + opt_str_member(key@, *v));
}

fn resource_content_value(c: &McpResourceContent) -> (r: JsonValue)
    ensures
        r@ == resource_content_json(*c),
{
    let mut m: Vec<(String, JsonValue)> = Vec::new();
    push_member(&mut m, "uri", JsonValue::from_str(c.uri.as_str()));
    push_opt_str(&mut m, "mime_type", &c.mime_type);
    push_opt_str(&mut m, "text", &c.text);
    push_opt_str(&mut m, "blob", &c.blob);
    assert(members_data(m@) =~= resource_content_json(*c)->Object_0);
    JsonValue::object(m)
}

/// A message content as JSON.
pub fn message_content_value(c: &McpMessageContent) -> (r: JsonValue)
    ensures
        r@ == message_content_json(*c),
{
    let mut m: Vec<(String, JsonValue)> = Vec::new();
    match c {
        McpMessageContent::Text { text } => {
            push_member(&mut m, "type", JsonValue::from_str("text"));
            push_member(&mut m, "text", JsonValue::from_str(text.as_str()));
        },
        McpMessageContent::Image { data, mime_type } => {
            push_member(&mut m, "type", JsonValue::from_str("image"));
            push_member(&mut m, "data", JsonValue::from_str(data.as_str()));
            push_member(&mut m, "mime_type", JsonValue::from_str(mime_type.as_str()));
        },
        McpMessageContent::Resource { resource } => {
            push_member(&mut m, "type", JsonValue::from_str("resource"));
            push_member(&mut m, "resource", resource_content_value(resource));
        },
    }
    assert(members_data(m@) =~= message_content_json(*c)->Object_0);
    JsonValue::object(m)
}

/// The reply to a server's sampling request: a success carrying the
/// sampling response.
pub fn sampling_reply(request_id: JsonValue, response: &SamplingResponse) -> (r: JsonRpcResponse)
    ensures
        r@ == (ResponseView {
            jsonrpc: "2.0"@,
            id: request_id@,
            result: Some(sampling_response_json(*response)),
            error: None,
        }),
{
    let mut m: Vec<(String, JsonValue)> = Vec::new();
    push_member(&mut m, "role", JsonValue::from_str(response.role.as_str()));
    push_member(&mut m, "content", message_content_value(&response.content));
    push_member(&mut m, "model", JsonValue::from_str(response.model.as_str()));
    push_opt_str(&mut m, "stop_reason", &response.stop_reason);
    assert(members_data(m@) =~= sampling_response_json(*response)->Object_0);
    JsonRpcResponse::success(request_id, JsonValue::object(m))
}

/// The reply to a server's elicitation request: a success carrying the
/// user's answer.
pub fn elicitation_reply(request_id: JsonValue, response: &ElicitationResponse) -> (r:
    JsonRpcResponse)
    ensures
        r@ == (ResponseView {
            jsonrpc: "2.0"@,
            id: request_id@,
            result: Some(elicitation_response_json(*response)),
            error: None,
        }),
{
    let action = match response.action {
        ElicitationAction::Accept => "accept",
        ElicitationAction::Decline => "decline",
        ElicitationAction::Cancel => "cancel",
    };
    let mut m: Vec<(String, JsonValue)> = Vec::new();
    push_member(&mut m, "action", JsonValue::from_str(action));
    match &response.content {
        Some(c) => push_member(&mut m, "content", c.clone_value()),
        None => {},
    }
    assert(members_data(m@) =~= elicitation_response_json(*response)->Object_0);
    JsonRpcResponse::success(request_id, JsonValue::object(m))
}


// ── laws of reading a server's answers ─────────────────────────────

/// A capability is offered exactly when the `capabilities` member of the
/// `initialize` result has a member of its name; the server's name,
/// version and protocol version are read where they are strings.
pub proof fn law_initialize_reads_server(result: JsonData)
    ensures
        server_info_from(result).capabilities.tools == (result.get("capabilities"@) is Some
            && result.get("capabilities"@).unwrap().get("tools"@) is Some),
        server_info_from(result).capabilities.resources == (result.get("capabilities"@) is Some
            && result.get("capabilities"@).unwrap().get("resources"@) is Some),
        server_info_from(result).capabilities.prompts == (result.get("capabilities"@) is Some
            && result.get("capabilities"@).unwrap().get("prompts"@) is Some),
        server_info_from(result).capabilities.logging == (result.get("capabilities"@) is Some
            && result.get("capabilities"@).unwrap().get("logging"@) is Some),
        server_info_from(result).capabilities.resource_subscribe ==> server_info_from(
            result,
        ).capabilities.resources,
        result.get_str("protocolVersion"@) is Some ==> server_info_from(result).protocol_version
            == result.get_str("protocolVersion"@).unwrap(),
        result.get("serverInfo"@) is Some && result.get("serverInfo"@).unwrap().get_str("name"@) is Some
            ==> server_info_from(result).name == result.get("serverInfo"@).unwrap().get_str(
            "name"@,
        ).unwrap(),
        result.get("serverInfo"@) is Some && result.get("serverInfo"@).unwrap().get_str("version"@) is Some
            ==> server_info_from(result).version == result.get("serverInfo"@).unwrap().get_str(
            "version"@,
        ).unwrap(),
{
}

/// Whether a read tool keeps what the server said of it: the name, the
/// description where it is a string (else empty), the input schema where
/// one is given (else `{"type": "object"}`), and the output schema.
pub open spec fn tool_read_faithfully(t: JsonData, x: ToolInfoView) -> bool {
    &&& Some(x.name) == t.get_str("name"@)
    &&& (t.get_str("description"@) is Some ==> x.description == t.get_str("description"@).unwrap())
    &&& (t.get_str("description"@) is None ==> x.description == ""@)
    &&& (t.get("inputSchema"@) is Some ==> x.input_schema == t.get("inputSchema"@).unwrap())
    &&& (t.get("inputSchema"@) is None ==> x.input_schema == JsonData::Object(
        seq![("type"@, JsonData::Str("object"@))],
    ))
    &&& x.output_schema == t.get("outputSchema"@)
}

/// Every tool of a `tools/list` result that has a string name is read, in
/// order, keeping what the server said of it (its input schema among it).
pub proof fn law_tools_read_in_order(result: JsonData)
    requires
        forall|i: int|
            0 <= i < result_items(result, "tools"@).len() ==> (#[trigger] result_items(
                result,
                "tools"@,
            )[i]).get_str("name"@) is Some,
    ensures
        tools_from(result).len() == result_items(result, "tools"@).len(),
        forall|i: int|
            0 <= i < tools_from(result).len() ==> tool_read_faithfully(
                result_items(result, "tools"@)[i],
                #[trigger] tools_from(result)[i],
            ),
{
    let d = result_items(result, "tools"@);
    let f = |t: JsonData| tool_info_from(t);
    assert forall|i: int| 0 <= i < d.len() implies (#[trigger] f(d[i])) is Some by {
        assert(d[i].get_str("name"@) is Some);
    }
    lemma_filter_map_total(d, f);
    assert forall|i: int| 0 <= i < tools_from(result).len() implies tool_read_faithfully(
        d[i],
        #[trigger] tools_from(result)[i],
    ) by {
        assert(Some(d.filter_map(f)[i]) == f(d[i]));
    }
}

/// A tool without a string name is left out; any other is read keeping
/// what the server said of it.
pub proof fn law_tool_read(t: JsonData)
    ensures
        tool_info_from(t) is None <==> t.get_str("name"@) is None,
        tool_info_from(t) is Some ==> tool_read_faithfully(t, tool_info_from(t).unwrap()),
{
}

} // verus!
