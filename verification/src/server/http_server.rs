//! The rules of the Streamable HTTP endpoint: how a posted message or batch
//! is sorted into requests to answer, notifications and client responses,
//! the session that an `initialize` starts and a `DELETE` ends, and the
//! fixed replies. Listening and answering HTTP is the caller's part.

use crate::json::{json_parse, members_data, parse_json, push_member, JsonData, JsonValue};
use crate::jsonrpc::{request_from, JsonRpcRequest, JsonRpcResponse, RequestView};
use crate::server::error_view;
use crate::text::{concat, str_eq, utf8_text};
use vstd::prelude::*;

verus! {

/// A message posted to the endpoint, by what is done with it.
#[derive(Debug)]
pub enum PostedMessage {
    /// No `method`: a response from the client, accepted with nothing to
    /// answer.
    ClientResponse,
    /// A request to answer.
    Request(JsonRpcRequest),
    /// An `id` and a `method` that do not make a request; its `id`.
    InvalidRequest(JsonValue),
    /// A notification: its method (empty where it is not a string) and its
    /// `params` member as posted.
    Notification(String, Option<JsonValue>),
}

pub enum PostedView {
    ClientResponse,
    Request(RequestView),
    InvalidRequest(JsonData),
    Notification(Seq<char>, Option<JsonData>),
}

impl View for PostedMessage {
    type V = PostedView;

    open spec fn view(&self) -> PostedView {
        match self {
            PostedMessage::ClientResponse => PostedView::ClientResponse,
            PostedMessage::Request(r) => PostedView::Request(r@),
            PostedMessage::InvalidRequest(id) => PostedView::InvalidRequest(id@),
            PostedMessage::Notification(m, p) => PostedView::Notification(
                m@,
                crate::json::opt_data(*p),
            ),
        }
    }
}

/// How a posted JSON message is sorted: without a `method` it is a client
/// response; with an `id` too it is a request, or an invalid one where its
/// members do not fit; else it is a notification.
pub open spec fn classify_posted_spec(d: JsonData) -> PostedView {
    if d.get("method"@) is None {
        PostedView::ClientResponse
    } else if d.get("id"@) is Some {
        match request_from(d) {
            Some(r) => PostedView::Request(r),
            None => PostedView::InvalidRequest(d.get("id"@)->Some_0),
        }
    } else {
        PostedView::Notification(
            match d.get_str("method"@) {
                Some(m) => m,
                None => Seq::empty(),
            },
            d.get("params"@),
        )
    }
}

/// Sorts a posted JSON message.
pub fn classify_posted(v: &JsonValue) -> (r: PostedMessage)
    ensures
        r@ == classify_posted_spec(v@),
{
    if v.get("method").is_none() {
        return PostedMessage::ClientResponse;
    }
    match v.get("id") {
        Some(id) => match crate::jsonrpc::request_from_value(v) {
            Some(q) => PostedMessage::Request(q),
            None => PostedMessage::InvalidRequest(id.clone_value()),
        },
        None => {
            let method = match v.get_str("method") {
                Some(m) => m.clone(),
                None => String::new(),
            };
            let params = match v.get("params") {
                Some(p) => Some(p.clone_value()),
                None => None,
            };
            PostedMessage::Notification(method, params)
        },
    }
}

/// Whether a sorted message asks for an answer.
pub open spec fn wants_answer(p: PostedView) -> bool {
    p is Request || p is InvalidRequest
}

/// Whether a sorted message is an `initialize` request.
pub open spec fn is_initialize(p: PostedView) -> bool {
    p matches PostedView::Request(q) && q.method == "initialize"@
}

/// How a batch is handled: its messages sorted in order, whether any asks
/// for an answer (else the batch is accepted with no body), and whether one
/// is an `initialize` (which starts the session).
#[derive(Debug)]
pub struct BatchPlan {
    pub steps: Vec<PostedMessage>,
    pub has_requests: bool,
    pub initializes: bool,
}

/// Sorts the messages of a posted batch.
pub fn plan_batch(items: &Vec<JsonValue>) -> (r: BatchPlan)
    ensures
        r.steps@.len() == items@.len(),
        forall|i: int| 0 <= i < items@.len() ==> #[trigger] r.steps@[i]@ == classify_posted_spec(items@[i]@),
        r.has_requests == exists|i: int| 0 <= i < items@.len() && wants_answer(#[trigger] classify_posted_spec(items@[i]@)),
        r.initializes == exists|i: int| 0 <= i < items@.len() && is_initialize(#[trigger] classify_posted_spec(items@[i]@)),
{
    let mut steps: Vec<PostedMessage> = Vec::new();
    let mut has_requests = false;
    let mut initializes = false;
    let mut i: usize = 0;
    while i < items.len()
        invariant
            0 <= i <= items.len(),
            steps@.len() == i,
            forall|j: int| 0 <= j < i ==> #[trigger] steps@[j]@ == classify_posted_spec(items@[j]@),
            has_requests == exists|j: int| 0 <= j < i && wants_answer(#[trigger] classify_posted_spec(items@[j]@)),
            initializes == exists|j: int| 0 <= j < i && is_initialize(#[trigger] classify_posted_spec(items@[j]@)),
        decreases items.len() - i,
    {
        let p = classify_posted(&items[i]);
        match &p {
            PostedMessage::Request(q) => {
                has_requests = true;
                if str_eq(q.method.as_str(), "initialize") {
                    initializes = true;
                }
            },
            PostedMessage::InvalidRequest(_) => {
                has_requests = true;
            },
            _ => {},
        }
        steps.push(p);
        i = i + 1;
    }
    BatchPlan { steps, has_requests, initializes }
}

// ── the session ────────────────────────────────────────────────────

/// A random session id (`uuid::Uuid::new_v4`, hyphenated): its text is
/// 36 characters long; nothing else is stated of it.
#[verifier::external_body]
fn new_session_id() -> (r: String)
    ensures
        r@.len() == 36,
{
    uuid::Uuid::new_v4().to_string()
}

/// The endpoint's session: its id, and whether a client has initialized it.
#[derive(Debug, Clone)]
pub struct AppState {
    pub session_id: String,
    pub initialized: bool,
}

impl AppState {
    /// A session with a fresh random id, not yet initialized.
    pub fn new() -> (r: Self)
        ensures
            r.session_id@.len() == 36,
            !r.initialized,
    {
        AppState { session_id: new_session_id(), initialized: false }
    }

    /// Notes that a request or batch was answered; an `initialize` in it
    /// starts the session. Returns whether the answer carries the
    /// `Mcp-Session-Id` header (exactly when it answered an `initialize`).
    pub fn answered(&mut self, initialize: bool) -> (r: bool)
        ensures
            r == initialize,
            final(self).session_id == old(self).session_id,
            final(self).initialized == (old(self).initialized || initialize),
    {
        if initialize {
            self.initialized = true;
        }
        initialize
    }

    /// A `DELETE` with the given `Mcp-Session-Id` header: where it names
    /// this session, the session ends and the answer is 200; otherwise
    /// nothing changes and the answer is 404. Returns whether it ended.
    pub fn terminate(&mut self, header: Option<&str>) -> (r: bool)
        ensures
            r == (header matches Some(h) && h@ == old(self).session_id@),
            final(self).session_id == old(self).session_id,
            r ==> !final(self).initialized,
            !r ==> final(self).initialized == old(self).initialized,
    {
        match header {
            Some(h) => if str_eq(h, self.session_id.as_str()) {
                self.initialized = false;
                true
            } else {
                false
            },
            None => false,
        }
    }
}

// ── fixed replies ──────────────────────────────────────────────────

/// The reply to a body that is not JSON: `Parse error: ` and the parser's
/// message, with a `null` id.
pub fn parse_error(detail: &str) -> (r: JsonRpcResponse)
    ensures
        r@ == error_view(JsonData::Null, -32700, "Parse error: "@ + detail@),
{
    let m = concat("Parse error: ", detail);
    JsonRpcResponse::error(JsonValue::Null, -32700, m.as_str())
}

/// Reads a posted body as JSON: the value where it is JSON, else the
/// reply to send back, a parse error (`Parse error: ` and the parser's
/// message) with a `null` id.
pub fn read_posted(body: &str) -> (r: Result<JsonValue, JsonRpcResponse>)
    ensures
        match json_parse(body@) {
            Some(d) => r matches Ok(v) && v@ == d,
            None => r matches Err(e) && exists|m: Seq<char>|
                e@ == #[trigger] error_view(JsonData::Null, -32700, "Parse error: "@ + m),
        },
{
    match parse_json(body) {
        Ok(v) => Ok(v),
        Err(msg) => {
            let e = parse_error(msg.as_str());
            assert(e@ == error_view(JsonData::Null, -32700, "Parse error: "@ + msg@));
            Err(e)
        },
    }
}

/// Reads a posted body of bytes: where they are UTF-8, as `read_posted`
/// reads the text; else the reply to send back, a parse error with a
/// `null` id.
pub fn read_posted_bytes(body: &[u8]) -> (r: Result<JsonValue, JsonRpcResponse>)
    ensures
        vstd::utf8::valid_utf8(body@) ==> match json_parse(vstd::utf8::decode_utf8(body@)) {
            Some(d) => r matches Ok(v) && v@ == d,
            None => r matches Err(e) && exists|m: Seq<char>|
                e@ == #[trigger] error_view(JsonData::Null, -32700, "Parse error: "@ + m),
        },
        !vstd::utf8::valid_utf8(body@) ==> (r matches Err(e) && exists|m: Seq<char>|
            e@ == #[trigger] error_view(JsonData::Null, -32700, "Parse error: "@ + m)),
{
    match utf8_text(body) {
        Ok(text) => {
            proof {
                vstd::utf8::encode_utf8_decode_utf8(text@);
            }
            read_posted(text)
        },
        Err(msg) => {
            let e = parse_error(msg.as_str());
            assert(e@ == error_view(JsonData::Null, -32700, "Parse error: "@ + msg@));
            Err(e)
        },
    }
}

/// The reply to an invalid request: `Invalid request`, followed by `: ` and
/// the reason where one is given.
pub fn invalid_request(id: JsonValue, detail: Option<&str>) -> (r: JsonRpcResponse)
    ensures
        r@ == error_view(
            id@,
            -32600,
            match detail {
                Some(d) => "Invalid request: "@ + d@,
                None => "Invalid request"@,
            },
        ),
{
    match detail {
        Some(d) => {
            let m = concat("Invalid request: ", d);
            JsonRpcResponse::error(id, -32600, m.as_str())
        },
        None => JsonRpcResponse::error(id, -32600, "Invalid request"),
    }
}

/// What `GET /` answers: the toolkit's name and version and its endpoint.
pub open spec fn root_info_spec(version: Seq<char>) -> JsonData {
    JsonData::Object(
        seq![
            ("name"@, JsonData::Str("mcp-toolkit"@)),
            ("version"@, JsonData::Str(version)),
            ("protocol"@, JsonData::Str("MCP"@)),
            ("transport"@, JsonData::Str("streamable-http"@)),
            ("endpoint"@, JsonData::Str("/mcp"@)),
        ],
    )
}

/// The body of `GET /`.
pub fn root_info(version: &str) -> (r: JsonValue)
    ensures
        r@ == root_info_spec(version@),
{
    let mut m: Vec<(String, JsonValue)> = Vec::new();
    push_member(&mut m, "name", JsonValue::from_str("mcp-toolkit"));
    push_member(&mut m, "version", JsonValue::from_str(version));
    push_member(&mut m, "protocol", JsonValue::from_str("MCP"));
    push_member(&mut m, "transport", JsonValue::from_str("streamable-http"));
    push_member(&mut m, "endpoint", JsonValue::from_str("/mcp"));
    assert(members_data(m@) =~= root_info_spec(version@)->Object_0);
    JsonValue::object(m)
}

/// The body of `GET /health`: `{"status":"ok"}`.
pub fn health_info() -> (r: JsonValue)
    ensures
        r@ == JsonData::Object(seq![("status"@, JsonData::Str("ok"@))]),
{
    let mut m: Vec<(String, JsonValue)> = Vec::new();
    push_member(&mut m, "status", JsonValue::from_str("ok"));
    assert(members_data(m@) =~= seq![("status"@, JsonData::Str("ok"@))]);
    JsonValue::object(m)
}

} // verus!
