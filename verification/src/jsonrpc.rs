//! JSON-RPC 2.0 messages of MCP communication, and how an incoming line is
//! read as a response, a notification or a server-initiated request.

use crate::error::McpError;
use crate::json::{
    items_data, json_parse, json_text, json_to_string, lookup, members_data, opt_data, parse_json,
    push_member, JsonData, JsonValue,
};
use crate::text::{i64_to_decimal, int_decimal, push_str, to_string};
use vstd::prelude::*;

verus! {

/// JSON-RPC 2.0 request (has an `id`, expects a response).
#[derive(Debug, Clone)]
pub struct JsonRpcRequest {
    pub jsonrpc: String,
    pub id: JsonValue,
    pub method: String,
    pub params: Option<JsonValue>,
}

/// JSON-RPC 2.0 notification (no `id`, no response expected).
#[derive(Debug, Clone)]
pub struct JsonRpcNotification {
    pub jsonrpc: String,
    pub method: String,
    pub params: Option<JsonValue>,
}

/// JSON-RPC 2.0 response.
#[derive(Debug, Clone)]
pub struct JsonRpcResponse {
    pub jsonrpc: String,
    pub id: JsonValue,
    pub result: Option<JsonValue>,
    pub error: Option<JsonRpcError>,
}

/// JSON-RPC 2.0 error object.
#[derive(Debug, Clone)]
pub struct JsonRpcError {
    pub code: i64,
    pub message: String,
    pub data: Option<JsonValue>,
}

/// Incoming message from an MCP server: response, notification, or request.
#[derive(Debug, Clone)]
pub enum IncomingMessage {
    Response(JsonRpcResponse),
    Notification(JsonRpcNotification),
    /// Server-initiated request (for sampling, elicitation, roots).
    Request(JsonRpcRequest),
}

// ── mathematical views ─────────────────────────────────────────────

pub struct RequestView {
    pub jsonrpc: Seq<char>,
    pub id: JsonData,
    pub method: Seq<char>,
    pub params: Option<JsonData>,
}

pub struct NotificationView {
    pub jsonrpc: Seq<char>,
    pub method: Seq<char>,
    pub params: Option<JsonData>,
}

pub struct ErrorView {
    pub code: int,
    pub message: Seq<char>,
    pub data: Option<JsonData>,
}

pub struct ResponseView {
    pub jsonrpc: Seq<char>,
    pub id: JsonData,
    pub result: Option<JsonData>,
    pub error: Option<ErrorView>,
}

pub enum IncomingView {
    Response(ResponseView),
    Notification(NotificationView),
    Request(RequestView),
}

impl View for JsonRpcRequest {
    type V = RequestView;

    open spec fn view(&self) -> RequestView {
        RequestView {
            jsonrpc: self.jsonrpc@,
            id: self.id@,
            method: self.method@,
            params: opt_data(self.params),
        }
    }
}

impl View for JsonRpcNotification {
    type V = NotificationView;

    open spec fn view(&self) -> NotificationView {
        NotificationView {
            jsonrpc: self.jsonrpc@,
            method: self.method@,
            params: opt_data(self.params),
        }
    }
}

impl View for JsonRpcError {
    type V = ErrorView;

    open spec fn view(&self) -> ErrorView {
        ErrorView { code: self.code as int, message: self.message@, data: opt_data(self.data) }
    }
}

pub open spec fn opt_error_view(e: Option<JsonRpcError>) -> Option<ErrorView> {
    match e {
        Some(x) => Some(x@),
        None => None,
    }
}

impl View for JsonRpcResponse {
    type V = ResponseView;

    open spec fn view(&self) -> ResponseView {
        ResponseView {
            jsonrpc: self.jsonrpc@,
            id: self.id@,
            result: opt_data(self.result),
            error: opt_error_view(self.error),
        }
    }
}

impl View for IncomingMessage {
    type V = IncomingView;

    open spec fn view(&self) -> IncomingView {
        match self {
            IncomingMessage::Response(r) => IncomingView::Response(r@),
            IncomingMessage::Notification(n) => IncomingView::Notification(n@),
            IncomingMessage::Request(q) => IncomingView::Request(q@),
        }
    }
}

pub open spec fn opt_incoming_view(m: Option<IncomingMessage>) -> Option<IncomingView> {
    match m {
        Some(x) => Some(x@),
        None => None,
    }
}

// ── reading messages from JSON, as serde's derived code reads them ──

/// An `Option<Value>` member: absent and `null` both read as `None`.
pub open spec fn opt_member(d: JsonData, key: Seq<char>) -> Option<JsonData> {
    match d.get(key) {
        Some(JsonData::Null) => None,
        Some(x) => Some(x),
        None => None,
    }
}

/// A JSON-RPC error object read from JSON: from an object by member name,
/// or from an array of exactly three items by position.
pub open spec fn error_from(d: JsonData) -> Option<ErrorView> {
    match d {
        JsonData::Object(_) => match (d.get("code"@), d.get_str("message"@)) {
            (Some(c), Some(m)) => match c.as_i64() {
                Some(code) => Some(ErrorView { code, message: m, data: opt_member(d, "data"@) }),
                None => None,
            },
            _ => None,
        },
        JsonData::Array(a) => if a.len() == 3 {
            match (a[0].as_i64(), a[1].as_str()) {
                (Some(code), Some(m)) => Some(
                    ErrorView {
                        code,
                        message: m,
                        data: if a[2] == JsonData::Null {
                            None
                        } else {
                            Some(a[2])
                        },
                    },
                ),
                _ => None,
            }
        } else {
            None
        },
        _ => None,
    }
}

/// A request read from a JSON object.
pub open spec fn request_from(d: JsonData) -> Option<RequestView> {
    match (d.get_str("jsonrpc"@), d.get("id"@), d.get_str("method"@)) {
        (Some(j), Some(id), Some(m)) => Some(
            RequestView { jsonrpc: j, id, method: m, params: opt_member(d, "params"@) },
        ),
        _ => None,
    }
}

/// A notification read from a JSON object.
pub open spec fn notification_from(d: JsonData) -> Option<NotificationView> {
    match (d.get_str("jsonrpc"@), d.get_str("method"@)) {
        (Some(j), Some(m)) => Some(
            NotificationView { jsonrpc: j, method: m, params: opt_member(d, "params"@) },
        ),
        _ => None,
    }
}

/// A response read from a JSON object; a missing `id` reads as `null`.
pub open spec fn response_from(d: JsonData) -> Option<ResponseView> {
    match d.get_str("jsonrpc"@) {
        Some(j) => {
            let id = match d.get("id"@) {
                Some(x) => x,
                None => JsonData::Null,
            };
            match d.get("error"@) {
                None => Some(
                    ResponseView { jsonrpc: j, id, result: opt_member(d, "result"@), error: None },
                ),
                Some(JsonData::Null) => Some(
                    ResponseView { jsonrpc: j, id, result: opt_member(d, "result"@), error: None },
                ),
                Some(e) => match error_from(e) {
                    Some(ev) => Some(
                        ResponseView {
                            jsonrpc: j,
                            id,
                            result: opt_member(d, "result"@),
                            error: Some(ev),
                        },
                    ),
                    None => None,
                },
            }
        },
        None => None,
    }
}

/// How a JSON value is read as an incoming message: with both `id` and
/// `method` a request, with `id` alone a response, with `method` alone a
/// notification, and nothing otherwise (or where the members do not fit).
pub open spec fn classify_spec(d: JsonData) -> Option<IncomingView> {
    let has_id = d.get("id"@) is Some;
    let has_method = d.get("method"@) is Some;
    if has_id && has_method {
        match request_from(d) {
            Some(r) => Some(IncomingView::Request(r)),
            None => None,
        }
    } else if has_id {
        match response_from(d) {
            Some(r) => Some(IncomingView::Response(r)),
            None => None,
        }
    } else if has_method {
        match notification_from(d) {
            Some(n) => Some(IncomingView::Notification(n)),
            None => None,
        }
    } else {
        None
    }
}

/// How a line of text is read as an incoming message.
pub open spec fn parse_incoming_spec(line: Seq<char>) -> Option<IncomingView> {
    match json_parse(line) {
        Some(d) => classify_spec(d),
        None => None,
    }
}

/// The member `key`, absent when it is missing or `null`.
pub fn opt_member_value(v: &JsonValue, key: &str) -> (r: Option<JsonValue>)
    ensures
        opt_data(r) == opt_member(v@, key@),
{
    match v.get(key) {
        Some(JsonValue::Null) => None,
        Some(x) => Some(x.clone_value()),
        None => None,
    }
}

/// Reads a JSON-RPC error object.
pub fn error_from_value(v: &JsonValue) -> (r: Option<JsonRpcError>)
    ensures
        opt_error_view(r) == error_from(v@),
{
    match v {
        JsonValue::Object(_) => {
            let c = v.get("code");
            let m = v.get_str("message");
            match (c, m) {
                (Some(c), Some(m)) => match c.as_i64() {
                    Some(code) => Some(
                        JsonRpcError {
                            code,
                            message: m.clone(),
                            data: opt_member_value(v, "data"),
                        },
                    ),
                    None => None,
                },
                _ => None,
            }
        },
        JsonValue::Array(a) => {
            proof {
                assert(v@.as_array() == Some(items_data(a@)));
            }
            if a.len() == 3 {
                match (a[0].as_i64(), a[1].as_str()) {
                    (Some(code), Some(m)) => {
                        let data = match &a[2] {
                            JsonValue::Null => None,
                            x => Some(x.clone_value()),
                        };
                        Some(JsonRpcError { code, message: m.clone(), data })
                    },
                    _ => None,
                }
            } else {
                None
            }
        },
        _ => None,
    }
}

/// Reads a request from a JSON object.
pub fn request_from_value(v: &JsonValue) -> (r: Option<JsonRpcRequest>)
    ensures
        match r {
            Some(q) => request_from(v@) == Some(q@),
            None => request_from(v@) is None,
        },
{
    match (v.get_str("jsonrpc"), v.get("id"), v.get_str("method")) {
        (Some(j), Some(id), Some(m)) => Some(
            JsonRpcRequest {
                jsonrpc: j.clone(),
                id: id.clone_value(),
                method: m.clone(),
                params: opt_member_value(v, "params"),
            },
        ),
        _ => None,
    }
}

/// Reads a notification from a JSON object.
pub fn notification_from_value(v: &JsonValue) -> (r: Option<JsonRpcNotification>)
    ensures
        match r {
            Some(n) => notification_from(v@) == Some(n@),
            None => notification_from(v@) is None,
        },
{
    match (v.get_str("jsonrpc"), v.get_str("method")) {
        (Some(j), Some(m)) => Some(
            JsonRpcNotification {
                jsonrpc: j.clone(),
                method: m.clone(),
                params: opt_member_value(v, "params"),
            },
        ),
        _ => None,
    }
}

/// Reads a response from a JSON object.
pub fn response_from_value(v: &JsonValue) -> (r: Option<JsonRpcResponse>)
    ensures
        match r {
            Some(x) => response_from(v@) == Some(x@),
            None => response_from(v@) is None,
        },
{
    let j = match v.get_str("jsonrpc") {
        Some(j) => j.clone(),
        None => {
            return None;
        },
    };
    let id = match v.get("id") {
        Some(x) => x.clone_value(),
        None => JsonValue::Null,
    };
    let result = opt_member_value(v, "result");
    let error = match v.get("error") {
        None => None,
        Some(JsonValue::Null) => None,
        Some(e) => match error_from_value(e) {
            Some(ev) => Some(ev),
            None => {
                return None;
            },
        },
    };
    Some(JsonRpcResponse { jsonrpc: j, id, result, error })
}

/// Reads a JSON value as an incoming message: a request when it has both an
/// `id` and a `method` member, a response when it has only an `id`, a
/// notification when it has only a `method`; `None` otherwise or when the
/// members do not fit the message.
pub fn classify_incoming(v: &JsonValue) -> (r: Option<IncomingMessage>)
    ensures
        opt_incoming_view(r) == classify_spec(v@),
{
    let has_id = v.get("id").is_some();
    let has_method = v.get("method").is_some();
    if has_id && has_method {
        match request_from_value(v) {
            Some(q) => Some(IncomingMessage::Request(q)),
            None => None,
        }
    } else if has_id {
        match response_from_value(v) {
            Some(x) => Some(IncomingMessage::Response(x)),
            None => None,
        }
    } else if has_method {
        match notification_from_value(v) {
            Some(n) => Some(IncomingMessage::Notification(n)),
            None => None,
        }
    } else {
        None
    }
}

/// Tries to parse a line as a JSON-RPC response, notification, or request.
pub fn parse_incoming(line: &str) -> (r: Option<IncomingMessage>)
    ensures
        opt_incoming_view(r) == parse_incoming_spec(line@),
{
    match parse_json(line) {
        Ok(v) => classify_incoming(&v),
        Err(_) => None,
    }
}

// ── building messages ──────────────────────────────────────────────

impl JsonRpcRequest {
    pub fn new(id: JsonValue, method: &str, params: Option<JsonValue>) -> (r: Self)
        ensures
            r@ == (RequestView { jsonrpc: "2.0"@, id: id@, method: method@, params: opt_data(params) }),
    {
        JsonRpcRequest { jsonrpc: to_string("2.0"), id, method: to_string(method), params }
    }
}

impl JsonRpcNotification {
    pub fn new(method: &str, params: Option<JsonValue>) -> (r: Self)
        ensures
            r@ == (NotificationView { jsonrpc: "2.0"@, method: method@, params: opt_data(params) }),
    {
        JsonRpcNotification { jsonrpc: to_string("2.0"), method: to_string(method), params }
    }
}

/// The message of the protocol error that an error response becomes.
pub open spec fn error_text(code: int, message: Seq<char>) -> Seq<char> {
    "JSON-RPC error "@ + int_decimal(code) + ": "@ + message
}

impl JsonRpcResponse {
    /// Whether this response is an error.
    pub fn is_error(&self) -> (r: bool)
        ensures
            r == (self.error is Some),
    {
        self.error.is_some()
    }

    /// The result value (`null` where there is none), or the error as a
    /// protocol error `JSON-RPC error <code>: <message>`.
    pub fn into_result(self) -> (r: Result<JsonValue, McpError>)
        ensures
            match self.error {
                Some(e) => r matches Err(err) && err is Protocol && err.detail_spec() == error_text(
                    e.code as int,
                    e.message@,
                ),
                None => r matches Ok(v) && v@ == (match self.result {
                    Some(x) => x@,
                    None => JsonData::Null,
                }),
            },
    {
        match self.error {
            Some(err) => {
                let mut m = to_string("JSON-RPC error ");
                let c = i64_to_decimal(err.code);
                push_str(&mut m, c.as_str());
                push_str(&mut m, ": ");
                push_str(&mut m, err.message.as_str());
                Err(McpError::Protocol(m))
            },
            None => match self.result {
                Some(x) => Ok(x),
                None => Ok(JsonValue::Null),
            },
        }
    }

    /// A success response.
    pub fn success(id: JsonValue, result: JsonValue) -> (r: Self)
        ensures
            r@ == (ResponseView { jsonrpc: "2.0"@, id: id@, result: Some(result@), error: None }),
    {
        JsonRpcResponse { jsonrpc: to_string("2.0"), id, result: Some(result), error: None }
    }

    /// An error response.
    pub fn error(id: JsonValue, code: i64, message: &str) -> (r: Self)
        ensures
            r@ == (ResponseView {
                jsonrpc: "2.0"@,
                id: id@,
                result: None,
                error: Some(ErrorView { code: code as int, message: message@, data: None }),
            }),
    {
        JsonRpcResponse {
            jsonrpc: to_string("2.0"),
            id,
            result: None,
            error: Some(JsonRpcError { code, message: to_string(message), data: None }),
        }
    }
}

// ── writing messages ───────────────────────────────────────────────

/// A member that is written only where the field is set.
pub open spec fn opt_field(key: Seq<char>, v: Option<JsonData>) -> Seq<(Seq<char>, JsonData)> {
    match v {
        Some(x) => seq![(key, x)],
        None => Seq::empty(),
    }
}

/// An error object as JSON: `code`, `message`, and `data` where set.
pub open spec fn error_json(e: ErrorView) -> JsonData {
    JsonData::Object(
        seq![("code"@, JsonData::Int(e.code)), ("message"@, JsonData::Str(e.message))]
            + opt_field("data"@, e.data),
    )
}

/// A request as JSON: `jsonrpc`, `id`, `method`, and `params` where set.
pub open spec fn request_json(r: RequestView) -> JsonData {
    JsonData::Object(
        seq![("jsonrpc"@, JsonData::Str(r.jsonrpc)), ("id"@, r.id), ("method"@, JsonData::Str(r.method))]
            + opt_field("params"@, r.params),
    )
}

/// A notification as JSON: `jsonrpc`, `method`, and `params` where set.
pub open spec fn notification_json(n: NotificationView) -> JsonData {
    JsonData::Object(
        seq![("jsonrpc"@, JsonData::Str(n.jsonrpc)), ("method"@, JsonData::Str(n.method))]
            + opt_field("params"@, n.params),
    )
}

/// A response as JSON: `jsonrpc`, `id`, and `result` and `error` where set.
pub open spec fn response_json(r: ResponseView) -> JsonData {
    JsonData::Object(
        seq![("jsonrpc"@, JsonData::Str(r.jsonrpc)), ("id"@, r.id)] + opt_field("result"@, r.result)
            + opt_field(
            "error"@,
            match r.error {
                Some(e) => Some(error_json(e)),
                None => None,
            },
        ),
    )
}

fn push_opt_member(members: &mut Vec<(String, JsonValue)>, key: &str, v: &Option<JsonValue>)
    ensures
        members_data(final(members)@) == members_data(old(members)@) + opt_field(key@, opt_data(*v)),
{
    match v {
        Some(x) => push_member(members, key, x.clone_value()),
        None => {},
    }
    assert(members_data(members@) =~= members_data(old(members)@) + opt_field(key@, opt_data(*v)));
}

impl JsonRpcError {
    /// The error object as JSON.
    pub fn to_json(&self) -> (r: JsonValue)
        ensures
            r@ == error_json(self@),
    {
        let mut m: Vec<(String, JsonValue)> = Vec::new();
        push_member(&mut m, "code", JsonValue::from_i64(self.code));
        push_member(&mut m, "message", JsonValue::from_str(self.message.as_str()));
        push_opt_member(&mut m, "data", &self.data);
        assert(members_data(m@) =~= error_json(self@)->Object_0);
        JsonValue::object(m)
    }
}

impl JsonRpcRequest {
    /// The request as JSON.
    pub fn to_json(&self) -> (r: JsonValue)
        ensures
            r@ == request_json(self@),
    {
        let mut m: Vec<(String, JsonValue)> = Vec::new();
        push_member(&mut m, "jsonrpc", JsonValue::from_str(self.jsonrpc.as_str()));
        push_member(&mut m, "id", self.id.clone_value());
        push_member(&mut m, "method", JsonValue::from_str(self.method.as_str()));
        push_opt_member(&mut m, "params", &self.params);
        assert(members_data(m@) =~= request_json(self@)->Object_0);
        JsonValue::object(m)
    }

    /// The request as one line of JSON text.
    pub fn to_text(&self) -> (r: String)
        ensures
            r@ == json_text(request_json(self@)),
    {
        json_to_string(&self.to_json())
    }
}

impl JsonRpcNotification {
    /// The notification as JSON.
    pub fn to_json(&self) -> (r: JsonValue)
        ensures
            r@ == notification_json(self@),
    {
        let mut m: Vec<(String, JsonValue)> = Vec::new();
        push_member(&mut m, "jsonrpc", JsonValue::from_str(self.jsonrpc.as_str()));
        push_member(&mut m, "method", JsonValue::from_str(self.method.as_str()));
        push_opt_member(&mut m, "params", &self.params);
        assert(members_data(m@) =~= notification_json(self@)->Object_0);
        JsonValue::object(m)
    }

    /// The notification as one line of JSON text.
    pub fn to_text(&self) -> (r: String)
        ensures
            r@ == json_text(notification_json(self@)),
    {
        json_to_string(&self.to_json())
    }
}

impl JsonRpcResponse {
    /// The response as JSON.
    pub fn to_json(&self) -> (r: JsonValue)
        ensures
            r@ == response_json(self@),
    {
        let mut m: Vec<(String, JsonValue)> = Vec::new();
        push_member(&mut m, "jsonrpc", JsonValue::from_str(self.jsonrpc.as_str()));
        push_member(&mut m, "id", self.id.clone_value());
        push_opt_member(&mut m, "result", &self.result);
        match &self.error {
            Some(e) => push_member(&mut m, "error", e.to_json()),
            None => {},
        }
        assert(members_data(m@) =~= response_json(self@)->Object_0);
        JsonValue::object(m)
    }

    /// The response as one line of JSON text.
    pub fn to_text(&self) -> (r: String)
        ensures
            r@ == json_text(response_json(self@)),
    {
        json_to_string(&self.to_json())
    }
}

// ── laws of writing and reading ────────────────────────────────────

proof fn lemma_message_keys()
    ensures
        "jsonrpc"@ != "id"@,
        "jsonrpc"@ != "method"@,
        "jsonrpc"@ != "params"@,
        "jsonrpc"@ != "result"@,
        "jsonrpc"@ != "error"@,
        "id"@ != "method"@,
        "id"@ != "params"@,
        "id"@ != "result"@,
        "id"@ != "error"@,
        "method"@ != "params"@,
        "method"@ != "result"@,
        "method"@ != "error"@,
        "params"@ != "result"@,
        "result"@ != "error"@,
        "code"@ != "message"@,
        "code"@ != "data"@,
        "message"@ != "data"@,
{
    reveal_strlit("jsonrpc");
    reveal_strlit("id");
    reveal_strlit("method");
    reveal_strlit("params");
    reveal_strlit("result");
    reveal_strlit("error");
    reveal_strlit("code");
    reveal_strlit("message");
    reveal_strlit("data");
    assert("jsonrpc"@.len() != "id"@.len());
    assert("jsonrpc"@.len() != "method"@.len());
    assert("jsonrpc"@.len() != "params"@.len());
    assert("jsonrpc"@.len() != "result"@.len());
    assert("jsonrpc"@.len() != "error"@.len());
    assert("id"@.len() != "method"@.len());
    assert("id"@.len() != "params"@.len());
    assert("id"@.len() != "result"@.len());
    assert("id"@.len() != "error"@.len());
    assert("method"@[0] != "params"@[0]);
    assert("method"@[0] != "result"@[0]);
    assert("method"@.len() != "error"@.len());
    assert("params"@[0] != "result"@[0]);
    assert("result"@.len() != "error"@.len());
    assert("code"@.len() != "message"@.len());
    assert("code"@[0] != "data"@[0]);
    assert("message"@.len() != "data"@.len());
}

/// A request written as JSON is read back as the same request, where its
/// params are not `null` (absent and `null` params read alike).
pub proof fn law_request_round_trip(r: RequestView)
    requires
        r.params != Some(JsonData::Null),
    ensures
        classify_spec(request_json(r)) == Some(IncomingView::Request(r)),
{
    lemma_message_keys();
    reveal_with_fuel(lookup, 6);
    let d = request_json(r);
    assert(d.get("id"@) == Some(r.id));
    assert(d.get("method"@) == Some(JsonData::Str(r.method)));
    assert(d.get_str("jsonrpc"@) == Some(r.jsonrpc));
    assert(opt_member(d, "params"@) == r.params);
}

/// A notification written as JSON is read back as the same notification,
/// where its params are not `null`.
pub proof fn law_notification_round_trip(n: NotificationView)
    requires
        n.params != Some(JsonData::Null),
    ensures
        classify_spec(notification_json(n)) == Some(IncomingView::Notification(n)),
{
    lemma_message_keys();
    reveal_with_fuel(lookup, 6);
    let d = notification_json(n);
    assert(d.get("id"@) is None);
    assert(d.get("method"@) == Some(JsonData::Str(n.method)));
    assert(d.get_str("jsonrpc"@) == Some(n.jsonrpc));
    assert(opt_member(d, "params"@) == n.params);
}

/// A response written as JSON is read back as the same response, where
/// neither its result nor its error's data is `null` and its error code is
/// an `i64`.
pub proof fn law_response_round_trip(r: ResponseView)
    requires
        r.result != Some(JsonData::Null),
        r.error matches Some(e) ==> e.data != Some(JsonData::Null) && i64::MIN <= e.code
            <= i64::MAX,
    ensures
        classify_spec(response_json(r)) == Some(IncomingView::Response(r)),
{
    lemma_message_keys();
    reveal_with_fuel(lookup, 6);
    let d = response_json(r);
    assert(d.get("id"@) == Some(r.id));
    assert(d.get("method"@) is None);
    assert(d.get_str("jsonrpc"@) == Some(r.jsonrpc));
    assert(opt_member(d, "result"@) == r.result);
    match r.error {
        Some(e) => {
            assert(d.get("error"@) == Some(error_json(e)));
            let ed = error_json(e);
            assert(ed.get("code"@) == Some(JsonData::Int(e.code)));
            assert(ed.get_str("message"@) == Some(e.message));
            assert(opt_member(ed, "data"@) == e.data);
            assert(error_from(ed) == Some(e));
        },
        None => {
            assert(d.get("error"@) is None);
        },
    }
}

} // verus!
