//! The rules of the SSE transport: how a reply body is read into messages
//! (an event stream or plain JSON), and how those messages are routed: the
//! response to the request that was sent, responses to other requests, and
//! messages the server sends on its own.

use crate::error::McpError;
use crate::json::{json_text, json_to_string, JsonValue};
use crate::jsonrpc::{
    parse_incoming, parse_incoming_spec, IncomingMessage, IncomingView, JsonRpcResponse,
    ResponseView,
};
use crate::text::{
    chars_vec, concat, contains, contains_seq, lines, split_lines, starts_with_seq, str_eq,
    string_from_chars, strip_prefix,
};
use vstd::prelude::*;

verus! {

/// The key under which a request id is matched with its response: the
/// id's JSON text.
pub fn id_to_key(id: &JsonValue) -> (r: String)
    ensures
        r@ == json_text(id@),
{
    json_to_string(id)
}

/// The content of a list of messages.
pub open spec fn incoming_views(ms: Seq<IncomingMessage>) -> Seq<IncomingView> {
    Seq::new(ms.len(), |i: int| ms[i]@)
}

/// The messages with the one read from `data` added, where it reads as one.
pub open spec fn push_parsed(ms: Seq<IncomingView>, data: Seq<char>) -> Seq<IncomingView> {
    match parse_incoming_spec(data) {
        Some(m) => ms.push(m),
        None => ms,
    }
}

/// One line of an event stream read: a `data: ` line adds to the pending
/// data; an empty line ends the event, and its data is read as a message;
/// any other line changes nothing.
pub open spec fn sse_step(st: (Seq<IncomingView>, Seq<char>), line: Seq<char>) -> (
    Seq<IncomingView>,
    Seq<char>,
) {
    if starts_with_seq(line, "data: "@) {
        (st.0, st.1 + line.skip("data: "@.len() as int))
    } else if line.len() == 0 && st.1.len() > 0 {
        (push_parsed(st.0, st.1), Seq::empty())
    } else {
        st
    }
}

/// The messages read and the pending data after the given lines.
pub open spec fn sse_fold(ls: Seq<Seq<char>>) -> (Seq<IncomingView>, Seq<char>)
    decreases ls.len(),
{
    if ls.len() == 0 {
        (Seq::empty(), Seq::empty())
    } else {
        sse_step(sse_fold(ls.drop_last()), ls.last())
    }
}

/// The messages of an event stream: each event's data read as a message,
/// the data left at the end too.
pub open spec fn sse_messages(text: Seq<char>) -> Seq<IncomingView> {
    let st = sse_fold(lines(text));
    if st.1.len() > 0 {
        push_parsed(st.0, st.1)
    } else {
        st.0
    }
}

fn push_if_parsed(ms: &mut Vec<IncomingMessage>, data: &Vec<char>)
    ensures
        incoming_views(final(ms)@) == push_parsed(incoming_views(old(ms)@), data@),
{
    let s = string_from_chars(data.as_slice());
    match parse_incoming(s.as_str()) {
        Some(m) => {
            ms.push(m);
            assert(incoming_views(ms@) =~= incoming_views(old(ms)@).push(ms@.last()@));
        },
        None => {},
    }
}

/// Reads the messages of an event stream.
pub fn process_sse_response(text: &str) -> (r: Vec<IncomingMessage>)
    ensures
        incoming_views(r@) == sse_messages(text@),
{
    let cs = chars_vec(text);
    let ls = split_lines(cs.as_slice());
    let ghost all = lines(text@);
    let mut ms: Vec<IncomingMessage> = Vec::new();
    let mut data: Vec<char> = Vec::new();
    let mut i: usize = 0;
    assert(all.take(0) =~= Seq::<Seq<char>>::empty());
    assert(incoming_views(ms@) =~= Seq::<IncomingView>::empty());
    while i < ls.len()
        invariant
            0 <= i <= ls.len(),
            ls@.len() == all.len(),
            all == lines(text@),
            forall|j: int| 0 <= j < ls@.len() ==> #[trigger] ls@[j]@ == all[j],
            (incoming_views(ms@), data@) == sse_fold(all.take(i as int)),
        decreases ls.len() - i,
    {
        proof {
            assert(all.take(i + 1).drop_last() =~= all.take(i as int));
            assert(all.take(i + 1).last() == ls@[i as int]@);
        }
        let line = &ls[i];
        match strip_prefix(line.as_slice(), "data: ") {
            Some(rest) => {
                let mut rest = rest;
                data.append(&mut rest);
            },
            None => {
                if line.len() == 0 && data.len() > 0 {
                    push_if_parsed(&mut ms, &data);
                    data = Vec::new();
                    assert(data@ =~= Seq::<char>::empty());
                }
            },
        }
        i = i + 1;
    }
    assert(all.take(ls.len() as int) =~= all);
    if data.len() > 0 {
        push_if_parsed(&mut ms, &data);
    }
    ms
}

/// The messages of a reply body: an event stream where the content type
/// says so, else the one JSON message it holds (none where it holds none).
pub open spec fn body_messages(content_type: Seq<char>, text: Seq<char>) -> Seq<IncomingView> {
    if contains_seq(content_type, "text/event-stream"@) {
        sse_messages(text)
    } else {
        match parse_incoming_spec(text) {
            Some(m) => seq![m],
            None => Seq::empty(),
        }
    }
}

/// Reads the messages of a reply body with the given content type.
pub fn read_body(content_type: &str, text: &str) -> (r: Vec<IncomingMessage>)
    ensures
        incoming_views(r@) == body_messages(content_type@, text@),
{
    if contains(content_type, "text/event-stream") {
        process_sse_response(text)
    } else {
        let mut r: Vec<IncomingMessage> = Vec::new();
        match parse_incoming(text) {
            Some(m) => {
                r.push(m);
            },
            None => {},
        }
        assert(incoming_views(r@) =~= body_messages(content_type@, text@));
        r
    }
}

// ── routing ────────────────────────────────────────────────────────

/// Where the messages of a reply go, read in order up to the response to
/// the request that was sent: that response (if one came), the responses
/// to other requests before it, and the other messages before it. What
/// follows the response is not read.
pub open spec fn route_spec(ms: Seq<IncomingView>, key: Seq<char>) -> (
    Option<ResponseView>,
    Seq<ResponseView>,
    Seq<IncomingView>,
)
    decreases ms.len(),
{
    if ms.len() == 0 {
        (None, Seq::empty(), Seq::empty())
    } else {
        let rest = route_spec(ms.drop_first(), key);
        match ms[0] {
            IncomingView::Response(r) => if json_text(r.id) == key {
                (Some(r), Seq::empty(), Seq::empty())
            } else {
                (rest.0, seq![r] + rest.1, rest.2)
            },
            m => (rest.0, rest.1, seq![m] + rest.2),
        }
    }
}

/// The messages of a reply, routed.
#[derive(Debug)]
pub struct Routed {
    /// The response to the request that was sent.
    pub reply: Option<JsonRpcResponse>,
    /// Responses to other requests, for their waiting callers.
    pub others: Vec<JsonRpcResponse>,
    /// Notifications and requests from the server, for the subscriber.
    pub incoming: Vec<IncomingMessage>,
}

pub open spec fn responses_view(rs: Seq<JsonRpcResponse>) -> Seq<ResponseView> {
    Seq::new(rs.len(), |i: int| rs[i]@)
}

/// Routes the messages of a reply to a request whose id has the key `key`.
pub fn route_messages(messages: Vec<IncomingMessage>, key: &str) -> (r: Routed)
    ensures
        ({
            let s = route_spec(incoming_views(messages@), key@);
            &&& match r.reply {
                Some(x) => s.0 == Some(x@),
                None => s.0 is None,
            }
            &&& responses_view(r.others@) == s.1
            &&& incoming_views(r.incoming@) == s.2
        }),
{
    let ghost all = incoming_views(messages@);
    let mut rest = messages;
    let mut others: Vec<JsonRpcResponse> = Vec::new();
    let mut incoming: Vec<IncomingMessage> = Vec::new();
    let ghost mut i: int = 0;
    assert(incoming_views(rest@) =~= all.skip(0));
    assert(responses_view(others@) =~= Seq::<ResponseView>::empty());
    assert(incoming_views(incoming@) =~= Seq::<IncomingView>::empty());
    while rest.len() > 0
        invariant
            0 <= i <= all.len(),
            all == incoming_views(messages@),
            incoming_views(rest@) == all.skip(i),
            route_spec(all, key@).0 == route_spec(all.skip(i), key@).0,
            route_spec(all, key@).1 == responses_view(others@) + route_spec(all.skip(i), key@).1,
            route_spec(all, key@).2 == incoming_views(incoming@) + route_spec(all.skip(i), key@).2,
        decreases rest.len(),
    {
        let ghost tail = all.skip(i);
        let m = rest.remove(0);
        proof {
            assert(tail[0] == m@);
            assert(tail.drop_first() =~= all.skip(i + 1));
            assert(incoming_views(rest@) =~= all.skip(i + 1));
            i = i + 1;
        }
        match m {
            IncomingMessage::Response(resp) => {
                let k = id_to_key(&resp.id);
                if str_eq(k.as_str(), key) {
                    proof {
                        assert(route_spec(tail, key@) == (
                            Some(resp@),
                            Seq::<ResponseView>::empty(),
                            Seq::<IncomingView>::empty(),
                        ));
                        assert(route_spec(all, key@).1 =~= responses_view(others@));
                        assert(route_spec(all, key@).2 =~= incoming_views(incoming@));
                    }
                    return Routed { reply: Some(resp), others, incoming };
                }
                let ghost before = responses_view(others@);
                others.push(resp);
                proof {
                    assert(responses_view(others@) =~= before.push(resp@));
                    assert(before + route_spec(tail, key@).1 =~= responses_view(others@)
                        + route_spec(all.skip(i), key@).1);
                }
            },
            other => {
                let ghost before = incoming_views(incoming@);
                let ghost ov = other@;
                incoming.push(other);
                proof {
                    assert(incoming_views(incoming@) =~= before.push(ov));
                    assert(before + route_spec(tail, key@).2 =~= incoming_views(incoming@)
                        + route_spec(all.skip(i), key@).2);
                }
            },
        }
    }
    proof {
        assert(all.skip(i).len() == 0);
        assert(route_spec(all, key@).1 =~= responses_view(others@));
        assert(route_spec(all, key@).2 =~= incoming_views(incoming@));
    }
    Routed { reply: None, others, incoming }
}

/// The error when no response to the request came: its id's key.
pub fn no_response(key: &str) -> (r: McpError)
    ensures
        r is Protocol,
        r.detail_spec() == "No response received for request ID "@ + key@,
{
    McpError::Protocol(concat("No response received for request ID ", key))
}

} // verus!
