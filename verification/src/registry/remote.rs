//! Remote registry sources: the query encoding and the reading of the JSON
//! that Smithery, npm and the official MCP Registry answer with. The HTTP
//! requests themselves are made by the caller.

use crate::json::{items_data, json_parse, parse_json, JsonData, JsonValue};
use crate::error::McpError;
use crate::registry::{
    clone_strings, entries_view, opt_str_view, pairs_view, strings_view, EntryView, RegistryEntry,
    RegistrySource,
};
use crate::text::{concat, hex_byte, push_hex_byte, string_push, to_string};
use vstd::prelude::*;
use vstd::string::StringSliceAdditionalSpecFns;

verus! {

// ── URL encoding ───────────────────────────────────────────────────

/// Bytes that stand for themselves in an encoded query.
pub open spec fn unreserved(b: u8) -> bool {
    (65 <= b <= 90) || (97 <= b <= 122) || (48 <= b <= 57) || b == 45 || b == 95 || b == 46 || b
        == 126
}

/// The encoding of one byte: itself, `+` for a space, `%XX` otherwise.
pub open spec fn encode_byte(b: u8) -> Seq<char> {
    if unreserved(b) {
        seq![b as char]
    } else if b == 32 {
        seq!['+']
    } else {
        seq!['%'] + hex_byte(b, true)
    }
}

/// The encoding of a byte sequence.
pub open spec fn encode_bytes(bs: Seq<u8>) -> Seq<char>
    decreases bs.len(),
{
    if bs.len() == 0 {
        Seq::empty()
    } else {
        encode_bytes(bs.drop_last()) + encode_byte(bs.last())
    }
}

/// URL-encodes a string byte by byte (query-string form: space as `+`).
pub fn encode(s: &str) -> (r: String)
    ensures
        r@ == encode_bytes(s.spec_bytes()),
{
    let bytes = s.as_bytes();
    let mut out = String::new();
    let mut i: usize = 0;
    while i < bytes.len()
        invariant
            0 <= i <= bytes@.len(),
            bytes@ == s.spec_bytes(),
            out@ == encode_bytes(bytes@.take(i as int)),
        decreases bytes.len() - i,
    {
        let b = bytes[i];
        if (65 <= b && b <= 90) || (97 <= b && b <= 122) || (48 <= b && b <= 57) || b == 45 || b
            == 95 || b == 46 || b == 126 {
            string_push(&mut out, b as char);
        } else if b == 32 {
            string_push(&mut out, '+');
        } else {
            string_push(&mut out, '%');
            push_hex_byte(&mut out, b, true);
        }
        i = i + 1;
        assert(bytes@.take(i as int).drop_last() =~= bytes@.take((i - 1) as int));
        assert(out@ =~= encode_bytes(bytes@.take(i as int)));
    }
    assert(bytes@.take(bytes@.len() as int) =~= bytes@);
    out
}

// ── reading answers ────────────────────────────────────────────────

/// The text after the last `c` (all of `s` when there is none), as
/// `s.split(c).next_back()` gives it.
pub open spec fn after_last(s: Seq<char>, c: char) -> Seq<char>
    decreases s.len(),
{
    if s.len() == 0 {
        s
    } else if s.last() == c {
        Seq::empty()
    } else {
        after_last(s.drop_last(), c).push(s.last())
    }
}

/// The last `c`-separated segment of a string.
pub fn last_segment(s: &str, c: char) -> (r: String)
    ensures
        r@ == after_last(s@, c),
{
    let cs = crate::text::chars_vec(s);
    let mut cur: Vec<char> = Vec::new();
    let mut i: usize = 0;
    assert(cs@.take(0) =~= Seq::<char>::empty());
    while i < cs.len()
        invariant
            cs@ == s@,
            0 <= i <= cs.len(),
            cur@ == after_last(cs@.take(i as int), c),
        decreases cs.len() - i,
    {
        assert(cs@.take(i + 1).drop_last() =~= cs@.take(i as int));
        assert(cs@.take(i + 1).last() == cs@[i as int]);
        if cs[i] == c {
            cur = Vec::new();
            assert(cur@ =~= Seq::<char>::empty());
        } else {
            cur.push(cs[i]);
        }
        i = i + 1;
    }
    assert(cs@.take(cs.len() as int) =~= cs@);
    crate::text::string_from_chars(cur.as_slice())
}

/// A string member, or a default where it is missing or not a string.
pub open spec fn str_or(v: Option<Seq<char>>, default: Seq<char>) -> Seq<char> {
    match v {
        Some(x) => x,
        None => default,
    }
}

/// The string items of an array value (others skipped); nothing for a
/// missing value or one that is not an array.
pub open spec fn str_items(v: Option<JsonData>) -> Seq<Seq<char>> {
    match v {
        Some(JsonData::Array(a)) => a.filter_map(|d: JsonData| d.as_str()),
        _ => Seq::empty(),
    }
}

/// The items of an array value; nothing for a missing value or one that is
/// not an array.
pub open spec fn array_items(v: Option<JsonData>) -> Seq<JsonData> {
    match v {
        Some(JsonData::Array(a)) => a,
        _ => Seq::empty(),
    }
}

/// Where a map gives a value for every item, `filter_map` keeps every item,
/// in order.
pub proof fn lemma_filter_map_total<A, B>(s: Seq<A>, f: spec_fn(A) -> Option<B>)
    requires
        forall|i: int| 0 <= i < s.len() ==> (#[trigger] f(s[i])) is Some,
    ensures
        s.filter_map(f).len() == s.len(),
        forall|i: int| 0 <= i < s.len() ==> Some(#[trigger] s.filter_map(f)[i]) == f(s[i]),
    decreases s.len(),
{
    if s.len() > 0 {
        let rest = s.drop_last();
        assert forall|i: int| 0 <= i < rest.len() implies (#[trigger] f(rest[i])) is Some by {
            assert(rest[i] == s[i]);
        }
        lemma_filter_map_total(rest, f);
        assert(f(s.last()) is Some);
        let last = f(s.last()).unwrap();
        assert(s.filter_map(f) == rest.filter_map(f) + seq![last]);
        assert forall|i: int| 0 <= i < s.len() implies Some(#[trigger] s.filter_map(f)[i]) == f(
            s[i],
        ) by {
            if i < rest.len() {
                assert(s.filter_map(f)[i] == rest.filter_map(f)[i]);
                assert(rest[i] == s[i]);
            }
        }
    }
}

fn str_or_default(v: Option<&String>, default: &str) -> (r: String)
    ensures
        r@ == str_or(
            match v {
                Some(x) => Some(x@),
                None => None,
            },
            default@,
        ),
{
    match v {
        Some(x) => x.clone(),
        None => to_string(default),
    }
}

/// The string items of an array value.
pub fn string_items(v: Option<&JsonValue>) -> (r: Vec<String>)
    ensures
        strings_view(r@) == str_items(
            match v {
                Some(x) => Some(x@),
                None => None,
            },
        ),
{
    let mut out: Vec<String> = Vec::new();
    match v {
        Some(JsonValue::Array(a)) => {
            let ghost d = items_data(a@);
            let ghost f = |x: JsonData| x.as_str();
            proof {
                assert(v.unwrap()@ == JsonData::Array(d)) by {
                    assert(v.unwrap()@.as_array() == Some(d));
                }
                assert(d.take(0) =~= Seq::<JsonData>::empty());
                assert(strings_view(out@) =~= Seq::<Seq<char>>::empty());
            }
            let mut i: usize = 0;
            while i < a.len()
                invariant
                    0 <= i <= a.len(),
                    d == items_data(a@),
                    f == (|x: JsonData| x.as_str()),
                    strings_view(out@) == d.take(i as int).filter_map(f),
                decreases a.len() - i,
            {
                proof {
                    d.lemma_filter_map_take_succ(f, i as int);
                }
                let ghost before = out@;
                match a[i].as_str() {
                    Some(x) => {
                        out.push(x.clone());
                        assert(strings_view(out@) =~= strings_view(before) + seq![x@]);
                    },
                    None => {},
                }
                i = i + 1;
            }
            assert(d.take(a.len() as int) =~= d);
            out
        },
        _ => {
            assert(strings_view(out@) =~= Seq::<Seq<char>>::empty());
            out
        },
    }
}

/// What Smithery reports of one server, as a registry entry; `None` for a
/// server without a string `qualifiedName`.
pub open spec fn smithery_entry(s: JsonData) -> Option<EntryView> {
    match s.get_str("qualifiedName"@) {
        None => None,
        Some(name) => {
            let description = str_or(s.get_str("description"@), ""@);
            let conns = array_items(s.get("connections"@));
            let plan: (Seq<char>, Option<Seq<char>>, Seq<Seq<char>>, Option<Seq<char>>) = if conns.len()
                > 0 {
                let c = conns[0];
                if str_or(c.get_str("type"@), "stdio"@) == "stdio"@ {
                    (
                        "stdio"@,
                        Some(str_or(c.get_str("command"@), "npx"@)),
                        str_items(c.get("args"@)),
                        None,
                    )
                } else {
                    ("http"@, None, Seq::empty(), c.get_str("url"@))
                }
            } else {
                ("stdio"@, Some("npx"@), seq!["-y"@, name], None)
            };
            Some(
                EntryView {
                    name: after_last(name, '/'),
                    description,
                    transport: plan.0,
                    command: plan.1,
                    args: plan.2,
                    url: plan.3,
                    headers: Seq::empty(),
                    env_vars: Seq::empty(),
                    keywords: Seq::empty(),
                    source: RegistrySource::Smithery,
                    trust_score: 700,
                    npm_package: Some(name),
                },
            )
        },
    }
}

/// The entries of a Smithery answer: its `servers` that have a name.
pub open spec fn smithery_entries(body: JsonData) -> Seq<EntryView> {
    array_items(body.get("servers"@)).filter_map(|s: JsonData| smithery_entry(s))
}

/// Reads one server of a Smithery answer.
pub fn smithery_entry_from(s: &JsonValue) -> (r: Option<RegistryEntry>)
    ensures
        match r {
            Some(e) => smithery_entry(s@) == Some(e@),
            None => smithery_entry(s@) is None,
        },
{
    let name = match s.get_str("qualifiedName") {
        Some(n) => n.clone(),
        None => {
            return None;
        },
    };
    let description = str_or_default(s.get_str("description"), "");
    let conn: Option<&JsonValue> = match s.get("connections") {
        Some(JsonValue::Array(a)) => {
            proof {
                let c = s@.get("connections"@).unwrap();
                assert(c.as_array() == Some(items_data(a@)));
            }
            if a.len() > 0 {
                Some(&a[0])
            } else {
                None
            }
        },
        _ => None,
    };
    let ghost conns = array_items(s@.get("connections"@));
    assert(conn is Some ==> conns.len() > 0 && conns[0] == conn.unwrap()@);
    assert(conn is None ==> conns.len() == 0);
    let (transport, command, args, url) = match conn {
        Some(c) => {
            let t = str_or_default(c.get_str("type"), "stdio");
            if crate::text::str_eq(t.as_str(), "stdio") {
                (
                    to_string("stdio"),
                    Some(str_or_default(c.get_str("command"), "npx")),
                    string_items(c.get("args")),
                    None,
                )
            } else {
                let url = match c.get_str("url") {
                    Some(u) => Some(u.clone()),
                    None => None,
                };
                (to_string("http"), None, Vec::new(), url)
            }
        },
        None => {
            let mut args: Vec<String> = Vec::new();
            args.push(to_string("-y"));
            args.push(name.clone());
            (to_string("stdio"), Some(to_string("npx")), args, None)
        },
    };
    let e = RegistryEntry {
        name: last_segment(name.as_str(), '/'),
        description,
        transport,
        command,
        args,
        url,
        headers: Vec::new(),
        env_vars: Vec::new(),
        keywords: Vec::new(),
        source: RegistrySource::Smithery,
        trust_score: 700,
        npm_package: Some(name),
    };
    proof {
        let ghost sv = smithery_entry(s@).unwrap();
        assert(sv.name == e@.name);
        assert(sv.description == e@.description);
        assert(sv.transport == e@.transport);
        assert(sv.command == e@.command);
        assert(sv.url == e@.url);
        assert(sv.args == e@.args);
        assert(sv.npm_package == e@.npm_package);
        assert(pairs_view(e.headers@) =~= Seq::empty());
        assert(strings_view(e.env_vars@) =~= Seq::empty());
        assert(strings_view(e.keywords@) =~= Seq::empty());
        if conn is None {
            assert(strings_view(e.args@) =~= seq!["-y"@, name@]);
        } else if !(e.transport@ == "stdio"@) {
            assert(strings_view(e.args@) =~= Seq::empty());
        }
    }
    Some(e)
}

/// Reads the entries of a Smithery answer.
pub fn smithery_entries_from(body: &JsonValue) -> (r: Vec<RegistryEntry>)
    ensures
        entries_view(r@) == smithery_entries(body@),
{
    let mut out: Vec<RegistryEntry> = Vec::new();
    let ghost f = |s: JsonData| smithery_entry(s);
    match body.get("servers") {
        Some(JsonValue::Array(a)) => {
            let ghost d = items_data(a@);
            proof {
                let v = body@.get("servers"@).unwrap();
                assert(v.as_array() == Some(d));
                assert(d.take(0) =~= Seq::<JsonData>::empty());
                assert(entries_view(out@) =~= Seq::<EntryView>::empty());
            }
            let mut i: usize = 0;
            while i < a.len()
                invariant
                    0 <= i <= a.len(),
                    d == items_data(a@),
                    f == (|s: JsonData| smithery_entry(s)),
                    entries_view(out@) == d.take(i as int).filter_map(f),
                decreases a.len() - i,
            {
                proof {
                    d.lemma_filter_map_take_succ(f, i as int);
                }
                let ghost before = out@;
                match smithery_entry_from(&a[i]) {
                    Some(e) => {
                        out.push(e);
                        assert(entries_view(out@) =~= entries_view(before) + seq![out@.last()@]);
                    },
                    None => {},
                }
                i = i + 1;
            }
            assert(d.take(a.len() as int) =~= d);
            out
        },
        _ => {
            assert(entries_view(out@) =~= Seq::<EntryView>::empty());
            out
        },
    }
}

/// What the official MCP Registry reports of one server; `None` for a
/// server without a string `name`.
pub open spec fn registry_entry(s: JsonData) -> Option<EntryView> {
    match s.get_str("name"@) {
        None => None,
        Some(name) => Some(
            EntryView {
                name,
                description: str_or(s.get_str("description"@), ""@),
                transport: "stdio"@,
                command: Some("npx"@),
                args: seq!["-y"@, name],
                url: None,
                headers: Seq::empty(),
                env_vars: Seq::empty(),
                keywords: Seq::empty(),
                source: RegistrySource::McpRegistry,
                trust_score: 800,
                npm_package: Some(name),
            },
        ),
    }
}

/// The servers of an MCP Registry answer: the answer itself when it is an
/// array, else its `servers` member.
pub open spec fn registry_servers(body: JsonData) -> Seq<JsonData> {
    match body {
        JsonData::Array(a) => a,
        _ => array_items(body.get("servers"@)),
    }
}

/// The entries of an MCP Registry answer: its servers that have a name.
pub open spec fn registry_entries(body: JsonData) -> Seq<EntryView> {
    registry_servers(body).filter_map(|s: JsonData| registry_entry(s))
}

/// The trust of an npm package from its search score, the score given in
/// hundredths of a thousand (`searchScore / 100`): that number kept between
/// 100 and 699, so that npm ranks below Smithery (700), the official
/// registry (800) and the built-in entries (1000).
pub open spec fn npm_trust(score: u64) -> u16 {
    if score < 100 {
        100
    } else if score > 699 {
        699
    } else {
        score as u16
    }
}

fn npm_trust_of(score: u64) -> (r: u16)
    ensures
        r == npm_trust(score),
{
    if score < 100 {
        100
    } else if score > 699 {
        699
    } else {
        score as u16
    }
}

/// What npm reports of one package, with the trust that its search score
/// gives (see `npm_trust`); `None` without a `package` that has a string
/// `name`.
pub open spec fn npm_entry(obj: JsonData, score: u64) -> Option<EntryView> {
    match obj.get("package"@) {
        None => None,
        Some(pkg) => match pkg.get_str("name"@) {
            None => None,
            Some(name) => Some(
                EntryView {
                    name: after_last(name, '/'),
                    description: str_or(pkg.get_str("description"@), ""@),
                    transport: "stdio"@,
                    command: Some("npx"@),
                    args: seq!["-y"@, name],
                    url: None,
                    headers: Seq::empty(),
                    env_vars: Seq::empty(),
                    keywords: str_items(pkg.get("keywords"@)),
                    source: RegistrySource::Npm,
                    trust_score: npm_trust(score),
                    npm_package: Some(name),
                },
            ),
        },
    }
}

/// The objects of an npm search answer.
pub open spec fn npm_objects_spec(body: JsonData) -> Seq<JsonData> {
    array_items(body.get("objects"@))
}

fn npx_args(name: &String) -> (r: Vec<String>)
    ensures
        strings_view(r@) == seq!["-y"@, name@],
{
    let mut args: Vec<String> = Vec::new();
    args.push(to_string("-y"));
    args.push(name.clone());
    assert(strings_view(args@) =~= seq!["-y"@, name@]);
    args
}

proof fn lemma_empty_lists(e: RegistryEntry)
    requires
        e.headers@.len() == 0,
        e.env_vars@.len() == 0,
    ensures
        pairs_view(e.headers@) == Seq::<(Seq<char>, Seq<char>)>::empty(),
        strings_view(e.env_vars@) == Seq::<Seq<char>>::empty(),
{
    assert(pairs_view(e.headers@) =~= Seq::<(Seq<char>, Seq<char>)>::empty());
    assert(strings_view(e.env_vars@) =~= Seq::<Seq<char>>::empty());
}

/// Reads one server of an MCP Registry answer.
pub fn registry_entry_from(s: &JsonValue) -> (r: Option<RegistryEntry>)
    ensures
        match r {
            Some(e) => registry_entry(s@) == Some(e@),
            None => registry_entry(s@) is None,
        },
{
    let name = match s.get_str("name") {
        Some(n) => n.clone(),
        None => {
            return None;
        },
    };
    let e = RegistryEntry {
        name: name.clone(),
        description: str_or_default(s.get_str("description"), ""),
        transport: to_string("stdio"),
        command: Some(to_string("npx")),
        args: npx_args(&name),
        url: None,
        headers: Vec::new(),
        env_vars: Vec::new(),
        keywords: Vec::new(),
        source: RegistrySource::McpRegistry,
        trust_score: 800,
        npm_package: Some(name),
    };
    proof {
        lemma_empty_lists(e);
        assert(strings_view(e.keywords@) =~= Seq::empty());
    }
    Some(e)
}

/// Reads one package of an npm search answer, given its search score in
/// hundredths of a thousand (`searchScore / 100`).
pub fn npm_entry_from(obj: &JsonValue, score: u64) -> (r: Option<RegistryEntry>)
    ensures
        match r {
            Some(e) => npm_entry(obj@, score) == Some(e@) && 100 <= e.trust_score < 700,
            None => npm_entry(obj@, score) is None,
        },
{
    let pkg = match obj.get("package") {
        Some(p) => p,
        None => {
            return None;
        },
    };
    let name = match pkg.get_str("name") {
        Some(n) => n.clone(),
        None => {
            return None;
        },
    };
    let e = RegistryEntry {
        name: last_segment(name.as_str(), '/'),
        description: str_or_default(pkg.get_str("description"), ""),
        transport: to_string("stdio"),
        command: Some(to_string("npx")),
        args: npx_args(&name),
        url: None,
        headers: Vec::new(),
        env_vars: Vec::new(),
        keywords: string_items(pkg.get("keywords")),
        source: RegistrySource::Npm,
        trust_score: npm_trust_of(score),
        npm_package: Some(name),
    };
    proof {
        lemma_empty_lists(e);
    }
    Some(e)
}

/// The objects of an npm search answer (`objects`, or nothing).
pub fn npm_objects(body: &JsonValue) -> (r: Vec<JsonValue>)
    ensures
        items_data(r@) == npm_objects_spec(body@),
{
    match body.get("objects") {
        Some(JsonValue::Array(a)) => {
            proof {
                assert(body@.get("objects"@).unwrap().as_array() == Some(items_data(a@)));
            }
            let mut out: Vec<JsonValue> = Vec::new();
            let mut i: usize = 0;
            while i < a.len()
                invariant
                    0 <= i <= a.len(),
                    out@.len() == i,
                    forall|j: int| 0 <= j < i ==> #[trigger] out@[j]@ == a@[j]@,
                decreases a.len() - i,
            {
                out.push(a[i].clone_value());
                i = i + 1;
            }
            assert(items_data(out@) =~= items_data(a@));
            out
        },
        _ => {
            let out: Vec<JsonValue> = Vec::new();
            assert(items_data(out@) =~= Seq::<JsonData>::empty());
            out
        },
    }
}

/// Reads the entries of an MCP Registry answer.
pub fn registry_entries_from(body: &JsonValue) -> (r: Vec<RegistryEntry>)
    ensures
        entries_view(r@) == registry_entries(body@),
{
    let mut out: Vec<RegistryEntry> = Vec::new();
    let ghost f = |s: JsonData| registry_entry(s);
    let servers: &Vec<JsonValue> = match body {
        JsonValue::Array(a) => {
            assert(body@.as_array() == Some(items_data(a@)));
            a
        },
        _ => match body.get("servers") {
            Some(JsonValue::Array(a)) => {
                assert(body@.get("servers"@).unwrap().as_array() == Some(items_data(a@)));
                a
            },
            _ => {
                assert(entries_view(out@) =~= Seq::<EntryView>::empty());
                assert(registry_servers(body@) =~= Seq::<JsonData>::empty());
                return out;
            },
        },
    };
    let ghost d = items_data(servers@);
    assert(d == registry_servers(body@));
    assert(d.take(0) =~= Seq::<JsonData>::empty());
    assert(entries_view(out@) =~= Seq::<EntryView>::empty());
    let mut i: usize = 0;
    while i < servers.len()
        invariant
            0 <= i <= servers.len(),
            d == items_data(servers@),
            f == (|s: JsonData| registry_entry(s)),
            entries_view(out@) == d.take(i as int).filter_map(f),
        decreases servers.len() - i,
    {
        proof {
            d.lemma_filter_map_take_succ(f, i as int);
        }
        let ghost before = out@;
        match registry_entry_from(&servers[i]) {
            Some(e) => {
                out.push(e);
                assert(entries_view(out@) =~= entries_view(before) + seq![out@.last()@]);
            },
            None => {},
        }
        i = i + 1;
    }
    assert(d.take(servers.len() as int) =~= d);
    out
}

// ── reading answer bodies ──────────────────────────────────────────

/// The error of an answer body that is not JSON: `<source> JSON parse
/// error: ` and the parser's message.
pub open spec fn parse_error_of(r: McpError, source: Seq<char>) -> bool {
    r is Registry && exists|m: Seq<char>| r.detail_spec() == #[trigger] (source
        + " JSON parse error: "@ + m)
}

fn registry_parse_error(source: &str, msg: &String) -> (r: McpError)
    ensures
        parse_error_of(r, source@),
{
    let mut t = concat(source, " JSON parse error: ");
    crate::text::push_str(&mut t, msg.as_str());
    assert(t@ == source@ + " JSON parse error: "@ + msg@);
    McpError::Registry(t)
}

/// Reads the entries of a Smithery answer body; a parse error where the
/// body is not JSON.
pub fn smithery_entries_from_text(body: &str) -> (r: Result<Vec<RegistryEntry>, McpError>)
    ensures
        match json_parse(body@) {
            Some(d) => r matches Ok(es) && entries_view(es@) == smithery_entries(d),
            None => r matches Err(e) && parse_error_of(e, "Smithery"@),
        },
{
    match parse_json(body) {
        Ok(v) => Ok(smithery_entries_from(&v)),
        Err(msg) => Err(registry_parse_error("Smithery", &msg)),
    }
}

/// Reads the package objects of an npm search answer body; a parse error
/// where the body is not JSON.
pub fn npm_objects_from_text(body: &str) -> (r: Result<Vec<JsonValue>, McpError>)
    ensures
        match json_parse(body@) {
            Some(d) => r matches Ok(os) && items_data(os@) == npm_objects_spec(d),
            None => r matches Err(e) && parse_error_of(e, "npm"@),
        },
{
    match parse_json(body) {
        Ok(v) => Ok(npm_objects(&v)),
        Err(msg) => Err(registry_parse_error("npm", &msg)),
    }
}

/// Reads the entries of an MCP Registry answer body; a parse error where
/// the body is not JSON.
pub fn registry_entries_from_text(body: &str) -> (r: Result<Vec<RegistryEntry>, McpError>)
    ensures
        match json_parse(body@) {
            Some(d) => r matches Ok(es) && entries_view(es@) == registry_entries(d),
            None => r matches Err(e) && parse_error_of(e, "MCP Registry"@),
        },
{
    match parse_json(body) {
        Ok(v) => Ok(registry_entries_from(&v)),
        Err(msg) => Err(registry_parse_error("MCP Registry", &msg)),
    }
}

/// The entries of npm package objects, each with its search score (in
/// hundredths of a thousand), in order; objects without a package name are
/// left out.
pub open spec fn npm_entries(objects: Seq<JsonData>, scores: Seq<u64>) -> Seq<EntryView>
    decreases objects.len(),
{
    if objects.len() == 0 {
        Seq::empty()
    } else {
        npm_entries(objects.drop_last(), scores.take(objects.len() - 1)) + match npm_entry(
            objects.last(),
            scores[objects.len() - 1],
        ) {
            Some(e) => seq![e],
            None => Seq::empty(),
        }
    }
}

/// Reads npm package objects, each with its search score.
pub fn npm_entries_from(objects: &Vec<JsonValue>, scores: &Vec<u64>) -> (r: Vec<RegistryEntry>)
    requires
        scores@.len() == objects@.len(),
    ensures
        entries_view(r@) == npm_entries(items_data(objects@), scores@),
        forall|i: int| 0 <= i < r@.len() ==> 100 <= #[trigger] r@[i].trust_score < 700,
{
    let ghost d = items_data(objects@);
    let mut out: Vec<RegistryEntry> = Vec::new();
    let mut i: usize = 0;
    assert(entries_view(out@) =~= npm_entries(d.take(0), scores@.take(0)));
    while i < objects.len()
        invariant
            0 <= i <= objects.len(),
            scores@.len() == objects@.len(),
            d == items_data(objects@),
            entries_view(out@) == npm_entries(d.take(i as int), scores@.take(i as int)),
            forall|j: int| 0 <= j < out@.len() ==> 100 <= #[trigger] out@[j].trust_score < 700,
        decreases objects.len() - i,
    {
        proof {
            let t = d.take(i + 1);
            assert(t.drop_last() =~= d.take(i as int));
            assert(scores@.take(i + 1).take(i as int) =~= scores@.take(i as int));
            assert(t.last() == objects@[i as int]@);
            assert(scores@.take(i + 1)[i as int] == scores@[i as int]);
        }
        let ghost before = out@;
        match npm_entry_from(&objects[i], scores[i]) {
            Some(e) => {
                out.push(e);
                assert(entries_view(out@) =~= entries_view(before) + seq![e@]);
            },
            None => {
                assert(entries_view(out@) =~= entries_view(before) + Seq::<EntryView>::empty());
            },
        }
        i = i + 1;
    }
    assert(d.take(objects.len() as int) =~= d);
    assert(scores@.take(objects.len() as int) =~= scores@);
    out
}

// ── laws ───────────────────────────────────────────────────────────

/// Trust follows the source, builtin > official > Smithery > npm: every
/// built-in entry is fully trusted (1000), an official MCP Registry entry
/// scores 800, a Smithery entry 700, and an npm entry between 100 and 699.
pub proof fn law_trust_by_source(s: JsonData, score: u64, i: int)
    requires
        0 <= i < crate::registry::builtin::builtin_table().len(),
    ensures
        crate::registry::builtin::builtin_table()[i].trust_score == 1000,
        crate::registry::builtin::builtin_table()[i].source == RegistrySource::Builtin,
        registry_entry(s) matches Some(e) ==> e.trust_score == 800 && e.source
            == RegistrySource::McpRegistry,
        smithery_entry(s) matches Some(e) ==> e.trust_score == 700 && e.source
            == RegistrySource::Smithery,
        npm_entry(s, score) matches Some(e) ==> 100 <= e.trust_score < 700 && e.source
            == RegistrySource::Npm,
{
}

// ── laws of the query encoding ─────────────────────────────────────

/// The value of a hexadecimal digit.
pub open spec fn hex_value(c: char) -> int {
    if '0' <= c && c <= '9' {
        c as int - 48
    } else if 'A' <= c && c <= 'F' {
        c as int - 55
    } else if 'a' <= c && c <= 'f' {
        c as int - 87
    } else {
        0
    }
}

/// Decoding of an encoded query: `%XX` is the byte `XX`, `+` a space, and
/// any other character the byte of its code.
pub open spec fn decode_query(s: Seq<char>) -> Seq<u8>
    decreases s.len(),
{
    if s.len() == 0 {
        Seq::empty()
    } else if s[0] == '%' && s.len() >= 3 {
        seq![(16 * hex_value(s[1]) + hex_value(s[2])) as u8] + decode_query(s.skip(3))
    } else if s[0] == '+' {
        seq![32u8] + decode_query(s.skip(1))
    } else {
        seq![s[0] as u8] + decode_query(s.skip(1))
    }
}

/// The characters an encoded query is made of.
pub open spec fn query_char(c: char) -> bool {
    ||| '0' <= c && c <= '9'
    ||| 'A' <= c && c <= 'Z'
    ||| 'a' <= c && c <= 'z'
    ||| c == '-' || c == '_' || c == '.' || c == '~' || c == '+' || c == '%'
}

/// The length of the encoding: one character for an unreserved byte or a
/// space, three for any other byte.
pub open spec fn encoded_len(bs: Seq<u8>) -> nat
    decreases bs.len(),
{
    if bs.len() == 0 {
        0
    } else {
        encoded_len(bs.drop_last()) + if unreserved(bs.last()) || bs.last() == 32 {
            1nat
        } else {
            3nat
        }
    }
}

proof fn lemma_hex_digit(d: int)
    requires
        0 <= d < 16,
    ensures
        hex_value(crate::text::hex_digit_upper(d)) == d,
        query_char(crate::text::hex_digit_upper(d)),
{
}

proof fn lemma_decode_byte(b: u8, rest: Seq<char>)
    ensures
        decode_query(encode_byte(b) + rest) == seq![b] + decode_query(rest),
{
    let x = encode_byte(b) + rest;
    if unreserved(b) {
        assert(x[0] == b as char);
        assert((b as char) as u8 == b);
        assert(x.skip(1) =~= rest);
    } else if b == 32 {
        assert(x[0] == '+');
        assert(x.skip(1) =~= rest);
    } else {
        let hi = (b / 16) as int;
        let lo = (b % 16) as int;
        lemma_hex_digit(hi);
        lemma_hex_digit(lo);
        assert(x[0] == '%');
        assert(x[1] == crate::text::hex_digit_upper(hi));
        assert(x[2] == crate::text::hex_digit_upper(lo));
        assert((16 * hi + lo) as u8 == b);
        assert(x.skip(3) =~= rest);
    }
}

proof fn lemma_decode_bytes(bs: Seq<u8>, rest: Seq<char>)
    ensures
        decode_query(encode_bytes(bs) + rest) == bs + decode_query(rest),
    decreases bs.len(),
{
    if bs.len() == 0 {
        assert(encode_bytes(bs) + rest =~= rest);
        assert(bs + decode_query(rest) =~= decode_query(rest));
    } else {
        let p = bs.drop_last();
        let t = encode_byte(bs.last()) + rest;
        assert(encode_bytes(bs) + rest =~= encode_bytes(p) + t);
        lemma_decode_bytes(p, t);
        lemma_decode_byte(bs.last(), rest);
        assert(p + (seq![bs.last()] + decode_query(rest)) =~= bs + decode_query(rest));
    }
}

/// Decoding an encoded query gives back its bytes: the encoding loses
/// nothing, and two byte sequences never encode alike.
pub proof fn law_encode_decodes(bs: Seq<u8>)
    ensures
        decode_query(encode_bytes(bs)) == bs,
{
    lemma_decode_bytes(bs, Seq::empty());
    assert(encode_bytes(bs) + Seq::<char>::empty() =~= encode_bytes(bs));
    assert(bs + decode_query(Seq::<char>::empty()) =~= bs);
}

/// An encoded query holds only ASCII letters and digits, `-`, `_`, `.`,
/// `~`, `+` and `%`, and it is one character long per unreserved byte or
/// space and three per other byte.
pub proof fn law_encode_alphabet_and_length(bs: Seq<u8>)
    ensures
        forall|i: int| 0 <= i < encode_bytes(bs).len() ==> query_char(#[trigger] encode_bytes(bs)[i]),
        encode_bytes(bs).len() == encoded_len(bs),
    decreases bs.len(),
{
    if bs.len() > 0 {
        let p = bs.drop_last();
        let b = bs.last();
        law_encode_alphabet_and_length(p);
        let e = encode_byte(b);
        if !unreserved(b) && b != 32 {
            lemma_hex_digit((b / 16) as int);
            lemma_hex_digit((b % 16) as int);
        }
        assert forall|j: int| 0 <= j < e.len() implies query_char(#[trigger] e[j]) by {
            if unreserved(b) {
                assert(e[j] == b as char);
            }
        }
        assert forall|i: int| 0 <= i < encode_bytes(bs).len() implies query_char(
            #[trigger] encode_bytes(bs)[i],
        ) by {
            if i < encode_bytes(p).len() {
                assert(encode_bytes(bs)[i] == encode_bytes(p)[i]);
            } else {
                assert(encode_bytes(bs)[i] == e[i - encode_bytes(p).len()]);
            }
        }
    }
}

/// An upper-case hexadecimal digit.
pub open spec fn upper_hex(c: char) -> bool {
    ('0' <= c && c <= '9') || ('A' <= c && c <= 'F')
}

/// Every `%` of an encoded query is followed by two upper-case hexadecimal
/// digits.
pub proof fn law_encode_escapes(bs: Seq<u8>)
    ensures
        forall|i: int|
            #![trigger encode_bytes(bs)[i]]
            0 <= i < encode_bytes(bs).len() && encode_bytes(bs)[i] == '%' ==> i + 2
                < encode_bytes(bs).len() && upper_hex(encode_bytes(bs)[i + 1]) && upper_hex(
                encode_bytes(bs)[i + 2],
            ),
    decreases bs.len(),
{
    if bs.len() > 0 {
        let p = bs.drop_last();
        let b = bs.last();
        let ep = encode_bytes(p);
        let e = encode_byte(b);
        let all = encode_bytes(bs);
        law_encode_escapes(p);
        assert(all == ep + e);
        if !unreserved(b) && b != 32 {
            lemma_hex_digit((b / 16) as int);
            lemma_hex_digit((b % 16) as int);
        }
        assert forall|i: int|
            #![trigger all[i]]
            0 <= i < all.len() && all[i] == '%' implies i + 2 < all.len() && upper_hex(all[i + 1])
                && upper_hex(all[i + 2]) by {
            if i < ep.len() {
                assert(all[i] == ep[i]);
                assert(ep[i] == '%');
                assert(all[i + 1] == ep[i + 1]);
                assert(all[i + 2] == ep[i + 2]);
            } else {
                assert(all[i] == e[i - ep.len()]);
                if unreserved(b) {
                    assert(e[0] == b as char);
                } else if b == 32 {
                } else {
                    assert(i - ep.len() == 0);
                    assert(all[i + 1] == e[1]);
                    assert(all[i + 2] == e[2]);
                }
            }
        }
    }
}


/// Every Smithery server that has a string `qualifiedName` is read, in
/// order, into a Smithery entry named after the last `/` segment of that
/// name: with the server's description where it is a string (else empty),
/// trust 700, and the full name as its package.
pub proof fn law_smithery_servers_read(body: JsonData)
    requires
        forall|i: int|
            0 <= i < array_items(body.get("servers"@)).len() ==> (#[trigger] array_items(
                body.get("servers"@),
            )[i]).get_str("qualifiedName"@) is Some,
    ensures
        smithery_entries(body).len() == array_items(body.get("servers"@)).len(),
        forall|i: int|
            0 <= i < smithery_entries(body).len() ==> {
                let s = array_items(body.get("servers"@))[i];
                let e = #[trigger] smithery_entries(body)[i];
                &&& e.npm_package == s.get_str("qualifiedName"@)
                &&& e.name == after_last(s.get_str("qualifiedName"@).unwrap(), '/')
                &&& (s.get_str("description"@) is Some ==> e.description == s.get_str(
                    "description"@,
                ).unwrap())
                &&& (s.get_str("description"@) is None ==> e.description == ""@)
                &&& e.source == RegistrySource::Smithery
                &&& e.trust_score == 700
            },
{
    let d = array_items(body.get("servers"@));
    let f = |s: JsonData| smithery_entry(s);
    assert forall|i: int| 0 <= i < d.len() implies (#[trigger] f(d[i])) is Some by {
        assert(d[i].get_str("qualifiedName"@) is Some);
    }
    lemma_filter_map_total(d, f);
    assert forall|i: int| 0 <= i < smithery_entries(body).len() implies {
        let s = d[i];
        let e = #[trigger] smithery_entries(body)[i];
        &&& e.npm_package == s.get_str("qualifiedName"@)
        &&& e.name == after_last(s.get_str("qualifiedName"@).unwrap(), '/')
        &&& (s.get_str("description"@) is Some ==> e.description == s.get_str(
            "description"@,
        ).unwrap())
        &&& (s.get_str("description"@) is None ==> e.description == ""@)
        &&& e.source == RegistrySource::Smithery
        &&& e.trust_score == 700
    } by {
        assert(Some(d.filter_map(f)[i]) == f(d[i]));
    }
}

} // verus!
