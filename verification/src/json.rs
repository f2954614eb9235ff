//! A JSON value model for the protocol logic, and the two calls into
//! `serde_json` that read and write JSON text.

use vstd::prelude::*;

verus! {

/// The mathematical content of a JSON value.
pub enum JsonData {
    Null,
    Bool(bool),
    /// An integer (what `serde_json` keeps as a `u64` or an `i64`).
    Int(int),
    /// A number with a fraction or exponent, by its text.
    Float(Seq<char>),
    Str(Seq<char>),
    Array(Seq<JsonData>),
    /// Members in order; a key stands at most once in what the parser gives.
    Object(Seq<(Seq<char>, JsonData)>),
}

/// A JSON number as `serde_json` holds it.
#[derive(Debug, Clone)]
pub enum JsonNumber {
    /// A non-negative integer.
    PosInt(u64),
    /// A negative integer.
    NegInt(i64),
    /// Any other number, by its text.
    Float(String),
}

/// A JSON value.
#[derive(Debug)]
pub enum JsonValue {
    Null,
    Bool(bool),
    Number(JsonNumber),
    String(String),
    Array(Vec<JsonValue>),
    Object(Vec<(String, JsonValue)>),
}

impl JsonNumber {
    pub open spec fn data(&self) -> JsonData {
        match self {
            JsonNumber::PosInt(u) => JsonData::Int(*u as int),
            JsonNumber::NegInt(i) => JsonData::Int(*i as int),
            JsonNumber::Float(s) => JsonData::Float(s@),
        }
    }
}

impl JsonValue {
    pub open spec fn data(&self) -> JsonData
        decreases self,
    {
        match self {
            JsonValue::Null => JsonData::Null,
            JsonValue::Bool(b) => JsonData::Bool(*b),
            JsonValue::Number(n) => n.data(),
            JsonValue::String(s) => JsonData::Str(s@),
            JsonValue::Array(items) => JsonData::Array(
                Seq::new(
                    items@.len(),
                    |i: int| if 0 <= i < items@.len() { items@[i].data() } else { JsonData::Null },
                ),
            ),
            JsonValue::Object(members) => JsonData::Object(
                Seq::new(
                    members@.len(),
                    |i: int|
                        if 0 <= i < members@.len() {
                            (members@[i].0@, members@[i].1.data())
                        } else {
                            (Seq::empty(), JsonData::Null)
                        },
                ),
            ),
        }
    }
}

impl Clone for JsonValue {
    fn clone(&self) -> (r: Self)
        ensures
            r@ == self@,
    {
        self.clone_value()
    }
}

impl View for JsonValue {
    type V = JsonData;

    open spec fn view(&self) -> JsonData {
        self.data()
    }
}


/// The value of the first member named `key`.
pub open spec fn lookup(members: Seq<(Seq<char>, JsonData)>, key: Seq<char>) -> Option<JsonData>
    decreases members.len(),
{
    if members.len() == 0 {
        None
    } else if members[0].0 == key {
        Some(members[0].1)
    } else {
        lookup(members.drop_first(), key)
    }
}

/// The content of the members of an object.
pub open spec fn members_data(members: Seq<(String, JsonValue)>) -> Seq<(Seq<char>, JsonData)> {
    Seq::new(members.len(), |i: int| (members[i].0@, members[i].1@))
}

/// The content of the items of an array.
pub open spec fn items_data(items: Seq<JsonValue>) -> Seq<JsonData> {
    Seq::new(items.len(), |i: int| items[i]@)
}

/// The content of an optional value.
pub open spec fn opt_data(v: Option<JsonValue>) -> Option<JsonData> {
    match v {
        Some(x) => Some(x@),
        None => None,
    }
}

impl JsonData {
    /// `Value::get` with a string key: the member of an object.
    pub open spec fn get(self, key: Seq<char>) -> Option<JsonData> {
        match self {
            JsonData::Object(m) => lookup(m, key),
            _ => None,
        }
    }

    pub open spec fn as_str(self) -> Option<Seq<char>> {
        match self {
            JsonData::Str(s) => Some(s),
            _ => None,
        }
    }

    pub open spec fn as_array(self) -> Option<Seq<JsonData>> {
        match self {
            JsonData::Array(a) => Some(a),
            _ => None,
        }
    }

    pub open spec fn as_bool(self) -> Option<bool> {
        match self {
            JsonData::Bool(b) => Some(b),
            _ => None,
        }
    }

    /// `Value::as_i64`: an integer within `i64`.
    pub open spec fn as_i64(self) -> Option<int> {
        match self {
            JsonData::Int(i) => if i64::MIN <= i <= i64::MAX {
                Some(i)
            } else {
                None
            },
            _ => None,
        }
    }

    /// The string member `key`, if it is a string.
    pub open spec fn get_str(self, key: Seq<char>) -> Option<Seq<char>> {
        match self.get(key) {
            Some(v) => v.as_str(),
            None => None,
        }
    }
}

proof fn lemma_object_data(members: Vec<(String, JsonValue)>)
    ensures
        JsonValue::Object(members)@ == JsonData::Object(members_data(members@)),
{
    let d = JsonValue::Object(members).data();
    if let JsonData::Object(s) = d {
        assert(s =~= members_data(members@));
    }
}

proof fn lemma_array_data(items: Vec<JsonValue>)
    ensures
        JsonValue::Array(items)@ == JsonData::Array(items_data(items@)),
{
    let d = JsonValue::Array(items).data();
    if let JsonData::Array(s) = d {
        assert(s =~= items_data(items@));
    }
}

impl JsonValue {
    /// `null`.
    pub fn null() -> (r: JsonValue)
        ensures
            r@ == JsonData::Null,
    {
        JsonValue::Null
    }

    /// A non-negative integer.
    pub fn from_u64(n: u64) -> (r: JsonValue)
        ensures
            r@ == JsonData::Int(n as int),
    {
        JsonValue::Number(JsonNumber::PosInt(n))
    }

    /// An integer, kept the way `serde_json` keeps it.
    pub fn from_i64(n: i64) -> (r: JsonValue)
        ensures
            r@ == JsonData::Int(n as int),
    {
        if n >= 0 {
            JsonValue::Number(JsonNumber::PosInt(n as u64))
        } else {
            JsonValue::Number(JsonNumber::NegInt(n))
        }
    }

    /// A string.
    pub fn from_str(s: &str) -> (r: JsonValue)
        ensures
            r@ == JsonData::Str(s@),
    {
        JsonValue::String(crate::text::to_string(s))
    }

    /// An object with the given members.
    pub fn object(members: Vec<(String, JsonValue)>) -> (r: JsonValue)
        ensures
            r@ == JsonData::Object(members_data(members@)),
    {
        proof {
            lemma_object_data(members);
        }
        JsonValue::Object(members)
    }

    /// An array with the given items.
    pub fn array(items: Vec<JsonValue>) -> (r: JsonValue)
        ensures
            r@ == JsonData::Array(items_data(items@)),
    {
        proof {
            lemma_array_data(items);
        }
        JsonValue::Array(items)
    }

    /// A copy with the same content.
    pub fn clone_value(&self) -> (r: JsonValue)
        ensures
            r@ == self@,
        decreases self,
    {
        match self {
            JsonValue::Null => JsonValue::Null,
            JsonValue::Bool(b) => JsonValue::Bool(*b),
            JsonValue::Number(JsonNumber::PosInt(u)) => JsonValue::Number(JsonNumber::PosInt(*u)),
            JsonValue::Number(JsonNumber::NegInt(i)) => JsonValue::Number(JsonNumber::NegInt(*i)),
            JsonValue::Number(JsonNumber::Float(t)) => JsonValue::Number(
                JsonNumber::Float(t.clone()),
            ),
            JsonValue::String(t) => JsonValue::String(t.clone()),
            JsonValue::Array(items) => {
                let mut out: Vec<JsonValue> = Vec::new();
                let mut i: usize = 0;
                while i < items.len()
                    invariant
                        *self == JsonValue::Array(*items),
                        0 <= i <= items.len(),
                        out@.len() == i,
                        forall|j: int| 0 <= j < i ==> #[trigger] out@[j]@ == items@[j]@,
                    decreases items.len() - i,
                {
                    proof {
                        assert(decreases_to!(*items => items@));
                        assert(decreases_to!(items@ => items@[i as int]));
                        assert(decreases_to!(*self => self->Array_0));
                    }
                    out.push(items[i].clone_value());
                    i = i + 1;
                }
                proof {
                    lemma_array_data(*items);
                    lemma_array_data(out);
                    assert(items_data(out@) =~= items_data(items@));
                }
                JsonValue::Array(out)
            },
            JsonValue::Object(members) => {
                let mut out: Vec<(String, JsonValue)> = Vec::new();
                let mut i: usize = 0;
                while i < members.len()
                    invariant
                        *self == JsonValue::Object(*members),
                        0 <= i <= members.len(),
                        out@.len() == i,
                        forall|j: int|
                            0 <= j < i ==> #[trigger] out@[j].0@ == members@[j].0@ && out@[j].1@
                                == members@[j].1@,
                    decreases members.len() - i,
                {
                    proof {
                        assert(decreases_to!(*members => members@));
                        assert(decreases_to!(members@ => members@[i as int]));
                        assert(decreases_to!(members@[i as int] => members@[i as int].1));
                        assert(decreases_to!(*self => self->Object_0));
                    }
                    let v = members[i].1.clone_value();
                    out.push((members[i].0.clone(), v));
                    i = i + 1;
                }
                proof {
                    lemma_object_data(*members);
                    lemma_object_data(out);
                    assert(members_data(out@) =~= members_data(members@));
                }
                JsonValue::Object(out)
            },
        }
    }

    /// `Value::get` with a string key.
    pub fn get<'a>(&'a self, key: &str) -> (r: Option<&'a JsonValue>)
        ensures
            match r {
                Some(v) => self@.get(key@) == Some(v@),
                None => self@.get(key@) is None,
            },
    {
        match self {
            JsonValue::Object(members) => {
                proof {
                    lemma_object_data(*members);
                }
                let ghost m = members_data(members@);
                let mut i: usize = 0;
                assert(m.skip(0) =~= m);
                while i < members.len()
                    invariant
                        self@ == JsonData::Object(m),
                        0 <= i <= members.len(),
                        m == members_data(members@),
                        lookup(m, key@) == lookup(m.skip(i as int), key@),
                    decreases members.len() - i,
                {
                    assert(m.skip(i as int)[0] == m[i as int]);
                    if crate::text::str_eq(members[i].0.as_str(), key) {
                        return Some(&members[i].1);
                    }
                    assert(m.skip(i as int).drop_first() =~= m.skip(i + 1));
                    i = i + 1;
                }
                None
            },
            _ => None,
        }
    }

    /// `Value::as_str`.
    pub fn as_str(&self) -> (r: Option<&String>)
        ensures
            match r {
                Some(s) => self@.as_str() == Some(s@),
                None => self@.as_str() is None,
            },
    {
        match self {
            JsonValue::String(s) => Some(s),
            _ => None,
        }
    }

    /// `Value::as_array`.
    pub fn as_array(&self) -> (r: Option<&Vec<JsonValue>>)
        ensures
            match r {
                Some(a) => self@.as_array() == Some(items_data(a@)),
                None => self@.as_array() is None,
            },
    {
        match self {
            JsonValue::Array(a) => {
                proof {
                    lemma_array_data(*a);
                }
                Some(a)
            },
            _ => None,
        }
    }

    /// `Value::as_bool`.
    pub fn as_bool(&self) -> (r: Option<bool>)
        ensures
            r == self@.as_bool(),
    {
        match self {
            JsonValue::Bool(b) => Some(*b),
            _ => None,
        }
    }

    /// `Value::as_i64`.
    pub fn as_i64(&self) -> (r: Option<i64>)
        ensures
            match r {
                Some(i) => self@.as_i64() == Some(i as int),
                None => self@.as_i64() is None,
            },
    {
        match self {
            JsonValue::Number(JsonNumber::PosInt(u)) => if *u <= 9223372036854775807u64 {
                Some(*u as i64)
            } else {
                None
            },
            JsonValue::Number(JsonNumber::NegInt(i)) => Some(*i),
            _ => None,
        }
    }

    /// The string member `key` of an object, if it is a string.
    pub fn get_str<'a>(&'a self, key: &str) -> (r: Option<&'a String>)
        ensures
            match r {
                Some(s) => self@.get_str(key@) == Some(s@),
                None => self@.get_str(key@) is None,
            },
    {
        match self.get(key) {
            Some(v) => v.as_str(),
            None => None,
        }
    }
}

/// Adds a member to the members of an object being built.
pub fn push_member(members: &mut Vec<(String, JsonValue)>, key: &str, v: JsonValue)
    ensures
        members_data(final(members)@) == members_data(old(members)@).push((key@, v@)),
{
    members.push((crate::text::to_string(key), v));
    assert(members_data(members@) =~= members_data(old(members)@).push((key@, v@)));
}

// ── reading and writing JSON text with `serde_json` ────────────────

#[verifier::external_type_specification]
#[verifier::external_body]
pub struct ExSerdeJsonValue(serde_json::Value);

/// What `serde_json::from_str::<serde_json::Value>` makes of a text:
/// `None` where it reports an error.
pub uninterp spec fn json_parse(text: Seq<char>) -> Option<JsonData>;

/// The compact text that `serde_json::to_string` writes for a value.
pub uninterp spec fn json_text(v: JsonData) -> Seq<char>;

/// Moves a `serde_json` value into the library's model, one node for one
/// node (the reading half of `parse_json`).
#[verifier::external_body]
fn from_serde(v: serde_json::Value) -> JsonValue {
    match v {
        serde_json::Value::Null => JsonValue::Null,
        serde_json::Value::Bool(b) => JsonValue::Bool(b),
        serde_json::Value::Number(n) => JsonValue::Number(match (n.as_u64(), n.as_i64()) {
            (Some(u), _) => JsonNumber::PosInt(u),
            (None, Some(i)) => JsonNumber::NegInt(i),
            (None, None) => JsonNumber::Float(n.to_string()),
        }),
        serde_json::Value::String(s) => JsonValue::String(s),
        serde_json::Value::Array(a) => JsonValue::Array(a.into_iter().map(from_serde).collect()),
        serde_json::Value::Object(m) => JsonValue::Object(
            m.into_iter().map(|(k, x)| (k, from_serde(x))).collect(),
        ),
    }
}

/// Moves the library's model into a `serde_json` value, one node for one
/// node (the writing half of `json_to_string`).
#[verifier::external_body]
fn to_serde(v: &JsonValue) -> serde_json::Value {
    match v {
        JsonValue::Null => serde_json::Value::Null,
        JsonValue::Bool(b) => serde_json::Value::Bool(*b),
        JsonValue::Number(JsonNumber::PosInt(u)) => serde_json::Value::from(*u),
        JsonValue::Number(JsonNumber::NegInt(i)) => serde_json::Value::from(*i),
        JsonValue::Number(JsonNumber::Float(t)) => serde_json::from_str(t).unwrap_or_default(),
        JsonValue::String(s) => serde_json::Value::String(s.clone()),
        JsonValue::Array(a) => serde_json::Value::Array(a.iter().map(to_serde).collect()),
        JsonValue::Object(m) => serde_json::Value::Object(
            m.iter().map(|(k, x)| (k.clone(), to_serde(x))).collect(),
        ),
    }
}

/// Parses JSON text with `serde_json::from_str` into a `serde_json::Value`
/// and gives it in the library's model, or the parser's message. It
/// succeeds exactly when `json_parse` of the text is some value, and then
/// gives that value; the message is not stated further.
#[verifier::external_body]
pub(crate) fn parse_json(text: &str) -> (r: Result<JsonValue, String>)
    ensures
        match r {
            Ok(v) => json_parse(text@) == Some(v@),
            Err(_) => json_parse(text@) is None,
        },
{
    match serde_json::from_str::<serde_json::Value>(text) {
        Ok(v) => Ok(from_serde(v)),
        Err(e) => Err(e.to_string()),
    }
}

/// Writes a value as compact JSON text with `serde_json::to_string` (which
/// cannot fail on a `serde_json::Value`). The result is `json_text` of the
/// value: a function of the value alone, not stated further here.
#[verifier::external_body]
pub(crate) fn json_to_string(v: &JsonValue) -> (r: String)
    ensures
        r@ == json_text(v@),
{
    serde_json::to_string(&to_serde(v)).unwrap_or_default()
}

impl JsonValue {
    /// Reads JSON text, or gives the parser's message where it is not JSON.
    pub fn from_text(text: &str) -> (r: Result<JsonValue, String>)
        ensures
            match r {
                Ok(v) => json_parse(text@) == Some(v@),
                Err(_) => json_parse(text@) is None,
            },
    {
        parse_json(text)
    }

    /// The value as compact JSON text.
    pub fn to_text(&self) -> (r: String)
        ensures
            r@ == json_text(self@),
    {
        json_to_string(self)
    }
}

} // verus!
