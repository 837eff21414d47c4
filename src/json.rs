//! The JSON edge of the library: serde_json parses and quotes, and what the
//! engine reads out of a parsed frame is copied into plain library values.
use vstd::prelude::*;
use serde_json::Value;

verus! {

/// The kind of one JSON value, with its text or integer copied out where the
/// engine reads it. `Absent` stands for a member that is not there.
#[derive(Clone, Debug)]
pub enum JsonShape {
    Absent,
    Null,
    Bool,
    /// A number; the integer when it is a non-negative integer that fits a `u64`.
    Number(Option<u64>),
    Text(String),
    Array,
    Object,
}

/// The members of a transaction lookup result that a record is built from.
#[derive(Clone, Debug)]
pub struct TxFields {
    pub block_hash: JsonShape,
    pub block_number: JsonShape,
    pub from: JsonShape,
    pub to: JsonShape,
    pub value: JsonShape,
    pub gas: JsonShape,
    pub gas_price: JsonShape,
    pub input: JsonShape,
    pub nonce: JsonShape,
}

/// What the router reads from one inbound frame.
#[derive(Clone, Debug)]
pub struct RawFrame {
    pub jsonrpc: JsonShape,
    pub method: JsonShape,
    pub id: JsonShape,
    /// `params.subscription`
    pub subscription: JsonShape,
    /// `params.result`
    pub pushed: JsonShape,
    pub result: JsonShape,
    /// The members of `result`, all `Absent` unless `result` is an object.
    pub fields: TxFields,
}

/// What a JSON document holds at each of a list of JSON pointers; `None`
/// when the text is not one JSON document.
pub uninterp spec fn shapes_at(text: Seq<char>, pointers: Seq<Seq<char>>) -> Option<Seq<JsonShape>>;

pub open spec fn views_of(p: Seq<&str>) -> Seq<Seq<char>> {
    p.map_values(|q: &str| q@)
}

/// Relies on serde_json::from_str and serde_json::Value::pointer: parses
/// `text` once and looks each pointer up in the document, telling apart the
/// variants of what is found and copying a string or an integer out.
#[verifier::external_body]
fn parse_at(text: &str, pointers: &[&str]) -> (r: Option<Vec<JsonShape>>)
    ensures
        match r {
            Some(v) => shapes_at(text@, views_of(pointers@)) == Some(v@) && v@.len()
                == pointers@.len(),
            None => shapes_at(text@, views_of(pointers@)) is None,
        },
{
    let doc = serde_json::from_str::<Value>(text).ok()?;
    Some(pointers.iter().map(|p| match doc.pointer(p) {
        None => JsonShape::Absent,
        Some(Value::Null) => JsonShape::Null,
        Some(Value::Bool(_)) => JsonShape::Bool,
        Some(Value::Number(n)) => JsonShape::Number(n.as_u64()),
        Some(Value::String(t)) => JsonShape::Text(t.clone()),
        Some(Value::Array(_)) => JsonShape::Array,
        Some(Value::Object(_)) => JsonShape::Object,
    }).collect())
}

/// A lower-case hexadecimal digit.
pub open spec fn lower_hex_digit(d: nat) -> char {
    seq!['0', '1', '2', '3', '4', '5', '6', '7', '8', '9', 'a', 'b', 'c', 'd', 'e', 'f'][d as int]
}

/// How one character is written inside a JSON string: quote and backslash
/// escaped, the short escapes for backspace, tab, line feed, form feed and
/// carriage return, other control characters as `\u00xx`, the rest as is.
pub open spec fn escape_char(c: char) -> Seq<char> {
    let u = c as u32;
    if c == '"' {
        seq!['\\', '"']
    } else if c == '\\' {
        seq!['\\', '\\']
    } else if u == 8 {
        seq!['\\', 'b']
    } else if u == 9 {
        seq!['\\', 't']
    } else if u == 10 {
        seq!['\\', 'n']
    } else if u == 12 {
        seq!['\\', 'f']
    } else if u == 13 {
        seq!['\\', 'r']
    } else if u < 32 {
        seq!['\\', 'u', '0', '0', lower_hex_digit((u / 16) as nat), lower_hex_digit((u % 16) as nat)]
    } else {
        seq![c]
    }
}

/// The characters of `s`, each escaped.
pub open spec fn escaped(s: Seq<char>) -> Seq<char>
    decreases s.len(),
{
    if s.len() == 0 {
        Seq::empty()
    } else {
        escaped(s.drop_last()) + escape_char(s.last())
    }
}

/// The JSON text of a string: quotes around it, special characters escaped.
pub open spec fn json_quoted(s: Seq<char>) -> Seq<char> {
    seq!['"'] + escaped(s) + seq!['"']
}

/// Relies on serde_json::to_string on a `str`: the JSON string literal of
/// `s`. Writing into a `Vec` cannot fail.
#[verifier::external_body]
pub(crate) fn quote(s: &str) -> (r: String)
    ensures
        r@ == json_quoted(s@),
{
    serde_json::to_string(s).unwrap_or_default()
}

/// The pointers a frame is read at, in the order of `frame_from`.
pub open spec fn frame_pointers() -> Seq<Seq<char>> {
    seq![
        "/jsonrpc"@, "/method"@, "/id"@, "/params/subscription"@, "/params/result"@,
        "/result"@, "/result/blockHash"@, "/result/blockNumber"@, "/result/from"@,
        "/result/to"@, "/result/value"@, "/result/gas"@, "/result/gasPrice"@,
        "/result/input"@, "/result/nonce"@,
    ]
}

/// The frame made of the shapes found at `frame_pointers()`.
pub open spec fn frame_from(s: Seq<JsonShape>) -> RawFrame {
    RawFrame {
        jsonrpc: s[0],
        method: s[1],
        id: s[2],
        subscription: s[3],
        pushed: s[4],
        result: s[5],
        fields: TxFields {
            block_hash: s[6],
            block_number: s[7],
            from: s[8],
            to: s[9],
            value: s[10],
            gas: s[11],
            gas_price: s[12],
            input: s[13],
            nonce: s[14],
        },
    }
}

/// What the router reads from the frame `text`; `None` when it is not JSON.
pub open spec fn frame_of(text: Seq<char>) -> Option<RawFrame> {
    match shapes_at(text, frame_pointers()) {
        Some(s) => Some(frame_from(s)),
        None => None,
    }
}

fn take_last(v: &mut Vec<JsonShape>) -> (r: JsonShape)
    requires
        old(v)@.len() > 0,
    ensures
        r == old(v)@.last(),
        final(v)@ == old(v)@.drop_last(),
{
    match v.pop() {
        Some(x) => x,
        None => JsonShape::Absent,
    }
}

/// Parses a text frame and copies out what the router reads.
pub fn parse_frame(text: &str) -> (r: Option<RawFrame>)
    ensures
        r == frame_of(text@),
{
    let pointers: Vec<&str> = vec![
        "/jsonrpc", "/method", "/id", "/params/subscription", "/params/result",
        "/result", "/result/blockHash", "/result/blockNumber", "/result/from",
        "/result/to", "/result/value", "/result/gas", "/result/gasPrice",
        "/result/input", "/result/nonce",
    ];
    assert(views_of(pointers@) =~= frame_pointers());
    let mut v = match parse_at(text, pointers.as_slice()) {
        Some(v) => v,
        None => return None,
    };
    let ghost s = v@;
    let nonce = take_last(&mut v);
    let input = take_last(&mut v);
    let gas_price = take_last(&mut v);
    let gas = take_last(&mut v);
    let value = take_last(&mut v);
    let to = take_last(&mut v);
    let from = take_last(&mut v);
    let block_number = take_last(&mut v);
    let block_hash = take_last(&mut v);
    let result = take_last(&mut v);
    let pushed = take_last(&mut v);
    let subscription = take_last(&mut v);
    let id = take_last(&mut v);
    let method = take_last(&mut v);
    let jsonrpc = take_last(&mut v);
    let fields = TxFields { block_hash, block_number, from, to, value, gas, gas_price, input, nonce };
    let r = RawFrame { jsonrpc, method, id, subscription, pushed, result, fields };
    assert(r == frame_from(s));
    Some(r)
}

} // verus!
