//! Routing of inbound frames: a subscription push is told apart from a reply
//! by its `method`; a reply is matched to its call by `id`, never by order.
use vstd::prelude::*;
use crate::json::{JsonShape, RawFrame, TxFields};
use crate::model::{Params, TxHashResponse};
use crate::pending::same_text;

verus! {

/// A reply to one of the engine's calls.
#[derive(Clone, Debug)]
pub struct Reply {
    pub id: u64,
    pub result: JsonShape,
    /// The members of `result` that a transaction lookup carries.
    pub fields: TxFields,
}

/// What an inbound frame is to the engine.
#[derive(Clone, Debug)]
pub enum Inbound {
    Push(TxHashResponse),
    Reply(Reply),
    /// Neither a push nor a reply with an integer id.
    Unrelated,
}

pub open spec fn is_text(s: JsonShape) -> bool {
    s is Text
}

pub open spec fn text_view(s: JsonShape) -> Seq<char> {
    match s {
        JsonShape::Text(t) => t@,
        _ => Seq::empty(),
    }
}

/// A push: method `eth_subscription`, with string `jsonrpc`, `params.subscription`
/// and `params.result`.
pub open spec fn is_push(raw: RawFrame) -> bool {
    &&& is_text(raw.method)
    &&& text_view(raw.method) == "eth_subscription"@
    &&& is_text(raw.jsonrpc)
    &&& is_text(raw.subscription)
    &&& is_text(raw.pushed)
}

/// A reply: no `method`, and an `id` that is a `u64`.
pub open spec fn is_reply(raw: RawFrame) -> bool {
    raw.method is Absent && raw.id matches JsonShape::Number(Some(_))
}

pub open spec fn reply_id(raw: RawFrame) -> u64 {
    match raw.id {
        JsonShape::Number(Some(n)) => n,
        _ => 0,
    }
}

/// Routes one parsed frame.
pub fn route(raw: RawFrame) -> (r: Inbound)
    ensures
        is_push(raw) ==> (r matches Inbound::Push(p) && p.params.result@ == text_view(raw.pushed)
            && p.params.subscription@ == text_view(raw.subscription) && p.method@
            == "eth_subscription"@ && p.jsonrpc@ == text_view(raw.jsonrpc)),
        !is_push(raw) && is_reply(raw) ==> (r matches Inbound::Reply(rep) && rep.id == reply_id(raw)
            && rep.result == raw.result && rep.fields == raw.fields),
        !is_push(raw) && !is_reply(raw) ==> r is Unrelated,
{
    let RawFrame { jsonrpc, method, id, subscription, pushed, result, fields } = raw;
    match (method, jsonrpc, subscription, pushed) {
        (
            JsonShape::Text(m),
            JsonShape::Text(j),
            JsonShape::Text(s),
            JsonShape::Text(h),
        ) => {
            if same_text(&m, "eth_subscription") {
                return Inbound::Push(
                    TxHashResponse { jsonrpc: j, method: m, params: Params { result: h, subscription: s } },
                );
            }
            Inbound::Unrelated
        },
        (JsonShape::Absent, _, _, _) => match id {
            JsonShape::Number(Some(n)) => Inbound::Reply(Reply { id: n, result, fields }),
            _ => Inbound::Unrelated,
        },
        _ => Inbound::Unrelated,
    }
}

} // verus!
