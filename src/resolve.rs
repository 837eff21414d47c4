//! Interpretation of a transaction lookup and construction of the record.
use vstd::prelude::*;
use crate::classify::ContractType;
use crate::hex::{decode_quantity, decode_quantity_u64, decode_spec, DecodeError};
use crate::json::{JsonShape, TxFields};
use crate::model::Transaction;

verus! {

/// A mined transaction as read from its lookup, every quantity decoded.
#[derive(Clone, Debug)]
pub struct MinedTx {
    pub block_hash: String,
    pub block_number: u64,
    pub from: String,
    pub to: Option<String>,
    pub value: u128,
    pub gas: u64,
    pub gas_price: u64,
    pub input: String,
    pub nonce: u64,
}

/// A lookup reports the transaction mined when its block hash is a string.
pub open spec fn is_mined(f: TxFields) -> bool {
    f.block_hash is Text
}

/// The quantity a member decodes to, for an integer whose largest value is `max`.
pub open spec fn quantity_of(s: JsonShape, max: nat) -> Option<nat> {
    match s {
        JsonShape::Text(t) => match decode_spec(t@, max) {
            Ok(v) => Some(v),
            Err(_) => None,
        },
        _ => None,
    }
}

/// A recipient member: a string, or null or absent for a contract creation.
pub open spec fn recipient_ok(s: JsonShape) -> bool {
    s is Text || s is Null || s is Absent
}

/// Every member a record needs is there and decodes.
pub open spec fn lookup_complete(f: TxFields) -> bool {
    &&& quantity_of(f.block_number, u64::MAX as nat) is Some
    &&& quantity_of(f.value, u128::MAX as nat) is Some
    &&& quantity_of(f.gas, u64::MAX as nat) is Some
    &&& quantity_of(f.gas_price, u64::MAX as nat) is Some
    &&& quantity_of(f.nonce, u64::MAX as nat) is Some
    &&& f.from is Text
    &&& f.input is Text
    &&& recipient_ok(f.to)
}

pub open spec fn opt_text(s: JsonShape) -> Option<Seq<char>> {
    match s {
        JsonShape::Text(t) => Some(t@),
        _ => None,
    }
}

pub open spec fn opt_view(s: Option<String>) -> Option<Seq<char>> {
    match s {
        Some(t) => Some(t@),
        None => None,
    }
}

/// `tx` holds exactly what the lookup members say.
pub open spec fn read_from(tx: MinedTx, f: TxFields) -> bool {
    &&& Some(tx.block_hash@) == opt_text(f.block_hash)
    &&& quantity_of(f.block_number, u64::MAX as nat) == Some(tx.block_number as nat)
    &&& quantity_of(f.value, u128::MAX as nat) == Some(tx.value as nat)
    &&& quantity_of(f.gas, u64::MAX as nat) == Some(tx.gas as nat)
    &&& quantity_of(f.gas_price, u64::MAX as nat) == Some(tx.gas_price as nat)
    &&& quantity_of(f.nonce, u64::MAX as nat) == Some(tx.nonce as nat)
    &&& Some(tx.from@) == opt_text(f.from)
    &&& Some(tx.input@) == opt_text(f.input)
    &&& opt_view(tx.to) == opt_text(f.to)
}

fn member_u64(s: &JsonShape) -> (r: Result<u64, DecodeError>)
    ensures
        r matches Ok(v) ==> quantity_of(*s, u64::MAX as nat) == Some(v as nat),
        r is Err ==> quantity_of(*s, u64::MAX as nat) is None,
{
    match s {
        JsonShape::Text(t) => decode_quantity_u64(t),
        _ => Err(DecodeError::Malformed),
    }
}

fn member_u128(s: &JsonShape) -> (r: Result<u128, DecodeError>)
    ensures
        r matches Ok(v) ==> quantity_of(*s, u128::MAX as nat) == Some(v as nat),
        r is Err ==> quantity_of(*s, u128::MAX as nat) is None,
{
    match s {
        JsonShape::Text(t) => decode_quantity(t),
        _ => Err(DecodeError::Malformed),
    }
}

fn member_text(s: &JsonShape) -> (r: Option<String>)
    ensures
        opt_view(r) == opt_text(*s),
{
    match s {
        JsonShape::Text(t) => Some(t.clone()),
        _ => None,
    }
}

/// Reads a lookup result: `Ok(None)` while the transaction is unmined, an
/// error when it is mined but a member is missing or does not decode.
pub fn read_lookup(f: &TxFields) -> (r: Result<Option<MinedTx>, DecodeError>)
    ensures
        r matches Ok(None) <==> !is_mined(*f),
        r is Err <==> is_mined(*f) && !lookup_complete(*f),
        r matches Ok(Some(tx)) ==> read_from(tx, *f),
{
    let block_hash = match member_text(&f.block_hash) {
        Some(h) => h,
        None => return Ok(None),
    };
    let block_number = match member_u64(&f.block_number) {
        Ok(v) => v,
        Err(e) => return Err(e),
    };
    let value = match member_u128(&f.value) {
        Ok(v) => v,
        Err(e) => return Err(e),
    };
    let gas = match member_u64(&f.gas) {
        Ok(v) => v,
        Err(e) => return Err(e),
    };
    let gas_price = match member_u64(&f.gas_price) {
        Ok(v) => v,
        Err(e) => return Err(e),
    };
    let nonce = match member_u64(&f.nonce) {
        Ok(v) => v,
        Err(e) => return Err(e),
    };
    let from = match member_text(&f.from) {
        Some(t) => t,
        None => return Err(DecodeError::Malformed),
    };
    let input = match member_text(&f.input) {
        Some(t) => t,
        None => return Err(DecodeError::Malformed),
    };
    let to = match &f.to {
        JsonShape::Text(t) => Some(t.clone()),
        JsonShape::Null | JsonShape::Absent => None,
        _ => return Err(DecodeError::Malformed),
    };
    Ok(Some(MinedTx { block_hash, block_number, from, to, value, gas, gas_price, input, nonce }))
}

/// `rec` is the record of `tx` under `hash`, with class `class` and mempool time `ms`.
pub open spec fn is_record_of(
    rec: Transaction,
    hash: Seq<char>,
    tx: MinedTx,
    class: ContractType,
    ms: u64,
) -> bool {
    &&& rec.tx_hash@ == hash
    &&& opt_view(rec.block_hash) == Some(tx.block_hash@)
    &&& rec.block_number == Some(tx.block_number)
    &&& rec.from@ == tx.from@
    &&& opt_view(rec.to) == opt_view(tx.to)
    &&& rec.value == tx.value
    &&& rec.gas == tx.gas
    &&& rec.gas_price == tx.gas_price
    &&& rec.input@ == tx.input@
    &&& rec.nonce == tx.nonce
    &&& rec.mempool_time == Some(ms)
    &&& rec.contract_type == class
}

/// Builds the record of a resolved transaction.
pub fn build_record(hash: String, tx: MinedTx, class: ContractType, ms: u64) -> (r: Transaction)
    ensures
        is_record_of(r, hash@, tx, class, ms),
{
    Transaction {
        tx_hash: hash,
        block_hash: Some(tx.block_hash),
        block_number: Some(tx.block_number),
        from: tx.from,
        to: tx.to,
        value: tx.value,
        gas: tx.gas,
        gas_price: tx.gas_price,
        input: tx.input,
        nonce: tx.nonce,
        mempool_time: Some(ms),
        contract_type: class,
    }
}

} // verus!
