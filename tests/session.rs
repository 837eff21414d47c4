use sentinel::classify::ContractType;
use sentinel::engine::Session;
use sentinel::rpc::{Call, RpcMethod};

fn push_frame(hash: &str) -> String {
    format!(
        r#"{{"jsonrpc":"2.0","method":"eth_subscription","params":{{"subscription":"0x9ce5","result":"{}"}}}}"#,
        hash
    )
}

fn mined_reply(id: u64, block_number: &str, to: &str) -> String {
    format!(
        r#"{{"jsonrpc":"2.0","id":{},"result":{{"blockHash":"0xbeef","blockNumber":"{}","from":"0xf00","to":{},"value":"0xde0b6b3a7640000","gas":"0x5208","gasPrice":"0x4a817c800","input":"0x","nonce":"0x2a"}}}}"#,
        id, block_number, to
    )
}

fn lookup(s: &mut Session, now: u64) -> Call {
    let call = s.on_tick(now).expect("a lookup");
    assert_eq!(call.method, RpcMethod::GetTransactionByHash);
    call
}

#[test]
fn push_then_mined_with_plain_recipient_gives_one_record() {
    let mut s = Session::new();
    let sub = s.subscribe();
    assert_eq!(sub.method, RpcMethod::Subscribe);
    assert_eq!(sub.param, "newPendingTransactions");
    let out = s.on_frame(&push_frame("0xabc"), 0);
    assert!(out.record.is_none() && out.call.is_none());
    assert!(s.is_pending("0xabc"));

    let call = lookup(&mut s, 3000);
    assert_eq!(call.param, "0xabc");
    let out = s.on_frame(&mined_reply(call.id, "0x10", r#""0x7a""#), 3000);
    assert!(out.record.is_none());
    let code_call = out.call.expect("a code lookup");
    assert_eq!(code_call.method, RpcMethod::GetCode);
    assert_eq!(code_call.param, "0x7a");

    let out = s.on_frame(
        &format!(r#"{{"jsonrpc":"2.0","id":{},"result":null}}"#, code_call.id),
        3000,
    );
    let rec = out.record.expect("a record");
    assert!(out.call.is_none());
    assert_eq!(rec.tx_hash, "0xabc");
    assert_eq!(rec.block_number, Some(16));
    assert_eq!(rec.gas_price, 20_000_000_000);
    assert_eq!(rec.gas, 21_000);
    assert_eq!(rec.nonce, 42);
    assert_eq!(rec.value, 1_000_000_000_000_000_000);
    assert_eq!(rec.block_hash.as_deref(), Some("0xbeef"));
    assert_eq!(rec.from, "0xf00");
    assert_eq!(rec.to.as_deref(), Some("0x7a"));
    assert_eq!(rec.input, "0x");
    assert_eq!(rec.contract_type, ContractType::ExternallyOwnedAccount);
    assert_eq!(rec.mempool_time, Some(3000));
    assert!(!s.is_pending("0xabc"));
    assert!(s.is_resolved("0xabc"));
    assert_eq!(s.pending_count(), 0);
    assert!(!s.in_tick());
    assert!(s.on_tick(6000).is_none());
}

#[test]
fn contract_recipient_is_classified_from_code() {
    let mut s = Session::new();
    s.on_frame(&push_frame("0x1"), 100);
    let call = lookup(&mut s, 400);
    let out = s.on_frame(&mined_reply(call.id, "0x1", r#""0xc0de""#), 450);
    let code_call = out.call.unwrap();
    let out = s.on_frame(
        &format!(r#"{{"jsonrpc":"2.0","id":{},"result":"0x6080604052"}}"#, code_call.id),
        500,
    );
    let rec = out.record.unwrap();
    assert_eq!(rec.contract_type, ContractType::ContractAccount);
    assert_eq!(rec.mempool_time, Some(400));
}

#[test]
fn contract_creation_needs_no_code_lookup() {
    let mut s = Session::new();
    s.on_frame(&push_frame("0x2"), 10);
    let call = lookup(&mut s, 20);
    let out = s.on_frame(&mined_reply(call.id, "0x5", "null"), 25);
    let rec = out.record.unwrap();
    assert_eq!(rec.to, None);
    assert_eq!(rec.block_number, Some(5));
    assert_eq!(rec.contract_type, ContractType::ExternallyOwnedAccount);
    assert_eq!(rec.mempool_time, Some(15));
}

#[test]
fn unmined_lookup_leaves_transaction_pending() {
    let mut s = Session::new();
    s.on_frame(&push_frame("0xabc"), 0);
    let call = lookup(&mut s, 3000);
    let out = s.on_frame(&format!(r#"{{"jsonrpc":"2.0","id":{},"result":null}}"#, call.id), 3000);
    assert!(out.record.is_none() && out.call.is_none());
    assert!(s.is_pending("0xabc"));
    assert_eq!(s.pending_count(), 1);

    let call = lookup(&mut s, 6000);
    let out = s.on_frame(
        &format!(r#"{{"jsonrpc":"2.0","id":{},"result":{{"blockHash":null,"blockNumber":null}}}}"#, call.id),
        6000,
    );
    assert!(out.record.is_none());
    assert!(s.is_pending("0xabc"));

    let call = lookup(&mut s, 9000);
    let out = s.on_frame(&format!(r#"{{"jsonrpc":"2.0","id":{},"result":{{"blockHash":7}}}}"#, call.id), 9000);
    assert!(out.record.is_none());
    assert!(s.is_pending("0xabc"));
}

#[test]
fn malformed_quantity_leaves_transaction_pending() {
    let mut s = Session::new();
    s.on_frame(&push_frame("0xabc"), 0);
    let call = lookup(&mut s, 3000);
    let out = s.on_frame(&mined_reply(call.id, "0xzz", r#""0x7a""#), 3000);
    assert!(out.record.is_none() && out.call.is_none());
    assert!(s.is_pending("0xabc"));

    // the next tick succeeds and still gives exactly one record
    let call = lookup(&mut s, 6000);
    let out = s.on_frame(&mined_reply(call.id, "0x10", "null"), 6000);
    let rec = out.record.unwrap();
    assert_eq!(rec.block_number, Some(16));
    assert_eq!(rec.mempool_time, Some(6000));
    assert!(s.on_tick(9000).is_none());
}

#[test]
fn transport_error_mid_tick_restarts_empty_without_records() {
    let mut s = Session::new();
    s.on_frame(&push_frame("0xabc"), 0);
    let call = lookup(&mut s, 3000);
    let out = s.on_frame(&mined_reply(call.id, "0x10", r#""0x7a""#), 3000);
    assert!(out.record.is_none());
    assert!(s.in_tick());
    // the connection fails here: the session is dropped, a new one starts
    let fresh = Session::new();
    assert_eq!(fresh.pending_count(), 0);
    assert!(!fresh.is_pending("0xabc"));
    assert!(!fresh.is_resolved("0xabc"));
    assert!(!fresh.in_tick());
}

#[test]
fn pushes_between_call_and_reply_are_kept_and_stale_ids_ignored() {
    let mut s = Session::new();
    s.on_frame(&push_frame("0xa"), 0);
    let call = lookup(&mut s, 10);
    // a push arrives before the reply
    s.on_frame(&push_frame("0xb"), 11);
    assert!(s.is_pending("0xb"));
    // a reply with another id is not taken for this call
    let out = s.on_frame(&mined_reply(call.id + 100, "0x1", "null"), 12);
    assert!(out.record.is_none() && out.call.is_none());
    assert!(s.in_tick());
    // a tick while one is in progress does nothing
    assert!(s.on_tick(13).is_none());
    let out = s.on_frame(&mined_reply(call.id, "0x1", "null"), 14);
    assert_eq!(out.record.unwrap().tx_hash, "0xa");
    // "0xb" was not in this tick's queue
    assert!(out.call.is_none());
    let next = lookup(&mut s, 20);
    assert_eq!(next.param, "0xb");
}

#[test]
fn tick_visits_every_pending_hash_in_arrival_order() {
    let mut s = Session::new();
    s.on_frame(&push_frame("0x1"), 0);
    s.on_frame(&push_frame("0x2"), 1);
    s.on_frame(&push_frame("0x3"), 2);
    let c1 = lookup(&mut s, 10);
    assert_eq!(c1.param, "0x1");
    let out = s.on_frame(&format!(r#"{{"jsonrpc":"2.0","id":{},"result":null}}"#, c1.id), 11);
    let c2 = out.call.unwrap();
    assert_eq!(c2.param, "0x2");
    assert!(c2.id != c1.id);
    let out = s.on_frame(&mined_reply(c2.id, "0x3", "null"), 12);
    assert_eq!(out.record.unwrap().tx_hash, "0x2");
    let c3 = out.call.unwrap();
    assert_eq!(c3.param, "0x3");
    let out = s.on_frame(&format!(r#"{{"jsonrpc":"2.0","id":{},"result":null}}"#, c3.id), 13);
    assert!(out.call.is_none());
    assert_eq!(s.pending_count(), 2);
}

#[test]
fn repeated_and_resolved_pushes_are_ignored() {
    let mut s = Session::new();
    s.on_frame(&push_frame("0xabc"), 0);
    s.on_frame(&push_frame("0xabc"), 500);
    assert_eq!(s.pending_count(), 1);
    let call = lookup(&mut s, 3000);
    let out = s.on_frame(&mined_reply(call.id, "0x10", "null"), 3000);
    // first sight counts, not the repeated push
    assert_eq!(out.record.unwrap().mempool_time, Some(3000));
    s.on_frame(&push_frame("0xabc"), 3100);
    assert!(!s.is_pending("0xabc"));
    assert!(s.on_tick(6000).is_none());
}

#[test]
fn frames_that_are_neither_push_nor_reply_change_nothing() {
    let mut s = Session::new();
    let out = s.on_frame("not json", 1);
    assert!(out.record.is_none() && out.call.is_none());
    s.on_frame(r#"{"jsonrpc":"2.0","method":"eth_other","params":{"subscription":"0x1","result":"0xabc"}}"#, 2);
    s.on_frame(r#"{"jsonrpc":"2.0","id":"text","result":"0x1"}"#, 3);
    assert_eq!(s.pending_count(), 0);
}

#[test]
fn stale_transactions_are_abandoned_between_ticks() {
    let mut s = Session::with_max_age(Some(1000));
    s.on_frame(&push_frame("0xa"), 0);
    s.on_frame(&push_frame("0xb"), 800);
    assert_eq!(s.abandon_stale(1000), vec!["0xa".to_string()]);
    assert!(!s.is_pending("0xa"));
    assert!(s.is_pending("0xb"));
    let call = lookup(&mut s, 1500);
    // during a tick nothing is abandoned
    assert!(s.abandon_stale(5000).is_empty());
    assert!(s.is_pending("0xb"));
    s.on_frame(&format!(r#"{{"jsonrpc":"2.0","id":{},"result":null}}"#, call.id), 5000);
    assert_eq!(s.abandon_stale(5000), vec!["0xb".to_string()]);
    assert_eq!(s.pending_count(), 0);
}

#[test]
fn without_max_age_nothing_is_abandoned() {
    let mut s = Session::new();
    s.on_frame(&push_frame("0xa"), 0);
    assert!(s.abandon_stale(u64::MAX).is_empty());
    assert!(s.is_pending("0xa"));
}
