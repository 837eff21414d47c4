use sentinel::json::{parse_frame, JsonShape};
use sentinel::route::{route, Inbound};
use sentinel::rpc::{Call, RpcMethod};

#[test]
fn encode_lookup_call() {
    let c = Call { id: 2, method: RpcMethod::GetTransactionByHash, param: "0xabc".to_string() };
    assert_eq!(
        c.encode(),
        r#"{"jsonrpc":"2.0","id":2,"method":"eth_getTransactionByHash","params":["0xabc"]}"#
    );
}

#[test]
fn encode_escapes_the_parameter() {
    let c = Call { id: 18446744073709551615, method: RpcMethod::GetCode, param: "a\"b".to_string() };
    assert_eq!(
        c.encode(),
        r#"{"jsonrpc":"2.0","id":18446744073709551615,"method":"eth_getCode","params":["a\"b"]}"#
    );
}

#[test]
fn encode_subscription() {
    let c = Call { id: 1, method: RpcMethod::Subscribe, param: "newPendingTransactions".to_string() };
    assert_eq!(
        c.encode(),
        r#"{"jsonrpc":"2.0","id":1,"method":"eth_subscribe","params":["newPendingTransactions"]}"#
    );
}

#[test]
fn route_push_and_reply() {
    let raw = parse_frame(
        r#"{"jsonrpc":"2.0","method":"eth_subscription","params":{"subscription":"0xs","result":"0xh"}}"#,
    )
    .unwrap();
    match route(raw) {
        Inbound::Push(p) => {
            assert_eq!(p.params.result, "0xh");
            assert_eq!(p.params.subscription, "0xs");
            assert_eq!(p.method, "eth_subscription");
            assert_eq!(p.jsonrpc, "2.0");
        }
        other => panic!("not a push: {:?}", other),
    }
    let raw = parse_frame(r#"{"jsonrpc":"2.0","id":7,"result":{"blockHash":"0x1","gas":"0x2"}}"#).unwrap();
    match route(raw) {
        Inbound::Reply(r) => {
            assert_eq!(r.id, 7);
            assert!(matches!(r.result, JsonShape::Object));
            assert!(matches!(r.fields.block_hash, JsonShape::Text(ref t) if t == "0x1"));
            assert!(matches!(r.fields.gas, JsonShape::Text(ref t) if t == "0x2"));
            assert!(matches!(r.fields.nonce, JsonShape::Absent));
        }
        other => panic!("not a reply: {:?}", other),
    }
}

#[test]
fn route_rejects_other_frames() {
    assert!(parse_frame("{").is_none());
    let raw = parse_frame(r#"{"jsonrpc":"2.0","id":-1,"result":null}"#).unwrap();
    assert!(matches!(route(raw), Inbound::Unrelated));
    let raw = parse_frame(r#"{"jsonrpc":"2.0","method":"eth_subscription","id":3,"params":{"result":"0x1"}}"#).unwrap();
    assert!(matches!(route(raw), Inbound::Unrelated));
}

#[test]
fn assemble_call_concatenates_json_pieces() {
    assert_eq!(
        sentinel::rpc::assemble_call(0, "\"m\"", "null"),
        r#"{"jsonrpc":"2.0","id":0,"method":"m","params":[null]}"#
    );
}

#[test]
fn encode_escapes_control_characters() {
    let c = Call { id: 3, method: RpcMethod::GetCode, param: "\u{1}\n\\\u{7f}é".to_string() };
    assert_eq!(
        c.encode(),
        "{\"jsonrpc\":\"2.0\",\"id\":3,\"method\":\"eth_getCode\",\"params\":[\"\\u0001\\n\\\\\u{7f}é\"]}"
    );
}
