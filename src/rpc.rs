//! Outbound JSON-RPC calls and their text.
use vstd::prelude::*;
use vstd::string::StringExecFns;
use crate::json::{json_quoted, quote};

verus! {

/// The calls the engine makes.
#[derive(PartialEq, Eq, Structural, Clone, Copy, Debug)]
pub enum RpcMethod {
    Subscribe,
    GetTransactionByHash,
    GetCode,
}

impl RpcMethod {
    pub open spec fn name(self) -> Seq<char> {
        match self {
            RpcMethod::Subscribe => "eth_subscribe"@,
            RpcMethod::GetTransactionByHash => "eth_getTransactionByHash"@,
            RpcMethod::GetCode => "eth_getCode"@,
        }
    }

    /// The JSON-RPC method name.
    pub fn as_str(&self) -> (r: &'static str)
        ensures
            r@ == self.name(),
    {
        match self {
            RpcMethod::Subscribe => "eth_subscribe",
            RpcMethod::GetTransactionByHash => "eth_getTransactionByHash",
            RpcMethod::GetCode => "eth_getCode",
        }
    }
}

/// One outbound call: a request id, a method and its single parameter.
#[derive(Clone, Debug)]
pub struct Call {
    pub id: u64,
    pub method: RpcMethod,
    pub param: String,
}

/// The character of a decimal digit.
pub open spec fn digit_char(d: nat) -> char {
    seq!['0', '1', '2', '3', '4', '5', '6', '7', '8', '9'][d as int]
}

/// Decimal digits of `n`, most significant first.
pub open spec fn decimal(n: nat) -> Seq<char>
    decreases n,
{
    if n < 10 {
        seq![digit_char(n)]
    } else {
        decimal(n / 10).push(digit_char(n % 10))
    }
}

/// The text of one decimal digit.
fn digit_text(d: u64) -> (r: &'static str)
    requires
        d < 10,
    ensures
        r@ == seq![digit_char(d as nat)],
{
    proof {
        reveal_strlit("0");
        reveal_strlit("1");
        reveal_strlit("2");
        reveal_strlit("3");
        reveal_strlit("4");
        reveal_strlit("5");
        reveal_strlit("6");
        reveal_strlit("7");
        reveal_strlit("8");
        reveal_strlit("9");
    }
    let r = match d {
        0 => "0",
        1 => "1",
        2 => "2",
        3 => "3",
        4 => "4",
        5 => "5",
        6 => "6",
        7 => "7",
        8 => "8",
        _ => "9",
    };
    assert(r@ =~= seq![digit_char(d as nat)]);
    r
}

/// Appends the decimal digits of `n` to `t`.
fn write_decimal(t: &mut String, n: u64)
    ensures
        final(t)@ == old(t)@ + decimal(n as nat),
    decreases n,
{
    if n >= 10 {
        write_decimal(t, n / 10);
    }
    t.append(digit_text(n % 10));
    proof {
        if n >= 10 {
            assert(old(t)@ + decimal((n / 10) as nat) + seq![digit_char((n % 10) as nat)] =~= old(t)@
                + decimal(n as nat));
        } else {
            assert(old(t)@ + seq![digit_char((n % 10) as nat)] =~= old(t)@ + decimal(n as nat));
        }
    }
}

/// The text of a call whose method and parameter are already JSON strings.
pub open spec fn call_text(id: u64, method: Seq<char>, param: Seq<char>) -> Seq<char> {
    "{\"jsonrpc\":\"2.0\",\"id\":"@ + decimal(id as nat) + ",\"method\":"@ + method + ",\"params\":["@
        + param + "]}"@
}

/// The text of a call from its id and its method and parameter as JSON strings.
pub fn assemble_call(id: u64, method_json: &str, param_json: &str) -> (r: String)
    ensures
        r@ == call_text(id, method_json@, param_json@),
{
    let mut t = String::new();
    t.append("{\"jsonrpc\":\"2.0\",\"id\":");
    write_decimal(&mut t, id);
    t.append(",\"method\":");
    t.append(method_json);
    t.append(",\"params\":[");
    t.append(param_json);
    t.append("]}");
    t
}

impl Call {
    /// The JSON text of the call.
    pub fn encode(&self) -> (r: String)
        ensures
            r@ == call_text(self.id, json_quoted(self.method.name()), json_quoted(self.param@)),
    {
        let method = quote(self.method.as_str());
        let param = quote(&self.param);
        assemble_call(self.id, &method, &param)
    }
}

} // verus!
