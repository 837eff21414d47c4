//! Classification of a recipient from the reply to its code lookup.
use vstd::prelude::*;
use crate::json::JsonShape;

verus! {

/// The kind of account a transaction was sent to.
#[derive(PartialEq, Eq, Structural, Clone, Copy, Debug)]
pub enum ContractType {
    ExternallyOwnedAccount,
    ContractAccount,
    /// The code lookup returned something that is no code string.
    SpecialCaseContract,
}

impl ContractType {
    pub open spec fn name(self) -> Seq<char> {
        match self {
            ContractType::ExternallyOwnedAccount => "ExternallyOwnedAccount"@,
            ContractType::ContractAccount => "ContractAccount"@,
            ContractType::SpecialCaseContract => "SpecialCaseContract"@,
        }
    }

    /// The variant's name, as written to the tabular log.
    pub fn as_str(&self) -> (r: &'static str)
        ensures
            r@ == self.name(),
    {
        match self {
            ContractType::ExternallyOwnedAccount => "ExternallyOwnedAccount",
            ContractType::ContractAccount => "ContractAccount",
            ContractType::SpecialCaseContract => "SpecialCaseContract",
        }
    }
}

/// `s` with every leading `0x` removed.
pub open spec fn strip_hex_prefixes(s: Seq<char>) -> Seq<char>
    decreases s.len(),
{
    if s.len() >= 2 && s[0] == '0' && s[1] == 'x' {
        strip_hex_prefixes(s.subrange(2, s.len() as int))
    } else {
        s
    }
}

/// Class of a code string that has already been trimmed.
pub open spec fn class_of_trimmed(t: Seq<char>) -> ContractType {
    if t.len() > 0 && (t[0] == '{' || t[0] == '[') {
        ContractType::SpecialCaseContract
    } else if strip_hex_prefixes(t).len() == 0 || strip_hex_prefixes(t) == seq!['0'] {
        ContractType::ExternallyOwnedAccount
    } else {
        ContractType::ContractAccount
    }
}

/// A character of the Unicode White_Space property.
pub open spec fn is_white_space(c: char) -> bool {
    let u = c as u32;
    ||| 9 <= u && u <= 13
    ||| u == 0x20
    ||| u == 0x85
    ||| u == 0xA0
    ||| u == 0x1680
    ||| 0x2000 <= u && u <= 0x200A
    ||| u == 0x2028
    ||| u == 0x2029
    ||| u == 0x202F
    ||| u == 0x205F
    ||| u == 0x3000
}

/// `s` without leading white space.
pub open spec fn trim_start(s: Seq<char>) -> Seq<char>
    decreases s.len(),
{
    if s.len() > 0 && is_white_space(s[0]) {
        trim_start(s.drop_first())
    } else {
        s
    }
}

/// `s` without trailing white space.
pub open spec fn trim_end(s: Seq<char>) -> Seq<char>
    decreases s.len(),
{
    if s.len() > 0 && is_white_space(s.last()) {
        trim_end(s.drop_last())
    } else {
        s
    }
}

/// `s` without leading and trailing white space.
pub open spec fn trimmed(s: Seq<char>) -> Seq<char> {
    trim_end(trim_start(s))
}

/// Class of a code lookup result.
pub open spec fn code_class(code: JsonShape) -> ContractType {
    match code {
        JsonShape::Text(s) => class_of_trimmed(trimmed(s@)),
        JsonShape::Object => ContractType::SpecialCaseContract,
        _ => ContractType::ExternallyOwnedAccount,
    }
}

/// Relies on str::trim: removes leading and trailing white space, as the
/// Unicode White_Space property defines it.
#[verifier::external_body]
fn trim_text<'a>(s: &'a str) -> (r: &'a str)
    ensures
        r@ == trimmed(s@),
{
    s.trim()
}

/// Classifies a code string that has already been trimmed.
pub fn classify_trimmed(t: &str) -> (r: ContractType)
    ensures
        r == class_of_trimmed(t@),
{
    let n = t.unicode_len();
    if n > 0 {
        let c = t.get_char(0);
        if c == '{' || c == '[' {
            return ContractType::SpecialCaseContract;
        }
    }
    let mut i: usize = 0;
    assert(t@.subrange(0, n as int) =~= t@);
    while 2 <= n - i && t.get_char(i) == '0' && t.get_char(i + 1) == 'x'
        invariant
            i <= n,
            n == t@.len(),
            strip_hex_prefixes(t@) == strip_hex_prefixes(t@.subrange(i as int, n as int)),
        decreases n - i,
    {
        assert(t@.subrange(i as int, n as int).subrange(2, n - i) =~= t@.subrange(i + 2, n as int));
        i = i + 2;
    }
    let ghost rest = t@.subrange(i as int, n as int);
    assert(strip_hex_prefixes(rest) == rest);
    if i == n {
        ContractType::ExternallyOwnedAccount
    } else if i + 1 == n && t.get_char(i) == '0' {
        assert(rest =~= seq!['0']);
        ContractType::ExternallyOwnedAccount
    } else {
        assert(rest.len() != 0);
        assert(rest.len() == 1 ==> rest[0] != '0');
        ContractType::ContractAccount
    }
}

/// Classifies a code string: trims it, then as `classify_trimmed`.
pub fn classify_text(s: &str) -> (r: ContractType)
    ensures
        r == class_of_trimmed(trimmed(s@)),
{
    classify_trimmed(trim_text(s))
}

/// Classifies the result of a code lookup.
pub fn is_contract_account(code: &JsonShape) -> (r: ContractType)
    ensures
        r == code_class(*code),
{
    match code {
        JsonShape::Text(s) => classify_text(s),
        JsonShape::Object => ContractType::SpecialCaseContract,
        _ => ContractType::ExternallyOwnedAccount,
    }
}

} // verus!
