use sentinel::classify::{classify_text, classify_trimmed, is_contract_account as classify_shape, ContractType};
use sentinel::json::JsonShape;
use serde_json::Value;

/// The code lookup result as the library sees it.
fn is_contract_account(v: &Value) -> ContractType {
    let shape = match v {
        Value::Null => JsonShape::Null,
        Value::Bool(_) => JsonShape::Bool,
        Value::Number(n) => JsonShape::Number(n.as_u64()),
        Value::String(s) => JsonShape::Text(s.clone()),
        Value::Array(_) => JsonShape::Array,
        Value::Object(_) => JsonShape::Object,
    };
    classify_shape(&shape)
}

#[test]
fn test_is_contract_account() {
    assert_eq!(
        is_contract_account(&Value::Null),
        ContractType::ExternallyOwnedAccount
    );
    assert_eq!(
        is_contract_account(&Value::String("0x".to_string())),
        ContractType::ExternallyOwnedAccount
    );
    assert_eq!(
        is_contract_account(&Value::String("0x0".to_string())),
        ContractType::ExternallyOwnedAccount
    );
    assert_eq!(
        is_contract_account(&Value::String("".to_string())),
        ContractType::ExternallyOwnedAccount
    );
    assert_eq!(
        is_contract_account(&Value::String("0x123".to_string())),
        ContractType::ContractAccount
    );
    assert_eq!(
        is_contract_account(&Value::String("{...}".to_string())),
        ContractType::SpecialCaseContract
    );
    assert_eq!(
        is_contract_account(&Value::Object(serde_json::Map::new())),
        ContractType::SpecialCaseContract
    );
}

#[test]
fn classify_other_json_kinds_as_plain_accounts() {
    assert_eq!(is_contract_account(&Value::Bool(true)), ContractType::ExternallyOwnedAccount);
    assert_eq!(is_contract_account(&Value::Array(vec![])), ContractType::ExternallyOwnedAccount);
    assert_eq!(is_contract_account(&Value::from(7u64)), ContractType::ExternallyOwnedAccount);
}

#[test]
fn classify_trims_white_space_first() {
    assert_eq!(classify_text("  [1,2] "), ContractType::SpecialCaseContract);
    assert_eq!(classify_text("\t0x0\n"), ContractType::ExternallyOwnedAccount);
    assert_eq!(classify_text(" 0x6080 "), ContractType::ContractAccount);
    // untrimmed, the leading space makes it neither empty nor "0"
    assert_eq!(classify_trimmed(" 0x0"), ContractType::ContractAccount);
}

#[test]
fn classify_strips_repeated_prefixes() {
    assert_eq!(classify_trimmed("0x0x"), ContractType::ExternallyOwnedAccount);
    assert_eq!(classify_trimmed("0x0x0"), ContractType::ExternallyOwnedAccount);
    assert_eq!(classify_trimmed("0x00"), ContractType::ContractAccount);
    assert_eq!(classify_trimmed("0"), ContractType::ExternallyOwnedAccount);
    assert_eq!(classify_trimmed("[]"), ContractType::SpecialCaseContract);
}

#[test]
fn classify_code_shapes() {
    assert_eq!(classify_shape(&JsonShape::Absent), ContractType::ExternallyOwnedAccount);
    assert_eq!(classify_shape(&JsonShape::Object), ContractType::SpecialCaseContract);
    assert_eq!(
        classify_shape(&JsonShape::Text("0x60806040".to_string())),
        ContractType::ContractAccount
    );
}

#[test]
fn contract_type_names() {
    assert_eq!(ContractType::ExternallyOwnedAccount.as_str(), "ExternallyOwnedAccount");
    assert_eq!(ContractType::ContractAccount.as_str(), "ContractAccount");
    assert_eq!(ContractType::SpecialCaseContract.as_str(), "SpecialCaseContract");
}

#[test]
fn classify_trims_unicode_white_space() {
    assert_eq!(classify_text("\u{3000}0x0\u{85}"), ContractType::ExternallyOwnedAccount);
    assert_eq!(classify_text("\u{a0}{}"), ContractType::SpecialCaseContract);
}
