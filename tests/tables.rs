use sentinel::pending::{same_text, TxTable};

#[test]
fn table_insert_remove_and_order() {
    let mut t = TxTable::new();
    t.insert("0xb".to_string(), 5);
    t.insert("0xa".to_string(), 7);
    assert_eq!(t.len(), 2);
    assert_eq!(t.first_seen("0xa"), Some(7));
    assert_eq!(t.first_seen("0xc"), None);
    assert_eq!(t.hashes(), vec!["0xb".to_string(), "0xa".to_string()]);
    t.remove("0xb");
    t.remove("0xc");
    assert!(!t.contains("0xb"));
    assert!(t.contains("0xa"));
    assert_eq!(t.len(), 1);
}

#[test]
fn same_text_compares_characters() {
    assert!(same_text("0xé", "0xé"));
    assert!(!same_text("0xa", "0xA"));
    assert!(!same_text("0xa", "0xab"));
    assert!(same_text("", ""));
}
