use ante_gateway::channels::access::{AllowPolicy, AllowPolicyWire};

#[test]
fn list_policy() {
    let policy = AllowPolicy::List(vec!["U123".to_string(), "U456".to_string()]);
    assert!(policy.is_allowed("U123"));
    assert!(policy.is_allowed("U456"));
    assert!(!policy.is_allowed("U999"));
}

#[test]
fn open_policy() {
    let policy = AllowPolicy::Open;
    assert!(policy.is_allowed("anyone"));
}

#[test]
fn default_denies_all() {
    let policy = AllowPolicy::default();
    assert!(!policy.is_allowed("anyone"));
}

#[test]
fn deserialize_list() {
    let ids: Vec<String> = serde_json::from_str(r#"["U1", "U2"]"#).unwrap();
    let policy = AllowPolicy::try_from(AllowPolicyWire::List(ids)).unwrap();
    assert!(policy.is_allowed("U1"));
    assert!(!policy.is_allowed("U3"));
}

#[test]
fn deserialize_open_string() {
    let word: String = serde_json::from_str(r#""open""#).unwrap();
    let policy = AllowPolicy::try_from(AllowPolicyWire::Open(word)).unwrap();
    assert!(policy.is_allowed("anyone"));
}

#[test]
fn deserialize_invalid_string_fails() {
    let word: String = serde_json::from_str(r#""closed""#).unwrap();
    let result = AllowPolicy::try_from(AllowPolicyWire::Open(word));
    assert_eq!(result.unwrap_err().to_string(), "expected \"open\", got \"closed\"");
}

#[test]
fn sender_ids_are_compared_whole() {
    let policy = AllowPolicy::List(vec!["U123".to_string()]);
    for sender in ["", "U12", "U1234", "u123", " U123"] {
        assert!(!policy.is_allowed(sender), "{sender:?}");
    }
    assert!(AllowPolicy::List(vec![String::new()]).is_allowed(""));
}
