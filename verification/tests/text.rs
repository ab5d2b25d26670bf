use ante_gateway::json::{Json, Reply};
use ante_gateway::mention::{strip, MentionForm};
use ante_gateway::text::{
    chained, contains, decimal_of, join, parse_number, same_text, split_tokens, strip_prefix, trim,
};

#[test]
fn trimming_takes_white_space_off_both_ends() {
    for (input, expected) in [
        ("", ""),
        (" \t\r\n", ""),
        ("a", "a"),
        ("\u{a0}\u{85} a b \u{2003}\u{2029}", "a b"),
        ("\u{200b}a\u{feff}", "\u{200b}a\u{feff}"),
    ] {
        assert_eq!(trim(input), expected, "{input:?}");
        assert_eq!(trim(input), input.trim(), "{input:?}");
    }
}

#[test]
fn searching_finds_contiguous_runs() {
    for (text, needle) in
        [("", ""), ("abc", ""), ("abc", "bc"), ("abc", "ac"), ("ab", "abc"), ("añb", "ñ")]
    {
        assert_eq!(contains(text, needle), text.contains(needle), "{text:?} {needle:?}");
    }
    assert!(same_text("añ", "añ"));
    assert!(!same_text("añ", "an"));
    assert!(!same_text("a", "ab"));
}

#[test]
fn prefixes_are_stripped_once() {
    assert_eq!(strip_prefix("env:env:A", "env:").as_deref(), Some("env:A"));
    assert_eq!(strip_prefix("env:", "env:").as_deref(), Some(""));
    assert_eq!(strip_prefix("env", "env:"), None);
    assert_eq!(strip_prefix("", "").as_deref(), Some(""));
}

#[test]
fn tokens_join_and_split() {
    let parts: Vec<String> = ["a", "bc", "d"].iter().map(|part| part.to_string()).collect();
    assert_eq!(join(&parts, " "), "a bc d");
    assert_eq!(split_tokens(&join(&parts, " "), false), parts);
    assert_eq!(split_tokens("a,b c", false), ["a,b", "c"]);
    assert_eq!(split_tokens("a,b c", true), ["a", "b", "c"]);
    assert_eq!(join(&Vec::new(), " "), "");
    assert_eq!(chained("<", "x", ">"), "<x>");
}

#[test]
fn decimals_read_back() {
    for n in [0, 7, 10, 99, 100, 4096, u32::MAX as u64] {
        assert_eq!(decimal_of(n), n.to_string());
        assert_eq!(parse_number(&decimal_of(n)), Some(n as usize));
    }
    assert_eq!(decimal_of(u64::MAX), "18446744073709551615");
    for text in ["", "+", "-0", "+7", "007", "1a", " 1", "18446744073709551615",
        "18446744073709551616"] {
        assert_eq!(parse_number(text), text.parse::<usize>().ok(), "{text:?}");
    }
}

#[test]
fn stripping_normalizes_and_keeps_text_without_mentions() {
    assert_eq!(strip(" a \n b ", MentionForm::Named), "a b");
    assert_eq!(strip("a b", MentionForm::Numbered), "a b");
    assert_eq!(strip("<@x1> <@1>", MentionForm::Numbered), "<@x1>");
    assert_eq!(strip("<@x1> <@1>", MentionForm::Named), "");
}

#[test]
fn documents_are_read() {
    let document = Json::parse(r#"{"a":1,"b":[null,true,-2,2.5,"x"],"a":{"c":"d"}}"#).unwrap();
    assert_eq!(document.field("a").field("c").as_str(), Some("d"));
    assert!(document.field("b").field("c").is_null());
    assert!(document.field("z").is_null());
    match document.field("b") {
        Json::Array(items) => {
            assert!(items[0].is_null());
            assert_eq!(items[1].as_bool(), Some(true));
            assert_eq!(items[2].as_u64(), None);
            assert!(matches!(&items[2], Json::OtherNumber(n) if n == "-2"));
            assert!(matches!(&items[3], Json::OtherNumber(n) if n == "2.5"));
            assert!(items[4].is_word("x"));
            assert_eq!(items[4].to_text().as_deref(), Some("x"));
        }
        other => panic!("{other:?}"),
    }
    assert_eq!(Json::parse("18446744073709551615").unwrap().as_u64(), Some(u64::MAX));
    assert_eq!(Json::parse("1.0").unwrap().as_u64(), None);
    assert_eq!(Json::parse("[1").unwrap_err(), "EOF while parsing a list at line 1 column 2");
}

#[test]
fn of_two_fields_with_one_key_the_later_counts() {
    let entries = vec![("k".to_string(), Json::Bool(false)), ("k".to_string(), Json::Unsigned(3))];
    assert_eq!(Json::Object(entries).field("k").as_u64(), Some(3));
}

#[test]
fn replies_write_their_fields() {
    let reply = Reply::read(r#"{"z":{"b":[1,2.50],"a":"é"}}"#).unwrap();
    assert_eq!(reply.field_text("z"), r#"{"a":"é","b":[1,2.5]}"#);
    assert_eq!(reply.field_text("y"), "null");
    assert!(reply.document().field("y").is_null());
    assert_eq!(Reply::read("7").unwrap().field_text("z"), "null");
    assert!(Reply::read("").is_err());
}
