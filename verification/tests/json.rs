use ireina::decimal::Price;
use ireina::json::{duplicate_members, number_text, Json, Member, Number};

fn text(s: &str) -> Json {
    Json::Text(s.to_string())
}

fn object(members: Vec<(&str, Json)>) -> Json {
    Json::Object(members.into_iter().map(|(k, v)| Member { key: k.to_string(), value: v }).collect())
}

fn number(written: &str) -> Json {
    let value: serde_json::Value = serde_json::from_str(written).unwrap();
    from_serde(&value)
}

// The value of the library that stands for a value of `serde_json`.
fn from_serde(value: &serde_json::Value) -> Json {
    match value {
        serde_json::Value::Null => Json::Null,
        serde_json::Value::Bool(b) => Json::Bool(*b),
        serde_json::Value::Number(n) => Json::Number(Number {
            text: n.to_string(),
            decimal: n.as_f64().and_then(rust_decimal::prelude::FromPrimitive::from_f64).map(
                |d: rust_decimal::Decimal| {
                    let u = d.unpack();
                    Price::new(u.negative, u.hi, u.mid, u.lo, u.scale).unwrap()
                },
            ),
        }),
        serde_json::Value::String(s) => Json::Text(s.clone()),
        serde_json::Value::Array(items) => Json::Array(items.iter().map(from_serde).collect()),
        serde_json::Value::Object(members) => Json::Object(
            members.iter().map(|(k, v)| Member { key: k.clone(), value: from_serde(v) }).collect(),
        ),
    }
}

#[test]
fn member_of_an_object() {
    let doc = object(vec![("a", text("x")), ("b", Json::Bool(true))]);
    assert_eq!(doc.member("a"), &text("x"));
    assert_eq!(doc.member("b"), &Json::Bool(true));
    assert_eq!(doc.member("c"), &Json::Null);
    assert_eq!(doc.member(""), &Json::Null);
}

#[test]
fn member_of_what_is_no_object_is_null() {
    assert_eq!(Json::Null.member("a"), &Json::Null);
    assert_eq!(text("a").member("a"), &Json::Null);
    assert_eq!(Json::Array(vec![text("a")]).member("a"), &Json::Null);
}

#[test]
fn the_last_of_several_members_with_one_key_counts() {
    let doc = object(vec![("a", text("first")), ("b", Json::Null), ("a", text("last"))]);
    assert_eq!(doc.member("a"), &text("last"));
}

#[test]
fn element_of_an_array() {
    let doc = Json::Array(vec![text("x"), Json::Bool(false)]);
    assert_eq!(doc.element(0), &text("x"));
    assert_eq!(doc.element(1), &Json::Bool(false));
    assert_eq!(doc.element(2), &Json::Null);
    assert_eq!(doc.element(usize::MAX), &Json::Null);
}

#[test]
fn element_of_what_is_no_array_is_null() {
    assert_eq!(Json::Null.element(0), &Json::Null);
    assert_eq!(object(vec![("0", text("x"))]).element(0), &Json::Null);
}

#[test]
fn as_text_gives_strings_only() {
    assert_eq!(text("1.5").as_text(), Some("1.5"));
    assert_eq!(text("").as_text(), Some(""));
    assert_eq!(number("1.5").as_text(), None);
    assert_eq!(Json::Null.as_text(), None);
}

#[test]
fn as_decimal_gives_numbers_only() {
    assert_eq!(number("1.5").as_decimal(), Some(Price::parse("1.5").unwrap()));
    assert_eq!(number("3").as_decimal().map(|p| p.same_value(&Price::from_u32(3))), Some(true));
    assert_eq!(number("1e40").as_decimal(), None);
    assert_eq!(text("1.5").as_decimal(), None);
}

#[test]
fn is_null_and_as_array() {
    assert!(Json::Null.is_null());
    assert!(!Json::Bool(false).is_null());
    assert!(!text("").is_null());
    let items = vec![Json::Null, text("a")];
    assert_eq!(Json::Array(vec![Json::Null, text("a")]).as_array(), Some(&items));
    assert_eq!(object(vec![]).as_array(), None);
}

#[test]
fn render_writes_compact_json() {
    assert_eq!(Json::Null.render(), "null");
    assert_eq!(Json::Bool(true).render(), "true");
    assert_eq!(Json::Bool(false).render(), "false");
    assert_eq!(number("12.50").render(), "12.5");
    assert_eq!(text("abc").render(), "\"abc\"");
    assert_eq!(Json::Array(vec![]).render(), "[]");
    assert_eq!(object(vec![]).render(), "{}");
    assert_eq!(Json::Array(vec![number("1"), Json::Null, text("x")]).render(), "[1,null,\"x\"]");
    assert_eq!(
        object(vec![("k", Json::Array(vec![Json::Bool(true)])), ("l", object(vec![("m", Json::Null)]))])
            .render(),
        "{\"k\":[true],\"l\":{\"m\":null}}"
    );
}

#[test]
fn render_escapes_strings_and_keys() {
    assert_eq!(text("say \"hi\"\n").render(), "\"say \\\"hi\\\"\\n\"");
    assert_eq!(text("back\\slash\ttab\u{1}").render(), "\"back\\\\slash\\ttab\\u0001\"");
    assert_eq!(object(vec![("a\"b", text("é"))]).render(), "{\"a\\\"b\":\"é\"}");
}

#[test]
fn render_is_what_serde_json_displays() {
    let written = r#"{"id":"BTC-USD","n":[1,2.5,-3e-7,1e30],"deep":{"a":[{"b":null},"x\ny"],"t":true},"e":"","u":"\u00e9\u0007"}"#;
    let value: serde_json::Value = serde_json::from_str(written).unwrap();
    assert_eq!(from_serde(&value).render(), value.to_string());
}

#[test]
fn render_into_writes_behind_what_is_there() {
    let mut out = String::from("Kraken: ");
    text("EGeneral:Invalid arguments").render_into(&mut out);
    assert_eq!(out, "Kraken: \"EGeneral:Invalid arguments\"");
}

#[test]
fn duplicate_copies_the_whole_value() {
    let written = r#"{"a":[1,{"b":[null,true,"s"]}],"c":{"d":{"e":2.5}}}"#;
    let value: serde_json::Value = serde_json::from_str(written).unwrap();
    let doc = from_serde(&value);
    assert_eq!(doc.duplicate(), doc);
    assert_eq!(doc.duplicate().render(), written);
    let members = vec![Member { key: "k".to_string(), value: doc.duplicate() }];
    assert_eq!(duplicate_members(&members), members);
}

#[test]
fn number_text_holds_the_characters_of_numbers_only() {
    for written in ["0", "-12.5", "1e30", "3E+7", "-1.5e-3", "", "+", "..", "1234567890"] {
        assert!(number_text(written));
    }
    for written in ["1 ", "[1]", "1,2", "\"1\"", "null", "0x10", "١", "1:2", "{}"] {
        assert!(!number_text(written));
    }
}

#[test]
fn a_plain_value_has_no_array_among_the_elements_of_an_array() {
    assert!(Json::Null.plain());
    assert!(Json::Bool(true).plain());
    assert!(text("[[1]]").plain());
    assert!(number("12.5").plain());
    assert!(Json::Array(vec![]).plain());
    assert!(Json::Array(vec![number("1"), text("a"), object(vec![])]).plain());
    assert!(object(vec![("a", Json::Array(vec![number("1")])), ("b", Json::Array(vec![]))]).plain());
    assert!(Json::Array(vec![object(vec![("a", Json::Array(vec![Json::Null]))])]).plain());
    assert!(!Json::Array(vec![Json::Array(vec![])]).plain());
    assert!(!Json::Array(vec![number("1"), Json::Array(vec![number("2")]), number("3")]).plain());
    assert!(!object(vec![("a", Json::Null), ("b", Json::Array(vec![Json::Array(vec![])]))]).plain());
    assert!(!Json::Array(vec![object(vec![("a", Json::Array(vec![Json::Array(vec![])]))])]).plain());
}

#[test]
fn a_plain_value_writes_its_numbers_as_numbers() {
    let odd = Json::Number(Number { text: "[[1],[2]]".to_string(), decimal: None });
    assert!(!odd.plain());
    assert!(!Json::Array(vec![Json::Number(Number { text: "1 2".to_string(), decimal: None })]).plain());
    assert!(!object(vec![("n", Json::Number(Number { text: "true".to_string(), decimal: None }))]).plain());
}

#[test]
fn render_escapes_every_character_below_the_space() {
    assert_eq!(text("\u{8}\u{c}\r").render(), "\"\\b\\f\\r\"");
    assert_eq!(text("\u{0}\u{b}\u{e}\u{1f}").render(), "\"\\u0000\\u000b\\u000e\\u001f\"");
    assert_eq!(text(" \u{7f}/'").render(), "\" \u{7f}/'\"");
    assert_eq!(text("").render(), "\"\"");
    for code in 0u32..0x20 {
        let c = char::from_u32(code).unwrap();
        let written = text(&c.to_string()).render();
        assert_eq!(written, serde_json::Value::String(c.to_string()).to_string());
        assert!(written.starts_with("\"\\"));
    }
}

#[test]
fn members_are_keyed_in_the_order_of_their_keys() {
    let members = vec![
        Member { key: "b".to_string(), value: text("1") },
        Member { key: "a".to_string(), value: text("2") },
        Member { key: "c".to_string(), value: Json::Null },
        Member { key: "a".to_string(), value: text("3") },
        Member { key: "".to_string(), value: Json::Bool(true) },
    ];
    let keyed = ireina::members::keyed_members_copy(&members);
    assert_eq!(
        keyed,
        vec![
            Member { key: "".to_string(), value: Json::Bool(true) },
            Member { key: "a".to_string(), value: text("3") },
            Member { key: "b".to_string(), value: text("1") },
            Member { key: "c".to_string(), value: Json::Null },
        ]
    );
    assert_eq!(ireina::members::keyed_members_copy(&keyed), keyed);
    assert_eq!(ireina::members::keyed_members_copy(&vec![]), vec![]);
}
