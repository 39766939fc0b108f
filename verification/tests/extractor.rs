use std::collections::BTreeSet;
use wsl_port_forwarder::detector::{
    collect_ports_from_json, extract_ports_from_string, to_valid_port, JsonValue,
};

fn ports_of(value: &JsonValue) -> Vec<u16> {
    let mut out: BTreeSet<u16> = BTreeSet::new();
    collect_ports_from_json(value, &mut out);
    out.into_iter().collect()
}

#[test]
fn string_rule_prefix_colon() {
    assert_eq!(extract_ports_from_string(":8080"), vec![8080]);
}

#[test]
fn string_rule_host_port_trailing_slash() {
    assert_eq!(extract_ports_from_string("0.0.0.0:3000/"), vec![3000]);
}

#[test]
fn string_rule_no_colon() {
    assert_eq!(extract_ports_from_string("no-colon-here"), Vec::<u16>::new());
}

#[test]
fn string_rule_zero_port() {
    assert_eq!(extract_ports_from_string(":0"), Vec::<u16>::new());
}

#[test]
fn string_rule_last_colon_wins() {
    assert_eq!(extract_ports_from_string("http://example.test:443"), vec![443]);
}

#[test]
fn string_rule_plus_sign_like_rust_parse() {
    // str::parse::<u16> accepts a leading plus, so the rule does too.
    assert_eq!(extract_ports_from_string(":+80"), vec![80]);
}

#[test]
fn string_rule_overflow_rejected() {
    assert_eq!(extract_ports_from_string(":70000"), Vec::<u16>::new());
    assert_eq!(extract_ports_from_string("host:65536"), Vec::<u16>::new());
}

#[test]
fn to_valid_port_bounds() {
    assert_eq!(to_valid_port(0), None);
    assert_eq!(to_valid_port(1), Some(1));
    assert_eq!(to_valid_port(80), Some(80));
    assert_eq!(to_valid_port(65535), Some(65535));
    assert_eq!(to_valid_port(65536), None);
}

#[test]
fn port_key_extracted() {
    let doc = JsonValue::Object(vec![(
        String::from("port"),
        JsonValue::Number(Some(8080)),
    )]);
    assert_eq!(ports_of(&doc), vec![8080]);
}

#[test]
fn port_key_case_insensitive() {
    let doc = JsonValue::Object(vec![
        (String::from("PORT"), JsonValue::Number(Some(81))),
        (String::from("Listen_Port"), JsonValue::Number(Some(82))),
    ]);
    assert_eq!(ports_of(&doc), vec![81, 82]);
}

#[test]
fn zero_and_oversized_port_values_dropped() {
    let doc = JsonValue::Object(vec![
        (String::from("port"), JsonValue::Number(Some(0))),
        (String::from("listen_port"), JsonValue::Number(Some(70000))),
    ]);
    assert_eq!(ports_of(&doc), Vec::<u16>::new());
}

#[test]
fn numeric_value_under_other_key_excluded() {
    let doc = JsonValue::Object(vec![
        (String::from("pid"), JsonValue::Number(Some(4242))),
        (String::from("uptime"), JsonValue::Number(Some(99))),
    ]);
    assert_eq!(ports_of(&doc), Vec::<u16>::new());
}

#[test]
fn address_key_string_extracted() {
    let doc = JsonValue::Object(vec![
        (String::from("listen"), JsonValue::Text(String::from(":9090"))),
        (String::from("Address"), JsonValue::Text(String::from("127.0.0.1:9091"))),
    ]);
    assert_eq!(ports_of(&doc), vec![9090, 9091]);
}

#[test]
fn strings_anywhere_in_tree_extracted() {
    let doc = JsonValue::Array(vec![
        JsonValue::Text(String::from("svc:9001")),
        JsonValue::Bool(true),
        JsonValue::Null,
    ]);
    assert_eq!(ports_of(&doc), vec![9001]);
}

#[test]
fn nested_structures_walked() {
    let inner = JsonValue::Object(vec![(
        String::from("listen_port"),
        JsonValue::Number(Some(3001)),
    )]);
    let doc = JsonValue::Object(vec![(
        String::from("apps"),
        JsonValue::Array(vec![inner, JsonValue::Text(String::from(":3002"))]),
    )]);
    assert_eq!(ports_of(&doc), vec![3001, 3002]);
}

#[test]
fn duplicates_deduplicated() {
    let doc = JsonValue::Array(vec![
        JsonValue::Text(String::from(":7000")),
        JsonValue::Text(String::from("x:7000")),
    ]);
    assert_eq!(ports_of(&doc), vec![7000]);
}
