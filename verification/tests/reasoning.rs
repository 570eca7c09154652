use demido_studio::reasoning::{
    coerce, promote_stranded_answer, recover, typed_arguments, ArgValue, Recovered,
};
use demido_studio::text::parse_i64;

fn tools() -> Vec<String> {
    vec!["wfm_search_items".to_string(), "wfm_get_top_orders".to_string()]
}

/// The properties each tool's schema declares, with their types.
fn schema(tool: &str) -> Vec<(String, String)> {
    let pairs: &[(&str, &str)] = match tool {
        "wfm_search_items" => &[("query", "string"), ("language", "string"), ("limit", "integer")],
        "wfm_get_top_orders" => &[("slug", "string")],
        _ => &[],
    };
    pairs.iter().map(|(k, t)| (k.to_string(), t.to_string())).collect()
}

/// The typed argument under `key` (a later one replacing an earlier one, as in a JSON object).
fn arg(r: &Recovered, call: usize, key: &str) -> Option<ArgValue> {
    let c = &r.calls[call];
    typed_arguments(&c.params, &schema(&c.name)).into_iter().rev().find(|(k, _)| k == key).map(|(_, v)| v)
}

fn as_text(s: &str) -> Option<ArgValue> {
    Some(ArgValue::Text(s.to_string()))
}

const LEAKED: &str = "Overguard isn't tradable. Let me search for a different maxed mod.\n\n<tool_call>\n<function=wfm_search_items>\n<parameter=language>\nen\n</parameter>\n<parameter=query>\nGreed\n</parameter>\n</function>\n</tool_call>";

const LEAKED_REAL: &[(&str, &str)] = &[
    (
        "Overguard has 0 matches. Trying a different maxed mod.\n\n<tool_call>\n<function=wfm_search_items>\n<parameter=language>\nen\n</parameter>\n<parameter=query>\nOverload\n</parameter>\n</function>\n</tool_call>",
        "Overload",
    ),
    (
        "Overguard not tradable. Pick tradable maxed mod. Search for Amplify Damage.\n\n<tool_call>\n<function=wfm_search_items>\n<parameter=language>\nen\n</parameter>\n<parameter=query>\nAmplify Damage\n</parameter>\n</function>\n</tool_call>",
        "Amplify Damage",
    ),
];

#[test]
fn recovers_every_real_capture() {
    for (text, expected_query) in LEAKED_REAL {
        let r = recover(text, &tools()).unwrap().unwrap_or_else(|| panic!("failed to recover: {text}"));
        assert_eq!(r.calls.len(), 1);
        assert_eq!(r.calls[0].name, "wfm_search_items");
        assert_eq!(arg(&r, 0, "query"), as_text(expected_query));
        assert_eq!(arg(&r, 0, "language"), as_text("en"));
        assert!(!r.cleaned.contains("<tool_call>"));
        assert!(!r.cleaned.is_empty(), "reasoning prose should survive");
    }
}

#[test]
fn recovers_real_leaked_call() {
    let r = recover(LEAKED, &tools()).unwrap().expect("should recover");
    assert_eq!(r.calls.len(), 1);
    assert_eq!(r.calls[0].name, "wfm_search_items");
    assert_eq!(arg(&r, 0, "query"), as_text("Greed"));
    assert_eq!(arg(&r, 0, "language"), as_text("en"));
    assert_eq!(r.cleaned, "Overguard isn't tradable. Let me search for a different maxed mod.");
}

#[test]
fn coerces_by_schema_type() {
    let src = "<tool_call>\n<function=wfm_search_items>\n<parameter=query>\n5\n</parameter>\n<parameter=limit>\n5\n</parameter>\n</function>\n</tool_call>";
    let r = recover(src, &tools()).unwrap().unwrap();
    // Same text, different declared types.
    assert_eq!(arg(&r, 0, "query"), as_text("5"));
    assert_eq!(arg(&r, 0, "limit"), Some(ArgValue::Integer(5)));
}

#[test]
fn multi_word_and_underscore_values_survive() {
    let src = "<tool_call>\n<function=wfm_get_top_orders>\n<parameter=slug>\ndetect_vulnerability\n</parameter>\n</function>\n</tool_call>";
    let r = recover(src, &tools()).unwrap().unwrap();
    assert_eq!(arg(&r, 0, "slug"), as_text("detect_vulnerability"));
}

#[test]
fn recovers_multiple_blocks() {
    let src = format!("{}\n{}", LEAKED, "<tool_call>\n<function=wfm_get_top_orders>\n<parameter=slug>\nserration\n</parameter>\n</function>\n</tool_call>");
    let r = recover(&src, &tools()).unwrap().unwrap();
    assert_eq!(r.calls.len(), 2);
    assert_eq!(r.calls[1].name, "wfm_get_top_orders");
}

#[test]
fn ignores_unknown_tool() {
    let src = "<tool_call>\n<function=rm_rf_everything>\n<parameter=path>\n/\n</parameter>\n</function>\n</tool_call>";
    assert!(recover(src, &tools()).unwrap().is_none());
}

#[test]
fn ignores_plain_text() {
    assert!(recover("No tool call here. Just prose about <function=x>.", &tools()).unwrap().is_none());
}

#[test]
fn ids_are_unique() {
    let a = recover(LEAKED, &tools()).unwrap().unwrap();
    let b = recover(LEAKED, &tools()).unwrap().unwrap();
    assert_ne!(a.calls[0].id, b.calls[0].id);
    assert!(a.calls[0].id.starts_with("recovered_"));
    assert_eq!(a.calls[0].id.len(), 42);
}

#[test]
fn an_unclosed_block_is_left_alone() {
    assert!(recover("<tool_call>\n<function=wfm_search_items>\n</function>", &tools()).unwrap().is_none());
}

#[test]
fn a_malformed_function_tag_is_passed_over_for_the_next() {
    let src = "<tool_call><function= bad><function=wfm_get_top_orders><parameter=slug>x</parameter></function></tool_call> tail";
    let r = recover(src, &tools()).unwrap().unwrap();
    assert_eq!(r.calls[0].name, "wfm_get_top_orders");
    assert_eq!(r.calls[0].params, vec![("slug".to_string(), "x".to_string())]);
    assert_eq!(r.cleaned, "tail");
}

#[test]
fn only_one_newline_is_taken_off_each_side_of_a_value() {
    let src = "<tool_call><function=wfm_get_top_orders><parameter=slug>\n\nx\n\n</parameter></function></tool_call>";
    let r = recover(src, &tools()).unwrap().unwrap();
    assert_eq!(r.calls[0].params[0].1, "\nx\n");
}

const STRANDED_ANSWER: &str = "Got top sell orders for Assault Mode mod. Prices: 1, 1, 2, 2, 2 platinum. Average = 7/5 = 1.4 platinum. No buy orders available.\n\nAverage sell price = **1.4 platinum** (from 5 in-game sellers).";

#[test]
fn promotes_real_stranded_answer() {
    let got = promote_stranded_answer("", STRANDED_ANSWER).expect("should promote");
    assert!(got.contains("1.4 platinum"));
    assert!(got.contains("5 in-game sellers"));
}

#[test]
fn leaves_healthy_turn_alone() {
    assert!(promote_stranded_answer("Average is 1.4 platinum.", STRANDED_ANSWER).is_none());
}

#[test]
fn ignores_whitespace_only_fields() {
    assert!(promote_stranded_answer("   \n", "  ").is_none());
    assert!(promote_stranded_answer("", "").is_none());
}

#[test]
fn the_promoted_answer_is_trimmed() {
    assert_eq!(promote_stranded_answer(" ", "\n answer \n").unwrap(), "answer");
}

#[test]
fn integers_are_read_as_str_parse_reads_them() {
    assert_eq!(parse_i64("42"), Some(42));
    assert_eq!(parse_i64("-42"), Some(-42));
    assert_eq!(parse_i64("+7"), Some(7));
    assert_eq!(parse_i64("9223372036854775807"), Some(i64::MAX));
    assert_eq!(parse_i64("-9223372036854775808"), Some(i64::MIN));
    assert_eq!(parse_i64("9223372036854775808"), None);
    assert_eq!(parse_i64("99999999999999999999999"), None);
    assert_eq!(parse_i64(""), None);
    assert_eq!(parse_i64("-"), None);
    assert_eq!(parse_i64(" 5"), None);
    assert_eq!(parse_i64("5x"), None);
    for n in [0i64, 1, -1, 123456789, i64::MAX, i64::MIN] {
        assert_eq!(parse_i64(&n.to_string()), n.to_string().parse::<i64>().ok());
    }
}

#[test]
fn every_declared_type_has_its_reading() {
    assert_eq!(coerce(" 12 ", Some("integer")), ArgValue::Integer(12));
    assert_eq!(coerce("twelve", Some("integer")), ArgValue::Text("twelve".to_string()));
    assert_eq!(coerce(" true\n", Some("boolean")), ArgValue::Bool(true));
    assert_eq!(coerce("False", Some("boolean")), ArgValue::Text("False".to_string()));
    assert_eq!(coerce(" [1, 2] ", Some("array")), ArgValue::Json("[1, 2]".to_string()));
    assert_eq!(coerce("{oops", Some("object")), ArgValue::Text("{oops".to_string()));
    assert_eq!(coerce(" 1.5 ", Some("number")), ArgValue::Number { text: "1.5".to_string(), raw: " 1.5 ".to_string() });
    assert_eq!(coerce("5", None), ArgValue::Text("5".to_string()));
    assert_eq!(coerce("5", Some("uuid")), ArgValue::Text("5".to_string()));
}
