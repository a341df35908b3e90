use langman::json::{
    response_output_text, ResponseError,
    extract_output_text, get_field, grammar_rule_from_columns, parse_string_list,
    rule_list_columns, JsonValue,
};

fn text(s: &str) -> JsonValue {
    JsonValue::Text(s.to_string())
}

fn object(entries: Vec<(&str, JsonValue)>) -> JsonValue {
    JsonValue::Object(entries.into_iter().map(|(k, v)| (k.to_string(), v)).collect())
}

#[test]
fn field_lookup() {
    let v = object(vec![("a", text("1")), ("b", JsonValue::Null)]);
    assert!(matches!(get_field(&v, "a"), Some(JsonValue::Text(s)) if s == "1"));
    assert!(matches!(get_field(&v, "b"), Some(JsonValue::Null)));
    assert!(get_field(&v, "c").is_none());
    assert!(get_field(&text("a"), "a").is_none());
}

#[test]
fn output_text_is_the_first_output_text_item() {
    let response = object(vec![(
        "output",
        JsonValue::Array(vec![
            object(vec![("type", text("reasoning"))]),
            object(vec![(
                "content",
                JsonValue::Array(vec![
                    object(vec![("type", text("refusal")), ("text", text("no"))]),
                    object(vec![("type", text("output_text")), ("text", JsonValue::Number("3".to_string()))]),
                    object(vec![("type", text("output_text")), ("text", text("{\"exercises\":[]}"))]),
                    object(vec![("type", text("output_text")), ("text", text("second"))]),
                ]),
            )]),
        ]),
    )]);
    assert_eq!(extract_output_text(&response), Some("{\"exercises\":[]}".to_string()));
}

#[test]
fn output_text_missing() {
    assert_eq!(extract_output_text(&object(vec![])), None);
    assert_eq!(extract_output_text(&object(vec![("output", text("x"))])), None);
    let no_text = object(vec![(
        "output",
        JsonValue::Array(vec![object(vec![("content", JsonValue::Array(vec![object(vec![("type", text("output_text"))])]))])]),
    )]);
    assert_eq!(extract_output_text(&no_text), None);
}

#[test]
fn stored_lists_decode_or_read_empty() {
    assert_eq!(parse_string_list("[\"a\",\"b c\"]"), vec!["a".to_string(), "b c".to_string()]);
    assert_eq!(parse_string_list("[]"), Vec::<String>::new());
    assert_eq!(parse_string_list("not json"), Vec::<String>::new());
    assert_eq!(parse_string_list("[1,2]"), Vec::<String>::new());
}

#[test]
fn rule_columns_round_trip() {
    let rule = grammar_rule_from_columns(
        "ser".to_string(),
        "Spanish".to_string(),
        "A1".to_string(),
        "verbs".to_string(),
        "Ser".to_string(),
        "Use ser.".to_string(),
        "[\"Soy Ana\"]",
        "oops",
        "[\"core\",\"verbs\"]",
    );
    assert_eq!(rule.id, "ser");
    assert_eq!(rule.examples, vec!["Soy Ana".to_string()]);
    assert!(rule.common_mistakes.is_empty());
    assert_eq!(rule.tags, vec!["core".to_string(), "verbs".to_string()]);
    let (e, m, t) = rule_list_columns(&rule).unwrap();
    assert_eq!(e, "[\"Soy Ana\"]");
    assert_eq!(m, "[]");
    assert_eq!(t, "[\"core\",\"verbs\"]");
}

#[test]
fn stored_rule_reads_back_as_written() {
    let tricky = vec![
        "él dijo \"hola\"".to_string(),
        "a\\b".to_string(),
        "línea\nnueva\tcon\u{1}control".to_string(),
        "".to_string(),
        "ñandú 😀 \u{2028}".to_string(),
    ];
    let written = grammar_rule_from_columns(
        "estar".to_string(),
        "Spanish".to_string(),
        "A2".to_string(),
        "verbs".to_string(),
        "Estar".to_string(),
        "Use estar.".to_string(),
        "[]",
        "[]",
        "[]",
    );
    let mut rule = written;
    rule.examples = tricky.clone();
    rule.common_mistakes = vec!["[\"not\", \"nested\"]".to_string()];
    rule.tags = vec!["core".to_string()];
    let (e, m, t) = rule_list_columns(&rule).unwrap();
    let read = grammar_rule_from_columns(
        rule.id.clone(),
        rule.language.clone(),
        rule.cefr_level.clone(),
        rule.category.clone(),
        rule.title.clone(),
        rule.rule_text.clone(),
        &e,
        &m,
        &t,
    );
    assert_eq!(read.id, "estar");
    assert_eq!(read.examples, tricky);
    assert_eq!(read.common_mistakes, vec!["[\"not\", \"nested\"]".to_string()]);
    assert_eq!(read.tags, vec!["core".to_string()]);
}

#[test]
fn response_body_gives_its_output_text() {
    let body = r#"{"id":"resp_1","output":[{"type":"reasoning","summary":[]},{"type":"message","content":[{"type":"output_text","text":"{\"exercises\":[]}","annotations":[]}]}]}"#;
    assert_eq!(response_output_text(body).unwrap(), "{\"exercises\":[]}");
    assert!(matches!(response_output_text("not json"), Err(ResponseError::NotJson(_))));
    assert!(matches!(
        response_output_text(r#"{"output":[{"content":[{"type":"refusal","refusal":"no"}]}]}"#),
        Err(ResponseError::MissingOutputText)
    ));
    assert!(matches!(response_output_text("[1, 2.5, null, true]"), Err(ResponseError::MissingOutputText)));
}
