use langman::generation::exercise_schema;
use langman::json::JsonValue;
use serde_json::{Number, Value};

fn to_serde(v: &JsonValue) -> Value {
    match v {
        JsonValue::Null => Value::Null,
        JsonValue::Bool(b) => Value::Bool(*b),
        JsonValue::Number(t) => Value::Number(t.parse::<Number>().unwrap()),
        JsonValue::Text(s) => Value::String(s.clone()),
        JsonValue::Array(a) => Value::Array(a.iter().map(to_serde).collect()),
        JsonValue::Object(e) => {
            let mut m = serde_json::Map::new();
            for (k, x) in e {
                m.insert(k.clone(), to_serde(x));
            }
            Value::Object(m)
        }
    }
}

#[test]
fn schema_is_the_exercise_set_schema() {
    let expected: Value = serde_json::from_str(
        r#"{
        "type": "object",
        "additionalProperties": false,
        "required": ["exercises"],
        "properties": {
            "exercises": {
                "type": "array",
                "minItems": 5,
                "maxItems": 5,
                "items": {
                    "type": "object",
                    "additionalProperties": false,
                    "required": ["focus_rule_id", "sentence", "answer", "hint", "focus", "explanation"],
                    "properties": {
                        "focus_rule_id": {"type": "string", "description": "The exact grammar rule id from the approved rule list."},
                        "sentence": {"type": "string", "description": "A sentence containing exactly one ____ blank marker."},
                        "answer": {"type": "string", "description": "The exact missing word or short phrase."},
                        "hint": {"type": "string", "description": "A short learner-facing clue."},
                        "focus": {"type": "string", "description": "The grammar, conjugation, or vocabulary topic being practiced."},
                        "explanation": {"type": "string", "description": "A concise explanation of why the answer is correct."}
                    }
                }
            }
        }
    }"#,
    )
    .unwrap();
    assert_eq!(to_serde(&exercise_schema()), expected);
}
