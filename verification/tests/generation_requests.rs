use langman::generation::{
    developer_prompt, grammar_rule_prompt, model_from_setting, recent_exercises_prompt,
    review_generated_set, supports_temperature, user_prompt, AttemptDecision, GenerationError,
};
use langman::records::{Exercise, GrammarRule, RecentExercise};
use langman::validate::ValidationError;

fn rule(id: &str, level: &str, examples: &[&str]) -> GrammarRule {
    GrammarRule {
        id: id.to_string(),
        language: "Spanish".to_string(),
        cefr_level: level.to_string(),
        category: "verbs".to_string(),
        title: format!("Title {id}"),
        rule_text: format!("Use {id}."),
        examples: examples.iter().map(|s| s.to_string()).collect(),
        common_mistakes: vec![],
        tags: vec![],
    }
}

fn exercise(rule_id: &str, sentence: &str, answer: &str) -> Exercise {
    Exercise {
        focus_rule_id: rule_id.to_string(),
        sentence: sentence.to_string(),
        answer: answer.to_string(),
        hint: "h".to_string(),
        focus: "f".to_string(),
        explanation: "e".to_string(),
    }
}

#[test]
fn rule_listing_format() {
    let rules = vec![rule("ser", "A1", &["Soy Ana", "Es tarde"]), rule("ir", "A2", &[])];
    assert_eq!(
        grammar_rule_prompt(&rules),
        "- ser: Title ser (verbs, CEFR A1)\n  Rule: Use ser.\n  Examples: Soy Ana | Es tarde\n- ir: Title ir (verbs, CEFR A2)\n  Rule: Use ir.\n  Examples: "
    );
    assert_eq!(grammar_rule_prompt(&[]), "");
}

#[test]
fn recent_listing_format() {
    assert_eq!(recent_exercises_prompt(&[]), "No recent saved exercises.");
    let recent = vec![
        RecentExercise { prompt: "Yo ____ pan.".to_string(), answer: "como".to_string() },
        RecentExercise { prompt: "Tú ____.".to_string(), answer: "eres".to_string() },
    ];
    assert_eq!(
        recent_exercises_prompt(&recent),
        "1. Prompt: Yo ____ pan. | Answer: como\n2. Prompt: Tú ____. | Answer: eres"
    );
}

#[test]
fn request_texts() {
    let dev = developer_prompt("RULES", "RECENT");
    assert!(dev.starts_with("You are a careful language tutor."));
    assert!(dev.contains("Approved grammar rules:\nRULES\n\nAvoid creating exercises"));
    assert!(dev.ends_with("saved exercises below.\nRECENT\n\nReturn only structured data that matches the schema."));
    let user = user_prompt("B1", "Spanish");
    assert!(user.starts_with("Create 5 fill-in-the-blank exercises for a B1 learner of Spanish. The learner should type"));
    assert!(user.ends_with("and a short explanation."));
}

#[test]
fn temperature_support_and_model_choice() {
    assert!(supports_temperature("gpt-5.1"));
    assert!(supports_temperature("gpt-5.2-pro"));
    assert!(!supports_temperature("gpt-5-mini"));
    assert!(!supports_temperature("gpt-5.3"));
    assert_eq!(model_from_setting(None), "gpt-5-mini");
    assert_eq!(model_from_setting(Some("gpt-5.1".to_string())), "gpt-5.1");
}

#[test]
fn attempt_decisions() {
    let rules = vec![rule("ser", "A1", &[]), rule("estar", "A1", &[]), rule("ir", "A1", &[])];
    let good = vec![
        exercise("ser", "Yo ____ alto.", "soy"),
        exercise("estar", "Ella ____ aquí.", "está"),
        exercise("ir", "Nosotros ____ hoy.", "vamos"),
        exercise("ser", "Ellos ____ altos.", "son"),
        exercise("estar", "Tú ____ bien.", "estás"),
    ];
    assert_eq!(review_generated_set(0, &good, &rules, &[]), AttemptDecision::Accept);
    assert_eq!(
        review_generated_set(0, &[], &rules, &[]),
        AttemptDecision::Fail(GenerationError::NoExercises)
    );
    let short = &good[..4];
    assert_eq!(review_generated_set(0, short, &rules, &[]), AttemptDecision::Retry);
    assert_eq!(review_generated_set(1, short, &rules, &[]), AttemptDecision::Retry);
    let last = review_generated_set(2, short, &rules, &[]);
    assert_eq!(
        last,
        AttemptDecision::Fail(GenerationError::Invalid(ValidationError::WrongExerciseCount { returned: 4 }))
    );
    if let AttemptDecision::Fail(e) = last {
        assert_eq!(e.message(), "OpenAI returned 4 exercises instead of 5.");
    }
    assert_eq!(GenerationError::NoExercises.message(), "OpenAI returned no exercises.");
    assert_eq!(
        GenerationError::MissingOutputText.message(),
        "OpenAI response did not include output text with exercises."
    );
    assert_eq!(
        GenerationError::NotDiverse.message(),
        "Failed to generate a sufficiently diverse exercise set."
    );
}
