use langman::records::{Exercise, GrammarRule, RecentExercise};
use langman::validate::{
    exercise_signature, normalize_answer, normalize_text, validate_exercises, ValidationError,
};

fn rule(id: &str, level: &str) -> GrammarRule {
    GrammarRule {
        id: id.to_string(),
        language: "Spanish".to_string(),
        cefr_level: level.to_string(),
        category: "verbs".to_string(),
        title: format!("Title {id}"),
        rule_text: format!("Rule {id}"),
        examples: vec![format!("ex {id}")],
        common_mistakes: vec![],
        tags: vec![],
    }
}

fn exercise(rule_id: &str, sentence: &str, answer: &str) -> Exercise {
    Exercise {
        focus_rule_id: rule_id.to_string(),
        sentence: sentence.to_string(),
        answer: answer.to_string(),
        hint: "hint".to_string(),
        focus: "focus".to_string(),
        explanation: "explanation".to_string(),
    }
}

fn rules() -> Vec<GrammarRule> {
    vec![rule("ser", "A1"), rule("estar", "A1"), rule("ir", "A2"), rule("tener", "A2")]
}

fn good_set() -> Vec<Exercise> {
    vec![
        exercise("ser", "Yo ____ estudiante.", "soy"),
        exercise("estar", "Ella ____ cansada hoy.", "está"),
        exercise("ir", "Nosotros ____ al cine.", "vamos"),
        exercise("tener", "Tú ____ dos hermanos.", "tienes"),
        exercise("ser", "Ellos ____ de México.", "son"),
    ]
}

#[test]
fn normalisation_trims_collapses_and_lowercases() {
    assert_eq!(normalize_answer("  Está \n"), "está");
    assert_eq!(normalize_text("  Yo   ____ \t Estudiante. "), "yo ____ estudiante.");
    assert_eq!(exercise_signature(" Yo  ____ pan. ", " COMO "), "yo ____ pan.::como");
}

#[test]
fn accepts_a_good_set() {
    assert_eq!(validate_exercises(&good_set(), &rules(), &[]), Ok(()));
}

#[test]
fn refuses_wrong_count() {
    let mut set = good_set();
    set.pop();
    let err = validate_exercises(&set, &rules(), &[]).unwrap_err();
    assert_eq!(err, ValidationError::WrongExerciseCount { returned: 4 });
    assert_eq!(err.message(), "OpenAI returned 4 exercises instead of 5.");
}

#[test]
fn refuses_missing_or_double_blank() {
    let mut set = good_set();
    set[2] = exercise("ir", "Nosotros vamos al cine.", "vamos");
    let err = validate_exercises(&set, &rules(), &[]).unwrap_err();
    assert_eq!(err, ValidationError::BlankMarkerCount { number: 3 });
    assert_eq!(err.message(), "Exercise 3 does not contain exactly one blank marker.");
    set[2] = exercise("ir", "____ ____ al cine.", "vamos");
    assert_eq!(
        validate_exercises(&set, &rules(), &[]),
        Err(ValidationError::BlankMarkerCount { number: 3 })
    );
}

#[test]
fn refuses_empty_answer() {
    let mut set = good_set();
    set[0] = exercise("ser", "Yo ____ estudiante.", "   ");
    let err = validate_exercises(&set, &rules(), &[]).unwrap_err();
    assert_eq!(err, ValidationError::EmptyAnswer { number: 1 });
    assert_eq!(err.message(), "Exercise 1 has an empty answer.");
}

#[test]
fn refuses_unknown_rule() {
    let mut set = good_set();
    set[4] = exercise("haber", "Ellos ____ de México.", "son");
    let err = validate_exercises(&set, &rules(), &[]).unwrap_err();
    assert_eq!(err, ValidationError::UnknownRule { number: 5, rule_id: "haber".to_string() });
    assert_eq!(err.message(), "Exercise 5 references unknown focus_rule_id 'haber'.");
}

#[test]
fn refuses_repeated_sentence_pattern() {
    let mut set = good_set();
    set[3] = exercise("tener", "  yo   ____ ESTUDIANTE. ", "tengo");
    let err = validate_exercises(&set, &rules(), &[]).unwrap_err();
    assert_eq!(err, ValidationError::RepeatedSentence { number: 4 });
    assert_eq!(err.message(), "Exercise 4 repeats a sentence pattern in this batch.");
}

#[test]
fn refuses_recent_duplicate() {
    let recent = vec![RecentExercise {
        prompt: "ella  ____ CANSADA hoy.".to_string(),
        answer: " Está".to_string(),
    }];
    let err = validate_exercises(&good_set(), &rules(), &recent).unwrap_err();
    assert_eq!(err, ValidationError::RecentDuplicate { number: 2 });
    assert_eq!(err.message(), "Exercise 2 duplicates a recently saved exercise.");
}

#[test]
fn refuses_batch_duplicate_signature() {
    // Different sentences whose signatures still coincide.
    let mut set = good_set();
    set[0] = exercise("ser", "Yo ____", "a::b");
    set[3] = exercise("tener", "Yo ____::a", "b");
    let err = validate_exercises(&set, &rules(), &[]).unwrap_err();
    assert_eq!(err, ValidationError::BatchDuplicate { number: 4 });
    assert_eq!(err.message(), "Exercise 4 duplicates another generated exercise.");
}

#[test]
fn refuses_too_few_rules() {
    let set = vec![
        exercise("ser", "Yo ____ estudiante.", "soy"),
        exercise("estar", "Ella ____ cansada hoy.", "está"),
        exercise("ser", "Nosotros ____ amigos.", "somos"),
        exercise("estar", "Tú ____ en casa.", "estás"),
        exercise("ser", "Ellos ____ de México.", "son"),
    ];
    let err = validate_exercises(&set, &rules(), &[]).unwrap_err();
    assert_eq!(err, ValidationError::TooFewRules);
    assert_eq!(err.message(), "Generated set does not cover enough distinct grammar rules.");
}

#[test]
fn first_failure_is_reported() {
    let mut set = good_set();
    set[1] = exercise("haber", "Ella ____ cansada hoy.", "está");
    set[3] = exercise("tener", "Tú tienes dos hermanos.", "tienes");
    assert_eq!(
        validate_exercises(&set, &rules(), &[]),
        Err(ValidationError::UnknownRule { number: 2, rule_id: "haber".to_string() })
    );
}
