use langman::ids::{generate_id, id_with_prefix, timestamp_from_elapsed, unix_timestamp};
use langman::records::{saved_session_for, Database, Exercise, SavedExercise, SavedSession};
use langman::session::{
    attempt_record, grammar_review_offered, is_correct_answer, language_for_choice,
    level_for_choice, review_for_choice, saved_exercise_at, DrillTally, MissingSavedExercise,
};

fn exercise(answer: &str) -> Exercise {
    Exercise {
        focus_rule_id: "ser".to_string(),
        sentence: "Yo ____ Ana.".to_string(),
        answer: answer.to_string(),
        hint: "h".to_string(),
        focus: "Ser".to_string(),
        explanation: "Porque sí.".to_string(),
    }
}

#[test]
fn menu_choices() {
    assert_eq!(language_for_choice(" 1\n"), Some("Spanish"));
    assert_eq!(language_for_choice("2"), None);
    assert_eq!(level_for_choice("1\n"), Some("A1"));
    assert_eq!(level_for_choice(" +6 "), Some("C2"));
    assert_eq!(level_for_choice("0"), None);
    assert_eq!(level_for_choice("7"), None);
    assert_eq!(level_for_choice("B1"), None);
    assert_eq!(review_for_choice("1\n"), Some(true));
    assert_eq!(review_for_choice(" 2 "), Some(false));
    assert_eq!(review_for_choice("yes"), None);
    assert!(grammar_review_offered("Spanish"));
    assert!(!grammar_review_offered("French"));
}

#[test]
fn grading_trims_and_lowercases() {
    assert!(is_correct_answer("  SOY\n", "soy"));
    assert!(is_correct_answer("Está", "está "));
    assert!(!is_correct_answer("soy", "eres"));
    assert!(!is_correct_answer("s oy", "soy"));
}

#[test]
fn tally_counts_correct_answers() {
    let mut tally = DrillTally::new();
    for c in [true, false, true, true] {
        tally.record(c);
    }
    assert_eq!(tally.answered(), 4);
    assert_eq!(tally.correct(), 3);
    assert_eq!(tally.score_line(5), "Score: 3/5");
}

#[test]
fn attempt_records_trim_and_number() {
    let saved = SavedExercise {
        id: "exercise_1".to_string(),
        prompt: "Yo ____ Ana.".to_string(),
        grammar_rule_id: "ser".to_string(),
    };
    let ex = exercise("soy");
    let rec = attempt_record(&saved, &ex, "  Soy \n", true, 0);
    assert_eq!(rec.exercise_id, "exercise_1");
    assert_eq!(rec.user_answer, "Soy");
    assert_eq!(rec.accepted_answer, "soy");
    assert_eq!(rec.attempt_index, 1);
    assert!(rec.is_correct);
    assert_eq!(rec.focus, "Ser");
    assert_eq!(rec.grammar_rule_id, "ser");
}

#[test]
fn saved_exercise_lookup() {
    let exercises = vec![exercise("soy"), exercise("eres")];
    let session: SavedSession =
        saved_session_for("session_x".to_string(), vec!["e1".to_string(), "e2".to_string()], &exercises);
    assert_eq!(session.saved_exercises.len(), 2);
    assert_eq!(saved_exercise_at(&session, 1).unwrap().id, "e2");
    assert_eq!(saved_exercise_at(&session, 1).unwrap().prompt, "Yo ____ Ana.");
    let err = saved_exercise_at(&session, 2).unwrap_err();
    assert_eq!(err, MissingSavedExercise { number: 3 });
    assert_eq!(err.message(), "Exercise 3 was not saved correctly before the drill started.");
}

#[test]
fn ids_and_timestamps() {
    assert_eq!(id_with_prefix("session", "abc"), "session_abc");
    let id = generate_id("attempt");
    assert!(id.starts_with("attempt_"));
    let u = &id["attempt_".len()..];
    assert_eq!(u.len(), 32);
    assert!(u.chars().all(|c| c.is_ascii_hexdigit() && !c.is_ascii_uppercase()));
    assert_eq!(&u[12..13], "4");
    assert!("89ab".contains(&u[16..17]));
    assert_ne!(generate_id("x"), generate_id("x"));
    assert_eq!(timestamp_from_elapsed(None), 0);
    assert_eq!(timestamp_from_elapsed(Some(1_700_000_000)), 1_700_000_000);
    assert_eq!(timestamp_from_elapsed(Some(u64::MAX)), -1);
    assert!(unix_timestamp() > 1_600_000_000);
}

#[test]
fn database_default_path() {
    let db = Database::new();
    assert_eq!(db.path(), "data/langman.db");
}
