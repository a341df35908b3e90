//! Normalisation of sentences and answers, exercise signatures, and the
//! checks that a generated set of exercises must pass before it is used.

use vstd::prelude::*;

use crate::records::{Exercise, GrammarRule, RecentExercise};
use crate::text::{
    blank_marker_count, collapse_whitespace, collapse_whitespace_str, count_blank_markers, decimal,
    lemma_collapsed_is_trimmed, lowercase, push_decimal, str_to_lowercase, trim, trim_str,
};

verus! {

/// The number of exercises in a generated drill.
pub const EXERCISE_COUNT: usize = 5;

/// The number of distinct grammar rules a full set must cover.
pub const MIN_DISTINCT_RULES: usize = 3;

/// An answer as compared: trimmed, then lowercased.
pub open spec fn normalized_answer(s: Seq<char>) -> Seq<char> {
    lowercase(trim(s))
}

/// A sentence as compared: its words joined by single spaces, then lowercased.
pub open spec fn normalized_text(s: Seq<char>) -> Seq<char> {
    lowercase(collapse_whitespace(s))
}

/// The signature of an exercise: its normalised prompt, `::`, and its
/// normalised answer.
pub open spec fn signature(prompt: Seq<char>, answer: Seq<char>) -> Seq<char> {
    normalized_text(prompt) + "::"@ + normalized_answer(answer)
}

/// Trims and lowercases an answer.
pub fn normalize_answer(answer: &str) -> (r: String)
    ensures
        r@ == normalized_answer(answer@),
{
    str_to_lowercase(trim_str(answer))
}

/// Collapses the whitespace of a text, trims and lowercases it.
pub fn normalize_text(text: &str) -> (r: String)
    ensures
        r@ == normalized_text(text@),
{
    let collapsed = collapse_whitespace_str(text);
    let trimmed = trim_str(collapsed.as_str());
    proof {
        lemma_collapsed_is_trimmed(text@);
    }
    str_to_lowercase(trimmed)
}

/// The signature of an exercise with the given prompt and answer.
pub fn exercise_signature(prompt: &str, answer: &str) -> (r: String)
    ensures
        r@ == signature(prompt@, answer@),
{
    let mut s = normalize_text(prompt);
    s.append("::");
    let a = normalize_answer(answer);
    s.append(a.as_str());
    s
}

/// Why a generated set of exercises was refused. `number` counts exercises
/// from 1.
#[derive(Debug, Clone, PartialEq, Eq)]
pub enum ValidationError {
    WrongExerciseCount { returned: usize },
    BlankMarkerCount { number: usize },
    EmptyAnswer { number: usize },
    UnknownRule { number: usize, rule_id: String },
    RepeatedSentence { number: usize },
    RecentDuplicate { number: usize },
    BatchDuplicate { number: usize },
    TooFewRules,
}

/// The contents of a `ValidationError`.
pub enum ValidationFault {
    WrongExerciseCount { returned: usize },
    BlankMarkerCount { number: usize },
    EmptyAnswer { number: usize },
    UnknownRule { number: usize, rule_id: Seq<char> },
    RepeatedSentence { number: usize },
    RecentDuplicate { number: usize },
    BatchDuplicate { number: usize },
    TooFewRules,
}

impl View for ValidationError {
    type V = ValidationFault;

    open spec fn view(&self) -> ValidationFault {
        match self {
            ValidationError::WrongExerciseCount { returned } => ValidationFault::WrongExerciseCount {
                returned: *returned,
            },
            ValidationError::BlankMarkerCount { number } => ValidationFault::BlankMarkerCount {
                number: *number,
            },
            ValidationError::EmptyAnswer { number } => ValidationFault::EmptyAnswer {
                number: *number,
            },
            ValidationError::UnknownRule { number, rule_id } => ValidationFault::UnknownRule {
                number: *number,
                rule_id: rule_id@,
            },
            ValidationError::RepeatedSentence { number } => ValidationFault::RepeatedSentence {
                number: *number,
            },
            ValidationError::RecentDuplicate { number } => ValidationFault::RecentDuplicate {
                number: *number,
            },
            ValidationError::BatchDuplicate { number } => ValidationFault::BatchDuplicate {
                number: *number,
            },
            ValidationError::TooFewRules => ValidationFault::TooFewRules,
        }
    }
}

/// The text by which a refusal is reported.
pub open spec fn fault_message(f: ValidationFault) -> Seq<char> {
    match f {
        ValidationFault::WrongExerciseCount { returned } => "OpenAI returned "@ + decimal(
            returned as nat,
        ) + " exercises instead of "@ + decimal(EXERCISE_COUNT as nat) + "."@,
        ValidationFault::BlankMarkerCount { number } => "Exercise "@ + decimal(number as nat)
            + " does not contain exactly one blank marker."@,
        ValidationFault::EmptyAnswer { number } => "Exercise "@ + decimal(number as nat)
            + " has an empty answer."@,
        ValidationFault::UnknownRule { number, rule_id } => "Exercise "@ + decimal(number as nat)
            + " references unknown focus_rule_id '"@ + rule_id + "'."@,
        ValidationFault::RepeatedSentence { number } => "Exercise "@ + decimal(number as nat)
            + " repeats a sentence pattern in this batch."@,
        ValidationFault::RecentDuplicate { number } => "Exercise "@ + decimal(number as nat)
            + " duplicates a recently saved exercise."@,
        ValidationFault::BatchDuplicate { number } => "Exercise "@ + decimal(number as nat)
            + " duplicates another generated exercise."@,
        ValidationFault::TooFewRules => "Generated set does not cover enough distinct grammar rules."@,
    }
}

impl ValidationError {
    /// The text by which the refusal is reported.
    pub fn message(&self) -> (m: String)
        ensures
            m@ == fault_message(self@),
    {
        match self {
            ValidationError::WrongExerciseCount { returned } => {
                let mut m = String::from_str("OpenAI returned ");
                push_decimal(&mut m, *returned);
                m.append(" exercises instead of ");
                push_decimal(&mut m, EXERCISE_COUNT);
                m.append(".");
                m
            },
            ValidationError::BlankMarkerCount { number } => {
                let mut m = String::from_str("Exercise ");
                push_decimal(&mut m, *number);
                m.append(" does not contain exactly one blank marker.");
                m
            },
            ValidationError::EmptyAnswer { number } => {
                let mut m = String::from_str("Exercise ");
                push_decimal(&mut m, *number);
                m.append(" has an empty answer.");
                m
            },
            ValidationError::UnknownRule { number, rule_id } => {
                let mut m = String::from_str("Exercise ");
                push_decimal(&mut m, *number);
                m.append(" references unknown focus_rule_id '");
                m.append(rule_id.as_str());
                m.append("'.");
                m
            },
            ValidationError::RepeatedSentence { number } => {
                let mut m = String::from_str("Exercise ");
                push_decimal(&mut m, *number);
                m.append(" repeats a sentence pattern in this batch.");
                m
            },
            ValidationError::RecentDuplicate { number } => {
                let mut m = String::from_str("Exercise ");
                push_decimal(&mut m, *number);
                m.append(" duplicates a recently saved exercise.");
                m
            },
            ValidationError::BatchDuplicate { number } => {
                let mut m = String::from_str("Exercise ");
                push_decimal(&mut m, *number);
                m.append(" duplicates another generated exercise.");
                m
            },
            ValidationError::TooFewRules => String::from_str(
                "Generated set does not cover enough distinct grammar rules.",
            ),
        }
    }
}

/// The signature of a generated exercise.
pub open spec fn exercise_sig(e: Exercise) -> Seq<char> {
    signature(e.sentence@, e.answer@)
}

/// The signature of a saved exercise.
pub open spec fn recent_sig(r: RecentExercise) -> Seq<char> {
    signature(r.prompt@, r.answer@)
}

/// Some rule of `rules` has the id `id`.
pub open spec fn rule_known(rules: Seq<GrammarRule>, id: Seq<char>) -> bool {
    exists|k: int| 0 <= k < rules.len() && #[trigger] rules[k].id@ == id
}

/// Some saved exercise of `recent` has the signature `sig`.
pub open spec fn is_recent(recent: Seq<RecentExercise>, sig: Seq<char>) -> bool {
    exists|k: int| 0 <= k < recent.len() && #[trigger] recent_sig(recent[k]) == sig
}

/// An earlier exercise than the `i`-th has the same normalised sentence.
pub open spec fn sentence_repeated(exs: Seq<Exercise>, i: int) -> bool {
    exists|j: int|
        0 <= j < i && #[trigger] normalized_text(exs[j].sentence@) == normalized_text(
            exs[i].sentence@,
        )
}

/// An earlier exercise than the `i`-th has the same signature.
pub open spec fn signature_repeated(exs: Seq<Exercise>, i: int) -> bool {
    exists|j: int| 0 <= j < i && #[trigger] exercise_sig(exs[j]) == exercise_sig(exs[i])
}

/// The first check that the `i`-th exercise fails, given that all earlier
/// ones passed, or `None`.
pub open spec fn fault_at(
    exs: Seq<Exercise>,
    rules: Seq<GrammarRule>,
    recent: Seq<RecentExercise>,
    i: int,
) -> Option<ValidationFault> {
    let e = exs[i];
    let number = (i + 1) as usize;
    if blank_marker_count(e.sentence@) != 1 {
        Some(ValidationFault::BlankMarkerCount { number })
    } else if trim(e.answer@).len() == 0 {
        Some(ValidationFault::EmptyAnswer { number })
    } else if !rule_known(rules, e.focus_rule_id@) {
        Some(ValidationFault::UnknownRule { number, rule_id: e.focus_rule_id@ })
    } else if sentence_repeated(exs, i) {
        Some(ValidationFault::RepeatedSentence { number })
    } else if is_recent(recent, exercise_sig(e)) {
        Some(ValidationFault::RecentDuplicate { number })
    } else if signature_repeated(exs, i) {
        Some(ValidationFault::BatchDuplicate { number })
    } else {
        None
    }
}

/// The fault of the first exercise, from the `i`-th on, that fails a check.
pub open spec fn first_fault_from(
    exs: Seq<Exercise>,
    rules: Seq<GrammarRule>,
    recent: Seq<RecentExercise>,
    i: int,
) -> Option<ValidationFault>
    decreases exs.len() - i,
{
    if i < 0 || i >= exs.len() {
        None
    } else if fault_at(exs, rules, recent, i) is Some {
        fault_at(exs, rules, recent, i)
    } else {
        first_fault_from(exs, rules, recent, i + 1)
    }
}

/// The focus rule ids of the exercises, in order.
pub open spec fn rule_ids_of(exs: Seq<Exercise>) -> Seq<Seq<char>> {
    exs.map_values(|e: Exercise| e.focus_rule_id@)
}

/// The number of distinct focus rules among the exercises.
pub open spec fn distinct_rule_count(exs: Seq<Exercise>) -> nat {
    rule_ids_of(exs).to_set().len()
}

/// Why the set `exs` is refused against the approved `rules` and the saved
/// exercises `recent`, or `None` when it is accepted.
pub open spec fn validation_fault(
    exs: Seq<Exercise>,
    rules: Seq<GrammarRule>,
    recent: Seq<RecentExercise>,
) -> Option<ValidationFault> {
    if exs.len() != EXERCISE_COUNT {
        Some(ValidationFault::WrongExerciseCount { returned: exs.len() as usize })
    } else if first_fault_from(exs, rules, recent, 0) is Some {
        first_fault_from(exs, rules, recent, 0)
    } else if distinct_rule_count(exs) < (if exs.len() < MIN_DISTINCT_RULES {
        exs.len()
    } else {
        MIN_DISTINCT_RULES as nat
    }) {
        Some(ValidationFault::TooFewRules)
    } else {
        None
    }
}

proof fn lemma_first_fault_skip(
    exs: Seq<Exercise>,
    rules: Seq<GrammarRule>,
    recent: Seq<RecentExercise>,
    k: int,
    i: int,
)
    requires
        0 <= k <= i <= exs.len(),
        forall|j: int| k <= j < i ==> #[trigger] fault_at(exs, rules, recent, j) is None,
    ensures
        first_fault_from(exs, rules, recent, k) == first_fault_from(exs, rules, recent, i),
    decreases i - k,
{
    if k < i {
        assert(fault_at(exs, rules, recent, k) is None);
        lemma_first_fault_skip(exs, rules, recent, k + 1, i);
    }
}

/// Whether some string of `items` has the same contents as `s`.
pub fn text_listed(items: &Vec<String>, s: &String) -> (r: bool)
    ensures
        r == exists|k: int| 0 <= k < items@.len() && #[trigger] items@[k]@ == s@,
{
    let mut i: usize = 0;
    while i < items.len()
        invariant
            i <= items@.len(),
            forall|k: int| 0 <= k < i ==> items@[k]@ != s@,
        decreases items@.len() - i,
    {
        if items[i] == *s {
            return true;
        }
        i = i + 1;
    }
    false
}

/// Whether some rule of `rules` has the id `id`.
pub fn rule_is_known(rules: &[GrammarRule], id: &String) -> (r: bool)
    ensures
        r == rule_known(rules@, id@),
{
    let mut i: usize = 0;
    while i < rules.len()
        invariant
            i <= rules@.len(),
            forall|k: int| 0 <= k < i ==> rules@[k].id@ != id@,
        decreases rules@.len() - i,
    {
        if rules[i].id == *id {
            return true;
        }
        i = i + 1;
    }
    false
}

/// The signatures of the saved exercises, in order.
pub fn recent_signatures(recent: &[RecentExercise]) -> (r: Vec<String>)
    ensures
        r@.len() == recent@.len(),
        forall|k: int| 0 <= k < recent@.len() ==> #[trigger] r@[k]@ == recent_sig(recent@[k]),
{
    let mut r: Vec<String> = Vec::new();
    let mut i: usize = 0;
    while i < recent.len()
        invariant
            i <= recent@.len(),
            r@.len() == i,
            forall|k: int| 0 <= k < i ==> #[trigger] r@[k]@ == recent_sig(recent@[k]),
        decreases recent@.len() - i,
    {
        r.push(exercise_signature(recent[i].prompt.as_str(), recent[i].answer.as_str()));
        i = i + 1;
    }
    r
}

/// Checks the `i`-th exercise of a set whose earlier exercises all passed;
/// on success gives its normalised sentence and its signature.
fn check_exercise(
    exercises: &[Exercise],
    grammar_rules: &[GrammarRule],
    recent_exercises: &[RecentExercise],
    recent_sigs: &Vec<String>,
    seen_sentences: &Vec<String>,
    seen_signatures: &Vec<String>,
    i: usize,
) -> (r: Result<(String, String), ValidationError>)
    requires
        i < exercises@.len(),
        recent_sigs@.len() == recent_exercises@.len(),
        forall|k: int|
            0 <= k < recent_exercises@.len() ==> #[trigger] recent_sigs@[k]@ == recent_sig(
                recent_exercises@[k],
            ),
        seen_sentences@.len() == i,
        forall|k: int|
            0 <= k < i ==> #[trigger] seen_sentences@[k]@ == normalized_text(
                exercises@[k].sentence@,
            ),
        seen_signatures@.len() == i,
        forall|k: int| 0 <= k < i ==> #[trigger] seen_signatures@[k]@ == exercise_sig(exercises@[k]),
    ensures
        match r {
            Ok((n, sig)) => {
                &&& fault_at(exercises@, grammar_rules@, recent_exercises@, i as int) is None
                &&& n@ == normalized_text(exercises@[i as int].sentence@)
                &&& sig@ == exercise_sig(exercises@[i as int])
            },
            Err(e) => fault_at(exercises@, grammar_rules@, recent_exercises@, i as int) == Some(e@),
        },
{
    let ghost exs = exercises@;
    let ghost recent = recent_exercises@;
    let exercise = &exercises[i];
    let number = i + 1;
    if count_blank_markers(exercise.sentence.as_str()) != 1 {
        return Err(ValidationError::BlankMarkerCount { number });
    }
    if trim_str(exercise.answer.as_str()).is_empty() {
        return Err(ValidationError::EmptyAnswer { number });
    }
    if !rule_is_known(grammar_rules, &exercise.focus_rule_id) {
        return Err(ValidationError::UnknownRule { number, rule_id: exercise.focus_rule_id.clone() });
    }
    let normalized_sentence = normalize_text(exercise.sentence.as_str());
    let repeated = text_listed(seen_sentences, &normalized_sentence);
    proof {
        if repeated {
            let k = choose|k: int|
                0 <= k < seen_sentences@.len() && #[trigger] seen_sentences@[k]@
                    == normalized_sentence@;
            assert(normalized_text(exs[k].sentence@) == normalized_text(exs[i as int].sentence@));
        } else if sentence_repeated(exs, i as int) {
            let j = choose|j: int|
                0 <= j < i && #[trigger] normalized_text(exs[j].sentence@) == normalized_text(
                    exs[i as int].sentence@,
                );
            assert(seen_sentences@[j]@ == normalized_sentence@);
        }
    }
    if repeated {
        return Err(ValidationError::RepeatedSentence { number });
    }
    let sig = exercise_signature(exercise.sentence.as_str(), exercise.answer.as_str());
    let known = text_listed(recent_sigs, &sig);
    proof {
        if known {
            let k = choose|k: int| 0 <= k < recent_sigs@.len() && #[trigger] recent_sigs@[k]@ == sig@;
            assert(recent_sig(recent[k]) == exercise_sig(exs[i as int]));
        } else if is_recent(recent, exercise_sig(exs[i as int])) {
            let k2 = choose|k2: int|
                0 <= k2 < recent.len() && #[trigger] recent_sig(recent[k2]) == exercise_sig(
                    exs[i as int],
                );
            assert(recent_sigs@[k2]@ == sig@);
        }
    }
    if known {
        return Err(ValidationError::RecentDuplicate { number });
    }
    let twice = text_listed(seen_signatures, &sig);
    proof {
        if twice {
            let k = choose|k: int|
                0 <= k < seen_signatures@.len() && #[trigger] seen_signatures@[k]@ == sig@;
            assert(exercise_sig(exs[k]) == exercise_sig(exs[i as int]));
        } else if signature_repeated(exs, i as int) {
            let j = choose|j: int|
                0 <= j < i && #[trigger] exercise_sig(exs[j]) == exercise_sig(exs[i as int]);
            assert(seen_signatures@[j]@ == sig@);
        }
    }
    if twice {
        return Err(ValidationError::BatchDuplicate { number });
    }
    Ok((normalized_sentence, sig))
}

/// Adds `id` to a list of distinct ids unless it is already there.
fn note_rule_id(seen: &mut Vec<String>, id: &String)
    requires
        old(seen)@.map_values(|s: String| s@).no_duplicates(),
    ensures
        final(seen)@.map_values(|s: String| s@).no_duplicates(),
        final(seen)@.map_values(|s: String| s@).to_set() == old(seen)@.map_values(
            |s: String| s@,
        ).to_set().insert(id@),
{
    let ghost before = seen@.map_values(|s: String| s@);
    let listed = text_listed(seen, id);
    if listed {
        proof {
            let k = choose|k: int| 0 <= k < seen@.len() && #[trigger] seen@[k]@ == id@;
            assert(before[k] == id@);
            assert(before.to_set().insert(id@) =~= before.to_set());
        }
    } else {
        seen.push(id.clone());
        proof {
            let after = seen@.map_values(|s: String| s@);
            assert(after =~= before.push(id@));
            assert(!before.contains(id@)) by {
                if before.contains(id@) {
                    let k = choose|k: int| 0 <= k < before.len() && before[k] == id@;
                    assert(old(seen)@[k]@ == id@);
                }
            }
            before.lemma_push_to_set_commute(id@);
            assert(after.no_duplicates());
        }
    }
}

/// Checks a generated set of exercises: there must be exactly
/// `EXERCISE_COUNT` of them; each sentence holds exactly one blank marker, each
/// answer is non-empty after trimming, each focus rule is one of `grammar_rules`;
/// no normalised sentence repeats within the set, no signature repeats within
/// the set or matches a saved exercise; and the set covers at least
/// `MIN_DISTINCT_RULES` distinct rules. The first failing check is reported.
pub fn validate_exercises(
    exercises: &[Exercise],
    grammar_rules: &[GrammarRule],
    recent_exercises: &[RecentExercise],
) -> (r: Result<(), ValidationError>)
    ensures
        match r {
            Ok(()) => validation_fault(exercises@, grammar_rules@, recent_exercises@) is None,
            Err(e) => validation_fault(exercises@, grammar_rules@, recent_exercises@) == Some(e@),
        },
{
    let ghost exs = exercises@;
    let ghost rules = grammar_rules@;
    let ghost recent = recent_exercises@;
    if exercises.len() != EXERCISE_COUNT {
        return Err(ValidationError::WrongExerciseCount { returned: exercises.len() });
    }
    let recent_sigs = recent_signatures(recent_exercises);
    let mut seen_signatures: Vec<String> = Vec::new();
    let mut seen_sentences: Vec<String> = Vec::new();
    let mut seen_rule_ids: Vec<String> = Vec::new();
    let mut i: usize = 0;
    assert(rule_ids_of(exs.take(0)) =~= Seq::<Seq<char>>::empty());
    assert(seen_rule_ids@.map_values(|s: String| s@) =~= Seq::<Seq<char>>::empty());
    while i < exercises.len()
        invariant
            exs == exercises@,
            rules == grammar_rules@,
            recent == recent_exercises@,
            exs.len() == EXERCISE_COUNT,
            i <= exs.len(),
            recent_sigs@.len() == recent.len(),
            forall|k: int|
                0 <= k < recent.len() ==> #[trigger] recent_sigs@[k]@ == recent_sig(recent[k]),
            seen_sentences@.len() == i,
            forall|k: int|
                0 <= k < i ==> #[trigger] seen_sentences@[k]@ == normalized_text(exs[k].sentence@),
            seen_signatures@.len() == i,
            forall|k: int| 0 <= k < i ==> #[trigger] seen_signatures@[k]@ == exercise_sig(exs[k]),
            seen_rule_ids@.map_values(|s: String| s@).no_duplicates(),
            seen_rule_ids@.map_values(|s: String| s@).to_set() == rule_ids_of(
                exs.take(i as int),
            ).to_set(),
            forall|j: int| 0 <= j < i ==> #[trigger] fault_at(exs, rules, recent, j) is None,
        decreases exs.len() - i,
    {
        match check_exercise(
            exercises,
            grammar_rules,
            recent_exercises,
            &recent_sigs,
            &seen_sentences,
            &seen_signatures,
            i,
        ) {
            Ok((normalized_sentence, sig)) => {
                seen_sentences.push(normalized_sentence);
                seen_signatures.push(sig);
                note_rule_id(&mut seen_rule_ids, &exercises[i].focus_rule_id);
                proof {
                    assert(rule_ids_of(exs.take(i + 1)) =~= rule_ids_of(exs.take(i as int)).push(
                        exs[i as int].focus_rule_id@,
                    ));
                    rule_ids_of(exs.take(i as int)).lemma_push_to_set_commute(
                        exs[i as int].focus_rule_id@,
                    );
                }
            },
            Err(e) => {
                proof {
                    lemma_first_fault_skip(exs, rules, recent, 0, i as int);
                }
                return Err(e);
            },
        }
        i = i + 1;
    }
    proof {
        lemma_first_fault_skip(exs, rules, recent, 0, exs.len() as int);
        assert(exs.take(exs.len() as int) =~= exs);
        seen_rule_ids@.map_values(|s: String| s@).unique_seq_to_set();
    }
    let required = if exercises.len() < MIN_DISTINCT_RULES {
        exercises.len()
    } else {
        MIN_DISTINCT_RULES
    };
    if seen_rule_ids.len() < required {
        return Err(ValidationError::TooFewRules);
    }
    Ok(())
}

} // verus!
