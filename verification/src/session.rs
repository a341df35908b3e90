//! The decisions of a study session: menu choices, grading of answers, the
//! running score, and the attempt records that are stored.

use vstd::prelude::*;

use crate::records::{AttemptRecord, Exercise, SavedExercise, SavedSession};
use crate::selection::{level_label, level_name, LEVEL_COUNT};
use crate::text::{decimal, parse_usize, parsed_usize, push_decimal, str_equal, trim, trim_str};
use crate::validate::{normalize_answer, normalized_answer};

verus! {

/// The only language on offer.
pub const SPANISH: &'static str = "Spanish";

/// The language chosen by a menu entry: `1` (with any surrounding
/// whitespace) chooses Spanish; anything else chooses nothing.
pub fn language_for_choice(input: &str) -> (r: Option<&'static str>)
    ensures
        match r {
            Some(l) => trim(input@) == "1"@ && l@ == SPANISH@,
            None => trim(input@) != "1"@,
        },
{
    if str_equal(trim_str(input), "1") {
        Some(SPANISH)
    } else {
        None
    }
}

/// The level chosen by a menu entry: the number `n` from 1 to `LEVEL_COUNT`
/// (as `str::parse` reads it after trimming) chooses the `n`-th level.
pub open spec fn chosen_level(input: Seq<char>) -> Option<Seq<char>> {
    match parsed_usize(trim(input)) {
        Some(n) => if 1 <= n <= LEVEL_COUNT {
            Some(level_label(n - 1))
        } else {
            None
        },
        None => None,
    }
}

/// The CEFR level chosen by a menu entry, or `None` for an entry out of range.
pub fn level_for_choice(input: &str) -> (r: Option<&'static str>)
    ensures
        match r {
            Some(l) => chosen_level(input@) == Some(l@),
            None => chosen_level(input@) is None,
        },
{
    match parse_usize(trim_str(input)) {
        Some(n) => {
            if 1 <= n && n <= LEVEL_COUNT {
                Some(level_name(n - 1))
            } else {
                None
            }
        },
        None => None,
    }
}

/// Whether a grammar review is offered before the drill: only for Spanish.
pub fn grammar_review_offered(language: &str) -> (r: bool)
    ensures
        r == (language@ == SPANISH@),
{
    str_equal(language, SPANISH)
}

/// The answer to the review question: `1` is yes, `2` is no, anything else
/// asks again.
pub fn review_for_choice(input: &str) -> (r: Option<bool>)
    ensures
        r == (if trim(input@) == "1"@ {
            Some(true)
        } else if trim(input@) == "2"@ {
            Some(false)
        } else {
            None
        }),
{
    let choice = trim_str(input);
    if str_equal(choice, "1") {
        Some(true)
    } else if str_equal(choice, "2") {
        Some(false)
    } else {
        None
    }
}

/// An answer is correct when it equals the accepted answer once both are
/// trimmed and lowercased.
pub open spec fn answer_matches(given: Seq<char>, accepted: Seq<char>) -> bool {
    normalized_answer(given) == normalized_answer(accepted)
}

/// Grades an answer against the accepted one.
pub fn is_correct_answer(given: &str, accepted: &str) -> (r: bool)
    ensures
        r == answer_matches(given@, accepted@),
{
    let a = normalize_answer(given);
    let b = normalize_answer(accepted);
    a == b
}

/// The drill ran out of saved exercises: the exercise numbered `number` (from
/// 1) was not saved before the drill started.
#[derive(Debug, Clone, PartialEq, Eq)]
pub struct MissingSavedExercise {
    pub number: usize,
}

impl MissingSavedExercise {
    /// The text by which the failure is reported.
    pub fn message(&self) -> (m: String)
        ensures
            m@ == "Exercise "@ + decimal(self.number as nat)
                + " was not saved correctly before the drill started."@,
    {
        let mut m = String::from_str("Exercise ");
        push_decimal(&mut m, self.number);
        m.append(" was not saved correctly before the drill started.");
        m
    }
}

/// The saved exercise that the `index`-th exercise of the drill is stored as.
pub fn saved_exercise_at(session: &SavedSession, index: usize) -> (r: Result<
    &SavedExercise,
    MissingSavedExercise,
>)
    requires
        index < usize::MAX,
    ensures
        match r {
            Ok(s) => index < session.saved_exercises@.len() && *s
                == session.saved_exercises@[index as int],
            Err(e) => index >= session.saved_exercises@.len() && e.number == index + 1,
        },
{
    if index < session.saved_exercises.len() {
        Ok(&session.saved_exercises[index])
    } else {
        Err(MissingSavedExercise { number: index + 1 })
    }
}

/// The record of the learner's answer to the `index`-th exercise of a drill
/// (counted from 0): the answer is stored trimmed, and attempts are numbered
/// from 1.
pub fn attempt_record<'a>(
    saved: &'a SavedExercise,
    exercise: &'a Exercise,
    answer: &'a str,
    is_correct: bool,
    index: usize,
) -> (r: AttemptRecord<'a>)
    requires
        index < usize::MAX,
    ensures
        r.exercise_id@ == saved.id@,
        r.prompt@ == saved.prompt@,
        r.grammar_rule_id@ == saved.grammar_rule_id@,
        r.user_answer@ == trim(answer@),
        r.accepted_answer@ == exercise.answer@,
        r.is_correct == is_correct,
        r.explanation@ == exercise.explanation@,
        r.focus@ == exercise.focus@,
        r.attempt_index == index + 1,
{
    AttemptRecord {
        exercise_id: saved.id.as_str(),
        prompt: saved.prompt.as_str(),
        user_answer: trim_str(answer),
        accepted_answer: exercise.answer.as_str(),
        is_correct,
        explanation: exercise.explanation.as_str(),
        focus: exercise.focus.as_str(),
        grammar_rule_id: saved.grammar_rule_id.as_str(),
        attempt_index: index + 1,
    }
}

/// The number of `true` entries.
pub open spec fn count_true(s: Seq<bool>) -> nat
    decreases s.len(),
{
    if s.len() == 0 {
        0
    } else {
        count_true(s.drop_last()) + if s.last() {
            1nat
        } else {
            0nat
        }
    }
}

/// The running score of a drill.
pub struct DrillTally {
    answered: usize,
    correct: usize,
    outcomes: Ghost<Seq<bool>>,
}

impl DrillTally {
    #[verifier::type_invariant]
    spec fn tally_matches(self) -> bool {
        &&& self.answered == self.outcomes@.len()
        &&& self.correct == count_true(self.outcomes@)
    }

    /// The grades recorded so far, in order.
    pub closed spec fn outcomes(self) -> Seq<bool> {
        self.outcomes@
    }

    /// A tally with nothing recorded.
    pub fn new() -> (t: DrillTally)
        ensures
            t.outcomes() == Seq::<bool>::empty(),
    {
        DrillTally { answered: 0, correct: 0, outcomes: Ghost(Seq::empty()) }
    }

    /// Records the grade of one more answer.
    pub fn record(&mut self, is_correct: bool)
        requires
            old(self).outcomes().len() < usize::MAX,
        ensures
            final(self).outcomes() == old(self).outcomes().push(is_correct),
    {
        proof {
            use_type_invariant(&*self);
            lemma_count_true_bounded(self.outcomes@);
        }
        let ghost next = self.outcomes@.push(is_correct);
        assert(next.drop_last() =~= self.outcomes@);
        let answered = self.answered + 1;
        let correct = if is_correct {
            self.correct + 1
        } else {
            self.correct
        };
        *self = DrillTally { answered, correct, outcomes: Ghost(next) };
    }

    /// The number of answers recorded.
    pub fn answered(&self) -> (n: usize)
        ensures
            n == self.outcomes().len(),
    {
        proof {
            use_type_invariant(self);
        }
        self.answered
    }

    /// The number of correct answers recorded.
    pub fn correct(&self) -> (n: usize)
        ensures
            n == count_true(self.outcomes()),
    {
        proof {
            use_type_invariant(self);
        }
        self.correct
    }

    /// The closing line of a drill of `total` exercises.
    pub fn score_line(&self, total: usize) -> (m: String)
        ensures
            m@ == "Score: "@ + decimal(count_true(self.outcomes())) + "/"@ + decimal(total as nat),
    {
        let mut m = String::from_str("Score: ");
        push_decimal(&mut m, self.correct());
        m.append("/");
        push_decimal(&mut m, total);
        m
    }
}

/// The count of `true` entries never exceeds the length.
pub proof fn lemma_count_true_bounded(s: Seq<bool>)
    ensures
        count_true(s) <= s.len(),
    decreases s.len(),
{
    if s.len() > 0 {
        lemma_count_true_bounded(s.drop_last());
    }
}

} // verus!
