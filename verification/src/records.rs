//! The records the drill works with: exercises, grammar rules, saved
//! sessions and attempts, and the database handle that names where they live.

use vstd::prelude::*;

verus! {

/// The place of the database file, relative to the working directory.
pub const DEFAULT_DB_PATH: &'static str = "data/langman.db";

/// A handle on the local database: where its file lives.
pub struct Database {
    db_path: String,
}

impl Database {
    /// The path that the handle opens.
    pub closed spec fn spec_path(&self) -> Seq<char> {
        self.db_path@
    }

    /// A handle on the database at its default place, `data/langman.db`.
    pub fn new() -> (d: Database)
        ensures
            d.spec_path() == DEFAULT_DB_PATH@,
    {
        Database { db_path: String::from_str(DEFAULT_DB_PATH) }
    }

    /// The path of the database file.
    pub fn path(&self) -> (p: &str)
        ensures
            p@ == self.spec_path(),
    {
        self.db_path.as_str()
    }
}

/// The views of a sequence of strings.
pub open spec fn texts_view(v: Seq<String>) -> Seq<Seq<char>> {
    v.map_values(|s: String| s@)
}

/// A copy of a list of strings.
pub fn copy_texts(v: &Vec<String>) -> (r: Vec<String>)
    ensures
        texts_view(r@) == texts_view(v@),
{
    let mut r: Vec<String> = Vec::new();
    let mut i: usize = 0;
    while i < v.len()
        invariant
            i <= v.len(),
            r@.len() == i,
            forall|k: int| 0 <= k < i ==> r@[k]@ == v@[k]@,
        decreases v.len() - i,
    {
        r.push(v[i].clone());
        i = i + 1;
    }
    assert(texts_view(r@) =~= texts_view(v@));
    r
}

/// A canonical grammar concept with its examples and common mistakes.
#[derive(Debug)]
pub struct GrammarRule {
    pub id: String,
    pub language: String,
    pub cefr_level: String,
    pub category: String,
    pub title: String,
    pub rule_text: String,
    pub examples: Vec<String>,
    pub common_mistakes: Vec<String>,
    pub tags: Vec<String>,
}

/// The contents of a grammar rule.
pub struct GrammarRuleView {
    pub id: Seq<char>,
    pub language: Seq<char>,
    pub cefr_level: Seq<char>,
    pub category: Seq<char>,
    pub title: Seq<char>,
    pub rule_text: Seq<char>,
    pub examples: Seq<Seq<char>>,
    pub common_mistakes: Seq<Seq<char>>,
    pub tags: Seq<Seq<char>>,
}

impl View for GrammarRule {
    type V = GrammarRuleView;

    open spec fn view(&self) -> GrammarRuleView {
        GrammarRuleView {
            id: self.id@,
            language: self.language@,
            cefr_level: self.cefr_level@,
            category: self.category@,
            title: self.title@,
            rule_text: self.rule_text@,
            examples: texts_view(self.examples@),
            common_mistakes: texts_view(self.common_mistakes@),
            tags: texts_view(self.tags@),
        }
    }
}

/// The contents of a sequence of grammar rules.
pub open spec fn rules_view(rules: Seq<GrammarRule>) -> Seq<GrammarRuleView> {
    rules.map_values(|r: GrammarRule| r@)
}

impl GrammarRule {
    /// A copy of the rule with the same contents.
    pub fn duplicate(&self) -> (r: GrammarRule)
        ensures
            r@ == self@,
    {
        GrammarRule {
            id: self.id.clone(),
            language: self.language.clone(),
            cefr_level: self.cefr_level.clone(),
            category: self.category.clone(),
            title: self.title.clone(),
            rule_text: self.rule_text.clone(),
            examples: copy_texts(&self.examples),
            common_mistakes: copy_texts(&self.common_mistakes),
            tags: copy_texts(&self.tags),
        }
    }
}

/// A generated fill-in-the-blank exercise.
#[derive(Debug)]
pub struct Exercise {
    pub focus_rule_id: String,
    pub sentence: String,
    pub answer: String,
    pub hint: String,
    pub focus: String,
    pub explanation: String,
}

/// A study session as stored: its id and the exercises it uses, in order.
#[derive(Debug)]
pub struct SavedSession {
    pub session_id: String,
    pub saved_exercises: Vec<SavedExercise>,
}

/// An exercise of the bank as used in a session.
#[derive(Debug)]
pub struct SavedExercise {
    pub id: String,
    pub prompt: String,
    pub grammar_rule_id: String,
}

/// A saved exercise as shown to the generator to avoid repeats.
#[derive(Debug)]
pub struct RecentExercise {
    pub prompt: String,
    pub answer: String,
}

/// One answer of the learner, ready to be stored.
#[derive(Debug)]
pub struct AttemptRecord<'a> {
    pub exercise_id: &'a str,
    pub grammar_rule_id: &'a str,
    pub prompt: &'a str,
    pub user_answer: &'a str,
    pub accepted_answer: &'a str,
    pub is_correct: bool,
    pub explanation: &'a str,
    pub focus: &'a str,
    pub attempt_index: usize,
}

/// The bank entry of a generated exercise under its stored id: the prompt is
/// the exercise's sentence and the rule is its focus rule.
pub fn saved_exercise_for(id: String, exercise: &Exercise) -> (s: SavedExercise)
    ensures
        s.id@ == id@,
        s.prompt@ == exercise.sentence@,
        s.grammar_rule_id@ == exercise.focus_rule_id@,
{
    SavedExercise {
        id,
        prompt: exercise.sentence.clone(),
        grammar_rule_id: exercise.focus_rule_id.clone(),
    }
}

/// The session record that a generated drill is saved as: its id and one bank
/// entry per exercise, in the order of the exercises.
pub fn saved_session_for(session_id: String, exercise_ids: Vec<String>, exercises: &[Exercise]) -> (s: SavedSession)
    requires
        exercise_ids@.len() == exercises@.len(),
    ensures
        s.session_id@ == session_id@,
        s.saved_exercises@.len() == exercises@.len(),
        forall|i: int|
            0 <= i < exercises@.len() ==> {
                &&& #[trigger] s.saved_exercises@[i].id@ == exercise_ids@[i]@
                &&& s.saved_exercises@[i].prompt@ == exercises@[i].sentence@
                &&& s.saved_exercises@[i].grammar_rule_id@ == exercises@[i].focus_rule_id@
            },
{
    let mut saved: Vec<SavedExercise> = Vec::new();
    let mut i: usize = 0;
    while i < exercises.len()
        invariant
            i <= exercises@.len(),
            exercise_ids@.len() == exercises@.len(),
            saved@.len() == i,
            forall|k: int|
                0 <= k < i ==> {
                    &&& #[trigger] saved@[k].id@ == exercise_ids@[k]@
                    &&& saved@[k].prompt@ == exercises@[k].sentence@
                    &&& saved@[k].grammar_rule_id@ == exercises@[k].focus_rule_id@
                },
        decreases exercises@.len() - i,
    {
        saved.push(saved_exercise_for(exercise_ids[i].clone(), &exercises[i]));
        i = i + 1;
    }
    SavedSession { session_id, saved_exercises: saved }
}

} // verus!
