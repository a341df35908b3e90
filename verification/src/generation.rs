//! What a generation request says: the approved rules and the recent
//! exercises as text, the instructions to the model, the model settings, and
//! what to do with a generated set.

use vstd::prelude::*;

use crate::json::JsonValue;
use crate::records::{rules_view, Exercise, GrammarRule, GrammarRuleView, RecentExercise};
use crate::text::{
    decimal, decimal_string, has_prefix, join_strings, join_texts, push_decimal, starts_with,
};
use crate::validate::{validate_exercises, validation_fault, ValidationError, ValidationFault, EXERCISE_COUNT};

verus! {

/// The model used when none is configured.
pub const DEFAULT_MODEL: &'static str = "gpt-5-mini";

/// The number of generation requests made before giving up.
pub const GENERATION_ATTEMPTS: usize = 3;

/// How a grammar rule is listed in a request.
pub open spec fn rule_prompt_line(r: GrammarRuleView) -> Seq<char> {
    "- "@ + r.id + ": "@ + r.title + " ("@ + r.category + ", CEFR "@ + r.cefr_level
        + ")\n  Rule: "@ + r.rule_text + "\n  Examples: "@ + join_texts(r.examples, " | "@)
}

/// The listing of the approved rules: one entry per rule, separated by line breaks.
pub open spec fn rules_prompt(rules: Seq<GrammarRuleView>) -> Seq<char> {
    join_texts(rules.map_values(|r: GrammarRuleView| rule_prompt_line(r)), "\n"@)
}

/// The listing entry of one grammar rule.
pub fn grammar_rule_line(rule: &GrammarRule) -> (r: String)
    ensures
        r@ == rule_prompt_line(rule@),
{
    let mut line = String::from_str("- ");
    line.append(rule.id.as_str());
    line.append(": ");
    line.append(rule.title.as_str());
    line.append(" (");
    line.append(rule.category.as_str());
    line.append(", CEFR ");
    line.append(rule.cefr_level.as_str());
    line.append(")\n  Rule: ");
    line.append(rule.rule_text.as_str());
    line.append("\n  Examples: ");
    let examples = join_strings(&rule.examples, " | ");
    line.append(examples.as_str());
    line
}

/// The listing of the approved grammar rules for a request.
pub fn grammar_rule_prompt(grammar_rules: &[GrammarRule]) -> (r: String)
    ensures
        r@ == rules_prompt(rules_view(grammar_rules@)),
{
    let ghost views = rules_view(grammar_rules@);
    let mut lines: Vec<String> = Vec::new();
    let mut i: usize = 0;
    while i < grammar_rules.len()
        invariant
            views == rules_view(grammar_rules@),
            i <= grammar_rules@.len(),
            lines@.len() == i,
            forall|k: int| 0 <= k < i ==> #[trigger] lines@[k]@ == rule_prompt_line(views[k]),
        decreases grammar_rules@.len() - i,
    {
        lines.push(grammar_rule_line(&grammar_rules[i]));
        i = i + 1;
    }
    let r = join_strings(&lines, "\n");
    assert(lines@.map_values(|s: String| s@) =~= views.map_values(
        |r: GrammarRuleView| rule_prompt_line(r),
    ));
    r
}

/// The text that stands for an empty list of saved exercises.
pub const NO_RECENT_EXERCISES: &'static str = "No recent saved exercises.";

/// How the saved exercise at position `k` is listed.
pub open spec fn recent_line(k: nat, e: RecentExercise) -> Seq<char> {
    decimal(k + 1) + ". Prompt: "@ + e.prompt@ + " | Answer: "@ + e.answer@
}

/// The listing of the saved exercises: numbered from 1, one per line.
pub open spec fn recent_prompt(recent: Seq<RecentExercise>) -> Seq<char> {
    if recent.len() == 0 {
        NO_RECENT_EXERCISES@
    } else {
        join_texts(Seq::new(recent.len(), |k: int| recent_line(k as nat, recent[k])), "\n"@)
    }
}

/// The listing of the recently saved exercises for a request.
pub fn recent_exercises_prompt(recent_exercises: &[RecentExercise]) -> (r: String)
    ensures
        r@ == recent_prompt(recent_exercises@),
{
    if recent_exercises.len() == 0 {
        return String::from_str(NO_RECENT_EXERCISES);
    }
    let ghost recent = recent_exercises@;
    let mut lines: Vec<String> = Vec::new();
    let mut i: usize = 0;
    while i < recent_exercises.len()
        invariant
            recent == recent_exercises@,
            i <= recent.len(),
            lines@.len() == i,
            forall|k: int| 0 <= k < i ==> #[trigger] lines@[k]@ == recent_line(k as nat, recent[k]),
        decreases recent.len() - i,
    {
        let mut line = String::new();
        push_decimal(&mut line, i + 1);
        line.append(". Prompt: ");
        line.append(recent_exercises[i].prompt.as_str());
        line.append(" | Answer: ");
        line.append(recent_exercises[i].answer.as_str());
        lines.push(line);
        i = i + 1;
    }
    let r = join_strings(&lines, "\n");
    assert(lines@.map_values(|s: String| s@) =~= Seq::new(
        recent.len(),
        |k: int| recent_line(k as nat, recent[k]),
    ));
    r
}

/// The opening of the instructions to the model, up to the rule listing.
pub const DEVELOPER_PROMPT_START: &'static str = "You are a careful language tutor. Generate short, level-appropriate fill-in-the-blank practice items. Use exactly one blank marker: ____. The blank should test grammar, conjugation, or vocabulary. Keep answers unambiguous. Every exercise must use one grammar rule from the approved rule list below and must set focus_rule_id to that exact rule id. Spread the set across different grammar rules when possible, vary sentence structure, vary subjects, vary verbs and vocabulary, and avoid formulaic rewrites.\n\nApproved grammar rules:\n";

/// The part of the instructions between the rule listing and the recent exercises.
pub const DEVELOPER_PROMPT_MIDDLE: &'static str = "\n\nAvoid creating exercises that are exact repeats or obvious rewrites of the recent saved exercises below.\n";

/// The close of the instructions to the model.
pub const DEVELOPER_PROMPT_END: &'static str = "\n\nReturn only structured data that matches the schema.";

/// The instructions to the model around the two listings.
pub open spec fn developer_text(rules_listing: Seq<char>, recent_listing: Seq<char>) -> Seq<char> {
    DEVELOPER_PROMPT_START@ + rules_listing + DEVELOPER_PROMPT_MIDDLE@ + recent_listing
        + DEVELOPER_PROMPT_END@
}

/// The instructions to the model, given the rule listing and the listing of
/// recent exercises.
pub fn developer_prompt(grammar_rule_prompt: &str, recent_examples_prompt: &str) -> (r: String)
    ensures
        r@ == developer_text(grammar_rule_prompt@, recent_examples_prompt@),
{
    let mut text = String::from_str(DEVELOPER_PROMPT_START);
    text.append(grammar_rule_prompt);
    text.append(DEVELOPER_PROMPT_MIDDLE);
    text.append(recent_examples_prompt);
    text.append(DEVELOPER_PROMPT_END);
    text
}

/// The request's first words, before the number of exercises.
pub const USER_PROMPT_START: &'static str = "Create ";

/// The words between the number of exercises and the level.
pub const USER_PROMPT_LEVEL: &'static str = " fill-in-the-blank exercises for a ";

/// The words between the level and the language.
pub const USER_PROMPT_LANGUAGE: &'static str = " learner of ";

/// The rest of the request.
pub const USER_PROMPT_END: &'static str = ". The learner should type the missing word or short phrase. Make the set feel varied: use different verbs, vocabulary, sentence lengths, subjects, and communicative contexts. Cover multiple grammar topics from the approved list, and do not repeat stems or near-duplicate sentence patterns. Include a brief hint, the grammar/vocabulary focus title, the matching focus_rule_id, and a short explanation.";

/// The request to the model for a learner of `language` at `level`.
pub open spec fn user_text(level: Seq<char>, language: Seq<char>) -> Seq<char> {
    USER_PROMPT_START@ + decimal(EXERCISE_COUNT as nat) + USER_PROMPT_LEVEL@ + level
        + USER_PROMPT_LANGUAGE@ + language + USER_PROMPT_END@
}

/// The request to the model for a learner of `language` at `level`.
pub fn user_prompt(level: &str, language: &str) -> (r: String)
    ensures
        r@ == user_text(level@, language@),
{
    let mut text = String::from_str(USER_PROMPT_START);
    push_decimal(&mut text, EXERCISE_COUNT);
    text.append(USER_PROMPT_LEVEL);
    text.append(level);
    text.append(USER_PROMPT_LANGUAGE);
    text.append(language);
    text.append(USER_PROMPT_END);
    text
}

/// Whether the model takes a sampling temperature: the `gpt-5.1` and `gpt-5.2`
/// families do.
pub open spec fn takes_temperature(model: Seq<char>) -> bool {
    has_prefix(model, "gpt-5.1"@) || has_prefix(model, "gpt-5.2"@)
}

/// Whether requests to `model` carry a sampling temperature.
pub fn supports_temperature(model: &str) -> (r: bool)
    ensures
        r == takes_temperature(model@),
{
    starts_with(model, "gpt-5.1") || starts_with(model, "gpt-5.2")
}

/// The model to use: the configured one, or `DEFAULT_MODEL` when none is set.
pub fn model_from_setting(setting: Option<String>) -> (r: String)
    ensures
        r@ == match setting {
            Some(m) => m@,
            None => DEFAULT_MODEL@,
        },
{
    match setting {
        Some(m) => m,
        None => String::from_str(DEFAULT_MODEL),
    }
}

/// Why exercise generation failed, short of the transport and parsing errors
/// of the request itself.
#[derive(Debug, Clone, PartialEq, Eq)]
pub enum GenerationError {
    MissingOutputText,
    NoExercises,
    Invalid(ValidationError),
    NotDiverse,
}

/// The contents of a `GenerationError`.
pub enum GenerationFault {
    MissingOutputText,
    NoExercises,
    Invalid(ValidationFault),
    NotDiverse,
}

impl View for GenerationError {
    type V = GenerationFault;

    open spec fn view(&self) -> GenerationFault {
        match self {
            GenerationError::MissingOutputText => GenerationFault::MissingOutputText,
            GenerationError::NoExercises => GenerationFault::NoExercises,
            GenerationError::Invalid(e) => GenerationFault::Invalid(e@),
            GenerationError::NotDiverse => GenerationFault::NotDiverse,
        }
    }
}

/// The text by which a generation failure is reported.
pub open spec fn generation_message(f: GenerationFault) -> Seq<char> {
    match f {
        GenerationFault::MissingOutputText => "OpenAI response did not include output text with exercises."@,
        GenerationFault::NoExercises => "OpenAI returned no exercises."@,
        GenerationFault::Invalid(v) => crate::validate::fault_message(v),
        GenerationFault::NotDiverse => "Failed to generate a sufficiently diverse exercise set."@,
    }
}

impl GenerationError {
    /// The text by which the failure is reported.
    pub fn message(&self) -> (m: String)
        ensures
            m@ == generation_message(self@),
    {
        match self {
            GenerationError::MissingOutputText => String::from_str(
                "OpenAI response did not include output text with exercises.",
            ),
            GenerationError::NoExercises => String::from_str("OpenAI returned no exercises."),
            GenerationError::Invalid(e) => e.message(),
            GenerationError::NotDiverse => String::from_str(
                "Failed to generate a sufficiently diverse exercise set.",
            ),
        }
    }
}

/// What to do with a generated set of exercises.
#[derive(Debug, Clone, PartialEq, Eq)]
pub enum AttemptDecision {
    Accept,
    Retry,
    Fail(GenerationError),
}

/// The contents of an `AttemptDecision`.
pub enum AttemptOutcome {
    Accept,
    Retry,
    Fail(GenerationFault),
}

impl View for AttemptDecision {
    type V = AttemptOutcome;

    open spec fn view(&self) -> AttemptOutcome {
        match self {
            AttemptDecision::Accept => AttemptOutcome::Accept,
            AttemptDecision::Retry => AttemptOutcome::Retry,
            AttemptDecision::Fail(e) => AttemptOutcome::Fail(e@),
        }
    }
}

/// The decision on the set `exs` generated by request number `attempt`
/// (counted from 0): an empty set fails at once; a set that passes the checks
/// is accepted; a refused set is retried unless this was the last request,
/// when the refusal is the failure.
pub open spec fn attempt_outcome(
    attempt: nat,
    exs: Seq<Exercise>,
    rules: Seq<GrammarRule>,
    recent: Seq<RecentExercise>,
) -> AttemptOutcome {
    if exs.len() == 0 {
        AttemptOutcome::Fail(GenerationFault::NoExercises)
    } else {
        match validation_fault(exs, rules, recent) {
            None => AttemptOutcome::Accept,
            Some(f) => if attempt + 1 == GENERATION_ATTEMPTS {
                AttemptOutcome::Fail(GenerationFault::Invalid(f))
            } else {
                AttemptOutcome::Retry
            },
        }
    }
}

/// Decides on the set generated by request number `attempt` (from 0) against
/// the rules offered to that request and the saved exercises.
pub fn review_generated_set(
    attempt: usize,
    exercises: &[Exercise],
    selected_rules: &[GrammarRule],
    recent_exercises: &[RecentExercise],
) -> (d: AttemptDecision)
    requires
        attempt < GENERATION_ATTEMPTS,
    ensures
        d@ == attempt_outcome(attempt as nat, exercises@, selected_rules@, recent_exercises@),
{
    if exercises.len() == 0 {
        return AttemptDecision::Fail(GenerationError::NoExercises);
    }
    match validate_exercises(exercises, selected_rules, recent_exercises) {
        Ok(()) => AttemptDecision::Accept,
        Err(e) => {
            if attempt + 1 == GENERATION_ATTEMPTS {
                AttemptDecision::Fail(GenerationError::Invalid(e))
            } else {
                AttemptDecision::Retry
            }
        },
    }
}


/// The members of a JSON object, in order; none for another value.
pub open spec fn object_members(v: JsonValue) -> Seq<(String, JsonValue)> {
    match v {
        JsonValue::Object(entries) => entries@,
        _ => Seq::empty(),
    }
}

/// `v` is an object whose members have the names `keys`, in this order.
pub open spec fn has_members(v: JsonValue, keys: Seq<Seq<char>>) -> bool {
    &&& v is Object
    &&& object_members(v).len() == keys.len()
    &&& forall|i: int| 0 <= i < keys.len() ==> #[trigger] object_members(v)[i].0@ == keys[i]
}

/// The value of the `i`-th member of an object.
pub open spec fn member(v: JsonValue, i: int) -> JsonValue {
    object_members(v)[i].1
}

/// `v` is the JSON string `s`.
pub open spec fn text_is(v: JsonValue, s: Seq<char>) -> bool {
    v matches JsonValue::Text(t) && t@ == s
}

/// `v` is the JSON number written `s`.
pub open spec fn number_is(v: JsonValue, s: Seq<char>) -> bool {
    v matches JsonValue::Number(t) && t@ == s
}

/// `v` is the JSON array of the strings `items`.
pub open spec fn text_list_is(v: JsonValue, items: Seq<Seq<char>>) -> bool {
    v matches JsonValue::Array(a) && a@.len() == items.len() && forall|i: int|
        0 <= i < items.len() ==> text_is(#[trigger] a@[i], items[i])
}

/// `v` describes a string member: `{"type": "string", "description": ...}`.
pub open spec fn string_member_is(v: JsonValue, description: Seq<char>) -> bool {
    &&& has_members(v, seq!["type"@, "description"@])
    &&& text_is(member(v, 0), "string"@)
    &&& text_is(member(v, 1), description)
}

/// The six members of a generated exercise, in schema order.
pub open spec fn exercise_member_names() -> Seq<Seq<char>> {
    seq![
        "focus_rule_id"@,
        "sentence"@,
        "answer"@,
        "hint"@,
        "focus"@,
        "explanation"@,
    ]
}

/// The schema of one exercise: an object of six required string members and
/// nothing else.
pub open spec fn is_exercise_item_schema(o: JsonValue) -> bool {
    let props = member(o, 3);
    &&& has_members(o, seq!["type"@, "additionalProperties"@, "required"@, "properties"@])
    &&& text_is(member(o, 0), "object"@)
    &&& member(o, 1) == JsonValue::Bool(false)
    &&& text_list_is(member(o, 2), exercise_member_names())
    &&& has_members(props, exercise_member_names())
    &&& string_member_is(member(props, 0), "The exact grammar rule id from the approved rule list."@)
    &&& string_member_is(member(props, 1), "A sentence containing exactly one ____ blank marker."@)
    &&& string_member_is(member(props, 2), "The exact missing word or short phrase."@)
    &&& string_member_is(member(props, 3), "A short learner-facing clue."@)
    &&& string_member_is(
        member(props, 4),
        "The grammar, conjugation, or vocabulary topic being practiced."@,
    )
    &&& string_member_is(member(props, 5), "A concise explanation of why the answer is correct."@)
}

/// The schema that generated sets must follow: an object whose only, required
/// member `exercises` is an array of exactly `EXERCISE_COUNT` exercises.
pub open spec fn is_exercise_set_schema(s: JsonValue) -> bool {
    let props = member(s, 3);
    let list = member(props, 0);
    &&& has_members(s, seq!["type"@, "additionalProperties"@, "required"@, "properties"@])
    &&& text_is(member(s, 0), "object"@)
    &&& member(s, 1) == JsonValue::Bool(false)
    &&& text_list_is(member(s, 2), seq!["exercises"@])
    &&& has_members(props, seq!["exercises"@])
    &&& has_members(list, seq!["type"@, "minItems"@, "maxItems"@, "items"@])
    &&& text_is(member(list, 0), "array"@)
    &&& number_is(member(list, 1), decimal(EXERCISE_COUNT as nat))
    &&& number_is(member(list, 2), decimal(EXERCISE_COUNT as nat))
    &&& is_exercise_item_schema(member(list, 3))
}

fn json_text(s: &str) -> (v: JsonValue)
    ensures
        text_is(v, s@),
{
    JsonValue::Text(String::from_str(s))
}

fn json_member(name: &str, value: JsonValue) -> (m: (String, JsonValue))
    ensures
        m.0@ == name@,
        m.1 == value,
{
    (String::from_str(name), value)
}

fn string_member(description: &str) -> (v: JsonValue)
    ensures
        string_member_is(v, description@),
{
    let mut entries: Vec<(String, JsonValue)> = Vec::new();
    entries.push(json_member("type", json_text("string")));
    entries.push(json_member("description", json_text(description)));
    JsonValue::Object(entries)
}

fn exercise_item_schema() -> (v: JsonValue)
    ensures
        is_exercise_item_schema(v),
{
    let mut required: Vec<JsonValue> = Vec::new();
    required.push(json_text("focus_rule_id"));
    required.push(json_text("sentence"));
    required.push(json_text("answer"));
    required.push(json_text("hint"));
    required.push(json_text("focus"));
    required.push(json_text("explanation"));
    let mut props: Vec<(String, JsonValue)> = Vec::new();
    props.push(
        json_member(
            "focus_rule_id",
            string_member("The exact grammar rule id from the approved rule list."),
        ),
    );
    props.push(
        json_member(
            "sentence",
            string_member("A sentence containing exactly one ____ blank marker."),
        ),
    );
    props.push(json_member("answer", string_member("The exact missing word or short phrase.")));
    props.push(json_member("hint", string_member("A short learner-facing clue.")));
    props.push(
        json_member(
            "focus",
            string_member("The grammar, conjugation, or vocabulary topic being practiced."),
        ),
    );
    props.push(
        json_member(
            "explanation",
            string_member("A concise explanation of why the answer is correct."),
        ),
    );
    let mut entries: Vec<(String, JsonValue)> = Vec::new();
    entries.push(json_member("type", json_text("object")));
    entries.push(json_member("additionalProperties", JsonValue::Bool(false)));
    entries.push(json_member("required", JsonValue::Array(required)));
    entries.push(json_member("properties", JsonValue::Object(props)));
    let v = JsonValue::Object(entries);
    assert(text_list_is(member(v, 2), exercise_member_names()));
    assert(has_members(member(v, 3), exercise_member_names()));
    v
}

/// The JSON schema that the model's answer must follow.
pub fn exercise_schema() -> (s: JsonValue)
    ensures
        is_exercise_set_schema(s),
{
    let mut list: Vec<(String, JsonValue)> = Vec::new();
    list.push(json_member("type", json_text("array")));
    list.push(json_member("minItems", JsonValue::Number(decimal_string(EXERCISE_COUNT))));
    list.push(json_member("maxItems", JsonValue::Number(decimal_string(EXERCISE_COUNT))));
    list.push(json_member("items", exercise_item_schema()));
    let mut required: Vec<JsonValue> = Vec::new();
    required.push(json_text("exercises"));
    let mut props: Vec<(String, JsonValue)> = Vec::new();
    props.push(json_member("exercises", JsonValue::Object(list)));
    let mut entries: Vec<(String, JsonValue)> = Vec::new();
    entries.push(json_member("type", json_text("object")));
    entries.push(json_member("additionalProperties", JsonValue::Bool(false)));
    entries.push(json_member("required", JsonValue::Array(required)));
    entries.push(json_member("properties", JsonValue::Object(props)));
    let s = JsonValue::Object(entries);
    assert(text_list_is(member(s, 2), seq!["exercises"@]));
    s
}

} // verus!
