//! Properties of the library as a whole, stated over the specifications of
//! its functions and proved from them.

use vstd::prelude::*;

use crate::generation::{attempt_outcome, recent_line, recent_prompt, AttemptOutcome, GENERATION_ATTEMPTS};
use crate::json::{columns_hold_lists, rule_from_columns};
use crate::records::{Exercise, GrammarRule, GrammarRuleView, RecentExercise};
use crate::selection::{
    fallback_rules, is_index_bijection, is_permutation_of, is_preferred, is_rule_selection,
    level_label, level_position, preferred_rules, selection_size, target_rank, LEVEL_COUNT,
};
use crate::session::{answer_matches, chosen_level};
use crate::text::{join_texts, lowercase};
use crate::text::{
    blank_marker_count, decimal, digit_char, digits_value, lemma_trim_idempotent, trim, trim_end,
    trim_start,
};
use crate::validate::{
    distinct_rule_count, exercise_sig, fault_at, first_fault_from, is_recent, normalized_text,
    rule_known, sentence_repeated, signature_repeated, validation_fault, EXERCISE_COUNT,
    MIN_DISTINCT_RULES,
};

verus! {

proof fn lemma_no_fault_before(
    exs: Seq<Exercise>,
    rules: Seq<GrammarRule>,
    recent: Seq<RecentExercise>,
    k: int,
    i: int,
)
    requires
        0 <= k <= i < exs.len(),
        first_fault_from(exs, rules, recent, k) is None,
    ensures
        fault_at(exs, rules, recent, i) is None,
    decreases i - k,
{
    if k < i {
        lemma_no_fault_before(exs, rules, recent, k + 1, i);
    }
}

/// An accepted set of exercises has exactly `EXERCISE_COUNT` exercises; each
/// sentence holds exactly one blank marker, each answer is non-empty after
/// trimming, each focus rule is an approved rule; no two exercises share a
/// normalised sentence or a signature; no signature is that of a saved
/// exercise; and the set covers at least `MIN_DISTINCT_RULES` rules.
pub proof fn lemma_accepted_set(
    exs: Seq<Exercise>,
    rules: Seq<GrammarRule>,
    recent: Seq<RecentExercise>,
)
    requires
        validation_fault(exs, rules, recent) is None,
    ensures
        exs.len() == EXERCISE_COUNT,
        forall|i: int| 0 <= i < exs.len() ==> blank_marker_count(#[trigger] exs[i].sentence@) == 1,
        forall|i: int| 0 <= i < exs.len() ==> trim(#[trigger] exs[i].answer@).len() > 0,
        forall|i: int| 0 <= i < exs.len() ==> rule_known(rules, #[trigger] exs[i].focus_rule_id@),
        forall|i: int, j: int|
            0 <= i < j < exs.len() ==> normalized_text(#[trigger] exs[i].sentence@)
                != normalized_text(#[trigger] exs[j].sentence@),
        forall|i: int, j: int|
            0 <= i < j < exs.len() ==> exercise_sig(#[trigger] exs[i]) != exercise_sig(
                #[trigger] exs[j],
            ),
        forall|i: int| 0 <= i < exs.len() ==> !is_recent(recent, exercise_sig(#[trigger] exs[i])),
        distinct_rule_count(exs) >= MIN_DISTINCT_RULES,
{
    assert forall|i: int| 0 <= i < exs.len() implies #[trigger] fault_at(
        exs,
        rules,
        recent,
        i,
    ) is None by {
        lemma_no_fault_before(exs, rules, recent, 0, i);
    }
    assert forall|i: int, j: int| 0 <= i < j < exs.len() implies normalized_text(
        #[trigger] exs[i].sentence@,
    ) != normalized_text(#[trigger] exs[j].sentence@) by {
        assert(fault_at(exs, rules, recent, j) is None);
        if normalized_text(exs[i].sentence@) == normalized_text(exs[j].sentence@) {
            assert(sentence_repeated(exs, j));
        }
    }
    assert forall|i: int, j: int| 0 <= i < j < exs.len() implies exercise_sig(#[trigger] exs[i])
        != exercise_sig(#[trigger] exs[j]) by {
        assert(fault_at(exs, rules, recent, j) is None);
        if exercise_sig(exs[i]) == exercise_sig(exs[j]) {
            assert(signature_repeated(exs, j));
        }
    }
    assert forall|i: int| 0 <= i < exs.len() implies blank_marker_count(
        #[trigger] exs[i].sentence@,
    ) == 1 by {
        assert(fault_at(exs, rules, recent, i) is None);
    }
    assert forall|i: int| 0 <= i < exs.len() implies trim(#[trigger] exs[i].answer@).len()
        > 0 by {
        assert(fault_at(exs, rules, recent, i) is None);
    }
    assert forall|i: int| 0 <= i < exs.len() implies rule_known(
        rules,
        #[trigger] exs[i].focus_rule_id@,
    ) by {
        assert(fault_at(exs, rules, recent, i) is None);
    }
    assert forall|i: int| 0 <= i < exs.len() implies !is_recent(
        recent,
        exercise_sig(#[trigger] exs[i]),
    ) by {
        assert(fault_at(exs, rules, recent, i) is None);
    }
}

/// Whitespace around an answer never changes its grade.
pub proof fn lemma_grade_ignores_surrounding_whitespace(given: Seq<char>, accepted: Seq<char>)
    ensures
        answer_matches(trim(given), accepted) == answer_matches(given, accepted),
        answer_matches(given, trim(accepted)) == answer_matches(given, accepted),
{
    lemma_trim_idempotent(given);
    lemma_trim_idempotent(accepted);
}

/// Grading is symmetric in the given and the accepted answer.
pub proof fn lemma_grade_symmetric(given: Seq<char>, accepted: Seq<char>)
    ensures
        answer_matches(given, accepted) == answer_matches(accepted, given),
{
}

/// The level names are told apart: the rank of the `r`-th level's name is `r`.
pub proof fn lemma_level_names_rank(r: int)
    requires
        0 <= r < LEVEL_COUNT,
    ensures
        level_position(level_label(r)) == Some(r as usize),
{
    reveal_strlit("A1");
    reveal_strlit("A2");
    reveal_strlit("B1");
    reveal_strlit("B2");
    reveal_strlit("C1");
    reveal_strlit("C2");
    assert("A1"@[1] != "A2"@[1]);
    assert("A1"@[0] != "B1"@[0]);
    assert("A1"@[0] != "B2"@[0]);
    assert("A1"@[0] != "C1"@[0]);
    assert("A1"@[0] != "C2"@[0]);
    assert("A2"@[0] != "B1"@[0]);
    assert("A2"@[0] != "B2"@[0]);
    assert("A2"@[0] != "C1"@[0]);
    assert("A2"@[0] != "C2"@[0]);
    assert("B1"@[1] != "B2"@[1]);
    assert("B1"@[0] != "C1"@[0]);
    assert("B1"@[0] != "C2"@[0]);
    assert("B2"@[0] != "C1"@[0]);
    assert("B2"@[0] != "C2"@[0]);
    assert("C1"@[1] != "C2"@[1]);
}

/// The last generation request is never retried, and a set is accepted only
/// when it passes the checks.
pub proof fn lemma_generation_ends(
    attempt: nat,
    exs: Seq<Exercise>,
    rules: Seq<GrammarRule>,
    recent: Seq<RecentExercise>,
)
    ensures
        attempt + 1 == GENERATION_ATTEMPTS ==> !(attempt_outcome(
            attempt,
            exs,
            rules,
            recent,
        ) is Retry),
        attempt_outcome(attempt, exs, rules, recent) is Accept ==> validation_fault(
            exs,
            rules,
            recent,
        ) is None,
{
}

proof fn lemma_filter_split_len(rules: Seq<GrammarRuleView>, level: Seq<char>)
    ensures
        preferred_rules(rules, level).len() + fallback_rules(rules, level).len() == rules.len(),
    decreases rules.len(),
{
    reveal(Seq::filter);
    if rules.len() > 0 {
        lemma_filter_split_len(rules.drop_last(), level);
    }
}

proof fn lemma_filtered_from(rules: Seq<GrammarRuleView>, pred: spec_fn(GrammarRuleView) -> bool, k: int)
    requires
        0 <= k < rules.filter(pred).len(),
    ensures
        pred(rules.filter(pred)[k]),
        exists|m: int| 0 <= m < rules.len() && rules[m] == rules.filter(pred)[k],
    decreases rules.len(),
{
    reveal(Seq::filter);
    if rules.len() > 0 {
        let rest = rules.drop_last();
        if k < rest.filter(pred).len() {
            lemma_filtered_from(rest, pred, k);
            let m = choose|m: int| 0 <= m < rest.len() && rest[m] == rest.filter(pred)[k];
            assert(rules[m] == rules.filter(pred)[k]);
        } else {
            assert(rules[rules.len() - 1] == rules.filter(pred)[k]);
        }
    }
}

/// A choice of grammar rules for a level offers `min(GENERATION_RULE_LIMIT,
/// rules.len())` rules, each one of the given rules; no suitable rule comes
/// after a rule above the level; and when a rule above the level is offered,
/// every suitable rule is offered too.
pub proof fn lemma_rule_selection(
    rules: Seq<GrammarRuleView>,
    level: Seq<char>,
    selected: Seq<GrammarRuleView>,
)
    requires
        is_rule_selection(rules, level, selected),
    ensures
        selected.len() == selection_size(rules.len()),
        forall|i: int|
            0 <= i < selected.len() ==> exists|m: int|
                0 <= m < rules.len() && rules[m] == #[trigger] selected[i],
        forall|i: int, j: int|
            0 <= i < j < selected.len() && !is_preferred(
                #[trigger] selected[i],
                target_rank(level),
            ) ==> !is_preferred(#[trigger] selected[j], target_rank(level)),
        (exists|i: int|
            0 <= i < selected.len() && !is_preferred(#[trigger] selected[i], target_rank(level)))
            ==> forall|k: int|
            #![trigger preferred_rules(rules, level)[k]]
            0 <= k < preferred_rules(rules, level).len() ==> exists|i: int|
                0 <= i < selected.len() && #[trigger] selected[i] == preferred_rules(
                    rules,
                    level,
                )[k],
{
    let t = target_rank(level);
    let pred = |r: GrammarRuleView| is_preferred(r, t);
    let npred = |r: GrammarRuleView| !is_preferred(r, t);
    let pref = preferred_rules(rules, level);
    let fall = fallback_rules(rules, level);
    let (p, f) = choose|p: Seq<GrammarRuleView>, f: Seq<GrammarRuleView>|
        {
            &&& is_permutation_of(p, pref)
            &&& is_permutation_of(f, fall)
            &&& #[trigger] (p + f).take(selection_size((p + f).len()) as int) == selected
        };
    lemma_filter_split_len(rules, level);
    let (pp, pq) = choose|pp: Seq<int>, pq: Seq<int>|
        #[trigger] is_index_bijection(pp, pq, pref.len()) && (forall|i: int|
            0 <= i < pp.len() ==> p[i] == pref[#[trigger] pp[i]]);
    let (fp, fq) = choose|fp: Seq<int>, fq: Seq<int>|
        #[trigger] is_index_bijection(fp, fq, fall.len()) && (forall|i: int|
            0 <= i < fp.len() ==> f[i] == fall[#[trigger] fp[i]]);
    let joined = p + f;
    assert forall|i: int| 0 <= i < joined.len() implies (i < p.len() ==> is_preferred(
        #[trigger] joined[i],
        t,
    )) && (i >= p.len() ==> !is_preferred(joined[i], t)) && exists|m: int|
        0 <= m < rules.len() && rules[m] == joined[i] by {
        if i < p.len() {
            lemma_filtered_from(rules, pred, pp[i]);
            assert(joined[i] == pref[pp[i]]);
        } else {
            let k = i - p.len();
            lemma_filtered_from(rules, npred, fp[k]);
            assert(joined[i] == fall[fp[k]]);
        }
    }
    assert forall|i: int| 0 <= i < selected.len() implies exists|m: int|
        0 <= m < rules.len() && rules[m] == #[trigger] selected[i] by {
        assert(selected[i] == joined[i]);
    }
    assert forall|i: int, j: int|
        0 <= i < j < selected.len() && !is_preferred(
            #[trigger] selected[i],
            t,
        ) implies !is_preferred(#[trigger] selected[j], t) by {
        assert(selected[i] == joined[i]);
        assert(selected[j] == joined[j]);
    }
    if exists|i: int| 0 <= i < selected.len() && !is_preferred(#[trigger] selected[i], t) {
        let i0 = choose|i: int| 0 <= i < selected.len() && !is_preferred(#[trigger] selected[i], t);
        assert(selected[i0] == joined[i0]);
        assert(i0 >= p.len());
        assert forall|k: int| #![trigger pref[k]] 0 <= k < pref.len() implies exists|i: int|
            0 <= i < selected.len() && #[trigger] selected[i] == pref[k] by {
            let i = pq[k];
            assert(p[i] == pref[pp[i]]);
            assert(selected[i] == joined[i]);
        }
    }
}


/// The level menu lists the `r`-th level (from 0) under the number `r + 1`;
/// entering that number chooses that level.
pub proof fn lemma_level_menu_numbers(r: int)
    requires
        0 <= r < LEVEL_COUNT,
    ensures
        chosen_level(decimal((r + 1) as nat)) == Some(level_label(r)),
{
    let n = (r + 1) as nat;
    let d = decimal(n);
    assert(d == seq![digit_char(n)]);
    assert(trim_start(d) == d);
    assert(trim_end(d) == d);
    assert(trim(d) == d);
    assert(d.drop_last() =~= Seq::<char>::empty());
    assert(crate::text::digit_value(digit_char(n)) == n) by {
        if n == 1 {
            assert(digit_char(n) == '1');
        } else if n == 2 {
            assert(digit_char(n) == '2');
        } else if n == 3 {
            assert(digit_char(n) == '3');
        } else if n == 4 {
            assert(digit_char(n) == '4');
        } else if n == 5 {
            assert(digit_char(n) == '5');
        } else {
            assert(digit_char(n) == '6');
        }
    }
    assert(digits_value(d.drop_last()) == 0);
    assert(d.last() == digit_char(n));
    assert(digits_value(d) == n);
}

/// A grammar rule stored with the list columns that `rule_list_columns` writes
/// for it, and with its other fields as they are, reads back, through
/// `grammar_rule_from_columns`, with the contents it was stored with.
pub proof fn lemma_stored_rule_reads_back(
    rule: GrammarRuleView,
    examples_json: Seq<char>,
    common_mistakes_json: Seq<char>,
    tags_json: Seq<char>,
)
    requires
        columns_hold_lists(rule, examples_json, common_mistakes_json, tags_json),
    ensures
        rule_from_columns(
            rule.id,
            rule.language,
            rule.cefr_level,
            rule.category,
            rule.title,
            rule.rule_text,
            examples_json,
            common_mistakes_json,
            tags_json,
        ) == rule,
{
}

/// Grading compares whole answers: a given answer is graded correct exactly
/// when, trimmed and lowercased, it is the accepted answer trimmed and
/// lowercased; in particular two answers whose normalised forms differ in
/// length are never graded correct, and neither is a prefix of the other.
pub proof fn lemma_grade_is_whole_answer_equality(given: Seq<char>, accepted: Seq<char>)
    ensures
        answer_matches(given, accepted) == (lowercase(trim(given)) == lowercase(trim(accepted))),
        lowercase(trim(given)).len() != lowercase(trim(accepted)).len() ==> !answer_matches(
            given,
            accepted,
        ),
{
}

proof fn lemma_no_fault_from(
    exs: Seq<Exercise>,
    rules: Seq<GrammarRule>,
    recent: Seq<RecentExercise>,
    k: int,
)
    requires
        0 <= k <= exs.len(),
        forall|i: int| k <= i < exs.len() ==> #[trigger] fault_at(exs, rules, recent, i) is None,
    ensures
        first_fault_from(exs, rules, recent, k) is None,
    decreases exs.len() - k,
{
    if k < exs.len() {
        lemma_no_fault_from(exs, rules, recent, k + 1);
    }
}

/// A set passes validation whenever it meets every check: exactly
/// `EXERCISE_COUNT` exercises, one blank marker in each sentence, an answer
/// that is not empty after trimming, an approved focus rule, no normalised
/// sentence or signature twice, no signature of a saved exercise, and at least
/// `MIN_DISTINCT_RULES` distinct rules. No other property of an exercise, such
/// as the length of its answer, can refuse it.
pub proof fn lemma_valid_set_accepted(
    exs: Seq<Exercise>,
    rules: Seq<GrammarRule>,
    recent: Seq<RecentExercise>,
)
    requires
        exs.len() == EXERCISE_COUNT,
        forall|i: int| 0 <= i < exs.len() ==> blank_marker_count(#[trigger] exs[i].sentence@) == 1,
        forall|i: int| 0 <= i < exs.len() ==> trim(#[trigger] exs[i].answer@).len() > 0,
        forall|i: int| 0 <= i < exs.len() ==> rule_known(rules, #[trigger] exs[i].focus_rule_id@),
        forall|i: int, j: int|
            0 <= i < j < exs.len() ==> normalized_text(#[trigger] exs[i].sentence@)
                != normalized_text(#[trigger] exs[j].sentence@),
        forall|i: int, j: int|
            0 <= i < j < exs.len() ==> exercise_sig(#[trigger] exs[i]) != exercise_sig(
                #[trigger] exs[j],
            ),
        forall|i: int| 0 <= i < exs.len() ==> !is_recent(recent, exercise_sig(#[trigger] exs[i])),
        distinct_rule_count(exs) >= MIN_DISTINCT_RULES,
    ensures
        validation_fault(exs, rules, recent) is None,
{
    assert forall|i: int| 0 <= i < exs.len() implies #[trigger] fault_at(
        exs,
        rules,
        recent,
        i,
    ) is None by {
        assert(blank_marker_count(exs[i].sentence@) == 1);
        assert(trim(exs[i].answer@).len() > 0);
        assert(rule_known(rules, exs[i].focus_rule_id@));
        assert(!is_recent(recent, exercise_sig(exs[i])));
        if sentence_repeated(exs, i) {
            let j = choose|j: int|
                0 <= j < i && #[trigger] normalized_text(exs[j].sentence@) == normalized_text(
                    exs[i].sentence@,
                );
            assert(normalized_text(exs[j].sentence@) != normalized_text(exs[i].sentence@));
        }
        if signature_repeated(exs, i) {
            let j = choose|j: int| 0 <= j < i && #[trigger] exercise_sig(exs[j]) == exercise_sig(
                exs[i],
            );
            assert(exercise_sig(exs[j]) != exercise_sig(exs[i]));
        }
    }
    lemma_no_fault_from(exs, rules, recent, 0);
}

/// A generated set that passes validation is accepted on every request,
/// the last one included.
pub proof fn lemma_valid_set_accepted_on_every_attempt(
    attempt: nat,
    exs: Seq<Exercise>,
    rules: Seq<GrammarRule>,
    recent: Seq<RecentExercise>,
)
    requires
        attempt < GENERATION_ATTEMPTS,
        validation_fault(exs, rules, recent) is None,
    ensures
        attempt_outcome(attempt, exs, rules, recent) == AttemptOutcome::Accept,
{
}

/// The listing of one saved exercise is its line, numbered 1.
pub proof fn lemma_recent_listing_of_one(e: RecentExercise)
    ensures
        recent_prompt(seq![e]) == decimal(1) + ". Prompt: "@ + e.prompt@ + " | Answer: "@
            + e.answer@,
{
    let lines = Seq::new(1, |k: int| recent_line(k as nat, seq![e][k]));
    assert(lines[0] == recent_line(0, e));
}

/// Saving one more exercise adds exactly one line to the listing: the
/// listing so far, a line break, and the new exercise numbered one past the
/// number of exercises listed before it.
pub proof fn lemma_recent_listing_grows_by_a_line(recent: Seq<RecentExercise>, e: RecentExercise)
    requires
        recent.len() > 0,
    ensures
        recent_prompt(recent.push(e)) == recent_prompt(recent) + "\n"@ + (decimal(
            recent.len() + 1,
        ) + ". Prompt: "@ + e.prompt@ + " | Answer: "@ + e.answer@),
{
    let s = recent.push(e);
    let lines = Seq::new(s.len(), |k: int| recent_line(k as nat, s[k]));
    let before = Seq::new(recent.len(), |k: int| recent_line(k as nat, recent[k]));
    assert(lines.drop_last() =~= before);
    assert(lines.last() == recent_line(recent.len(), e));
}

/// A rule whose level is a CEFR level is offered first to a learner at a CEFR
/// level exactly when its level is at or below the learner's: it is then among
/// the preferred rules, and otherwise among the fallback rules and not among
/// the preferred ones.
pub proof fn lemma_suitable_exactly_at_or_below_level(
    rules: Seq<GrammarRuleView>,
    i: int,
    rule_rank: int,
    learner_rank: int,
)
    requires
        0 <= i < rules.len(),
        0 <= rule_rank < LEVEL_COUNT,
        0 <= learner_rank < LEVEL_COUNT,
        rules[i].cefr_level == level_label(rule_rank),
    ensures
        is_preferred(rules[i], target_rank(level_label(learner_rank))) == (rule_rank
            <= learner_rank),
        rule_rank <= learner_rank ==> preferred_rules(rules, level_label(learner_rank)).contains(
            rules[i],
        ),
        rule_rank > learner_rank ==> fallback_rules(rules, level_label(learner_rank)).contains(
            rules[i],
        ) && !preferred_rules(rules, level_label(learner_rank)).contains(rules[i]),
{
    lemma_level_names_rank(rule_rank);
    lemma_level_names_rank(learner_rank);
    let level = level_label(learner_rank);
    let t = target_rank(level);
    let pred = |r: GrammarRuleView| is_preferred(r, t);
    let npred = |r: GrammarRuleView| !is_preferred(r, t);
    if rule_rank <= learner_rank {
        rules.lemma_filter_contains(pred, i);
    } else {
        rules.lemma_filter_contains(npred, i);
        if rules.filter(pred).contains(rules[i]) {
            let k = choose|k: int| 0 <= k < rules.filter(pred).len() && rules.filter(pred)[k]
                == rules[i];
            rules.lemma_filter_pred(pred, k);
        }
    }
}

/// A rule whose level is not a CEFR level name is offered first to every
/// learner, and when the learner's level is not a CEFR level name every rule is
/// offered first.
pub proof fn lemma_unranked_levels_always_suitable(
    rules: Seq<GrammarRuleView>,
    i: int,
    level: Seq<char>,
)
    requires
        0 <= i < rules.len(),
        (forall|r: int| 0 <= r < LEVEL_COUNT ==> rules[i].cefr_level != #[trigger] level_label(r))
            || (forall|r: int| 0 <= r < LEVEL_COUNT ==> level != #[trigger] level_label(r)),
    ensures
        is_preferred(rules[i], target_rank(level)),
        preferred_rules(rules, level).contains(rules[i]),
{
    assert(level_label(0) == "A1"@ && level_label(1) == "A2"@ && level_label(2) == "B1"@
        && level_label(3) == "B2"@ && level_label(4) == "C1"@ && level_label(5) == "C2"@);
    match level_position(rules[i].cefr_level) {
        Some(r) => {
            lemma_level_names_rank(r as int);
            if !(forall|q: int| 0 <= q < LEVEL_COUNT ==> level != #[trigger] level_label(q)) {
                assert(rules[i].cefr_level == level_label(r as int));
            }
        },
        None => {},
    }
    let t = target_rank(level);
    let pred = |r: GrammarRuleView| is_preferred(r, t);
    rules.lemma_filter_contains(pred, i);
}

} // verus!
