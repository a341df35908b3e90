//! CEFR levels and the choice of the grammar rules that a generation request
//! offers: the rules at or below the learner's level first, each group in a
//! random order, at most `GENERATION_RULE_LIMIT` in all.

use rand::seq::SliceRandom;
use vstd::prelude::*;

use crate::records::{rules_view, GrammarRule, GrammarRuleView};
use crate::text::str_equal;

verus! {

/// The number of CEFR levels.
pub const LEVEL_COUNT: usize = 6;

/// The most grammar rules offered to one generation request.
pub const GENERATION_RULE_LIMIT: usize = 12;

/// The CEFR level at `rank` (0 for A1 up to 5 for C2).
pub open spec fn level_label(rank: int) -> Seq<char> {
    if rank == 0 {
        "A1"@
    } else if rank == 1 {
        "A2"@
    } else if rank == 2 {
        "B1"@
    } else if rank == 3 {
        "B2"@
    } else if rank == 4 {
        "C1"@
    } else {
        "C2"@
    }
}

/// The name of the CEFR level at `rank`.
pub fn level_name(rank: usize) -> (r: &'static str)
    requires
        rank < LEVEL_COUNT,
    ensures
        r@ == level_label(rank as int),
{
    if rank == 0 {
        "A1"
    } else if rank == 1 {
        "A2"
    } else if rank == 2 {
        "B1"
    } else if rank == 3 {
        "B2"
    } else if rank == 4 {
        "C1"
    } else {
        "C2"
    }
}

/// The rank of the first level named `s`, or `None` when `s` names no level.
pub open spec fn level_position(s: Seq<char>) -> Option<usize> {
    if s == level_label(0) {
        Some(0)
    } else if s == level_label(1) {
        Some(1)
    } else if s == level_label(2) {
        Some(2)
    } else if s == level_label(3) {
        Some(3)
    } else if s == level_label(4) {
        Some(4)
    } else if s == level_label(5) {
        Some(5)
    } else {
        None
    }
}

/// The rank of a CEFR level name, or `None` for any other text.
pub fn level_rank(level: &str) -> (r: Option<usize>)
    ensures
        r == level_position(level@),
{
    let mut rank: usize = 0;
    while rank < LEVEL_COUNT
        invariant
            rank <= LEVEL_COUNT,
            forall|k: int| 0 <= k < rank ==> level@ != level_label(k),
        decreases LEVEL_COUNT - rank,
    {
        if str_equal(level, level_name(rank)) {
            return Some(rank);
        }
        rank = rank + 1;
    }
    None
}

/// The rank up to which rules count as suitable for `level`: its own rank, or
/// every rank when `level` names no level.
pub open spec fn target_rank(level: Seq<char>) -> usize {
    match level_position(level) {
        Some(r) => r,
        None => LEVEL_COUNT,
    }
}

/// A rule is suitable for the target rank when its level is at or below it, or
/// when its level is not a CEFR level name.
pub open spec fn is_preferred(rule: GrammarRuleView, target: usize) -> bool {
    match level_position(rule.cefr_level) {
        Some(r) => r <= target,
        None => true,
    }
}

/// The rules suitable for `level`, in their given order.
pub open spec fn preferred_rules(rules: Seq<GrammarRuleView>, level: Seq<char>) -> Seq<
    GrammarRuleView,
> {
    rules.filter(|r: GrammarRuleView| is_preferred(r, target_rank(level)))
}

/// The rules above `level`, in their given order.
pub open spec fn fallback_rules(rules: Seq<GrammarRuleView>, level: Seq<char>) -> Seq<
    GrammarRuleView,
> {
    rules.filter(|r: GrammarRuleView| !is_preferred(r, target_rank(level)))
}

/// `after` holds the items of `before` in some order: `after[i]` is
/// `before[p[i]]` for a bijection `p` of the indices, whose inverse is `q`.
pub open spec fn is_permutation_of<T>(after: Seq<T>, before: Seq<T>) -> bool {
    &&& after.len() == before.len()
    &&& exists|p: Seq<int>, q: Seq<int>| #[trigger] is_index_bijection(p, q, before.len()) && (
    forall|i: int| 0 <= i < p.len() ==> after[i] == before[#[trigger] p[i]])
}

/// `p` and `q` are mutually inverse maps of the indices below `n`.
pub open spec fn is_index_bijection(p: Seq<int>, q: Seq<int>, n: nat) -> bool {
    &&& p.len() == n
    &&& q.len() == n
    &&& forall|i: int| 0 <= i < n ==> 0 <= #[trigger] p[i] < n && q[p[i]] == i
    &&& forall|k: int| 0 <= k < n ==> 0 <= #[trigger] q[k] < n && p[q[k]] == k
}

/// The number of rules offered out of `n` candidates.
pub open spec fn selection_size(n: nat) -> nat {
    if n < GENERATION_RULE_LIMIT {
        n
    } else {
        GENERATION_RULE_LIMIT as nat
    }
}

/// `selected` is a choice of rules for `level` out of `rules`: the suitable
/// rules in some order followed by the others in some order, cut to at most
/// `GENERATION_RULE_LIMIT`.
pub open spec fn is_rule_selection(
    rules: Seq<GrammarRuleView>,
    level: Seq<char>,
    selected: Seq<GrammarRuleView>,
) -> bool {
    exists|p: Seq<GrammarRuleView>, f: Seq<GrammarRuleView>|
        {
            &&& is_permutation_of(p, preferred_rules(rules, level))
            &&& is_permutation_of(f, fallback_rules(rules, level))
            &&& #[trigger] (p + f).take(selection_size((p + f).len()) as int) == selected
        }
}

/// Splits the rules into those suitable for `level` and the others, each in
/// the given order.
pub fn partition_rules(grammar_rules: &[GrammarRule], level: &str) -> (r: (
    Vec<GrammarRule>,
    Vec<GrammarRule>,
))
    ensures
        rules_view(r.0@) == preferred_rules(rules_view(grammar_rules@), level@),
        rules_view(r.1@) == fallback_rules(rules_view(grammar_rules@), level@),
{
    let ghost all = rules_view(grammar_rules@);
    let ghost target = target_rank(level@);
    let target_rank_exec = match level_rank(level) {
        Some(r) => r,
        None => LEVEL_COUNT,
    };
    let ghost pred = |r: GrammarRuleView| is_preferred(r, target);
    let ghost npred = |r: GrammarRuleView| !is_preferred(r, target);
    let mut preferred: Vec<GrammarRule> = Vec::new();
    let mut fallback: Vec<GrammarRule> = Vec::new();
    let mut i: usize = 0;
    proof {
        reveal(Seq::filter);
        assert(all.take(0) =~= Seq::<GrammarRuleView>::empty());
        assert(rules_view(preferred@) =~= Seq::<GrammarRuleView>::empty());
        assert(rules_view(fallback@) =~= Seq::<GrammarRuleView>::empty());
    }
    while i < grammar_rules.len()
        invariant
            all == rules_view(grammar_rules@),
            target == target_rank(level@),
            target_rank_exec == target,
            pred == (|r: GrammarRuleView| is_preferred(r, target)),
            npred == (|r: GrammarRuleView| !is_preferred(r, target)),
            i <= grammar_rules@.len(),
            rules_view(preferred@) == all.take(i as int).filter(pred),
            rules_view(fallback@) == all.take(i as int).filter(npred),
        decreases grammar_rules@.len() - i,
    {
        let rule = &grammar_rules[i];
        let suitable = match level_rank(rule.cefr_level.as_str()) {
            Some(rank) => rank <= target_rank_exec,
            None => true,
        };
        proof {
            reveal(Seq::filter);
            assert(all.take(i + 1).drop_last() =~= all.take(i as int));
            assert(all.take(i + 1).last() == rule@);
            assert(suitable == pred(rule@));
        }
        if suitable {
            preferred.push(rule.duplicate());
            proof {
                assert(rules_view(preferred@) =~= all.take(i as int).filter(pred).push(rule@));
                assert(rules_view(fallback@) =~= all.take(i + 1).filter(npred));
            }
        } else {
            fallback.push(rule.duplicate());
            proof {
                assert(rules_view(fallback@) =~= all.take(i as int).filter(npred).push(rule@));
                assert(rules_view(preferred@) =~= all.take(i + 1).filter(pred));
            }
        }
        i = i + 1;
    }
    proof {
        assert(all.take(grammar_rules@.len() as int) =~= all);
    }
    (preferred, fallback)
}

/// The suitable rules followed by the others, cut to at most
/// `GENERATION_RULE_LIMIT`.
pub fn combine_rule_selection(preferred: Vec<GrammarRule>, fallback: Vec<GrammarRule>) -> (r: Vec<
    GrammarRule,
>)
    ensures
        r@ == (preferred@ + fallback@).take(
            selection_size((preferred@ + fallback@).len()) as int,
        ),
{
    let mut all = preferred;
    let mut rest = fallback;
    let ghost joined = all@ + rest@;
    all.append(&mut rest);
    let limit = if all.len() < GENERATION_RULE_LIMIT {
        all.len()
    } else {
        GENERATION_RULE_LIMIT
    };
    all.truncate(limit);
    assert(all@ =~= joined.take(selection_size(joined.len()) as int));
    all
}

/// A source of randomness for the current thread.
#[verifier::external_type_specification]
#[verifier::external_body]
pub struct ExThreadRng(rand::rngs::ThreadRng);

/// `rand::thread_rng`: the random generator of the current thread.
#[verifier::external_body]
fn thread_random() -> rand::rngs::ThreadRng {
    rand::thread_rng()
}

/// `SliceRandom::shuffle` of rand: puts the items in a random order. Which
/// order comes out depends on the generator; the items stay the same.
#[verifier::external_body]
fn shuffle_rules(items: &mut Vec<GrammarRule>, rng: &mut rand::rngs::ThreadRng)
    ensures
        is_permutation_of(final(items)@, old(items)@),
{
    items.shuffle(rng)
}

proof fn lemma_permutation_views(after: Seq<GrammarRule>, before: Seq<GrammarRule>)
    requires
        is_permutation_of(after, before),
    ensures
        is_permutation_of(rules_view(after), rules_view(before)),
{
    let (p, q) = choose|p: Seq<int>, q: Seq<int>|
        #[trigger] is_index_bijection(p, q, before.len()) && (forall|i: int|
            0 <= i < p.len() ==> after[i] == before[#[trigger] p[i]]);
    let va = rules_view(after);
    let vb = rules_view(before);
    assert(forall|i: int| 0 <= i < p.len() ==> va[i] == vb[#[trigger] p[i]]);
    assert(is_index_bijection(p, q, vb.len()));
}

/// The grammar rules offered for `level`: the rules suitable for it in a
/// random order, then the others in a random order, at most
/// `GENERATION_RULE_LIMIT` in all.
pub fn select_generation_rules(grammar_rules: &[GrammarRule], level: &str) -> (r: Vec<GrammarRule>)
    ensures
        is_rule_selection(rules_view(grammar_rules@), level@, rules_view(r@)),
{
    let (mut preferred, mut fallback) = partition_rules(grammar_rules, level);
    let ghost pref0 = preferred@;
    let ghost fall0 = fallback@;
    let mut rng = thread_random();
    shuffle_rules(&mut preferred, &mut rng);
    shuffle_rules(&mut fallback, &mut rng);
    let ghost pref1 = preferred@;
    let ghost fall1 = fallback@;
    let r = combine_rule_selection(preferred, fallback);
    proof {
        lemma_permutation_views(pref1, pref0);
        lemma_permutation_views(fall1, fall0);
        let p = rules_view(pref1);
        let f = rules_view(fall1);
        assert(rules_view(pref1 + fall1) =~= p + f);
        assert(rules_view(r@) =~= (p + f).take(selection_size((p + f).len()) as int));
    }
    r
}

} // verus!
