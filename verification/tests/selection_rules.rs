use langman::records::GrammarRule;
use langman::selection::{level_name, level_rank, partition_rules, select_generation_rules, combine_rule_selection};

fn rule(id: &str, level: &str) -> GrammarRule {
    GrammarRule {
        id: id.to_string(),
        language: "Spanish".to_string(),
        cefr_level: level.to_string(),
        category: "c".to_string(),
        title: "t".to_string(),
        rule_text: "r".to_string(),
        examples: vec![],
        common_mistakes: vec![],
        tags: vec![],
    }
}

fn ids(rules: &[GrammarRule]) -> Vec<String> {
    rules.iter().map(|r| r.id.clone()).collect()
}

#[test]
fn level_ranks_follow_cefr_order() {
    for (rank, name) in ["A1", "A2", "B1", "B2", "C1", "C2"].iter().enumerate() {
        assert_eq!(level_rank(name), Some(rank));
        assert_eq!(level_name(rank), *name);
    }
    assert_eq!(level_rank("a1"), None);
    assert_eq!(level_rank(""), None);
    assert_eq!(level_rank("D1"), None);
}

#[test]
fn partition_keeps_order_and_puts_unknown_levels_first_group() {
    let rules = vec![rule("a", "B2"), rule("b", "A1"), rule("c", "?"), rule("d", "C1"), rule("e", "B1")];
    let (pref, fall) = partition_rules(&rules, "B1");
    assert_eq!(ids(&pref), vec!["b", "c", "e"]);
    assert_eq!(ids(&fall), vec!["a", "d"]);
    // An unknown level keeps every rule.
    let (pref, fall) = partition_rules(&rules, "Z9");
    assert_eq!(ids(&pref), vec!["a", "b", "c", "d", "e"]);
    assert!(fall.is_empty());
}

#[test]
fn combination_cuts_at_twelve() {
    let pref: Vec<GrammarRule> = (0..8).map(|i| rule(&format!("p{i}"), "A1")).collect();
    let fall: Vec<GrammarRule> = (0..8).map(|i| rule(&format!("f{i}"), "C2")).collect();
    let out = combine_rule_selection(pref, fall);
    let expected: Vec<String> = (0..8).map(|i| format!("p{i}")).chain((0..4).map(|i| format!("f{i}"))).collect();
    assert_eq!(ids(&out), expected);
}

#[test]
fn selection_offers_suitable_rules_first() {
    let mut rules = Vec::new();
    for i in 0..5 {
        rules.push(rule(&format!("low{i}"), "A1"));
    }
    for i in 0..10 {
        rules.push(rule(&format!("high{i}"), "C2"));
    }
    for _ in 0..20 {
        let out = select_generation_rules(&rules, "A2");
        assert_eq!(out.len(), 12);
        let mut first: Vec<String> = ids(&out[..5]);
        first.sort();
        assert_eq!(first, vec!["low0", "low1", "low2", "low3", "low4"]);
        assert!(out[5..].iter().all(|r| r.id.starts_with("high")));
        let mut all = ids(&out);
        all.sort();
        all.dedup();
        assert_eq!(all.len(), 12);
    }
}

#[test]
fn selection_of_few_rules_keeps_all() {
    let rules = vec![rule("x", "B1"), rule("y", "A1")];
    let out = select_generation_rules(&rules, "A1");
    assert_eq!(ids(&out), vec!["y", "x"]);
    assert!(select_generation_rules(&[], "A1").is_empty());
}
