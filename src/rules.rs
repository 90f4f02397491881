//! Rules, the ordered rule collection, first-match selection and reload.

use vstd::prelude::*;
use crate::text::{contains_spec, lower_of, lowercase, contains_text};

verus! {

/// One intent with the patterns that trigger it and its response templates.
#[derive(Clone, Debug, PartialEq, Eq)]
pub struct Rule {
    pub intent: String,
    pub patterns: Vec<String>,
    pub responses: Vec<String>,
}

/// What can go wrong while loading rules or answering a turn.
#[derive(Clone, Debug, PartialEq, Eq)]
pub enum ChatError {
    /// The rule source could not be read.
    SourceUnavailable(String),
    /// The rule source could not be decoded into rules.
    MalformedRules(String),
    /// The matched rule has no response template.
    EmptyTemplate,
}

/// Pattern `p` triggers on normalized `input`: its lowercase form occurs in it.
pub open spec fn pattern_hits(input: Seq<char>, p: Seq<char>) -> bool {
    contains_spec(input, lower_of(p))
}

/// Some pattern of `rule` triggers on `input`.
pub open spec fn rule_hits(input: Seq<char>, rule: Rule) -> bool {
    exists|j: int| 0 <= j < rule.patterns@.len() && #[trigger] pattern_hits(input, rule.patterns@[j]@)
}

/// The rule selected for `input`: the first one in collection order that hits.
pub open spec fn select(input: Seq<char>, rules: Seq<Rule>) -> Option<Rule>
    decreases rules.len(),
{
    if rules.len() == 0 {
        None
    } else if rule_hits(input, rules[0]) {
        Some(rules[0])
    } else {
        select(input, rules.drop_first())
    }
}

/// Skipping a prefix of rules none of which hits leaves the selection unchanged.
proof fn lemma_select_skip(input: Seq<char>, rules: Seq<Rule>, i: int)
    requires
        0 <= i <= rules.len(),
        forall|k: int| 0 <= k < i ==> !#[trigger] rule_hits(input, rules[k]),
    ensures
        select(input, rules) == select(input, rules.subrange(i, rules.len() as int)),
    decreases i,
{
    if i > 0 {
        assert(!rule_hits(input, rules[0]));
        let rest = rules.drop_first();
        assert forall|k: int| 0 <= k < i - 1 implies !#[trigger] rule_hits(input, rest[k]) by {
            assert(rest[k] == rules[k + 1]);
        }
        lemma_select_skip(input, rest, i - 1);
        assert(rest.subrange(i - 1, rest.len() as int) =~= rules.subrange(i, rules.len() as int));
    } else {
        assert(rules.subrange(0, rules.len() as int) =~= rules);
    }
}

/// Whether some pattern of `rule` triggers on `user_input`; patterns are
/// examined in order and the scan stops at the first that hits.
fn rule_matches(user_input: &str, rule: &Rule) -> (r: bool)
    ensures
        r == rule_hits(user_input@, *rule),
{
    let n = rule.patterns.len();
    let mut j: usize = 0;
    while j < n
        invariant
            n == rule.patterns@.len(),
            j <= n,
            forall|k: int| 0 <= k < j ==> !#[trigger] pattern_hits(user_input@, rule.patterns@[k]@),
        decreases n - j,
    {
        let lowered = lowercase(rule.patterns[j].as_str());
        if contains_text(user_input, lowered.as_str()) {
            assert(pattern_hits(user_input@, rule.patterns@[j as int]@));
            return true;
        }
        j = j + 1;
    }
    false
}

/// Selects the first rule, in collection order, with a pattern whose lowercase
/// form occurs in the already-normalized `user_input`.
pub fn match_rule<'a>(user_input: &str, rules: &'a [Rule]) -> (r: Option<&'a Rule>)
    ensures
        match r {
            Some(rule) => select(user_input@, rules@) == Some(*rule),
            None => select(user_input@, rules@) == None::<Rule>,
        },
{
    let n = rules.len();
    let mut i: usize = 0;
    while i < n
        invariant
            n == rules@.len(),
            i <= n,
            forall|k: int| 0 <= k < i ==> !#[trigger] rule_hits(user_input@, rules@[k]),
        decreases n - i,
    {
        if rule_matches(user_input, &rules[i]) {
            proof {
                lemma_select_skip(user_input@, rules@, i as int);
                let rest = rules@.subrange(i as int, n as int);
                assert(rest[0] == rules@[i as int]);
            }
            return Some(&rules[i]);
        }
        i = i + 1;
    }
    proof {
        lemma_select_skip(user_input@, rules@, n as int);
    }
    None
}

/// The active collection after a reload whose load produced `loaded`: the
/// loaded collection on success, the previous one on failure.
pub open spec fn committed(before: Seq<Rule>, loaded: Result<Vec<Rule>, ChatError>) -> Seq<Rule> {
    match loaded {
        Ok(new_rules) => new_rules@,
        Err(_) => before,
    }
}

/// Commits the outcome of loading a rule source: on success `rules` becomes the
/// loaded collection; on failure it is left exactly as it was and the error is
/// handed back.
pub fn reload_rules(rules: &mut Vec<Rule>, loaded: Result<Vec<Rule>, ChatError>) -> (r: Result<
    (),
    ChatError,
>)
    ensures
        final(rules)@ == committed(old(rules)@, loaded),
        match loaded {
            Ok(_) => r is Ok,
            Err(e) => r == Err::<(), ChatError>(e),
        },
{
    match loaded {
        Ok(new_rules) => {
            *rules = new_rules;
            Ok(())
        },
        Err(e) => Err(e),
    }
}

/// The intents of `rules`, in collection order.
pub fn list_intents(rules: &[Rule]) -> (r: Vec<String>)
    ensures
        r@.len() == rules@.len(),
        forall|i: int| 0 <= i < rules@.len() ==> #[trigger] r@[i]@ == rules@[i].intent@,
{
    let mut out: Vec<String> = Vec::new();
    let mut i: usize = 0;
    while i < rules.len()
        invariant
            i <= rules@.len(),
            out@.len() == i,
            forall|k: int| 0 <= k < i ==> #[trigger] out@[k]@ == rules@[k].intent@,
        decreases rules@.len() - i,
    {
        out.push(rules[i].intent.clone());
        i = i + 1;
    }
    out
}

/// A selected rule is one of the collection's rules and has a pattern whose
/// lowercase form occurs in the input.
pub proof fn lemma_selected_rule_hits(input: Seq<char>, rules: Seq<Rule>)
    ensures
        match select(input, rules) {
            Some(rule) => {
                &&& rules.contains(rule)
                &&& exists|j: int|
                    0 <= j < rule.patterns@.len() && contains_spec(
                        input,
                        lower_of(#[trigger] rule.patterns@[j]@),
                    )
            },
            None => forall|i: int| 0 <= i < rules.len() ==> !#[trigger] rule_hits(input, rules[i]),
        },
    decreases rules.len(),
{
    if rules.len() > 0 {
        let rest = rules.drop_first();
        lemma_selected_rule_hits(input, rest);
        if rule_hits(input, rules[0]) {
            let rule = rules[0];
            let j = choose|j: int| 0 <= j < rule.patterns@.len() && #[trigger] pattern_hits(input, rule.patterns@[j]@);
            assert(contains_spec(input, lower_of(rule.patterns@[j]@)));
        } else {
            match select(input, rest) {
                Some(rule) => {
                    let k = choose|k: int| 0 <= k < rest.len() && rest[k] == rule;
                    assert(rules[k + 1] == rule);
                },
                None => {
                    assert forall|i: int| 0 <= i < rules.len() implies !#[trigger] rule_hits(input, rules[i]) by {
                        if i > 0 {
                            assert(rules[i] == rest[i - 1]);
                        }
                    }
                },
            }
        }
    }
}

/// When the rule at `i` hits and no earlier rule does, that rule is selected,
/// whatever later rules would hit.
pub proof fn lemma_first_match_wins(input: Seq<char>, rules: Seq<Rule>, i: int)
    requires
        0 <= i < rules.len(),
        rule_hits(input, rules[i]),
        forall|k: int| 0 <= k < i ==> !#[trigger] rule_hits(input, rules[k]),
    ensures
        select(input, rules) == Some(rules[i]),
{
    lemma_select_skip(input, rules, i);
    assert(rules.subrange(i, rules.len() as int)[0] == rules[i]);
}

/// When rules at `i` and `j > i` both hit, the selected rule stands at or
/// before `i`: a later rule never wins over an earlier one.
pub proof fn lemma_earlier_hit_wins(input: Seq<char>, rules: Seq<Rule>, i: int, j: int)
    requires
        0 <= i < j < rules.len(),
        rule_hits(input, rules[i]),
        rule_hits(input, rules[j]),
    ensures
        exists|k: int| 0 <= k <= i && #[trigger] rules[k] == select(input, rules)->Some_0 && rule_hits(input, rules[k]),
        select(input, rules) is Some,
    decreases i,
{
    if rule_hits(input, rules[0]) {
        assert(rules[0] == select(input, rules)->Some_0);
    } else {
        let rest = rules.drop_first();
        assert(rest[i - 1] == rules[i]);
        assert(rest[j - 1] == rules[j]);
        lemma_earlier_hit_wins(input, rest, i - 1, j - 1);
        let k = choose|k: int| 0 <= k <= i - 1 && #[trigger] rest[k] == select(input, rest)->Some_0 && rule_hits(input, rest[k]);
        assert(rules[k + 1] == rest[k]);
    }
}

/// An empty collection selects nothing, whatever the input.
pub proof fn lemma_empty_selects_nothing(input: Seq<char>)
    ensures
        select(input, Seq::<Rule>::empty()) == None::<Rule>,
{
}

/// A reload that failed leaves the collection as it was, so every input
/// selects the same rule as before.
pub proof fn lemma_failed_reload_keeps_selection(
    input: Seq<char>,
    before: Seq<Rule>,
    loaded: Result<Vec<Rule>, ChatError>,
)
    requires
        loaded is Err,
    ensures
        committed(before, loaded) == before,
        select(input, committed(before, loaded)) == select(input, before),
{
}

} // verus!
