//! One conversational turn: normalize, match, record, render.

use vstd::prelude::*;
use crate::render::{render, rule_reply, ClockTime};
use crate::rules::{match_rule, select, Rule};
use crate::session::Session;
use crate::text::{clean_input, normalize};

verus! {

/// The reply when no rule matches or the matched rule cannot be rendered.
pub const FALLBACK_REPLY: &'static str = "I'm sorry, I didn't understand that. Could you please rephrase?";

/// The reply to a turn whose selected rule is `selected`.
pub open spec fn turn_reply(selected: Option<Rule>, session: Session, now: ClockTime) -> Seq<char> {
    match selected {
        Some(rule) => if rule.responses@.len() > 0 {
            rule_reply(rule, session, now)
        } else {
            FALLBACK_REPLY@
        },
        None => FALLBACK_REPLY@,
    }
}

/// Answers `raw_input`: the input is normalized and matched against `rules`;
/// on a match the rule's intent is recorded in `session` and its first
/// template rendered, and otherwise, or when the rule has no template, the
/// fallback reply is given.
pub fn process_turn(raw_input: &str, session: &mut Session, rules: &[Rule], now: ClockTime) -> (r:
    String)
    requires
        now.wf(),
    ensures
        r@ == turn_reply(select(normalize(raw_input@), rules@), *old(session), now),
        final(session).user_id == old(session).user_id,
        final(session).user_name == old(session).user_name,
        final(session).conversation_history == old(session).conversation_history,
        match select(normalize(raw_input@), rules@) {
            Some(rule) => final(session).last_intent == Some(rule.intent),
            None => final(session).last_intent == old(session).last_intent,
        },
{
    let cleaned = clean_input(raw_input);
    match match_rule(cleaned.as_str(), rules) {
        Some(rule) => {
            session.record_intent(rule.intent.clone());
            match render(rule, session, now) {
                Ok(reply) => reply,
                Err(_) => FALLBACK_REPLY.to_string(),
            }
        },
        None => FALLBACK_REPLY.to_string(),
    }
}

/// With no rules, every input gets the fallback reply.
pub proof fn lemma_empty_rules_fall_back(input: Seq<char>, session: Session, now: ClockTime)
    ensures
        turn_reply(select(normalize(input), Seq::<Rule>::empty()), session, now)
            == FALLBACK_REPLY@,
{
}

} // verus!
