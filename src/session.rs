//! Per-user conversational context.

use vstd::prelude::*;

verus! {

/// The context of one conversation: who the user is, the intent matched last,
/// and a history log kept for later use (no operation appends to it yet).
#[derive(Clone, Debug, PartialEq, Eq)]
pub struct Session {
    pub user_id: String,
    pub user_name: String,
    pub last_intent: Option<String>,
    pub conversation_history: Vec<String>,
}

impl Session {
    /// A fresh session for the given user: no intent matched, empty history.
    pub fn new(user_id: &str, user_name: &str) -> (r: Session)
        ensures
            r.user_id@ == user_id@,
            r.user_name@ == user_name@,
            r.last_intent is None,
            r.conversation_history@.len() == 0,
    {
        Session {
            user_id: user_id.to_string(),
            user_name: user_name.to_string(),
            last_intent: None,
            conversation_history: Vec::new(),
        }
    }

    /// Records `intent` as the intent matched last; nothing else changes.
    pub fn record_intent(&mut self, intent: String)
        ensures
            final(self).last_intent == Some(intent),
            final(self).user_id == old(self).user_id,
            final(self).user_name == old(self).user_name,
            final(self).conversation_history == old(self).conversation_history,
    {
        self.last_intent = Some(intent);
    }
}

} // verus!
