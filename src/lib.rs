//! A rule-driven conversational responder: user input is normalized, matched
//! against an ordered collection of rules by pattern containment, and answered
//! with a templated reply bound to the user's session.

pub mod text;
pub mod rules;
pub mod session;
pub mod render;
pub mod turn;
