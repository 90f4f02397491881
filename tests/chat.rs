use rule_chat::render::{generate_response, render, ClockTime};
use rule_chat::rules::{list_intents, match_rule, reload_rules, ChatError, Rule};
use rule_chat::session::Session;
use rule_chat::text::clean_input;
use rule_chat::turn::{process_turn, FALLBACK_REPLY};

fn rule(intent: &str, patterns: &[&str], responses: &[&str]) -> Rule {
    Rule {
        intent: intent.to_string(),
        patterns: patterns.iter().map(|p| p.to_string()).collect(),
        responses: responses.iter().map(|r| r.to_string()).collect(),
    }
}

fn at(hour: u8, minute: u8) -> ClockTime {
    ClockTime::new(hour, minute).unwrap()
}

#[test]
fn test_clean_input() {
    let input = "  Hello World!  ";
    let expected = "hello world!".to_string();
    assert_eq!(clean_input(input), expected);
}

#[test]
fn test_match_rule_found() {
    let rules = vec![
        Rule {
            intent: "greet".to_string(),
            patterns: vec!["hello".to_string(), "hi".to_string()],
            responses: vec!["Hello, {name}! How can I assist you today?".to_string()],
        },
        Rule {
            intent: "farewell".to_string(),
            patterns: vec!["bye".to_string(), "goodbye".to_string()],
            responses: vec!["Goodbye, {name}! Have a great day!".to_string()],
        },
    ];

    let input = "hi there";
    let matched_rule = match_rule(&clean_input(input), &rules);
    assert!(matched_rule.is_some());
    assert_eq!(matched_rule.unwrap().intent, "greet");
}

#[test]
fn test_match_rule_not_found() {
    let rules = vec![Rule {
        intent: "greet".to_string(),
        patterns: vec!["hello".to_string(), "hi".to_string()],
        responses: vec!["Hello, {name}! How can I assist you today?".to_string()],
    }];

    let input = "unknown command";
    let matched_rule = match_rule(&clean_input(input), &rules);
    assert!(matched_rule.is_none());
}

#[test]
fn test_generate_response() {
    let rule = Rule {
        intent: "greet".to_string(),
        patterns: vec!["hello".to_string()],
        responses: vec!["Hello, {name}! It's {time}.".to_string()],
    };
    let session = Session {
        user_id: "user123".to_string(),
        user_name: "Alice".to_string(),
        last_intent: Some("greet".to_string()),
        conversation_history: vec![],
    };
    let response = generate_response(&rule, &session).unwrap();
    assert!(response.contains("Alice"));
    assert!(response.contains("It's"));
    // "Hello, Alice! It's HH:MM AM." with a 12-hour clock.
    let time: Vec<char> = response["Hello, Alice! It's ".len()..].chars().collect();
    assert_eq!(time.len(), 9);
    assert!(time[0].is_ascii_digit() && time[1].is_ascii_digit());
    assert_eq!(time[2], ':');
    assert!(time[3].is_ascii_digit() && time[4].is_ascii_digit());
    assert_eq!(time[5], ' ');
    assert!(time[6] == 'A' || time[6] == 'P');
    assert_eq!(time[7], 'M');
    assert_eq!(time[8], '.');
}

#[test]
fn normalization_is_idempotent_and_ignores_case() {
    let once = clean_input("  \tHeLLo There \n");
    assert_eq!(once, "hello there");
    assert_eq!(clean_input(&once), once);
    assert_eq!(clean_input("HELLO THERE"), clean_input("hello there"));
    assert_eq!(clean_input("   "), "");
    assert_eq!(clean_input(""), "");
}

#[test]
fn normalization_trims_unicode_white_space() {
    assert_eq!(clean_input("\u{3000}Grüße\u{00A0}"), "grüße");
}

#[test]
fn substring_match_has_no_word_boundaries() {
    let rules = vec![rule("greet", &["hi"], &["Hello!"])];
    let matched = match_rule(&clean_input("This is great"), &rules);
    assert_eq!(matched.unwrap().intent, "greet");
}

#[test]
fn patterns_are_lowercased_before_matching() {
    let rules = vec![rule("greet", &["HeLLo"], &["Hello!"])];
    let matched = match_rule(&clean_input("HELLO friend"), &rules);
    assert_eq!(matched.unwrap().intent, "greet");
}

#[test]
fn first_matching_rule_wins() {
    let rules = vec![
        rule("short", &["nothing", "hi"], &["a"]),
        rule("exact", &["hi there"], &["b"]),
    ];
    let matched = match_rule(&clean_input("hi there"), &rules);
    assert_eq!(matched.unwrap().intent, "short");
}

#[test]
fn rule_without_patterns_never_matches() {
    let rules = vec![rule("empty", &[], &["a"]), rule("any", &[""], &["b"])];
    let matched = match_rule(&clean_input("whatever"), &rules);
    assert_eq!(matched.unwrap().intent, "any");
}

#[test]
fn empty_collection_gives_fallback() {
    let rules: Vec<Rule> = vec![];
    let mut session = Session::new("user123", "Alice");
    for input in ["hello", "", "   ", "bye"] {
        let reply = process_turn(input, &mut session, &rules, at(9, 30));
        assert_eq!(reply, FALLBACK_REPLY);
    }
    assert!(session.last_intent.is_none());
}

#[test]
fn fallback_text_is_fixed() {
    assert_eq!(
        FALLBACK_REPLY,
        "I'm sorry, I didn't understand that. Could you please rephrase?"
    );
}

#[test]
fn render_substitutes_name_and_time() {
    let r = rule("greet", &["hello"], &["Hello, {name}! It's {time}."]);
    let session = Session::new("user123", "Alice");
    assert_eq!(
        render(&r, &session, at(15, 7)).unwrap(),
        "Hello, Alice! It's 03:07 PM."
    );
}

#[test]
fn render_clock_edges() {
    let r = rule("t", &["t"], &["{time}"]);
    let session = Session::new("u", "U");
    assert_eq!(render(&r, &session, at(0, 5)).unwrap(), "12:05 AM");
    assert_eq!(render(&r, &session, at(12, 0)).unwrap(), "12:00 PM");
    assert_eq!(render(&r, &session, at(11, 59)).unwrap(), "11:59 AM");
    assert_eq!(render(&r, &session, at(23, 59)).unwrap(), "11:59 PM");
}

#[test]
fn render_uses_first_template_and_keeps_unknown_placeholders() {
    let r = rule("greet", &["hello"], &["Hi {name}, {mood} {name}", "second"]);
    let session = Session::new("u", "Bob");
    assert_eq!(
        render(&r, &session, at(8, 0)).unwrap(),
        "Hi Bob, {mood} Bob"
    );
}

#[test]
fn render_name_is_not_rescanned() {
    let r = rule("greet", &["hello"], &["{name}"]);
    let session = Session::new("u", "{time}");
    assert_eq!(render(&r, &session, at(8, 0)).unwrap(), "08:00 AM");
    let session = Session::new("u", "{name}");
    assert_eq!(render(&r, &session, at(8, 0)).unwrap(), "{name}");
}

#[test]
fn render_without_templates_is_an_error() {
    let r = rule("mute", &["hello"], &[]);
    let session = Session::new("u", "Bob");
    assert_eq!(render(&r, &session, at(8, 0)), Err(ChatError::EmptyTemplate));
    assert_eq!(generate_response(&r, &session), Err(ChatError::EmptyTemplate));
}

#[test]
fn turn_records_intent_and_renders() {
    let rules = vec![
        rule("greet", &["hello", "hi"], &["Hello, {name}!"]),
        rule("farewell", &["bye"], &["Goodbye, {name}!"]),
    ];
    let mut session = Session::new("user123", "Alice");
    let reply = process_turn("  BYE now ", &mut session, &rules, at(10, 0));
    assert_eq!(reply, "Goodbye, Alice!");
    assert_eq!(session.last_intent.as_deref(), Some("farewell"));
    let reply = process_turn("what?", &mut session, &rules, at(10, 0));
    assert_eq!(reply, FALLBACK_REPLY);
    assert_eq!(session.last_intent.as_deref(), Some("farewell"));
    assert!(session.conversation_history.is_empty());
}

#[test]
fn turn_with_empty_template_falls_back() {
    let rules = vec![rule("mute", &["hello"], &[])];
    let mut session = Session::new("user123", "Alice");
    let reply = process_turn("hello", &mut session, &rules, at(10, 0));
    assert_eq!(reply, FALLBACK_REPLY);
    assert_eq!(session.last_intent.as_deref(), Some("mute"));
}

#[test]
fn failed_reload_keeps_rules() {
    let mut rules = vec![rule("greet", &["hello"], &["Hi"])];
    let before = rules.clone();
    let r = reload_rules(&mut rules, Err(ChatError::MalformedRules("missing field".to_string())));
    assert_eq!(r, Err(ChatError::MalformedRules("missing field".to_string())));
    assert_eq!(rules, before);
    assert_eq!(match_rule("hello", &rules).unwrap().intent, "greet");

    let r = reload_rules(&mut rules, Err(ChatError::SourceUnavailable("no file".to_string())));
    assert_eq!(r, Err(ChatError::SourceUnavailable("no file".to_string())));
    assert_eq!(rules, before);
}

#[test]
fn successful_reload_replaces_rules() {
    let mut rules = vec![rule("greet", &["hello"], &["Hi"])];
    let r = reload_rules(&mut rules, Ok(vec![rule("bye", &["bye"], &["Bye"])]));
    assert_eq!(r, Ok(()));
    assert!(match_rule("hello", &rules).is_none());
    assert_eq!(match_rule("bye", &rules).unwrap().intent, "bye");
}

#[test]
fn intents_are_listed_in_order() {
    let rules = vec![
        rule("greet", &["hello"], &["Hi"]),
        rule("greet", &["hey"], &["Hey"]),
        rule("farewell", &["bye"], &["Bye"]),
    ];
    assert_eq!(list_intents(&rules), vec!["greet", "greet", "farewell"]);
    assert!(list_intents(&[]).is_empty());
}

#[test]
fn new_session_is_blank() {
    let s = Session::new("user123", "Alice");
    assert_eq!(s.user_id, "user123");
    assert_eq!(s.user_name, "Alice");
    assert!(s.last_intent.is_none());
    assert!(s.conversation_history.is_empty());
}

#[test]
fn clock_time_rejects_off_face_values() {
    assert!(ClockTime::new(24, 0).is_none());
    assert!(ClockTime::new(0, 60).is_none());
    assert_eq!(ClockTime::new(23, 59), Some(ClockTime { hour: 23, minute: 59 }));
}
