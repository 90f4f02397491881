//! Response rendering: placeholder substitution of `{name}` and `{time}`.

use vstd::prelude::*;
use chrono::Timelike;
use crate::rules::{ChatError, Rule};
use crate::session::Session;
use crate::text::{replace_spec, replace_text};

verus! {

/// A time of day to the minute, on a 24-hour clock.
#[derive(Clone, Copy, Debug, PartialEq, Eq)]
pub struct ClockTime {
    pub hour: u8,
    pub minute: u8,
}

impl ClockTime {
    /// Hour and minute lie on the clock face.
    pub open spec fn wf(self) -> bool {
        self.hour < 24 && self.minute < 60
    }

    /// The time `hour:minute`, if both lie on the clock face.
    pub fn new(hour: u8, minute: u8) -> (r: Option<ClockTime>)
        ensures
            r is Some <==> (hour < 24 && minute < 60),
            r is Some ==> r->Some_0.hour == hour && r->Some_0.minute == minute,
            r is Some ==> r->Some_0.wf(),
    {
        if hour < 24 && minute < 60 {
            Some(ClockTime { hour, minute })
        } else {
            None
        }
    }
}

/// The decimal digit `d`.
pub open spec fn digit(d: nat) -> char {
    seq!['0', '1', '2', '3', '4', '5', '6', '7', '8', '9'][d as int]
}

/// `n` (below 100) as two decimal digits, zero-padded.
pub open spec fn two_digits(n: nat) -> Seq<char> {
    seq![digit(n / 10), digit(n % 10)]
}

/// The hour on a 12-hour clock face: 12, 1, ..., 11.
pub open spec fn hour_12(hour: nat) -> nat {
    if hour % 12 == 0 {
        12
    } else {
        hour % 12
    }
}

/// `t` as `HH:MM AM` or `HH:MM PM` on a 12-hour clock.
pub open spec fn clock_spec(t: ClockTime) -> Seq<char> {
    two_digits(hour_12(t.hour as nat)) + seq![':'] + two_digits(t.minute as nat) + seq![' ']
        + if t.hour < 12 {
        seq!['A', 'M']
    } else {
        seq!['P', 'M']
    }
}

/// The placeholder for the user's name.
pub open spec fn name_tag() -> Seq<char> {
    seq!['{', 'n', 'a', 'm', 'e', '}']
}

/// The placeholder for the time of day.
pub open spec fn time_tag() -> Seq<char> {
    seq!['{', 't', 'i', 'm', 'e', '}']
}

/// `template` with `{name}` replaced by `name`, then `{time}` by the time `now`.
pub open spec fn rendered(template: Seq<char>, name: Seq<char>, now: ClockTime) -> Seq<char> {
    replace_spec(replace_spec(template, name_tag(), name), time_tag(), clock_spec(now))
}

/// The reply a rule gives: its first template rendered for the session's user.
pub open spec fn rule_reply(rule: Rule, session: Session, now: ClockTime) -> Seq<char> {
    rendered(rule.responses@[0]@, session.user_name@, now)
}

/// Relies on chrono's `NaiveTime::from_hms_opt`, which accepts any hour below
/// 24 and minute below 60, and its `%I:%M %p` format: the hour on a 12-hour
/// clock (01 to 12) and the minute, each zero-padded to two digits, then `AM`
/// or `PM`.
#[verifier::external_body]
fn clock_text(t: ClockTime) -> (r: String)
    requires
        t.wf(),
    ensures
        r@ == clock_spec(t),
{
    let time = chrono::NaiveTime::from_hms_opt(t.hour as u32, t.minute as u32, 0).unwrap();
    time.format("%I:%M %p").to_string()
}

/// Relies on chrono's `Local::now` with `Timelike::hour` (0 to 23) and
/// `Timelike::minute` (0 to 59): the local time of day when called.
#[verifier::external_body]
fn local_clock() -> (r: ClockTime)
    ensures
        r.wf(),
{
    let now = chrono::Local::now();
    ClockTime { hour: now.hour() as u8, minute: now.minute() as u8 }
}

/// Renders the first response template of `rule`: `{name}` becomes the
/// session's user name, then `{time}` becomes `now` as `HH:MM AM/PM`; other
/// placeholders stay as written. A rule without templates is an error.
pub fn render(rule: &Rule, session: &Session, now: ClockTime) -> (r: Result<String, ChatError>)
    requires
        now.wf(),
    ensures
        match r {
            Ok(s) => rule.responses@.len() > 0 && s@ == rule_reply(*rule, *session, now),
            Err(e) => rule.responses@.len() == 0 && e == ChatError::EmptyTemplate,
        },
{
    if rule.responses.len() == 0 {
        return Err(ChatError::EmptyTemplate);
    }
    let name_placeholder = "{name}";
    let time_placeholder = "{time}";
    proof {
        reveal_strlit("{name}");
        reveal_strlit("{time}");
        assert(name_placeholder@ =~= name_tag());
        assert(time_placeholder@ =~= time_tag());
    }
    let with_name = replace_text(
        rule.responses[0].as_str(),
        name_placeholder,
        session.user_name.as_str(),
    );
    let time = clock_text(now);
    let out = replace_text(with_name.as_str(), time_placeholder, time.as_str());
    Ok(out)
}

/// Renders the first response template of `rule` at the current local time.
pub fn generate_response(rule: &Rule, session: &Session) -> (r: Result<String, ChatError>)
    ensures
        match r {
            Ok(s) => rule.responses@.len() > 0 && exists|t: ClockTime|
                t.wf() && s@ == #[trigger] rule_reply(*rule, *session, t),
            Err(e) => rule.responses@.len() == 0 && e == ChatError::EmptyTemplate,
        },
{
    let now = local_clock();
    render(rule, session, now)
}

} // verus!
