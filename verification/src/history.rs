use vstd::prelude::*;
use crate::text::{chars_of, push_str};

verus! {

/// One recorded system change.
#[derive(Debug, Clone, PartialEq, Eq)]
pub struct HistoryEvent {
    pub timestamp: u64,
    pub operation: String,
    pub target: String,
    pub from_version: Option<String>,
    pub to_version: Option<String>,
    pub result: String,
    pub reboot_required: bool,
}

/// The event as it is recorded at time `now`: an event without a timestamp
/// (timestamp 0) takes `now`; every other field is kept.
pub open spec fn stamped(event: HistoryEvent, now: u64) -> HistoryEvent {
    HistoryEvent {
        timestamp: if event.timestamp == 0 {
            now
        } else {
            event.timestamp
        },
        ..event
    }
}

/// The event as it is recorded at time `now` (seconds since the Unix epoch).
pub fn stamp(event: HistoryEvent, now: u64) -> (r: HistoryEvent)
    ensures
        r == stamped(event, now),
{
    let mut event = event;
    if event.timestamp == 0 {
        event.timestamp = now;
    }
    event
}

/// The history after recording `event` at time `now`: the earlier events,
/// unchanged and in order, followed by the stamped event.
pub fn append(events: Vec<HistoryEvent>, event: HistoryEvent, now: u64) -> (r: Vec<HistoryEvent>)
    ensures
        r@ == events@.push(stamped(event, now)),
{
    let mut events = events;
    events.push(stamp(event, now));
    events
}

/// `Path::join` of a relative path: a `/` goes between the two unless the
/// base is empty or already ends with one.
pub open spec fn join_path(base: Seq<char>, rel: Seq<char>) -> Seq<char> {
    if base.len() > 0 && base.last() != '/' {
        base + "/"@ + rel
    } else {
        base + rel
    }
}

/// The history file: `linux-driver-booster/history.json` under
/// `$XDG_STATE_HOME`, or when that is unset under `$HOME/.local/state`
/// (an unset `HOME` reads as empty).
pub open spec fn history_file(state_home: Option<Seq<char>>, home: Option<Seq<char>>) -> Seq<char> {
    let base = match state_home {
        Some(s) => s,
        None => join_path(
            match home {
                Some(h) => h,
                None => Seq::empty(),
            },
            ".local/state"@,
        ),
    };
    join_path(base, "linux-driver-booster/history.json"@)
}

fn join(base: String, rel: &str) -> (r: String)
    ensures
        r@ == join_path(base@, rel@),
{
    let chars = chars_of(base.as_str());
    let mut r = base;
    if chars.len() > 0 && chars[chars.len() - 1] != '/' {
        push_str(&mut r, "/");
    }
    push_str(&mut r, rel);
    r
}

/// Where the history is kept, given the values of `XDG_STATE_HOME` and `HOME`.
pub fn history_path(state_home: Option<String>, home: Option<String>) -> (r: String)
    ensures
        r@ == history_file(
            match state_home {
                Some(s) => Some(s@),
                None => None,
            },
            match home {
                Some(h) => Some(h@),
                None => None,
            },
        ),
{
    let base = match state_home {
        Some(s) => s,
        None => {
            let h = match home {
                Some(h) => h,
                None => String::new(),
            };
            join(h, ".local/state")
        },
    };
    join(base, "linux-driver-booster/history.json")
}

/// Recording keeps what was recorded before: the earlier events stay as they
/// were, in order, and the history grows by exactly one event.
pub proof fn append_keeps_earlier_events(events: Seq<HistoryEvent>, event: HistoryEvent, now: u64)
    ensures
        events.push(stamped(event, now)).len() == events.len() + 1,
        events.push(stamped(event, now)).take(events.len() as int) == events,
        events.push(stamped(event, now)).last() == stamped(event, now),
{
    assert(events.push(stamped(event, now)).take(events.len() as int) =~= events);
}

/// A recorded event keeps everything but a missing timestamp, which becomes
/// the time of recording, and recording
/// an event that already has a timestamp again changes nothing.
pub proof fn stamping_keeps_the_event(event: HistoryEvent, now: u64, later: u64)
    ensures
        stamped(event, now).operation == event.operation,
        stamped(event, now).target == event.target,
        stamped(event, now).from_version == event.from_version,
        stamped(event, now).to_version == event.to_version,
        stamped(event, now).result == event.result,
        stamped(event, now).reboot_required == event.reboot_required,
        event.timestamp != 0 ==> stamped(event, now) == event,
        event.timestamp == 0 ==> stamped(event, now).timestamp == now,
        now != 0 ==> stamped(stamped(event, now), later) == stamped(event, now),
{
}


/// The history file is `linux-driver-booster/history.json` under
/// `$XDG_STATE_HOME` when that is set, whatever `HOME` is, and otherwise under
/// `$HOME/.local/state`.
pub proof fn history_lives_under_the_state_home(state: Seq<char>, home: Seq<char>, other: Option<
    Seq<char>,
>)
    requires
        state.len() > 0,
        state.last() != '/',
        home.len() > 0,
        home.last() != '/',
    ensures
        history_file(Some(state), other) == state + "/linux-driver-booster/history.json"@,
        history_file(None, Some(home)) == home + "/.local/state/linux-driver-booster/history.json"@,
{
    reveal_strlit("/");
    reveal_strlit(".local/state");
    reveal_strlit("linux-driver-booster/history.json");
    reveal_strlit("/linux-driver-booster/history.json");
    reveal_strlit("/.local/state/linux-driver-booster/history.json");
    let base = home + "/"@ + ".local/state"@;
    assert(base.last() == 'e');
    assert(state + "/"@ + "linux-driver-booster/history.json"@
        =~= state + "/linux-driver-booster/history.json"@);
    assert(base + "/"@ + "linux-driver-booster/history.json"@
        =~= home + "/.local/state/linux-driver-booster/history.json"@);
}

} // verus!
