//! Presence classification: a device is online exactly when its last
//! heartbeat is recent enough.

use vstd::prelude::*;
use crate::json::CarState;

verus! {

/// Seconds a device stays online after its last heartbeat.
pub const PRESENCE_WINDOW_SECONDS: i64 = 120;

/// A device with no recorded heartbeat is offline. Otherwise it is online
/// exactly when its age, `now - last_seen`, is at most `window`; the
/// boundary is inclusive, so an age of exactly `window` still counts as
/// online.
pub open spec fn classify_spec(last_seen: Option<i64>, now: int, window: int) -> CarState {
    match last_seen {
        Option::None => CarState::Offline,
        Option::Some(t) => if now - t <= window {
            CarState::Online
        } else {
            CarState::Offline
        },
    }
}

/// Pure presence classification; no state, no clock of its own.
pub fn classify(last_seen: Option<i64>, now: i64, window: i64) -> (r: CarState)
    ensures
        r == classify_spec(last_seen, now as int, window as int),
{
    match last_seen {
        None => CarState::Offline,
        Some(t) => {
            match now.checked_sub(t) {
                Some(age) => if age <= window {
                    CarState::Online
                } else {
                    CarState::Offline
                },
                None => if now < t {
                    CarState::Online
                } else {
                    CarState::Offline
                },
            }
        },
    }
}

/// The classification cases, stated for every clock value and window: no
/// heartbeat means offline; an age within the window (inclusive) means
/// online; anything older means offline.
pub proof fn lemma_classify_cases(t: i64, now: int, window: int)
    ensures
        classify_spec(None, now, window) == CarState::Offline,
        now - t <= window ==> classify_spec(Some(t), now, window) == CarState::Online,
        now - t > window ==> classify_spec(Some(t), now, window) == CarState::Offline,
{
}

} // verus!
