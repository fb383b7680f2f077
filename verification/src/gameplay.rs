//! Doors: which triggers open them and how they move.
use vstd::prelude::*;

verus! {

/// What a door does in a frame.
#[derive(Clone, Copy, PartialEq, Eq, Structural, Debug)]
pub enum DoorMotion {
    /// Moves towards its open position.
    Open,
    /// Forgets its trigger and moves back towards its closed position.
    Close,
    /// Stays where it is.
    Hold,
}

/// Whether a trigger opens a door that needs `door_key`, where the entity
/// that triggered it holds the keys given: a door without a key always
/// opens; a door that needs an unknown key never does.
pub fn trigger_opens_door(door_key: Option<&str>, has_red: bool, has_blue: bool, has_yellow: bool) -> (r: bool)
    ensures
        r == match door_key {
            None => true,
            Some(k) => if k@ == "red"@ {
                has_red
            } else if k@ == "blue"@ {
                has_blue
            } else if k@ == "yellow"@ {
                has_yellow
            } else {
                false
            },
        },
{
    match door_key {
        None => true,
        Some(k) => {
            let key = k.to_owned();
            if key == String::from_str("red") {
                has_red
            } else if key == String::from_str("blue") {
                has_blue
            } else if key == String::from_str("yellow") {
                has_yellow
            } else {
                false
            }
        },
    }
}

/// How a door moves, given the milliseconds since it was triggered: a door
/// that opens once stays open once triggered; another stays open while its
/// open time runs and then holds; an untriggered door closes.
pub fn door_motion(open_once: bool, since_triggered_millis: Option<u64>, open_time_millis: u64) -> (r: DoorMotion)
    ensures
        r == match since_triggered_millis {
            Some(t) => if open_once || t < open_time_millis {
                DoorMotion::Open
            } else {
                DoorMotion::Hold
            },
            None => DoorMotion::Close,
        },
{
    let triggered = match since_triggered_millis {
        Some(t) => open_once || t < open_time_millis,
        None => false,
    };
    if triggered {
        DoorMotion::Open
    } else if !open_once && since_triggered_millis.is_some() {
        DoorMotion::Hold
    } else {
        DoorMotion::Close
    }
}

} // verus!
