//! The work-shift record harvested from the portal.
//!
//! Dates are carried as day numbers and times as minutes so that the diff
//! and calendar logic can reason about them directly; the scraping layer
//! converts from its own calendar types when it hands records in.

use vstd::prelude::*;

verus! {

/// How a shift relates to the previously known set.  Freshly loaded
/// records start as `Deleted`: the diff marks every record it can account
/// for, so whatever keeps that state has vanished from the portal.
#[derive(Clone, Copy, Debug, PartialEq, Eq, Structural)]
pub enum ShiftState {
    New,
    Changed,
    Unchanged,
    Deleted,
}

/// One work shift.  `magic_number` is a stable fingerprint of the shift's
/// content, used as its identity in diffs; `date` is the day it starts on,
/// as a day number; the times are minutes.
#[derive(Clone, Debug, PartialEq)]
pub struct Shift {
    pub number: String,
    pub date: i64,
    pub start_minute: u16,
    pub end_minute: u16,
    pub duration_minutes: u32,
    pub magic_number: i64,
    pub state: ShiftState,
}

impl Shift {
    /// An equal copy.
    pub fn dup(&self) -> (r: Shift)
        ensures
            r == *self,
    {
        Shift {
            number: self.number.clone(),
            date: self.date,
            start_minute: self.start_minute,
            end_minute: self.end_minute,
            duration_minutes: self.duration_minutes,
            magic_number: self.magic_number,
            state: self.state,
        }
    }

    /// Copy the record with another state.
    pub fn with_state(&self, state: ShiftState) -> (r: Shift)
        ensures
            r == (Shift { state: state, ..*self }),
    {
        Shift {
            number: self.number.clone(),
            date: self.date,
            start_minute: self.start_minute,
            end_minute: self.end_minute,
            duration_minutes: self.duration_minutes,
            magic_number: self.magic_number,
            state,
        }
    }
}

} // verus!
