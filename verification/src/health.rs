//! The per-user logbook: the last exit code and the shift statistics of
//! the last completed run.  It is persisted per user and read back by the
//! status queries; a change of exit code against the logbook is what
//! triggers the calendar patch and the heartbeat refresh.

use vstd::prelude::*;
use crate::errors::FailureType;

verus! {

/// Whether a calendar line carries the field: it begins with its prefix.
pub open spec fn spec_line_has_field(line: Seq<char>, prefix: Seq<char>) -> bool {
    line.len() >= prefix.len() && line.subrange(0, prefix.len() as int) == prefix
}

/// Relies on str::starts_with with a string pattern: true exactly when
/// the string's characters begin with the pattern's.
#[verifier::external_body]
fn starts_with_prefix(s: &str, prefix: &str) -> (r: bool)
    ensures
        r == spec_line_has_field(s@, prefix@),
{
    s.starts_with(prefix)
}

/// Patch the published calendar's exit-code field in place: the first
/// line that begins with the field's prefix is rewritten to carry the new
/// status, every other line stays as it is.  Failure runs patch only this
/// field, so subscribers see the outage without the shifts moving.
pub fn update_calendar_exit_code(
    lines: &mut Vec<String>,
    field_prefix: &str,
    new_value: &str,
) -> (patched: bool)
    ensures
        final(lines)@.len() == old(lines)@.len(),
        forall|j: int|
            0 <= j < old(lines)@.len() && !spec_line_has_field(
                (#[trigger] old(lines)@[j])@,
                field_prefix@,
            ) ==> final(lines)@[j] == old(lines)@[j],
        forall|j: int|
            0 <= j < old(lines)@.len() && spec_line_has_field(
                (#[trigger] old(lines)@[j])@,
                field_prefix@,
            ) && (exists|k: int|
                0 <= k < j && spec_line_has_field((#[trigger] old(lines)@[k])@, field_prefix@))
                ==> final(lines)@[j] == old(lines)@[j],
        forall|j: int|
            0 <= j < old(lines)@.len() && spec_line_has_field(
                (#[trigger] old(lines)@[j])@,
                field_prefix@,
            ) && (forall|k: int|
                0 <= k < j ==> !spec_line_has_field((#[trigger] old(lines)@[k])@, field_prefix@))
                ==> (final(lines)@[j])@ == field_prefix@ + new_value@,
        patched == exists|j: int|
            0 <= j < old(lines)@.len() && spec_line_has_field(
                (#[trigger] old(lines)@[j])@,
                field_prefix@,
            ),
{
    let mut i: usize = 0;
    while i < lines.len()
        invariant
            i <= lines@.len(),
            lines@ == old(lines)@,
            forall|k: int|
                0 <= k < i ==> !spec_line_has_field((#[trigger] lines@[k])@, field_prefix@),
        decreases lines@.len() - i,
    {
        if starts_with_prefix(lines[i].as_str(), field_prefix) {
            let ghost before = lines@;
            let replacement = String::from_str(field_prefix).concat(new_value);
            let _old_line = lines.remove(i);
            lines.insert(i, replacement);
            proof {
                assert(lines@ =~= before.update(i as int, lines@[i as int]));
            }
            return true;
        }
        i = i + 1;
    }
    false
}

/// The persisted summary of a user's last run.
#[derive(Clone, Debug, PartialEq)]
pub struct ApplicationLogbook {
    /// How the last run ended.
    pub state: FailureType,
    /// Shifts on the published calendar that lie ahead or changed.
    pub relevant_shifts: u32,
    /// Shifts kept only for history.
    pub non_relevant_shifts: u32,
}

impl ApplicationLogbook {
    /// An equal copy.
    pub fn dup(&self) -> (r: ApplicationLogbook)
        ensures
            r == *self,
    {
        ApplicationLogbook {
            state: self.state.dup(),
            relevant_shifts: self.relevant_shifts,
            non_relevant_shifts: self.non_relevant_shifts,
        }
    }

    /// The logbook of a user that has not run yet.
    pub fn new() -> (r: ApplicationLogbook)
        ensures
            r.state == FailureType::OK,
            r.relevant_shifts == 0,
            r.non_relevant_shifts == 0,
    {
        ApplicationLogbook { state: FailureType::OK, relevant_shifts: 0, non_relevant_shifts: 0 }
    }

    /// Record the statistics of a completed run.
    pub fn generate_shift_statistics(&mut self, relevant: u32, non_relevant: u32)
        ensures
            final(self).state == old(self).state,
            final(self).relevant_shifts == relevant,
            final(self).non_relevant_shifts == non_relevant,
    {
        self.relevant_shifts = relevant;
        self.non_relevant_shifts = non_relevant;
    }

    /// Record how a run ended.
    pub fn save_state(&mut self, state: FailureType)
        ensures
            final(self).state == state,
            final(self).relevant_shifts == old(self).relevant_shifts,
            final(self).non_relevant_shifts == old(self).non_relevant_shifts,
    {
        self.state = state;
    }
}

} // verus!
