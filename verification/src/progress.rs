//! The status lines of a run and the rows after which one is due.

use vstd::prelude::*;
use vstd::string::*;
use crate::error::RunError;
use crate::text::{decimal_digits, unsigned_to_text};

verus! {

/// How often a run reports its progress.
#[derive(Clone, Copy, Debug, PartialEq, Eq)]
pub enum Pace {
    /// After every twentieth row.
    Brisk,
    /// After every fiftieth row.
    Steady,
}

impl Pace {
    /// The number of rows from one report to the next.
    pub open spec fn rows(self) -> nat {
        match self {
            Pace::Brisk => 20,
            Pace::Steady => 50,
        }
    }

    /// The number of rows from one report to the next.
    pub fn interval(self) -> (n: usize)
        ensures
            n == self.rows(),
    {
        match self {
            Pace::Brisk => 20,
            Pace::Steady => 50,
        }
    }
}

/// A report is due after a row whose index is a multiple of the pace, and
/// after the last row in any case.
pub open spec fn report_due(row: nat, total: nat, pace: Pace) -> bool {
    row % pace.rows() == 0 || row + 1 == total
}

/// The line that reports progress: the row, the number of rows, and the
/// number of rows that matched so far.
pub open spec fn progress_text(row: nat, total: nat, matches: nat) -> Seq<char> {
    "Progreso: "@ + decimal_digits(row) + "/"@ + decimal_digits(total) + " | Match: "@
        + decimal_digits(matches)
}

/// The line that opens a run: the number of conditions that every query carries.
pub open spec fn opening_text(conditions: nat) -> Seq<char> {
    "Iniciando con "@ + decimal_digits(conditions) + " filtros globales..."@
}

/// Whether a report is due after a row.
pub fn is_report_due(row: usize, total: usize, pace: Pace) -> (r: bool)
    ensures
        r == report_due(row as nat, total as nat, pace),
{
    row % pace.interval() == 0 || (row < usize::MAX && row + 1 == total)
}

/// Writes the line that reports progress.
pub fn progress_line(row: usize, total: usize, matches: usize) -> (r: String)
    ensures
        r@ == progress_text(row as nat, total as nat, matches as nat),
{
    let mut line = "Progreso: ".to_owned();
    line.append(unsigned_to_text(row as u64).as_str());
    line.append("/");
    line.append(unsigned_to_text(total as u64).as_str());
    line.append(" | Match: ");
    line.append(unsigned_to_text(matches as u64).as_str());
    line
}

/// Writes the line that opens a run.
pub fn opening_line(conditions: usize) -> (r: String)
    ensures
        r@ == opening_text(conditions as nat),
{
    let mut line = "Iniciando con ".to_owned();
    line.append(unsigned_to_text(conditions as u64).as_str());
    line.append(" filtros globales...");
    line
}

/// The line that closes a run that went through: where the output lies.
pub open spec fn completion_text(path: Seq<char>) -> Seq<char> {
    "✅ COMPLETADO.\nArchivo: "@ + path
}

/// The line that closes a run that was stopped: the message of the fault.
pub open spec fn failure_text(message: Seq<char>) -> Seq<char> {
    "❌ ERROR: "@ + message
}

/// Writes the line that closes a run that went through.
pub fn completion_line(path: &str) -> (r: String)
    ensures
        r@ == completion_text(path@),
{
    let mut line = "✅ COMPLETADO.\nArchivo: ".to_owned();
    line.append(path);
    line
}

/// Writes the line that closes a run that was stopped.
pub fn failure_line(error: &RunError) -> (r: String)
    ensures
        r@ == failure_text(error@.message()),
{
    let mut line = "❌ ERROR: ".to_owned();
    line.append(error.message().as_str());
    line
}

} // verus!
