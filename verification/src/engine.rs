//! The engine of a run: the machine as it runs, with the sheet and the plan
//! that it owns.

use vstd::prelude::*;
use crate::cell::Sheet;
use crate::document::{field_text, Record};
use crate::fill::{render_value, resolve_reference, written_text};
use crate::filter::Filter;
use crate::machine::{
    lemma_step_keeps_well_formed, Action, ActionView, Event, Machine, Phase,
};
use crate::plan::Plan;
use crate::progress::{is_report_due, opening_line, progress_line, Pace};
use crate::query::build_row_filter;
use crate::rules::{Filler, Matcher};

verus! {

/// Where the engine stands within its current row.
enum Stage {
    Ready,
    Scan,
    Querying,
    Filling { document: Record, next: usize },
    LookingUp { document: Record, rule: usize },
    RowDone,
    Finished,
}

impl View for Stage {
    type V = Phase;

    closed spec fn view(&self) -> Phase {
        match self {
            Stage::Ready => Phase::Ready,
            Stage::Scan => Phase::Scan,
            Stage::Querying => Phase::Querying,
            Stage::Filling { document, next } => Phase::Filling {
                document: *document,
                next: *next as nat,
            },
            Stage::LookingUp { document, rule } => Phase::LookingUp {
                document: *document,
                rule: *rule as nat,
            },
            Stage::RowDone => Phase::RowDone,
            Stage::Finished => Phase::Finished,
        }
    }
}

/// The machine. It owns the sheet and the plan of the run.
pub struct Engine {
    sheet: Sheet,
    matchers: Vec<Matcher>,
    fillers: Vec<Filler>,
    base: Filter,
    boundary: usize,
    pace: Pace,
    row: usize,
    matches: usize,
    stage: Stage,
}

impl View for Engine {
    type V = Machine;

    closed spec fn view(&self) -> Machine {
        Machine {
            sheet: self.sheet,
            matchers: self.matchers@,
            fillers: self.fillers@,
            base: self.base@,
            boundary: self.boundary as nat,
            pace: self.pace,
            row: self.row as nat,
            matches: self.matches as nat,
            phase: self.stage@,
        }
    }
}

impl Engine {
    #[verifier::type_invariant]
    spec fn well_formed(&self) -> bool {
        self@.well_formed()
    }

    /// Sets the machine up for a run over a sheet.
    pub fn new(plan: Plan, sheet: Sheet, pace: Pace) -> (r: Engine)
        ensures
            r@ == Machine::start(plan, sheet, pace),
            r@.well_formed(),
    {
        let total = sheet.row_count();
        let row = if plan.boundary < total {
            plan.boundary + 1
        } else {
            total
        };
        Engine {
            sheet,
            matchers: plan.matchers,
            fillers: plan.fillers,
            base: plan.base,
            boundary: plan.boundary,
            pace,
            row,
            matches: 0,
            stage: Stage::Ready,
        }
    }

    /// The current row, counted from zero.
    pub fn row(&self) -> (r: usize)
        ensures
            r == self@.row,
    {
        self.row
    }

    /// The number of rows of the sheet.
    pub fn total_rows(&self) -> (r: usize)
        ensures
            r == self@.total(),
    {
        self.sheet.row_count()
    }

    /// The number of rows that matched so far.
    pub fn matches(&self) -> (r: usize)
        ensures
            r == self@.matches,
    {
        self.matches
    }

    /// Whether all rows are done.
    pub fn is_finished(&self) -> (r: bool)
        ensures
            r == (self@.phase is Finished),
    {
        match self.stage {
            Stage::Finished => true,
            _ => false,
        }
    }

    /// Takes one step: consumes what happened outside and hands out the
    /// next action together with the machine as it then stands.
    pub fn step(self, event: Event) -> (r: (Engine, Action))
        ensures
            (r.0@, r.1@) == self@.step(event),
            r.0@.well_formed(),
    {
        proof {
            use_type_invariant(&self);
            lemma_step_keeps_well_formed(self@, event);
        }
        let Engine { sheet, matchers, fillers, base, boundary, pace, row, matches, stage } = self;
        let total = sheet.row_count();
        let (stage, row, matches, action) = match stage {
            Stage::Ready => (Stage::Scan, row, matches, Action::Report(opening_line(base.len()))),
            Stage::Scan => {
                if row >= total {
                    (Stage::Finished, row, matches, Action::Finish { matches })
                } else {
                    match build_row_filter(&sheet, row, &matchers, &base) {
                        Some(filter) => (Stage::Querying, row, matches, Action::Find(filter)),
                        None => (Stage::RowDone, row, matches, Action::Advance),
                    }
                }
            },
            Stage::Querying => match event {
                Event::Document(document) => (
                    Stage::Filling { document, next: 0 },
                    row,
                    matches + 1,
                    Action::Advance,
                ),
                _ => (Stage::RowDone, row, matches, Action::Advance),
            },
            Stage::Filling { document, next } => {
                if next >= fillers.len() {
                    (Stage::RowDone, row, matches, Action::Advance)
                } else {
                    let (action, stage) = Self::fill(&fillers[next], document, next, row);
                    (stage, row, matches, action)
                }
            },
            Stage::LookingUp { document, rule } => {
                assert(rule < fillers.len());
                let found = match event {
                    Event::Document(other) => Some(other),
                    _ => None,
                };
                let filler = &fillers[rule];
                let reference = filler.reference.as_ref().unwrap();
                let text = resolve_reference(filler.apply_format, &reference.target, &found);
                (
                    Stage::Filling { document, next: rule + 1 },
                    row,
                    matches,
                    Action::Write { row, column: filler.column, text },
                )
            },
            Stage::RowDone => {
                let action = if is_report_due(row, total, pace) {
                    Action::Report(progress_line(row, total, matches))
                } else {
                    Action::Advance
                };
                (Stage::Scan, row + 1, matches, action)
            },
            Stage::Finished => (Stage::Finished, row, matches, Action::Finish { matches }),
        };
        (Engine { sheet, matchers, fillers, base, boundary, pace, row, matches, stage }, action)
    }

    /// Applies one fill rule to the matched document.
    fn fill(filler: &Filler, document: Record, next: usize, row: usize) -> (r: (Action, Stage))
        requires
            next < usize::MAX,
        ensures
            (r.1@, r.0@) == match document.value_of(filler.field@) {
                Some(value) => match filler.reference {
                    Some(reference) => (
                        Phase::LookingUp { document, rule: next as nat },
                        ActionView::Lookup {
                            collection: reference.collection@,
                            field: filler.field@,
                            key: value,
                        },
                    ),
                    None => (
                        Phase::Filling { document, next: (next + 1) as nat },
                        ActionView::Write {
                            row: row as nat,
                            column: filler.column as nat,
                            text: written_text(filler.apply_format, field_text(value)),
                        },
                    ),
                },
                None => (
                    Phase::Filling { document, next: (next + 1) as nat },
                    ActionView::Advance,
                ),
            },
    {
        let action = match document.get(&filler.field) {
            Some(value) => match &filler.reference {
                Some(reference) => Action::Lookup {
                    collection: reference.collection.clone(),
                    field: filler.field.clone(),
                    key: value.duplicate(),
                },
                None => Action::Write {
                    row,
                    column: filler.column,
                    text: render_value(filler.apply_format, value),
                },
            },
            None => Action::Advance,
        };
        let stage = match action {
            Action::Lookup { .. } => Stage::LookingUp { document, rule: next },
            _ => Stage::Filling { document, next: next + 1 },
        };
        (action, stage)
    }
}

} // verus!
