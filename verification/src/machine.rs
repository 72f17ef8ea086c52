//! A run as a machine that goes through the data rows of a sheet one step at
//! a time. Each step hands out one action; whoever drives the machine
//! performs it and comes back with what happened. This file holds the
//! machine over plain values, and what holds of every run.

use vstd::prelude::*;
use crate::cell::Sheet;
use crate::document::{field_text, FieldValue, Record};
use crate::fill::{referenced_text, written_text};
use crate::filter::{ConditionView, Filter};
use crate::plan::Plan;
use crate::progress::{opening_text, progress_text, report_due, Pace};
use crate::query::{row_eligible, row_filter};
use crate::rules::{Filler, Matcher};

verus! {

/// What happened outside since the last step.
#[derive(Debug, Clone, PartialEq, Eq)]
pub enum Event {
    /// The action was performed and gave nothing back.
    Resume,
    /// A query or a lookup found this document. Of several candidates the
    /// store hands over the first.
    Document(Record),
    /// A query or a lookup found no document, or failed.
    Nothing,
}

/// What is to be done outside before the next step.
#[derive(Debug)]
pub enum Action {
    /// Ask the collection of the run for the first document that passes the filter.
    Find(Filter),
    /// Ask another collection for the document whose identity is `key`, the
    /// value of `field` in the matched document.
    Lookup { collection: String, field: String, key: FieldValue },
    /// Write a text to a cell of the output.
    Write { row: usize, column: usize, text: String },
    /// Show a status line.
    Report(String),
    /// Nothing: step again.
    Advance,
    /// The rows are done; `matches` of them matched.
    Finish { matches: usize },
}

/// An action over plain values.
pub enum ActionView {
    /// A query with the conditions of its filter, field by field.
    Find(Map<Seq<char>, ConditionView>),
    /// A lookup in another collection.
    Lookup { collection: Seq<char>, field: Seq<char>, key: FieldValue },
    /// A text for a cell of the output.
    Write { row: nat, column: nat, text: Seq<char> },
    /// A status line.
    Report(Seq<char>),
    /// Nothing.
    Advance,
    /// The end of the run.
    Finish { matches: nat },
}

impl View for Action {
    type V = ActionView;

    open spec fn view(&self) -> ActionView {
        match self {
            Action::Find(filter) => ActionView::Find(filter@),
            Action::Lookup { collection, field, key } => ActionView::Lookup {
                collection: collection@,
                field: field@,
                key: *key,
            },
            Action::Write { row, column, text } => ActionView::Write {
                row: *row as nat,
                column: *column as nat,
                text: text@,
            },
            Action::Report(line) => ActionView::Report(line@),
            Action::Advance => ActionView::Advance,
            Action::Finish { matches } => ActionView::Finish { matches: *matches as nat },
        }
    }
}

impl ActionView {
    /// The action asks the store for something or writes to the output.
    pub open spec fn touches_outside(self) -> bool {
        self is Find || self is Lookup || self is Write
    }
}

/// Where the machine stands within its current row.
pub enum Phase {
    /// Nothing was done yet.
    Ready,
    /// The row was not looked at yet.
    Scan,
    /// The query of the row is out.
    Querying,
    /// The row matched `document`; the fill rule at `next` is the next to apply.
    Filling { document: Record, next: nat },
    /// The lookup of the fill rule at `rule` is out.
    LookingUp { document: Record, rule: nat },
    /// The row is done; its report may be due.
    RowDone,
    /// All rows are done.
    Finished,
}

/// The number of eligible rows among the rows from `from` up to, but not
/// including, `to`.
pub open spec fn eligible_rows(sheet: Sheet, matchers: Seq<Matcher>, from: int, to: int) -> nat
    decreases to - from,
{
    if from >= to {
        0
    } else {
        let last: nat = if row_eligible(sheet, to - 1, matchers) {
            1
        } else {
            0
        };
        eligible_rows(sheet, matchers, from, to - 1) + last
    }
}

/// The machine over plain values.
pub struct Machine {
    /// The sheet that is read.
    pub sheet: Sheet,
    /// The compiled match rules.
    pub matchers: Seq<Matcher>,
    /// The compiled fill rules.
    pub fillers: Seq<Filler>,
    /// The conditions that every query carries.
    pub base: Map<Seq<char>, ConditionView>,
    /// The header boundary.
    pub boundary: nat,
    /// How often progress is reported.
    pub pace: Pace,
    /// The current row, counted from zero.
    pub row: nat,
    /// The number of rows that matched so far.
    pub matches: nat,
    /// Where the machine stands within the row.
    pub phase: Phase,
}

impl Machine {
    /// The number of rows of the sheet.
    pub open spec fn total(self) -> nat {
        self.sheet.rows@.len()
    }

    /// The first data row: the row below the header boundary, as far as the
    /// sheet reaches.
    pub open spec fn first_row(self) -> nat {
        if self.boundary < self.total() {
            self.boundary + 1
        } else {
            self.total()
        }
    }

    /// The current row has a usable cell for at least one match rule.
    pub open spec fn eligible(self) -> bool {
        row_eligible(self.sheet, self.row as int, self.matchers)
    }

    /// What holds of the machine at every step of a run.
    pub open spec fn well_formed(self) -> bool {
        &&& self.first_row() <= self.row <= self.total()
        &&& match self.phase {
            Phase::Ready => self.row == self.first_row() && self.matches == 0,
            Phase::Scan => self.matches <= self.row - self.first_row(),
            Phase::Querying => {
                &&& self.row < self.total()
                &&& self.eligible()
                &&& self.matches <= self.row - self.first_row()
            },
            Phase::Filling { document, next } => {
                &&& self.row < self.total()
                &&& self.eligible()
                &&& self.matches <= self.row - self.first_row() + 1
                &&& next <= self.fillers.len()
            },
            Phase::LookingUp { document, rule } => {
                &&& self.row < self.total()
                &&& self.eligible()
                &&& self.matches <= self.row - self.first_row() + 1
                &&& rule < self.fillers.len()
                &&& self.fillers[rule as int].reference is Some
            },
            Phase::RowDone => {
                &&& self.row < self.total()
                &&& self.matches <= self.row - self.first_row() + 1
            },
            Phase::Finished => {
                &&& self.row == self.total()
                &&& self.matches <= self.row - self.first_row()
            },
        }
    }

    /// The machine as it starts.
    pub open spec fn start(plan: Plan, sheet: Sheet, pace: Pace) -> Machine {
        let total = sheet.rows@.len();
        Machine {
            sheet,
            matchers: plan.matchers@,
            fillers: plan.fillers@,
            base: plan.base@,
            boundary: plan.boundary as nat,
            pace,
            row: if plan.boundary < total {
                (plan.boundary + 1) as nat
            } else {
                total
            },
            matches: 0,
            phase: Phase::Ready,
        }
    }

    /// The machine in another phase.
    pub open spec fn at(self, phase: Phase) -> Machine {
        Machine { phase, ..self }
    }

    /// One step: the machine after it, and the action it hands out.
    pub open spec fn step(self, event: Event) -> (Machine, ActionView) {
        match self.phase {
            Phase::Ready => (
                self.at(Phase::Scan),
                ActionView::Report(opening_text(self.base.dom().len())),
            ),
            Phase::Scan => if self.row >= self.total() {
                (self.at(Phase::Finished), ActionView::Finish { matches: self.matches })
            } else {
                match row_filter(self.sheet, self.row as int, self.matchers, self.base) {
                    Some(filter) => (self.at(Phase::Querying), ActionView::Find(filter)),
                    None => (self.at(Phase::RowDone), ActionView::Advance),
                }
            },
            Phase::Querying => match event {
                Event::Document(document) => (
                    Machine {
                        matches: self.matches + 1,
                        phase: Phase::Filling { document, next: 0 },
                        ..self
                    },
                    ActionView::Advance,
                ),
                _ => (self.at(Phase::RowDone), ActionView::Advance),
            },
            Phase::Filling { document, next } => if next >= self.fillers.len() {
                (self.at(Phase::RowDone), ActionView::Advance)
            } else {
                let filler = self.fillers[next as int];
                match document.value_of(filler.field@) {
                    Some(value) => match filler.reference {
                        Some(reference) => (
                            self.at(Phase::LookingUp { document, rule: next }),
                            ActionView::Lookup {
                                collection: reference.collection@,
                                field: filler.field@,
                                key: value,
                            },
                        ),
                        None => (
                            self.at(Phase::Filling { document, next: next + 1 }),
                            ActionView::Write {
                                row: self.row,
                                column: filler.column as nat,
                                text: written_text(filler.apply_format, field_text(value)),
                            },
                        ),
                    },
                    None => (
                        self.at(Phase::Filling { document, next: next + 1 }),
                        ActionView::Advance,
                    ),
                }
            },
            Phase::LookingUp { document, rule } => {
                let filler = self.fillers[rule as int];
                let found = match event {
                    Event::Document(other) => Some(other),
                    _ => None,
                };
                (
                    self.at(Phase::Filling { document, next: rule + 1 }),
                    ActionView::Write {
                        row: self.row,
                        column: filler.column as nat,
                        text: referenced_text(
                            filler.apply_format,
                            filler.reference->0.target@,
                            found,
                        ),
                    },
                )
            },
            Phase::RowDone => (
                Machine { row: self.row + 1, phase: Phase::Scan, ..self },
                if report_due(self.row, self.total(), self.pace) {
                    ActionView::Report(progress_text(self.row, self.total(), self.matches))
                } else {
                    ActionView::Advance
                },
            ),
            Phase::Finished => (self, ActionView::Finish { matches: self.matches }),
        }
    }

    /// The machine after a run of steps, one for each of the events.
    pub open spec fn after(self, events: Seq<Event>) -> Machine
        decreases events.len(),
    {
        if events.len() == 0 {
            self
        } else {
            self.step(events[0]).0.after(events.drop_first())
        }
    }

    /// The action that the machine hands out once it has gone through the events.
    pub open spec fn next_action(self, events: Seq<Event>, event: Event) -> ActionView {
        self.after(events).step(event).1
    }

    /// The number of queries that the machine hands out in a run of steps,
    /// one for each of the events.
    pub open spec fn queries(self, events: Seq<Event>) -> nat
        decreases events.len(),
    {
        if events.len() == 0 {
            0
        } else {
            let asked: nat = if self.step(events[0]).1 is Find {
                1
            } else {
                0
            };
            asked + self.step(events[0]).0.queries(events.drop_first())
        }
    }

    /// The number of queries that are due by the time the machine stands
    /// where it stands: one for each eligible data row above the current
    /// one, and one for the current row once it was found eligible.
    pub open spec fn queries_due(self) -> nat {
        let current: nat = if !(self.phase is Ready) && !(self.phase is Scan) && !(self.phase is Finished)
            && self.eligible() {
            1
        } else {
            0
        };
        eligible_rows(self.sheet, self.matchers, self.first_row() as int, self.row as int) + current
    }

    /// A bound on the steps that one row takes: one to look at it, one for
    /// the answer to its query, two for each fill rule, one to end the
    /// filling and one to close the row, and one to spare.
    pub open spec fn row_budget(self) -> int {
        2 * (self.fillers.len() as int) + 5
    }

    /// A bound on the steps that are left until the machine is finished.
    pub open spec fn steps_left(self) -> int {
        let rows = (self.total() - self.row) * self.row_budget();
        match self.phase {
            Phase::Ready => rows + 2,
            Phase::Scan => rows + 1,
            Phase::Querying => rows,
            Phase::Filling { document, next } => rows - 1 - 2 * (next as int),
            Phase::LookingUp { document, rule } => rows - 2 - 2 * (rule as int),
            Phase::RowDone => rows - 3 - 2 * (self.fillers.len() as int),
            Phase::Finished => 0,
        }
    }
}

/// A step keeps what holds of the machine at every step.
pub proof fn lemma_step_keeps_well_formed(machine: Machine, event: Event)
    requires
        machine.well_formed(),
    ensures
        machine.step(event).0.well_formed(),
{
}

/// The store is asked and the output is written for data rows only: rows
/// below the header boundary in which a match rule has a usable cell. What
/// is written goes to the current row.
pub proof fn lemma_outside_work_is_for_data_rows(machine: Machine, event: Event)
    requires
        machine.well_formed(),
        machine.step(event).1.touches_outside(),
    ensures
        machine.boundary < machine.row < machine.total(),
        machine.eligible(),
        machine.step(event).1 matches ActionView::Write { row, .. } ==> row == machine.row,
        machine.step(event).0.row == machine.row,
{
}

/// A row in which no match rule has a usable cell is passed over: the step
/// that looks at it hands out nothing, and the next one moves on to the row
/// below without touching the store or the output.
pub proof fn lemma_blank_row_is_passed_over(machine: Machine, event: Event, later: Event)
    requires
        machine.phase is Scan,
        machine.row < machine.total(),
        !machine.eligible(),
    ensures
        machine.step(event).1 is Advance,
        machine.step(event).0.row == machine.row,
        !machine.step(event).0.step(later).1.touches_outside(),
        machine.step(event).0.step(later).0.row == machine.row + 1,
        machine.step(event).0.step(later).0.phase is Scan,
        machine.step(event).0.step(later).0.matches == machine.matches,
{
}

/// The count of matches goes up by one exactly when a query is answered
/// with a document, and never otherwise.
pub proof fn lemma_match_counted_once(machine: Machine, event: Event)
    ensures
        machine.step(event).0.matches == if machine.phase is Querying && event is Document {
            machine.matches + 1
        } else {
            machine.matches
        },
{
}

/// A step changes nothing of what the run was started with.
pub proof fn lemma_step_keeps_plan(machine: Machine, event: Event)
    ensures
        machine.step(event).0.sheet == machine.sheet,
        machine.step(event).0.matchers == machine.matchers,
        machine.step(event).0.fillers == machine.fillers,
        machine.step(event).0.base == machine.base,
        machine.step(event).0.boundary == machine.boundary,
        machine.step(event).0.pace == machine.pace,
{
}

/// Every step brings the machine closer to its end: the bound on the steps
/// that are left goes down, and never below zero.
pub proof fn lemma_step_comes_closer(machine: Machine, event: Event)
    requires
        machine.well_formed(),
        !(machine.phase is Finished),
    ensures
        0 <= machine.step(event).0.steps_left() < machine.steps_left(),
{
    let rows = machine.total() - machine.row;
    let budget = machine.row_budget();
    assert(rows >= 1 ==> rows * budget >= budget) by (nonlinear_arith)
        requires
            budget >= 0,
    ;
    assert((rows - 1) * budget == rows * budget - budget) by (nonlinear_arith);
    assert(rows == 0 ==> rows * budget == 0) by (nonlinear_arith);
    assert(rows >= 0 ==> rows * budget >= 0) by (nonlinear_arith)
        requires
            budget >= 0,
    ;
}

/// A finished machine stays as it is, whatever comes.
pub proof fn lemma_finished_stays(machine: Machine, events: Seq<Event>)
    requires
        machine.phase is Finished,
    ensures
        machine.after(events) == machine,
    decreases events.len(),
{
    if events.len() > 0 {
        lemma_finished_stays(machine, events.drop_first());
    }
}

/// What holds of the machine at every step holds after any run of steps.
pub proof fn lemma_run_keeps_well_formed(machine: Machine, events: Seq<Event>)
    requires
        machine.well_formed(),
    ensures
        machine.after(events).well_formed(),
    decreases events.len(),
{
    if events.len() > 0 {
        lemma_step_keeps_well_formed(machine, events[0]);
        lemma_run_keeps_well_formed(machine.step(events[0]).0, events.drop_first());
    }
}

/// Every run comes to its end: after as many steps as the bound allows the
/// machine is finished, whatever happened outside.
pub proof fn lemma_run_finishes(machine: Machine, events: Seq<Event>)
    requires
        machine.well_formed(),
        events.len() >= machine.steps_left(),
    ensures
        machine.after(events).phase is Finished,
    decreases events.len(),
{
    if machine.phase is Finished {
        lemma_finished_stays(machine, events);
    } else {
        if events.len() == 0 {
            lemma_step_comes_closer(machine, Event::Resume);
        } else {
            lemma_step_comes_closer(machine, events[0]);
            lemma_step_keeps_well_formed(machine, events[0]);
            lemma_run_finishes(machine.step(events[0]).0, events.drop_first());
        }
    }
}

/// In a run from the start, whatever happens outside, the store is asked
/// and the output is written only for rows below the header boundary in
/// which a match rule has a usable cell; what is written goes to the row
/// that is being worked on.
pub proof fn lemma_run_works_on_data_rows(
    plan: Plan,
    sheet: Sheet,
    pace: Pace,
    events: Seq<Event>,
    event: Event,
)
    requires
        Machine::start(plan, sheet, pace).next_action(events, event).touches_outside(),
    ensures
        ({
            let machine = Machine::start(plan, sheet, pace).after(events);
            &&& plan.boundary < machine.row < sheet.rows@.len()
            &&& row_eligible(sheet, machine.row as int, plan.matchers@)
            &&& machine.step(event).1 matches ActionView::Write { row, .. } ==> row == machine.row
        }),
{
    let start = Machine::start(plan, sheet, pace);
    lemma_run_keeps_well_formed(start, events);
    lemma_run_keeps_plan(start, events);
    lemma_outside_work_is_for_data_rows(start.after(events), event);
}

/// A run changes nothing of what it was started with.
pub proof fn lemma_run_keeps_plan(machine: Machine, events: Seq<Event>)
    ensures
        machine.after(events).sheet == machine.sheet,
        machine.after(events).matchers == machine.matchers,
        machine.after(events).fillers == machine.fillers,
        machine.after(events).base == machine.base,
        machine.after(events).boundary == machine.boundary,
        machine.after(events).pace == machine.pace,
    decreases events.len(),
{
    if events.len() > 0 {
        lemma_step_keeps_plan(machine, events[0]);
        lemma_run_keeps_plan(machine.step(events[0]).0, events.drop_first());
    }
}

/// A step hands out a query exactly when one becomes due: for a row that was
/// just found eligible, and for no other.
pub proof fn lemma_step_asks_what_is_due(machine: Machine, event: Event)
    requires
        machine.well_formed(),
    ensures
        machine.step(event).0.queries_due() == machine.queries_due() + if machine.step(event).1 is Find {
            1nat
        } else {
            0nat
        },
{
}

/// Over any run the queries handed out are the queries that became due.
pub proof fn lemma_run_asks_what_is_due(machine: Machine, events: Seq<Event>)
    requires
        machine.well_formed(),
    ensures
        machine.after(events).queries_due() == machine.queries_due() + machine.queries(events),
    decreases events.len(),
{
    if events.len() > 0 {
        lemma_step_asks_what_is_due(machine, events[0]);
        lemma_step_keeps_well_formed(machine, events[0]);
        lemma_run_asks_what_is_due(machine.step(events[0]).0, events.drop_first());
    }
}

/// A run that has come to its end has asked the store once for each
/// eligible data row and never otherwise, whatever the store answered: the
/// number of its queries is the number of rows below the header boundary in
/// which a match rule has a usable cell.
pub proof fn lemma_finished_run_asked_once_a_row(
    plan: Plan,
    sheet: Sheet,
    pace: Pace,
    events: Seq<Event>,
)
    requires
        Machine::start(plan, sheet, pace).after(events).phase is Finished,
    ensures
        Machine::start(plan, sheet, pace).queries(events) == eligible_rows(
            sheet,
            plan.matchers@,
            Machine::start(plan, sheet, pace).first_row() as int,
            sheet.rows@.len() as int,
        ),
{
    let start = Machine::start(plan, sheet, pace);
    lemma_run_keeps_well_formed(start, events);
    lemma_run_keeps_plan(start, events);
    lemma_run_asks_what_is_due(start, events);
    assert(start.queries_due() == 0);
}

} // verus!
