//! The cells of a sheet and the text by which they are matched.

use vstd::prelude::*;
use crate::text::{bool_text, bool_to_text, decimal_text, signed_to_text};

verus! {

/// A number with a fractional type, as plain values.
#[derive(Debug, Clone, PartialEq, Eq)]
pub struct Number {
    /// The number as an integer, when it has no fractional part.
    pub whole: Option<i64>,
    /// The number as it prints.
    pub text: String,
}

/// The content of one cell.
#[derive(Debug, Clone, PartialEq, Eq)]
pub enum Cell {
    /// Nothing.
    Empty,
    /// An integer.
    Int(i64),
    /// A number with a fractional type.
    Float(Number),
    /// A text.
    Text(String),
    /// A truth value.
    Bool(bool),
    /// A point in time, as it prints.
    Timestamp(String),
    /// A span of time, as it prints.
    Duration(String),
}

/// The text of a cell. A number without a fractional part reads as an integer.
pub open spec fn cell_text(cell: Cell) -> Seq<char> {
    match cell {
        Cell::Empty => Seq::empty(),
        Cell::Int(v) => decimal_text(v as int),
        Cell::Float(n) => match n.whole {
            Some(v) => decimal_text(v as int),
            None => n.text@,
        },
        Cell::Text(s) => s@,
        Cell::Bool(b) => bool_text(b),
        Cell::Timestamp(s) => s@,
        Cell::Duration(s) => s@,
    }
}

/// Turns a cell into the text by which it is matched.
pub fn cell_to_text(cell: &Cell) -> (r: String)
    ensures
        r@ == cell_text(*cell),
{
    match cell {
        Cell::Empty => String::new(),
        Cell::Int(v) => signed_to_text(*v),
        Cell::Float(n) => match n.whole {
            Some(v) => signed_to_text(v),
            None => n.text.clone(),
        },
        Cell::Text(s) => s.clone(),
        Cell::Bool(b) => bool_to_text(*b),
        Cell::Timestamp(s) => s.clone(),
        Cell::Duration(s) => s.clone(),
    }
}

/// A grid of cells, row by row. Rows may differ in length.
#[derive(Debug, Clone, PartialEq, Eq)]
pub struct Sheet {
    /// The rows, from the top.
    pub rows: Vec<Vec<Cell>>,
}

impl Sheet {
    /// The cell at a position, if the grid reaches that far.
    pub open spec fn cell(&self, row: int, col: int) -> Option<Cell> {
        if 0 <= row < self.rows@.len() && 0 <= col < self.rows@[row]@.len() {
            Some(self.rows@[row]@[col])
        } else {
            None
        }
    }

    /// The number of rows.
    pub fn row_count(&self) -> (n: usize)
        ensures
            n == self.rows@.len(),
    {
        self.rows.len()
    }

    /// The cell at a position, if the grid reaches that far.
    pub fn cell_at(&self, row: usize, col: usize) -> (r: Option<&Cell>)
        ensures
            self.cell(row as int, col as int) is Some <==> r is Some,
            r matches Some(c) ==> self.cell(row as int, col as int) == Some(*c),
    {
        if row < self.rows.len() {
            let cells = &self.rows[row];
            if col < cells.len() {
                return Some(&cells[col]);
            }
        }
        None
    }
}

} // verus!
