//! The table model and the closed sets of formats and selection modes.

pub mod output;
pub mod parse;
pub mod text;

use vstd::prelude::*;

verus! {

/// Parsed tabular data: optional column names and ragged rows of cells.
///
/// Rows need not have the same length, and no relation between the number of
/// headers and the length of a row is assumed anywhere.
#[derive(Debug, Clone, PartialEq, Eq)]
pub struct Table {
    pub headers: Option<Vec<String>>,
    pub rows: Vec<Vec<String>>,
}

/// The mathematical value of a [`Table`]: every string as its characters.
pub struct TableView {
    pub headers: Option<Seq<Seq<char>>>,
    pub rows: Seq<Seq<Seq<char>>>,
}

impl View for Table {
    type V = TableView;

    open spec fn view(&self) -> TableView {
        TableView { headers: self.headers.deep_view(), rows: self.rows.deep_view() }
    }
}

impl TableView {
    /// The number of columns a front end shows: the number of headers where
    /// there are headers, else the length of the first row, else zero.
    pub open spec fn column_count(self) -> nat {
        match self.headers {
            Some(h) => h.len(),
            None => if self.rows.len() > 0 {
                self.rows[0].len()
            } else {
                0
            },
        }
    }
}

impl Table {
    /// The number of columns a front end shows.
    pub fn column_count(&self) -> (n: usize)
        ensures
            n == self@.column_count(),
    {
        match &self.headers {
            Some(h) => h.len(),
            None => if self.rows.len() > 0 {
                self.rows[0].len()
            } else {
                0
            },
        }
    }
}

/// The encodings a table can be read from.
#[derive(Debug, Clone, Copy, PartialEq, Eq, Structural)]
pub enum InputFormat {
    Csv,
    Json,
}

/// What a confirmation selects.
#[derive(Debug, Clone, Copy, PartialEq, Eq, Structural)]
pub enum SelectionMode {
    Row,
    Column,
    Cell,
}

/// The encodings a selection can be written in.
#[derive(Debug, Clone, Copy, PartialEq, Eq, Structural)]
pub enum OutputFormat {
    Plain,
    Json,
    Csv,
}

} // verus!
