//! The values that pass between the host and a scan: filters in, rows out.

use crate::json::{Json, json_view};
use vstd::prelude::*;

verus! {

/// One scalar of the host.
#[derive(Debug, Clone, PartialEq)]
pub enum Cell {
    Bool(bool),
    I64(i64),
    /// A floating-point number, held as its decimal text.
    Float(String),
    Text(String),
    Json(serde_json::Value),
    /// A scalar of any other kind: a date, a timestamp, an identifier.
    Other,
}

pub enum CellView {
    Bool(bool),
    I64(i64),
    Float(Seq<char>),
    Text(Seq<char>),
    Json(Json),
    Other,
}

impl View for Cell {
    type V = CellView;

    open spec fn view(&self) -> CellView {
        match self {
            Cell::Bool(b) => CellView::Bool(*b),
            Cell::I64(i) => CellView::I64(*i),
            Cell::Float(t) => CellView::Float(t@),
            Cell::Text(t) => CellView::Text(t@),
            Cell::Json(j) => CellView::Json(json_view(*j)),
            Cell::Other => CellView::Other,
        }
    }
}

/// What a filter compares a column with: one scalar, or a list of them.
#[derive(Debug, Clone, PartialEq)]
pub enum Operand {
    Cell(Cell),
    Array(Vec<Cell>),
}

/// A filter on one column: `field operator value`.
#[derive(Debug, Clone, PartialEq)]
pub struct Qual {
    pub field: String,
    pub operator: String,
    pub value: Operand,
}

/// A column that the host asks for.
#[derive(Debug, Clone, PartialEq)]
pub struct Column {
    pub name: String,
    /// The column's number in its table, from 1.
    pub num: usize,
    pub type_oid: u32,
}

/// A row: column names, and under each name a cell or nothing.
#[derive(Debug, Clone, PartialEq)]
pub struct Row {
    pub cols: Vec<String>,
    pub cells: Vec<Option<Cell>>,
}

pub struct RowView {
    pub cols: Seq<Seq<char>>,
    pub cells: Seq<Option<CellView>>,
}

pub open spec fn cell_slot_view(slot: Option<Cell>) -> Option<CellView> {
    match slot {
        Some(cell) => Some(cell@),
        None => None,
    }
}

impl View for Row {
    type V = RowView;

    open spec fn view(&self) -> RowView {
        RowView {
            cols: Seq::new(self.cols@.len(), |i: int| self.cols@[i]@),
            cells: Seq::new(self.cells@.len(), |i: int| cell_slot_view(self.cells@[i])),
        }
    }
}

impl RowView {
    pub open spec fn empty() -> RowView {
        RowView { cols: Seq::empty(), cells: Seq::empty() }
    }

    pub open spec fn push(self, col: Seq<char>, cell: Option<CellView>) -> RowView {
        RowView { cols: self.cols.push(col), cells: self.cells.push(cell) }
    }
}

impl Row {
    /// A row without columns.
    pub fn new() -> (row: Row)
        ensures
            row@ == RowView::empty(),
    {
        let row = Row { cols: Vec::new(), cells: Vec::new() };
        assert(row@.cols =~= Seq::empty());
        assert(row@.cells =~= Seq::empty());
        row
    }

    /// Adds a column at the end.
    pub fn push(&mut self, col: &str, cell: Option<Cell>)
        ensures
            final(self)@ == old(self)@.push(col@, cell_slot_view(cell)),
    {
        self.cols.push(col.to_owned());
        self.cells.push(cell);
        assert(self@.cols =~= old(self)@.cols.push(col@));
        assert(self@.cells =~= old(self)@.cells.push(cell_slot_view(cell)));
    }
}

/// The views of some rows, in their order.
pub open spec fn rows_view(rows: Seq<Row>) -> Seq<RowView> {
    Seq::new(rows.len(), |i: int| rows[i]@)
}

/// Why a scan was given up.
#[derive(Debug, Clone, Copy, PartialEq, Eq, Structural)]
pub enum ScanError {
    /// The request ran out of time.
    Timeout,
    /// The answer's body is not JSON.
    Decode,
}

/// Something worth telling the operator, where the scan carries on.
#[derive(Debug, Clone, Copy, PartialEq, Eq, Structural)]
pub enum Diagnostic {
    /// No `step` option was given: the step is ten minutes.
    DefaultStep,
    /// The filters do not name a metric and both ends of a time window.
    FiltersNotFound,
    /// The object asked for is not one that this source has.
    UnsupportedObject,
    /// A filter's scalar is of a kind that no query token is made from.
    UnsupportedCell,
    /// A filter compares with a list, and no query token is made from one.
    UnsupportedValue,
    /// The request got no answer.
    NoResponse,
    /// The answer's body could not be read as text.
    BodyUnreadable,
    /// No `base_url` option was given: the endpoint is the environment's.
    EndpointFromEnvironment,
}

} // verus!
