//! Columnar arrays, rows, and array builders over the closed set of column
//! kinds.

use vstd::prelude::*;

use crate::scalar::{view_datum, DataType, Datum, DatumV, ScalarValue};

verus! {

/// One column of a chunk: a typed array of nullable cells.
pub enum Column {
    Bool(Vec<Option<bool>>),
    Int64(Vec<Option<i64>>),
    Utf8(Vec<Option<String>>),
}

pub open spec fn view_bool_cell(c: Option<bool>) -> DatumV {
    match c {
        Option::None => Option::None,
        Option::Some(b) => Option::Some(crate::scalar::ScalarV::Bool(b)),
    }
}

pub open spec fn view_int64_cell(c: Option<i64>) -> DatumV {
    match c {
        Option::None => Option::None,
        Option::Some(i) => Option::Some(crate::scalar::ScalarV::Int64(i)),
    }
}

pub open spec fn view_utf8_cell(c: Option<String>) -> DatumV {
    match c {
        Option::None => Option::None,
        Option::Some(s) => Option::Some(crate::scalar::ScalarV::Utf8(s@)),
    }
}

impl View for Column {
    type V = Seq<DatumV>;

    open spec fn view(&self) -> Seq<DatumV> {
        match self {
            Column::Bool(v) => v@.map_values(|c: Option<bool>| view_bool_cell(c)),
            Column::Int64(v) => v@.map_values(|c: Option<i64>| view_int64_cell(c)),
            Column::Utf8(v) => v@.map_values(|c: Option<String>| view_utf8_cell(c)),
        }
    }
}

impl Column {
    /// Number of rows stored in the column.
    pub fn len(&self) -> (n: usize)
        ensures
            n == self@.len(),
    {
        match self {
            Column::Bool(v) => v.len(),
            Column::Int64(v) => v.len(),
            Column::Utf8(v) => v.len(),
        }
    }

    /// The cell at row `i`, as an owned nullable value.
    pub fn datum_at(&self, i: usize) -> (d: Datum)
        requires
            i < self@.len(),
        ensures
            view_datum(&d) == self@[i as int],
    {
        match self {
            Column::Bool(v) => {
                match &v[i] {
                    Option::None => Option::None,
                    Option::Some(b) => Option::Some(ScalarValue::Bool(*b)),
                }
            },
            Column::Int64(v) => {
                match &v[i] {
                    Option::None => Option::None,
                    Option::Some(x) => Option::Some(ScalarValue::Int64(*x)),
                }
            },
            Column::Utf8(v) => {
                match &v[i] {
                    Option::None => Option::None,
                    Option::Some(s) => Option::Some(ScalarValue::Utf8(s.clone())),
                }
            },
        }
    }
}

/// An owned row: one nullable cell per column.
pub struct Row(pub Vec<Datum>);

impl View for Row {
    type V = Seq<DatumV>;

    open spec fn view(&self) -> Seq<DatumV> {
        self.0@.map_values(|d: Datum| view_datum(&d))
    }
}

impl Row {
    /// Number of cells in the row.
    pub fn len(&self) -> (n: usize)
        ensures
            n == self@.len(),
    {
        self.0.len()
    }

    /// Consumes the row and hands out the cell at `idx`.
    pub fn into_value_at(self, idx: usize) -> (d: Datum)
        requires
            idx < self@.len(),
        ensures
            view_datum(&d) == self@[idx as int],
    {
        let Row(mut cells) = self;
        let d = cells.remove(idx);
        d
    }

    /// Borrows the cell at `idx`.
    pub fn value_at(&self, idx: usize) -> (d: &Datum)
        requires
            idx < self@.len(),
        ensures
            view_datum(d) == self@[idx as int],
    {
        &self.0[idx]
    }
}

/// A builder that appends cells of one kind and finishes into a `Column`.
/// Appending a value of the wrong kind is a contract violation surfaced by
/// the caller, so each appender is kind-specific.
pub enum ArrayBuilderImpl {
    Bool(Vec<Option<bool>>),
    Int64(Vec<Option<i64>>),
    Utf8(Vec<Option<String>>),
}

impl View for ArrayBuilderImpl {
    type V = Seq<DatumV>;

    open spec fn view(&self) -> Seq<DatumV> {
        match self {
            ArrayBuilderImpl::Bool(v) => v@.map_values(|c: Option<bool>| view_bool_cell(c)),
            ArrayBuilderImpl::Int64(v) => v@.map_values(|c: Option<i64>| view_int64_cell(c)),
            ArrayBuilderImpl::Utf8(v) => v@.map_values(|c: Option<String>| view_utf8_cell(c)),
        }
    }
}

impl ArrayBuilderImpl {
    /// An empty builder for the given type. List types build no column here;
    /// the closed kind set of this core is booleans, integers and strings.
    pub fn new(ty: &DataType) -> (b: ArrayBuilderImpl)
        ensures
            b@ == Seq::<DatumV>::empty(),
            (*ty == DataType::Varchar) ==> b is Utf8,
            (*ty == DataType::Boolean) ==> b is Bool,
    {
        match ty {
            DataType::Boolean => ArrayBuilderImpl::Bool(Vec::new()),
            DataType::Varchar => ArrayBuilderImpl::Utf8(Vec::new()),
            _ => ArrayBuilderImpl::Int64(Vec::new()),
        }
    }

    /// Number of cells appended so far.
    pub fn len(&self) -> (n: usize)
        ensures
            n == self@.len(),
    {
        match self {
            ArrayBuilderImpl::Bool(v) => v.len(),
            ArrayBuilderImpl::Int64(v) => v.len(),
            ArrayBuilderImpl::Utf8(v) => v.len(),
        }
    }

    /// Finishes the builder into a column holding the appended cells.
    pub fn finish(self) -> (c: Column)
        ensures
            c@ == self@,
    {
        match self {
            ArrayBuilderImpl::Bool(v) => Column::Bool(v),
            ArrayBuilderImpl::Int64(v) => Column::Int64(v),
            ArrayBuilderImpl::Utf8(v) => Column::Utf8(v),
        }
    }
}

} // verus!
