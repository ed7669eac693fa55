//! The row-major layout: data grouped by row.
//!
//! Each row is an ordered value sequence aligned with the column list, so
//! reconstructing one row's record is a single scan, while column-wise
//! access gathers one value per row.

use vstd::pervasive::VecAdditionalExecFns;
use vstd::prelude::*;

use crate::model::{
    construct_ok, find_column, first_pos, table_model_of, IterModel, RowModel, TableModel,
};
use crate::value_ops::{
    entries_view, is_custom, list_rows_of, record_entries_of, span_of, table_columns_of,
    value_into_list, value_into_record, value_span, value_table_columns,
};
use crate::{Span, TypeMismatch};

verus! {

/// A table stored row by row. Cloning yields an
/// independent deep copy, of which the verifier tracks nothing.
#[derive(Debug, Clone)]
pub struct RowMajorTable {
    columns: Vec<String>,
    data: Vec<Vec<nu_protocol::Value>>,
}

/// A read-only view into one row of a [`RowMajorTable`].
pub struct RowMajorRow<'a> {
    columns: &'a Vec<String>,
    row: &'a Vec<nu_protocol::Value>,
}

/// A cursor yielding the rows of a [`RowMajorTable`] in ascending index
/// order.
pub struct RowMajorIter<'a> {
    table: &'a RowMajorTable,
    row: usize,
}

impl View for RowMajorTable {
    type V = TableModel;

    closed spec fn view(&self) -> TableModel {
        TableModel {
            columns: self.columns.deep_view(),
            rows: Seq::new(self.data@.len(), |i: int| self.data@[i]@),
        }
    }
}

impl<'a> View for RowMajorRow<'a> {
    type V = RowModel;

    closed spec fn view(&self) -> RowModel {
        RowModel { columns: self.columns.deep_view(), values: self.row@ }
    }
}

impl<'a> View for RowMajorIter<'a> {
    type V = IterModel;

    closed spec fn view(&self) -> IterModel {
        IterModel { table: (*self.table)@, pos: self.row as int }
    }
}

/// Whether `val` is a value the closure `make_value` may return for a view
/// of row `i` of a table with content `m`.
pub open spec fn row_major_inserted<'a, F: Fn(RowMajorRow<'a>) -> nu_protocol::Value>(
    make_value: F,
    m: TableModel,
    i: int,
    val: nu_protocol::Value,
) -> bool {
    exists|row: RowMajorRow<'a>|
        row@ == RowModel::of_table(m, i) && call_ensures(make_value, (row,), val)
}

impl RowMajorTable {
    /// Every stored row holds exactly one value per column.
    pub closed spec fn inv(&self) -> bool {
        forall|i: int|
            0 <= i < self.data@.len() ==> (#[trigger] self.data@[i]@).len()
                == self.columns@.len()
    }

    pub proof fn lemma_inv_wf(&self)
        requires
            self.inv(),
        ensures
            self@.wf(),
    {
    }

    /// Builds a table from a table-shaped value: the schema's column names
    /// become the column list, and every list element becomes one row,
    /// with schema columns the element's record leaves out set to the
    /// missing placeholder. Fails with a type mismatch when the value's
    /// declared type is not table-shaped or an element is not a record.
    /// The stored slots match the model in every slot whose modelled
    /// value is not custom (a custom entry value is extracted by a
    /// caller-defined clone that may differ).
    #[verifier::loop_isolation(false)]
    pub fn from_value(v: nu_protocol::Value) -> (r: Result<RowMajorTable, TypeMismatch>)
        ensures
            r is Ok <==> construct_ok(v),
            r matches Ok(t) ==> t.inv() && crate::model::constructed_from(t@, v),
            r matches Err(e) ==> crate::model::construct_err(v, e),
    {
        let span = value_span(&v);
        let columns = match value_table_columns(&v) {
            Some(c) => c,
            None => {
                return Err(TypeMismatch { message: "expected table".to_owned(), span });
            },
        };
        let list = match value_into_list(v) {
            Some(l) => l,
            None => {
                return Err(TypeMismatch { message: "expected table".to_owned(), span });
            },
        };
        let ghost cols = table_columns_of(v)->Some_0;
        let ghost rows = list_rows_of(v)->Some_0;
        let mut list = list;
        let mut data: Vec<Vec<nu_protocol::Value>> = Vec::new();
        let mut i: usize = 0;
        while i < list.len()
            invariant
                i <= list@.len(),
                cols == columns.deep_view(),
                list@.len() == rows.len(),
                forall|k: int| i <= k < rows.len() ==> #[trigger] list@[k] == rows[k],
                table_columns_of(v) == Some(cols),
                list_rows_of(v) == Some(rows),
                data@.len() == i,
                forall|k: int|
                    0 <= k < i ==> record_entries_of(#[trigger] rows[k]) is Some,
                forall|k: int| 0 <= k < i ==> (#[trigger] data@[k]@).len() == cols.len(),
                forall|k: int, j: int|
                    0 <= k < i && 0 <= j < cols.len() && !is_custom(
                        table_model_of(v).rows[k][j],
                    ) ==> (#[trigger] data@[k]@[j]) == table_model_of(v).rows[k][j],
            decreases list@.len() - i,
        {
            let row_span = value_span(&list[i]);
            let mut row_value = crate::value_ops::missing_value();
            list.set_and_swap(i, &mut row_value);
            let ghost model_entries = record_entries_of(rows[i as int])->Some_0;
            let entries = match value_into_record(row_value) {
                Some(en) => en,
                None => {
                    return Err(TypeMismatch { message: "expected record".to_owned(), span: row_span });
                },
            };
            let row = crate::model::build_row(&columns, entries);
            proof {
                crate::model::lemma_fill_row_len(cols, model_entries);
                crate::model::lemma_fill_row_len(cols, entries_view(entries@));
                assert forall|j: int|
                    0 <= j < cols.len() && !is_custom(
                        table_model_of(v).rows[i as int][j],
                    ) implies row@[j] == table_model_of(v).rows[i as int][j] by {
                    crate::model::lemma_fill_row_agree(
                        cols,
                        model_entries,
                        entries_view(entries@),
                        j,
                    );
                }
            }
            data.push(row);
            i += 1;
        }
        let table = RowMajorTable { columns, data };
        proof {
            assert(table@.columns == table_model_of(v).columns);
            assert(table@.rows.len() == table_model_of(v).rows.len());
            assert(crate::model::constructed_from(table@, v));
        }
        Ok(table)
    }

    /// The ordered column names.
    pub fn columns(&self) -> (r: &Vec<String>)
        ensures
            r.deep_view() == self@.columns,
    {
        &self.columns
    }

    /// A view of row `index`, present exactly when `index` is within the
    /// row count.
    pub fn get_row(&self, index: usize) -> (r: Option<RowMajorRow<'_>>)
        ensures
            r is Some <==> (index as int) < self@.rows.len(),
            r matches Some(row) ==> row@ == RowModel::of_table(self@, index as int),
    {
        if index < self.data.len() {
            Some(RowMajorRow { columns: &self.columns, row: &self.data[index] })
        } else {
            None
        }
    }

    /// A fresh iterator view over all rows.
    pub fn iter(&self) -> (r: RowMajorIter<'_>)
        ensures
            r@.table == self@,
            r@.pos == 0,
    {
        RowMajorIter { table: self, row: 0 }
    }

    /// Exports the table as a structured value: a list holding, in row
    /// order, one record value per row, each pairing the column names
    /// with clones of that row's values, all tagged with `span`. The
    /// values are promised exact for the non-custom slots (a custom
    /// value's clone runs caller code and may differ).
    #[verifier::loop_isolation(false)]
    pub fn to_list_of_records(&self, span: Span) -> (r: nu_protocol::Value)
        requires
            self.inv(),
            span.wf(),
        ensures
            list_rows_of(r) is Some,
            list_rows_of(r)->Some_0.len() == self@.rows.len(),
            forall|i: int|
                0 <= i < self@.rows.len() ==> {
                    &&& record_entries_of(#[trigger] list_rows_of(r)->Some_0[i]) is Some
                    &&& crate::model::exported_record(
                        self@,
                        i,
                        record_entries_of(list_rows_of(r)->Some_0[i])->Some_0,
                    )
                    &&& span_of(list_rows_of(r)->Some_0[i]) == span
                },
            span_of(r) == span,
    {
        let mut records: Vec<nu_protocol::Value> = Vec::new();
        let mut i: usize = 0;
        while i < self.data.len()
            invariant
                i <= self.data@.len(),
                records@.len() == i,
                forall|k: int|
                    0 <= k < i ==> {
                        &&& record_entries_of(#[trigger] records@[k]) is Some
                        &&& crate::model::exported_record(
                            self@,
                            k,
                            record_entries_of(records@[k])->Some_0,
                        )
                        &&& span_of(records@[k]) == span
                    },
            decreases self.data@.len() - i,
        {
            let row = match self.get_row(i) {
                Some(row) => row,
                None => {
                    unreached()
                },
            };
            let entries = row.to_record();
            proof {
                assert(self@.rows[i as int].len() == self@.columns.len());
                assert(entries_view(entries@).len() == self@.columns.len());
                assert(crate::model::exported_record(self@, i as int, entries_view(entries@)));
            }
            let record_value = crate::value_ops::make_record_value(entries, span);
            records.push(record_value);
            i += 1;
        }
        crate::value_ops::make_list_value(records, span)
    }

    /// Exports the table as a structured value, consuming it.
    pub fn into_value(self, span: Span) -> (r: nu_protocol::Value)
        requires
            self.inv(),
            span.wf(),
        ensures
            list_rows_of(r) is Some,
            list_rows_of(r)->Some_0.len() == self@.rows.len(),
            forall|i: int|
                0 <= i < self@.rows.len() ==> {
                    &&& record_entries_of(#[trigger] list_rows_of(r)->Some_0[i]) is Some
                    &&& crate::model::exported_record(
                        self@,
                        i,
                        record_entries_of(list_rows_of(r)->Some_0[i])->Some_0,
                    )
                    &&& span_of(list_rows_of(r)->Some_0[i]) == span
                },
            span_of(r) == span,
    {
        self.to_list_of_records(span)
    }

    /// Appends one column. For every row, in ascending index order,
    /// `make_value` is applied to a view of that row reflecting the
    /// column set before this insertion; only then are `name` and the
    /// collected values committed as the new column. The row count is
    /// unchanged, and the name is appended even when it duplicates an
    /// existing column name.
    #[verifier::loop_isolation(false)]
    pub fn insert<F: for<'b> Fn(RowMajorRow<'b>) -> nu_protocol::Value>(
        &mut self,
        name: &str,
        make_value: F,
    )
        requires
            old(self).inv(),
            forall|row: RowMajorRow<'_>, i: int|
                0 <= i < old(self)@.rows.len() && #[trigger] crate::model::is_row_view(
                    old(self)@,
                    i,
                    row@,
                ) ==> call_requires(make_value, (row,)),
        ensures
            final(self).inv(),
            final(self)@.columns == old(self)@.columns.push(name@),
            final(self)@.rows.len() == old(self)@.rows.len(),
            forall|i: int|
                0 <= i < old(self)@.rows.len() ==> {
                    &&& (#[trigger] final(self)@.rows[i]).len() == old(self)@.rows[i].len() + 1
                    &&& final(self)@.rows[i].drop_last() == old(self)@.rows[i]
                    &&& row_major_inserted(make_value, old(self)@, i, final(self)@.rows[i].last())
                },
    {
        let ghost m0 = self@;
        let mut new_values: Vec<nu_protocol::Value> = Vec::new();
        let ghost mut witnesses: Seq<RowMajorRow<'_>> = Seq::empty();
        let mut i: usize = 0;
        while i < self.data.len()
            invariant
                *self == *old(self),
                i <= self.data@.len(),
                new_values@.len() == i,
                witnesses.len() == i,
                forall|k: int|
                    0 <= k < i ==> (#[trigger] witnesses[k])@ == RowModel::of_table(m0, k)
                        && call_ensures(make_value, (witnesses[k],), new_values@[k]),
            decreases self.data@.len() - i,
        {
            let row_view = RowMajorRow { columns: &self.columns, row: &self.data[i] };
            proof {
                assert(crate::model::is_row_view(m0, i as int, row_view@));
            }
            let ghost row_snapshot = row_view;
            let v = make_value(row_view);
            new_values.push(v);
            proof {
                witnesses = witnesses.push(row_snapshot);
            }
            i += 1;
        }
        let ghost vals = new_values@;
        self.columns.push(name.to_owned());
        let mut i: usize = self.data.len();
        while i > 0
            invariant
                i <= self.data@.len(),
                new_values@ == vals.take(i as int),
                self.columns.deep_view() == m0.columns.push(name@),
                self.data@.len() == m0.rows.len(),
                forall|k: int| 0 <= k < i ==> (#[trigger] self.data@[k]@) == m0.rows[k],
                forall|k: int|
                    i <= k < self.data@.len() ==> (#[trigger] self.data@[k]@) == m0.rows[k].push(
                        vals[k],
                    ),
            decreases i,
        {
            i -= 1;
            proof {
                assert(vals.take(i as int + 1).last() == vals[i as int]);
                assert(vals.take(i as int + 1).drop_last() =~= vals.take(i as int));
            }
            let val = new_values.pop().unwrap();
            let row_ref = &mut self.data[i];
            row_ref.push(val);
        }
        proof {
            assert forall|i: int| 0 <= i < m0.rows.len() implies {
                &&& (#[trigger] self@.rows[i]).len() == m0.rows[i].len() + 1
                &&& self@.rows[i].drop_last() == m0.rows[i]
                &&& row_major_inserted(make_value, m0, i, self@.rows[i].last())
            } by {
                assert(self@.rows[i] == m0.rows[i].push(vals[i]));
                assert(m0.rows[i].push(vals[i]).drop_last() =~= m0.rows[i]);
                assert(self@.rows[i].last() == vals[i]);
                assert(witnesses[i]@ == RowModel::of_table(m0, i) && call_ensures(
                    make_value,
                    (witnesses[i],),
                    self@.rows[i].last(),
                ));
            }
            assert(self@.columns =~= m0.columns.push(name@));
        }
    }
}

impl<'a> RowMajorRow<'a> {
    /// The value at column position `column`, absent when out of range.
    pub fn get_index(&self, column: usize) -> (r: Option<&'a nu_protocol::Value>)
        ensures
            r is Some <==> (column as int) < self@.values.len(),
            r matches Some(val) ==> *val == self@.values[column as int],
    {
        let row = self.row;
        if column < row.len() {
            Some(&row[column])
        } else {
            None
        }
    }

    /// The value of the first column whose name matches `name` exactly,
    /// absent when no column matches.
    pub fn get_named(&self, name: &str) -> (r: Option<&'a nu_protocol::Value>)
        ensures
            r is Some <==> 0 <= first_pos(self@.columns, name@) < self@.values.len(),
            r matches Some(val) ==> *val == self@.values[first_pos(self@.columns, name@)],
    {
        match find_column(self.columns, name) {
            Some(p) => self.get_index(p),
            None => None,
        }
    }

    /// A fresh record pairing each column name, in column order, with a
    /// clone of this row's value. A custom value is cloned by caller code
    /// that may produce a different value, so the value equation is
    /// promised for the non-custom slots.
    pub fn to_record(&self) -> (r: Vec<(String, nu_protocol::Value)>)
        ensures
            r@.len() == self@.record().len(),
            forall|t: int|
                0 <= t < r@.len() ==> (#[trigger] r@[t]).0@ == self@.columns[t],
            forall|t: int|
                0 <= t < r@.len() && !is_custom(self@.values[t]) ==> (#[trigger] r@[t]).1
                    == self@.values[t],
    {
        let columns = self.columns;
        let row = self.row;
        let n = if columns.len() <= row.len() {
            columns.len()
        } else {
            row.len()
        };
        let mut out: Vec<(String, nu_protocol::Value)> = Vec::new();
        let mut j: usize = 0;
        while j < n
            invariant
                j <= n,
                n == if columns.deep_view().len() <= row@.len() {
                    columns.deep_view().len() as int
                } else {
                    row@.len() as int
                },
                out@.len() == j,
                forall|t: int|
                    0 <= t < j ==> (#[trigger] out@[t]).0@ == columns.deep_view()[t],
                forall|t: int|
                    0 <= t < j && !is_custom(row@[t]) ==> (#[trigger] out@[t]).1 == row@[t],
            decreases n - j,
        {
            out.push((columns[j].clone(), row[j].clone()));
            j += 1;
        }
        out
    }
}

impl<'a> RowMajorIter<'a> {
    /// The next row view in ascending index order, absent once every row
    /// has been yielded.
    pub fn next(&mut self) -> (r: Option<RowMajorRow<'a>>)
        ensures
            final(self)@.table == old(self)@.table,
            old(self)@.pos < old(self)@.table.rows.len() ==> {
                &&& r is Some
                &&& r->Some_0@ == RowModel::of_table(old(self)@.table, old(self)@.pos)
                &&& final(self)@.pos == old(self)@.pos + 1
            },
            old(self)@.pos >= old(self)@.table.rows.len() ==> r is None && final(self)@ == old(
                self,
            )@,
    {
        let table = self.table;
        if self.row < table.data.len() {
            let out = table.get_row(self.row);
            self.row = self.row + 1;
            out
        } else {
            None
        }
    }

    /// How many rows remain to be yielded, as an exact lower and upper
    /// bound.
    pub fn size_hint(&self) -> (r: (usize, Option<usize>))
        ensures
            self@.pos <= self@.table.rows.len() ==> r.0 == self@.table.rows.len() - self@.pos,
            self@.pos > self@.table.rows.len() ==> r.0 == 0,
            r.1 == Some(r.0),
    {
        let table = self.table;
        let remaining = if self.row < table.data.len() {
            table.data.len() - self.row
        } else {
            0
        };
        (remaining, Some(remaining))
    }
}

} // verus!
