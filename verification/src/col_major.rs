//! The column-major layout: data grouped by column.
//!
//! Each column is an ordered value sequence aligned with the row index,
//! and the row count is cached separately for constant-time bounds
//! checks. Column-wise aggregation walks one contiguous sequence, while
//! reconstructing a row gathers one value per column.

use vstd::pervasive::VecAdditionalExecFns;
use vstd::prelude::*;

use crate::model::{
    construct_ok, find_column, first_pos, is_row_view, table_model_of, IterModel, RowModel,
    TableModel,
};
use crate::value_ops::{
    entries_view, is_custom, list_rows_of, record_entries_of, span_of, table_columns_of,
    value_into_list, value_into_record, value_span, value_table_columns,
};
use crate::{Span, TypeMismatch};

verus! {

/// A table stored column by column, with the row count cached. Cloning yields an
/// independent deep copy, of which the verifier tracks nothing.
#[derive(Debug, Clone)]
pub struct ColMajorTable {
    columns: Vec<String>,
    data: Vec<Vec<nu_protocol::Value>>,
    num_rows: usize,
}

/// A read-only view into one row of a [`ColMajorTable`].
pub struct ColMajorRow<'a> {
    table: &'a ColMajorTable,
    index: usize,
}

/// A cursor yielding the rows of a [`ColMajorTable`] in ascending index
/// order.
pub struct ColMajorIter<'a> {
    table: &'a ColMajorTable,
    row: usize,
}

impl View for ColMajorTable {
    type V = TableModel;

    closed spec fn view(&self) -> TableModel {
        TableModel {
            columns: self.columns.deep_view(),
            rows: Seq::new(
                self.num_rows as nat,
                |i: int| Seq::new(self.data@.len(), |j: int| self.data@[j]@[i]),
            ),
        }
    }
}

impl<'a> View for ColMajorRow<'a> {
    type V = RowModel;

    closed spec fn view(&self) -> RowModel {
        RowModel {
            columns: self.table.columns.deep_view(),
            values: Seq::new(
                self.table.data@.len(),
                |j: int| self.table.data@[j]@[self.index as int],
            ),
        }
    }
}

impl<'a> View for ColMajorIter<'a> {
    type V = IterModel;

    closed spec fn view(&self) -> IterModel {
        IterModel { table: (*self.table)@, pos: self.row as int }
    }
}

/// Whether `val` is a value the closure `make_value` may return for a view
/// of row `i` of a table with content `m`.
pub open spec fn col_major_inserted<'a, F: Fn(ColMajorRow<'a>) -> nu_protocol::Value>(
    make_value: F,
    m: TableModel,
    i: int,
    val: nu_protocol::Value,
) -> bool {
    exists|row: ColMajorRow<'a>|
        row@ == RowModel::of_table(m, i) && call_ensures(make_value, (row,), val)
}

impl ColMajorTable {
    /// One value sequence per column, each as long as the cached row
    /// count.
    pub closed spec fn inv(&self) -> bool {
        &&& self.data@.len() == self.columns@.len()
        &&& forall|j: int|
            0 <= j < self.data@.len() ==> (#[trigger] self.data@[j]@).len() == self.num_rows
    }

    pub proof fn lemma_inv_wf(&self)
        requires
            self.inv(),
        ensures
            self@.wf(),
    {
    }

    /// Builds a table from a table-shaped value: the schema's column names
    /// become the column list, and every list element becomes one row,
    /// with schema columns the element's record leaves out set to the
    /// missing placeholder. Fails with a type mismatch when the value's
    /// declared type is not table-shaped or an element is not a record.
    /// The stored slots match the model in every slot whose modelled
    /// value is not custom (a custom entry value is extracted by a
    /// caller-defined clone that may differ).
    #[verifier::loop_isolation(false)]
    pub fn from_value(v: nu_protocol::Value) -> (r: Result<ColMajorTable, TypeMismatch>)
        ensures
            r is Ok <==> construct_ok(v),
            r matches Ok(t) ==> t.inv() && crate::model::constructed_from(t@, v),
            r matches Err(e) ==> crate::model::construct_err(v, e),
    {
        let span = value_span(&v);
        let columns = match value_table_columns(&v) {
            Some(c) => c,
            None => {
                return Err(TypeMismatch { message: "expected table".to_owned(), span });
            },
        };
        let list = match value_into_list(v) {
            Some(l) => l,
            None => {
                return Err(TypeMismatch { message: "expected table".to_owned(), span });
            },
        };
        let ghost cols = table_columns_of(v)->Some_0;
        let ghost rows = list_rows_of(v)->Some_0;
        let num_rows = list.len();
        let mut data: Vec<Vec<nu_protocol::Value>> = Vec::new();
        let mut j: usize = 0;
        while j < columns.len()
            invariant
                j <= columns@.len(),
                data@.len() == j,
                forall|t: int| 0 <= t < j ==> (#[trigger] data@[t]@).len() == 0,
            decreases columns@.len() - j,
        {
            data.push(Vec::new());
            j += 1;
        }
        let mut list = list;
        let mut i: usize = 0;
        while i < list.len()
            invariant
                i <= list@.len(),
                list@.len() == rows.len(),
                forall|k: int| i <= k < rows.len() ==> #[trigger] list@[k] == rows[k],
                data@.len() == columns@.len(),
                forall|k: int| 0 <= k < i ==> record_entries_of(#[trigger] rows[k]) is Some,
                forall|t: int| 0 <= t < data@.len() ==> (#[trigger] data@[t]@).len() == i,
                forall|t: int, k: int|
                    0 <= t < data@.len() && 0 <= k < i && !is_custom(
                        table_model_of(v).rows[k][t],
                    ) ==> (#[trigger] data@[t]@[k]) == table_model_of(v).rows[k][t],
            decreases list@.len() - i,
        {
            let row_span = value_span(&list[i]);
            let mut row_value = crate::value_ops::missing_value();
            list.set_and_swap(i, &mut row_value);
            let ghost model_entries = record_entries_of(rows[i as int])->Some_0;
            let entries = match value_into_record(row_value) {
                Some(en) => en,
                None => {
                    return Err(
                        TypeMismatch { message: "expected record".to_owned(), span: row_span },
                    );
                },
            };
            let ghost entry_views = entries_view(entries@);
            let mut row = crate::model::build_row(&columns, entries);
            proof {
                crate::model::lemma_fill_row_len(cols, entry_views);
                crate::model::lemma_fill_row_len(cols, model_entries);
                assert forall|t: int|
                    0 <= t < cols.len() && !is_custom(
                        table_model_of(v).rows[i as int][t],
                    ) implies row@[t] == table_model_of(v).rows[i as int][t] by {
                    crate::model::lemma_fill_row_agree(cols, model_entries, entry_views, t);
                }
            }
            let ghost row_slots = row@;
            let ghost data_before = data@;
            let mut j: usize = row.len();
            while j > 0
                invariant
                    j <= row_slots.len(),
                    row@ == row_slots.take(j as int),
                    data@.len() == data_before.len(),
                    row_slots.len() == data_before.len(),
                    forall|t: int| 0 <= t < j ==> (#[trigger] data@[t]) == data_before[t],
                    forall|t: int|
                        j <= t < data@.len() ==> (#[trigger] data@[t]@) == data_before[t]@.push(
                            row_slots[t],
                        ),
                decreases j,
            {
                j -= 1;
                proof {
                    assert(row_slots.take(j as int + 1).last() == row_slots[j as int]);
                    assert(row_slots.take(j as int + 1).drop_last() =~= row_slots.take(j as int));
                }
                let val = match row.pop() {
                    Some(val) => val,
                    None => {
                        unreached()
                    },
                };
                let col = &mut data[j];
                col.push(val);
            }
            proof {
                assert forall|t: int, k: int|
                    0 <= t < data@.len() && 0 <= k < i + 1 && !is_custom(
                        table_model_of(v).rows[k][t],
                    ) implies (#[trigger] data@[t]@[k]) == table_model_of(v).rows[k][t] by {
                    if k == i {
                        assert(data@[t]@[k] == row_slots[t]);
                    }
                }
            }
            i += 1;
        }
        let table = ColMajorTable { columns, data, num_rows };
        proof {
            assert(table@.columns == table_model_of(v).columns);
            assert(table@.rows.len() == table_model_of(v).rows.len());
            assert forall|i2: int| 0 <= i2 < table@.rows.len() implies (#[trigger] table@.rows[i2])
                .len() == table@.columns.len() by {}
            assert forall|i2: int, j2: int|
                0 <= i2 < table@.rows.len() && 0 <= j2 < table@.columns.len() && !is_custom(
                    table_model_of(v).rows[i2][j2],
                ) implies (#[trigger] table@.rows[i2][j2]) == table_model_of(v).rows[i2][j2] by {
                assert(table@.rows[i2][j2] == table.data@[j2]@[i2]);
            }
            assert(crate::model::constructed_from(table@, v));
        }
        Ok(table)
    }

    /// The ordered column names.
    pub fn columns(&self) -> (r: &Vec<String>)
        ensures
            r.deep_view() == self@.columns,
    {
        &self.columns
    }

    /// A view of row `index`, present exactly when `index` is within the
    /// cached row count.
    pub fn get_row(&self, index: usize) -> (r: Option<ColMajorRow<'_>>)
        requires
            self.inv(),
        ensures
            r is Some <==> (index as int) < self@.rows.len(),
            r matches Some(row) ==> row@ == RowModel::of_table(self@, index as int) && row.wf(),
    {
        if index < self.num_rows {
            let row = ColMajorRow { table: self, index };
            proof {
                assert(row@.values =~= self@.rows[index as int]);
            }
            Some(row)
        } else {
            None
        }
    }

    /// A fresh iterator view over all rows.
    pub fn iter(&self) -> (r: ColMajorIter<'_>)
        requires
            self.inv(),
        ensures
            r@.table == self@,
            r@.pos == 0,
            r.wf(),
    {
        ColMajorIter { table: self, row: 0 }
    }

    /// Appends one column. For every row, in ascending index order,
    /// `make_value` is applied to a view of that row reflecting the
    /// column set before this insertion; only then are `name` and the
    /// collected values committed as the new column. The row count is
    /// unchanged, and the name is appended even when it duplicates an
    /// existing column name.
    #[verifier::loop_isolation(false)]
    pub fn insert<F: for<'b> Fn(ColMajorRow<'b>) -> nu_protocol::Value>(
        &mut self,
        name: &str,
        make_value: F,
    )
        requires
            old(self).inv(),
            forall|row: ColMajorRow<'_>, i: int|
                0 <= i < old(self)@.rows.len() && #[trigger] is_row_view(old(self)@, i, row@)
                    && row.wf() ==> call_requires(make_value, (row,)),
        ensures
            final(self).inv(),
            final(self)@.columns == old(self)@.columns.push(name@),
            final(self)@.rows.len() == old(self)@.rows.len(),
            forall|i: int|
                0 <= i < old(self)@.rows.len() ==> {
                    &&& (#[trigger] final(self)@.rows[i]).len() == old(self)@.rows[i].len() + 1
                    &&& final(self)@.rows[i].drop_last() == old(self)@.rows[i]
                    &&& col_major_inserted(make_value, old(self)@, i, final(self)@.rows[i].last())
                },
    {
        let ghost m0 = self@;
        let mut new_values: Vec<nu_protocol::Value> = Vec::new();
        let ghost mut witnesses: Seq<ColMajorRow<'_>> = Seq::empty();
        let mut i: usize = 0;
        while i < self.num_rows
            invariant
                *self == *old(self),
                i <= self.num_rows,
                new_values@.len() == i,
                witnesses.len() == i,
                forall|k: int|
                    0 <= k < i ==> (#[trigger] witnesses[k])@ == RowModel::of_table(m0, k)
                        && call_ensures(make_value, (witnesses[k],), new_values@[k]),
            decreases self.num_rows - i,
        {
            let row_view = match self.get_row(i) {
                Some(row) => row,
                None => {
                    unreached()
                },
            };
            proof {
                assert(is_row_view(m0, i as int, row_view@));
            }
            let ghost row_snapshot = row_view;
            let v = make_value(row_view);
            new_values.push(v);
            proof {
                witnesses = witnesses.push(row_snapshot);
            }
            i += 1;
        }
        let ghost vals = new_values@;
        self.columns.push(name.to_owned());
        self.data.push(new_values);
        proof {
            assert forall|i: int| 0 <= i < m0.rows.len() implies {
                &&& (#[trigger] self@.rows[i]).len() == m0.rows[i].len() + 1
                &&& self@.rows[i].drop_last() == m0.rows[i]
                &&& col_major_inserted(make_value, m0, i, self@.rows[i].last())
            } by {
                assert(self@.rows[i] =~= m0.rows[i].push(vals[i]));
                assert(m0.rows[i].push(vals[i]).drop_last() =~= m0.rows[i]);
                assert(self@.rows[i].last() == vals[i]);
                assert(witnesses[i]@ == RowModel::of_table(m0, i) && call_ensures(
                    make_value,
                    (witnesses[i],),
                    self@.rows[i].last(),
                ));
            }
            assert(self@.columns =~= m0.columns.push(name@));
        }
    }

    /// Exports the table as a structured value: a list holding, in row
    /// order, one record value per row, each pairing the column names
    /// with clones of that row's values, all tagged with `span`. The
    /// values are promised exact for the non-custom slots (a custom
    /// value's clone runs caller code and may differ).
    #[verifier::loop_isolation(false)]
    pub fn to_list_of_records(&self, span: Span) -> (r: nu_protocol::Value)
        requires
            self.inv(),
            span.wf(),
        ensures
            list_rows_of(r) is Some,
            list_rows_of(r)->Some_0.len() == self@.rows.len(),
            forall|i: int|
                0 <= i < self@.rows.len() ==> {
                    &&& record_entries_of(#[trigger] list_rows_of(r)->Some_0[i]) is Some
                    &&& crate::model::exported_record(
                        self@,
                        i,
                        record_entries_of(list_rows_of(r)->Some_0[i])->Some_0,
                    )
                    &&& span_of(list_rows_of(r)->Some_0[i]) == span
                },
            span_of(r) == span,
    {
        let mut records: Vec<nu_protocol::Value> = Vec::new();
        let mut i: usize = 0;
        while i < self.num_rows
            invariant
                i <= self.num_rows,
                records@.len() == i,
                forall|k: int|
                    0 <= k < i ==> {
                        &&& record_entries_of(#[trigger] records@[k]) is Some
                        &&& crate::model::exported_record(
                            self@,
                            k,
                            record_entries_of(records@[k])->Some_0,
                        )
                        &&& span_of(records@[k]) == span
                    },
            decreases self.num_rows - i,
        {
            let row = match self.get_row(i) {
                Some(row) => row,
                None => {
                    unreached()
                },
            };
            let entries = row.to_record();
            proof {
                assert(self@.rows[i as int].len() == self@.columns.len());
                assert(entries_view(entries@).len() == self@.columns.len());
                assert(crate::model::exported_record(self@, i as int, entries_view(entries@)));
            }
            let record_value = crate::value_ops::make_record_value(entries, span);
            records.push(record_value);
            i += 1;
        }
        crate::value_ops::make_list_value(records, span)
    }

    /// Exports the table as a structured value, consuming it.
    pub fn into_value(self, span: Span) -> (r: nu_protocol::Value)
        requires
            self.inv(),
            span.wf(),
        ensures
            list_rows_of(r) is Some,
            list_rows_of(r)->Some_0.len() == self@.rows.len(),
            forall|i: int|
                0 <= i < self@.rows.len() ==> {
                    &&& record_entries_of(#[trigger] list_rows_of(r)->Some_0[i]) is Some
                    &&& crate::model::exported_record(
                        self@,
                        i,
                        record_entries_of(list_rows_of(r)->Some_0[i])->Some_0,
                    )
                    &&& span_of(list_rows_of(r)->Some_0[i]) == span
                },
            span_of(r) == span,
    {
        self.to_list_of_records(span)
    }
}

impl<'a> ColMajorRow<'a> {
    /// The parent table satisfies its layout invariant and this view's
    /// row index is within the row count.
    pub closed spec fn wf(&self) -> bool {
        &&& self.table.inv()
        &&& (self.index as int) < self.table@.rows.len()
    }

    /// The value at column position `column`, absent when out of range.
    pub fn get_index(&self, column: usize) -> (r: Option<&'a nu_protocol::Value>)
        requires
            self.wf(),
        ensures
            r is Some <==> (column as int) < self@.values.len(),
            r matches Some(val) ==> *val == self@.values[column as int],
    {
        let table = self.table;
        if column < table.data.len() {
            let col = &table.data[column];
            Some(&col[self.index])
        } else {
            None
        }
    }

    /// The value of the first column whose name matches `name` exactly,
    /// absent when no column matches.
    pub fn get_named(&self, name: &str) -> (r: Option<&'a nu_protocol::Value>)
        requires
            self.wf(),
        ensures
            r is Some <==> 0 <= first_pos(self@.columns, name@) < self@.values.len(),
            r matches Some(val) ==> *val == self@.values[first_pos(self@.columns, name@)],
    {
        match find_column(&self.table.columns, name) {
            Some(p) => self.get_index(p),
            None => None,
        }
    }

    /// A fresh record pairing each column name, in column order, with a
    /// clone of this row's value. A custom value is cloned by caller code
    /// that may produce a different value, so the value equation is
    /// promised for the non-custom slots.
    #[verifier::loop_isolation(false)]
    pub fn to_record(&self) -> (r: Vec<(String, nu_protocol::Value)>)
        requires
            self.wf(),
        ensures
            r@.len() == self@.record().len(),
            forall|t: int|
                0 <= t < r@.len() ==> (#[trigger] r@[t]).0@ == self@.columns[t],
            forall|t: int|
                0 <= t < r@.len() && !is_custom(self@.values[t]) ==> (#[trigger] r@[t]).1
                    == self@.values[t],
    {
        let table = self.table;
        let mut out: Vec<(String, nu_protocol::Value)> = Vec::new();
        let mut j: usize = 0;
        while j < table.columns.len()
            invariant
                j <= table.columns@.len(),
                out@.len() == j,
                forall|t: int|
                    0 <= t < j ==> (#[trigger] out@[t]).0@ == table.columns.deep_view()[t],
                forall|t: int|
                    0 <= t < j && !is_custom(self@.values[t]) ==> (#[trigger] out@[t]).1
                        == self@.values[t],
            decreases table.columns@.len() - j,
        {
            let col = &table.data[j];
            out.push((table.columns[j].clone(), col[self.index].clone()));
            j += 1;
        }
        out
    }
}

impl<'a> ColMajorIter<'a> {
    /// The parent table satisfies its layout invariant.
    pub closed spec fn wf(&self) -> bool {
        self.table.inv()
    }

    /// The next row view in ascending index order, absent once every row
    /// has been yielded.
    pub fn next(&mut self) -> (r: Option<ColMajorRow<'a>>)
        requires
            old(self).wf(),
        ensures
            final(self).wf(),
            final(self)@.table == old(self)@.table,
            old(self)@.pos < old(self)@.table.rows.len() ==> {
                &&& r is Some
                &&& r->Some_0@ == RowModel::of_table(old(self)@.table, old(self)@.pos)
                &&& r->Some_0.wf()
                &&& final(self)@.pos == old(self)@.pos + 1
            },
            old(self)@.pos >= old(self)@.table.rows.len() ==> r is None && final(self)@ == old(
                self,
            )@,
    {
        let table = self.table;
        if self.row < table.num_rows {
            let out = table.get_row(self.row);
            self.row = self.row + 1;
            out
        } else {
            None
        }
    }

    /// The total row count of the parent table, as an exact lower and
    /// upper bound: this layout reports its cached row count regardless
    /// of how far the cursor has advanced.
    pub fn size_hint(&self) -> (r: (usize, Option<usize>))
        ensures
            r.0 == self@.table.rows.len(),
            r.1 == Some(r.0),
    {
        (self.table.num_rows, Some(self.table.num_rows))
    }
}

} // verus!
