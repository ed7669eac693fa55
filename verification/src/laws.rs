//! The laws both layouts obey, proved once over the shared model.

use vstd::prelude::*;

use crate::col_major::ColMajorTable;
use crate::model::{
    construct_ok, constructed_from, fill_row, first_pos, lemma_fill_row_len, lemma_first_pos,
    table_model_of, RowModel, TableModel,
};
use crate::row_major::RowMajorTable;
use crate::value_ops::{
    is_custom, list_rows_of, missing_value_spec, record_entries_of, table_columns_of,
};

verus! {

/// What one constructed slot holds, under unique names: the slot of
/// schema column `j` holds the value of the record entry whose key is
/// that column's name, or the missing placeholder when no entry's key is.
pub proof fn lemma_fill_row_lookup(
    cols: Seq<Seq<char>>,
    entries: Seq<(Seq<char>, nu_protocol::Value)>,
    j: int,
)
    requires
        0 <= j < cols.len(),
        forall|a: int, b: int| 0 <= a < b < cols.len() ==> cols[a] != cols[b],
        forall|a: int, b: int|
            0 <= a < b < entries.len() ==> (#[trigger] entries[a]).0 != (#[trigger] entries[b]).0,
    ensures
        forall|k: int|
            0 <= k < entries.len() && (#[trigger] entries[k]).0 == cols[j] ==> fill_row(
                cols,
                entries,
            )[j] == entries[k].1,
        (forall|k: int| 0 <= k < entries.len() ==> (#[trigger] entries[k]).0 != cols[j])
            ==> fill_row(cols, entries)[j] == missing_value_spec(),
    decreases entries.len(),
{
    lemma_fill_row_len(cols, entries);
    if entries.len() == 0 {
    } else {
        let prev_entries = entries.drop_last();
        let last = entries.last();
        lemma_fill_row_lookup(cols, prev_entries, j);
        lemma_fill_row_len(cols, prev_entries);
        lemma_first_pos(cols, last.0);
        let p = first_pos(cols, last.0);
        assert forall|k: int| 0 <= k < entries.len() && (#[trigger] entries[k]).0 == cols[j]
            implies fill_row(cols, entries)[j] == entries[k].1 by {
            if k == entries.len() - 1 {
                assert(cols[j] == last.0);
                assert(p >= 0 && cols[p] == last.0);
                assert(p == j);
            } else {
                assert(prev_entries[k] == entries[k]);
                assert(entries[k].0 != last.0);
                if p >= 0 {
                    assert(cols[p] == last.0);
                    assert(p != j);
                }
                assert(fill_row(cols, entries)[j] == fill_row(cols, prev_entries)[j]);
            }
        }
        if forall|k: int| 0 <= k < entries.len() ==> (#[trigger] entries[k]).0 != cols[j] {
            assert(last.0 != cols[j]);
            if p >= 0 {
                assert(cols[p] == last.0);
                assert(p != j);
            }
            assert forall|k: int| 0 <= k < prev_entries.len() implies (#[trigger] prev_entries[k]).0
                != cols[j] by {
                assert(prev_entries[k] == entries[k]);
            }
            assert(fill_row(cols, entries)[j] == fill_row(cols, prev_entries)[j]);
        }
    }
}

/// Round trip. A conforming table-shaped input — unique schema column
/// names, unique keys within each row's record — constructs a table with
/// exactly the schema's columns and one row per input element, and the
/// record exported for row `i` pairs the column names, in that order,
/// with: the input record's value, for each schema column the record
/// holds; the missing placeholder, for each schema column it leaves out.
pub proof fn lemma_round_trip(v: nu_protocol::Value, i: int, j: int)
    requires
        construct_ok(v),
        0 <= i < list_rows_of(v)->Some_0.len(),
        0 <= j < table_columns_of(v)->Some_0.len(),
        forall|a: int, b: int|
            0 <= a < b < table_columns_of(v)->Some_0.len() ==> table_columns_of(v)->Some_0[a]
                != table_columns_of(v)->Some_0[b],
        forall|a: int, b: int|
            0 <= a < b < record_entries_of(list_rows_of(v)->Some_0[i])->Some_0.len() ==> (
            #[trigger] record_entries_of(list_rows_of(v)->Some_0[i])->Some_0[a]).0 != (
            #[trigger] record_entries_of(list_rows_of(v)->Some_0[i])->Some_0[b]).0,
    ensures
        table_model_of(v).columns == table_columns_of(v)->Some_0,
        table_model_of(v).rows.len() == list_rows_of(v)->Some_0.len(),
        table_model_of(v).row_record(i)[j].0 == table_columns_of(v)->Some_0[j],
        forall|k: int|
            0 <= k < record_entries_of(list_rows_of(v)->Some_0[i])->Some_0.len() && (
            #[trigger] record_entries_of(list_rows_of(v)->Some_0[i])->Some_0[k]).0
                == table_columns_of(v)->Some_0[j] ==> table_model_of(v).row_record(i)[j].1
                == record_entries_of(list_rows_of(v)->Some_0[i])->Some_0[k].1,
        (forall|k: int|
            0 <= k < record_entries_of(list_rows_of(v)->Some_0[i])->Some_0.len() ==> (
            #[trigger] record_entries_of(list_rows_of(v)->Some_0[i])->Some_0[k]).0
                != table_columns_of(v)->Some_0[j]) ==> table_model_of(v).row_record(i)[j].1
            == missing_value_spec(),
{
    let cols = table_columns_of(v)->Some_0;
    let entries = record_entries_of(list_rows_of(v)->Some_0[i])->Some_0;
    lemma_fill_row_len(cols, entries);
    lemma_fill_row_lookup(cols, entries, j);
    assert(table_model_of(v).rows[i] == fill_row(cols, entries));
    assert(table_model_of(v).row_record(i)[j].1 == fill_row(cols, entries)[j]);
}

/// Layout equivalence: row-major and column-major tables constructed from
/// the same input have identical column lists, identical row counts,
/// record keys agreeing everywhere, and record values agreeing at every
/// slot whose modelled value is not custom. (A custom entry value is
/// extracted by an independent caller-defined clone in each layout, so
/// the two copies need not agree.)
pub proof fn lemma_layout_equivalence(
    row_table: RowMajorTable,
    col_table: ColMajorTable,
    v: nu_protocol::Value,
)
    requires
        constructed_from(row_table@, v),
        constructed_from(col_table@, v),
    ensures
        row_table@.columns == col_table@.columns,
        row_table@.rows.len() == col_table@.rows.len(),
        forall|i: int, j: int|
            0 <= i < row_table@.rows.len() && 0 <= j < row_table@.columns.len() ==> (
            #[trigger] row_table@.row_record(i)[j]).0 == col_table@.row_record(i)[j].0,
        forall|i: int, j: int|
            0 <= i < row_table@.rows.len() && 0 <= j < row_table@.columns.len() && !is_custom(
                table_model_of(v).rows[i][j],
            ) ==> (#[trigger] row_table@.row_record(i)[j]) == col_table@.row_record(i)[j],
{
}

/// Iteration completeness: the view an iterator yields at index `i`
/// exposes the same row content as `get_row(i)`, so both build the same
/// record — the table's record of row `i`.
pub proof fn lemma_iteration_matches_get_row(m: TableModel, i: int)
    requires
        m.wf(),
        0 <= i < m.rows.len(),
    ensures
        RowModel::of_table(m, i).record() == m.row_record(i),
{
    assert(RowModel::of_table(m, i).record() =~= m.row_record(i));
}

} // verus!
