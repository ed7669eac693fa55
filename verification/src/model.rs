//! The mathematical model of a table and of its construction.
//!
//! Both layouts are specified against the same [`TableModel`]: the ordered
//! column names and the rows, each row one value per column. Construction
//! from a table-shaped value is modelled by [`table_model_of`], built from
//! [`fill_row`]: every slot starts as the missing placeholder, and each
//! record entry whose key occurs in the schema overwrites the slot of the
//! key's first occurrence.

use vstd::pervasive::VecAdditionalExecFns;
use vstd::prelude::*;

use crate::value_ops::{
    entries_view, is_custom, list_rows_of, missing_value_spec, record_entries_of, span_of,
    table_columns_of,
};

verus! {

/// The logical content of a table: ordered column names (as character
/// sequences) and rows, each row an ordered value sequence aligned with
/// the column list.
pub ghost struct TableModel {
    pub columns: Seq<Seq<char>>,
    pub rows: Seq<Seq<nu_protocol::Value>>,
}

impl TableModel {
    /// Every row holds exactly one value per column.
    pub open spec fn wf(self) -> bool {
        forall|i: int|
            0 <= i < self.rows.len() ==> (#[trigger] self.rows[i]).len() == self.columns.len()
    }

    /// The record of row `i`: each column name paired with that row's
    /// value, in column order.
    pub open spec fn row_record(self, i: int) -> Seq<(Seq<char>, nu_protocol::Value)> {
        Seq::new(self.columns.len(), |j: int| (self.columns[j], self.rows[i][j]))
    }
}

/// What a row view exposes: the parent table's column names and the values
/// of the one row it references.
pub ghost struct RowModel {
    pub columns: Seq<Seq<char>>,
    pub values: Seq<nu_protocol::Value>,
}

impl RowModel {
    /// The view of row `i` of a table.
    pub open spec fn of_table(m: TableModel, i: int) -> RowModel {
        RowModel { columns: m.columns, values: m.rows[i] }
    }

    /// What building a record from this row yields: names zipped with
    /// values, cut to the shorter of the two lists.
    pub open spec fn record(self) -> Seq<(Seq<char>, nu_protocol::Value)> {
        Seq::new(
            if self.columns.len() <= self.values.len() {
                self.columns.len()
            } else {
                self.values.len()
            },
            |j: int| (self.columns[j], self.values[j]),
        )
    }
}

/// What an iterator view exposes: the parent table's content and the next
/// row index to yield.
pub ghost struct IterModel {
    pub table: TableModel,
    pub pos: int,
}

/// The position of the first occurrence of `name` in `cols`, or `-1` when
/// `name` does not occur.
pub open spec fn first_pos(cols: Seq<Seq<char>>, name: Seq<char>) -> int
    decreases cols.len(),
{
    if cols.len() == 0 {
        -1
    } else if cols[0] == name {
        0
    } else if first_pos(cols.drop_first(), name) < 0 {
        -1
    } else {
        first_pos(cols.drop_first(), name) + 1
    }
}

pub proof fn lemma_first_pos(cols: Seq<Seq<char>>, name: Seq<char>)
    ensures
        first_pos(cols, name) == -1 || 0 <= first_pos(cols, name) < cols.len(),
        first_pos(cols, name) >= 0 ==> cols[first_pos(cols, name)] == name,
        forall|j: int|
            0 <= j < cols.len() && cols[j] == name ==> 0 <= first_pos(cols, name) <= j,
        forall|j: int| 0 <= j < first_pos(cols, name) ==> cols[j] != name,
    decreases cols.len(),
{
    if cols.len() == 0 {
    } else if cols[0] == name {
    } else {
        lemma_first_pos(cols.drop_first(), name);
        assert forall|j: int| 0 <= j < cols.len() && cols[j] == name implies 0 <= first_pos(
            cols,
            name,
        ) <= j by {
            assert(cols.drop_first()[j - 1] == cols[j]);
        }
        assert forall|j: int| 0 <= j < first_pos(cols, name) implies cols[j] != name by {
            if j > 0 {
                assert(cols[j] == cols.drop_first()[j - 1]);
            }
        }
    }
}

/// The slots of one constructed row: every slot starts as the missing
/// placeholder, and each entry in order overwrites the slot of its key's
/// first occurrence in the schema; entries with unknown keys are dropped.
pub open spec fn fill_row(
    cols: Seq<Seq<char>>,
    entries: Seq<(Seq<char>, nu_protocol::Value)>,
) -> Seq<nu_protocol::Value>
    decreases entries.len(),
{
    if entries.len() == 0 {
        Seq::new(cols.len(), |j: int| missing_value_spec())
    } else {
        let prev = fill_row(cols, entries.drop_last());
        let p = first_pos(cols, entries.last().0);
        if p >= 0 {
            prev.update(p, entries.last().1)
        } else {
            prev
        }
    }
}

pub proof fn lemma_fill_row_len(cols: Seq<Seq<char>>, entries: Seq<(Seq<char>, nu_protocol::Value)>)
    ensures
        fill_row(cols, entries).len() == cols.len(),
    decreases entries.len(),
{
    if entries.len() == 0 {
    } else {
        lemma_fill_row_len(cols, entries.drop_last());
        lemma_first_pos(cols, entries.last().0);
    }
}

/// A value's declared type is table-shaped, it is a list, and every list
/// element is a record: exactly then construction succeeds.
pub open spec fn construct_ok(v: nu_protocol::Value) -> bool {
    &&& table_columns_of(v) is Some
    &&& list_rows_of(v) is Some
    &&& forall|i: int|
        0 <= i < list_rows_of(v)->Some_0.len() ==> record_entries_of(
            #[trigger] list_rows_of(v)->Some_0[i],
        ) is Some
}

/// The table a conforming value constructs: the schema's column names, and
/// one filled row per list element.
pub open spec fn table_model_of(v: nu_protocol::Value) -> TableModel {
    TableModel {
        columns: table_columns_of(v)->Some_0,
        rows: Seq::new(
            list_rows_of(v)->Some_0.len(),
            |i: int| fill_row(
                table_columns_of(v)->Some_0,
                record_entries_of(list_rows_of(v)->Some_0[i])->Some_0,
            ),
        ),
    }
}

pub proof fn lemma_table_model_wf(v: nu_protocol::Value)
    ensures
        table_model_of(v).wf(),
{
    assert forall|i: int| 0 <= i < table_model_of(v).rows.len() implies (#[trigger] table_model_of(
        v,
    ).rows[i]).len() == table_model_of(v).columns.len() by {
        lemma_fill_row_len(
            table_columns_of(v)->Some_0,
            record_entries_of(list_rows_of(v)->Some_0[i])->Some_0,
        );
    }
}

/// What the record exported for row `i` of a table with content `m`
/// holds: one entry per column, the keys being the column names in order,
/// and — for every slot holding a non-custom value — exactly that value.
/// (A custom value's clone runs caller code and may differ, so nothing
/// exact can be promised of such a slot.)
pub open spec fn exported_record(
    m: TableModel,
    i: int,
    rec: Seq<(Seq<char>, nu_protocol::Value)>,
) -> bool {
    &&& rec.len() == m.columns.len()
    &&& forall|j: int| 0 <= j < m.columns.len() ==> (#[trigger] rec[j]).0 == m.columns[j]
    &&& forall|j: int|
        0 <= j < m.columns.len() && !is_custom(m.rows[i][j]) ==> (#[trigger] rec[j]).1
            == m.rows[i][j]
}

/// What construction from `v` guarantees of a table's content `m`: the
/// schema's columns, one row per list element with one slot per column,
/// and, in every slot whose modelled value is not custom, exactly that
/// value. (A custom entry value is extracted by a caller-defined clone
/// that may differ, so such a slot holds what that clone returned.)
pub open spec fn constructed_from(m: TableModel, v: nu_protocol::Value) -> bool {
    &&& m.columns == table_model_of(v).columns
    &&& m.rows.len() == table_model_of(v).rows.len()
    &&& forall|i: int| 0 <= i < m.rows.len() ==> (#[trigger] m.rows[i]).len() == m.columns.len()
    &&& forall|i: int, j: int|
        0 <= i < m.rows.len() && 0 <= j < m.columns.len() && !is_custom(
            table_model_of(v).rows[i][j],
        ) ==> (#[trigger] m.rows[i][j]) == table_model_of(v).rows[i][j]
}

/// Filling a row from entries that agree with the reference entries on
/// every key and on every non-custom value yields the same slot wherever
/// the reference slot's value is not custom.
pub proof fn lemma_fill_row_agree(
    cols: Seq<Seq<char>>,
    reference: Seq<(Seq<char>, nu_protocol::Value)>,
    actual: Seq<(Seq<char>, nu_protocol::Value)>,
    j: int,
)
    requires
        reference.len() == actual.len(),
        forall|k: int| 0 <= k < reference.len() ==> (#[trigger] actual[k]).0 == reference[k].0,
        forall|k: int|
            0 <= k < reference.len() && !is_custom((#[trigger] reference[k]).1) ==> actual[k].1
                == reference[k].1,
        0 <= j < cols.len(),
        !is_custom(fill_row(cols, reference)[j]),
    ensures
        fill_row(cols, actual)[j] == fill_row(cols, reference)[j],
    decreases reference.len(),
{
    lemma_fill_row_len(cols, reference);
    lemma_fill_row_len(cols, actual);
    if reference.len() == 0 {
    } else {
        let ref_prev = reference.drop_last();
        let act_prev = actual.drop_last();
        lemma_fill_row_len(cols, ref_prev);
        lemma_fill_row_len(cols, act_prev);
        assert(actual.last().0 == reference.last().0);
        lemma_first_pos(cols, reference.last().0);
        let p = first_pos(cols, reference.last().0);
        assert forall|k: int| 0 <= k < ref_prev.len() implies (#[trigger] act_prev[k]).0
            == ref_prev[k].0 by {
            assert(act_prev[k] == actual[k]);
            assert(ref_prev[k] == reference[k]);
        }
        assert forall|k: int|
            0 <= k < ref_prev.len() && !is_custom((#[trigger] ref_prev[k]).1) implies act_prev[k].1
            == ref_prev[k].1 by {
            assert(act_prev[k] == actual[k]);
            assert(ref_prev[k] == reference[k]);
        }
        if p == j {
            assert(fill_row(cols, reference)[j] == reference.last().1);
            assert(actual.last().1 == reference.last().1);
        } else {
            lemma_fill_row_len(cols, ref_prev);
            lemma_fill_row_len(cols, act_prev);
            assert(fill_row(cols, reference)[j] == fill_row(cols, ref_prev)[j]);
            lemma_fill_row_agree(cols, ref_prev, act_prev, j);
            assert(fill_row(cols, actual)[j] == fill_row(cols, act_prev)[j]);
        }
    }
}

/// Whether `row` is what a view of row `i` of a table with content `m`
/// exposes.
pub open spec fn is_row_view(m: TableModel, i: int, row: RowModel) -> bool {
    row == RowModel::of_table(m, i)
}

/// The exact error a non-conforming value is refused with: a value whose
/// declared type is not table-shaped (or that is no list) is attributed
/// its own span, and otherwise the first list element that is not a
/// record is attributed that element's span.
pub open spec fn construct_err(v: nu_protocol::Value, e: crate::TypeMismatch) -> bool {
    if table_columns_of(v) is None || list_rows_of(v) is None {
        e.message@ == "expected table"@ && e.span == span_of(v)
    } else {
        exists|i: int|
            {
                &&& 0 <= i < list_rows_of(v)->Some_0.len()
                &&& record_entries_of(#[trigger] list_rows_of(v)->Some_0[i]) is None
                &&& forall|k: int|
                    0 <= k < i ==> record_entries_of(#[trigger] list_rows_of(v)->Some_0[k]) is Some
                &&& e.message@ == "expected record"@
                &&& e.span == span_of(list_rows_of(v)->Some_0[i])
            }
    }
}

/// The position of the first column whose name matches `name` exactly, by
/// linear scan; `None` when no column matches.
pub fn find_column(columns: &Vec<String>, name: &str) -> (r: Option<usize>)
    ensures
        r is Some <==> first_pos(columns.deep_view(), name@) >= 0,
        r matches Some(p) ==> p as int == first_pos(columns.deep_view(), name@),
{
    let ghost cols = columns.deep_view();
    let name_owned: String = name.to_owned();
    let mut j: usize = 0;
    proof {
        lemma_first_pos(cols, name@);
    }
    while j < columns.len()
        invariant
            j <= columns.len(),
            cols == columns.deep_view(),
            name_owned@ == name@,
            forall|k: int| 0 <= k < j ==> cols[k] != name@,
        decreases columns.len() - j,
    {
        if columns[j] == name_owned {
            proof {
                assert(cols[j as int] == columns@[j as int]@);
                assert(cols[j as int] == name@);
                lemma_first_pos(cols, name@);
            }
            return Some(j);
        }
        j += 1;
    }
    proof {
        lemma_first_pos(cols, name@);
    }
    None
}

/// One constructed row: every schema column starts as the missing
/// placeholder, then each record entry in order overwrites the slot of
/// its key's first schema occurrence; keys outside the schema are
/// dropped. The entries are consumed: each value is moved into its slot.
pub fn build_row(
    columns: &Vec<String>,
    entries: Vec<(String, nu_protocol::Value)>,
) -> (r: Vec<nu_protocol::Value>)
    ensures
        r@ == fill_row(columns.deep_view(), entries_view(entries@)),
{
    let ghost cols = columns.deep_view();
    let ghost ev = entries_view(entries@);
    let mut entries = entries;
    let mut row: Vec<nu_protocol::Value> = Vec::new();
    let mut j: usize = 0;
    while j < columns.len()
        invariant
            j <= columns.len(),
            cols == columns.deep_view(),
            row@.len() == j,
            forall|t: int| 0 <= t < j ==> row@[t] == missing_value_spec(),
        decreases columns.len() - j,
    {
        row.push(crate::value_ops::missing_value());
        j += 1;
    }
    proof {
        assert(row@ =~= fill_row(cols, ev.take(0)));
    }
    let mut k: usize = 0;
    while k < entries.len()
        invariant
            k <= entries.len(),
            cols == columns.deep_view(),
            entries@.len() == ev.len(),
            forall|t: int|
                k <= t < ev.len() ==> (#[trigger] entries@[t]).0@ == ev[t].0 && entries@[t].1
                    == ev[t].1,
            row@ == fill_row(cols, ev.take(k as int)),
            row@.len() == cols.len(),
        decreases entries.len() - k,
    {
        proof {
            lemma_first_pos(cols, ev[k as int].0);
            assert(ev.take(k as int + 1).drop_last() =~= ev.take(k as int));
            assert(ev.take(k as int + 1).last() == ev[k as int]);
        }
        let mut pair = (String::new(), crate::value_ops::missing_value());
        entries.set_and_swap(k, &mut pair);
        match find_column(columns, pair.0.as_str()) {
            Some(p) => {
                row.set(p, pair.1);
            },
            None => {},
        }
        k += 1;
    }
    proof {
        assert(ev.take(entries@.len() as int) =~= ev);
    }
    row
}

} // verus!
