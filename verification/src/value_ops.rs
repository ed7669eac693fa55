//! The trusted boundary to `nu_protocol`'s dynamic values.
//!
//! A [`nu_protocol::Value`] is opaque to the verifier. What the tables read
//! out of one — the column names of its declared table shape, its list
//! elements, a record's entries, its span — is given a name by an
//! uninterpreted spec function, and each outside call is wrapped in one
//! `external_body` function whose contract speaks over those names.

use vstd::prelude::*;

use crate::Span;

verus! {

#[verifier::external_type_specification]
#[verifier::external_body]
pub struct ExValue(nu_protocol::Value);

/// The column names of `v`'s declared type, when that type is table-shaped
/// (an ordered list of column-name/element-type pairs describing a list of
/// records); `None` for every other declared type.
pub uninterp spec fn table_columns_of(v: nu_protocol::Value) -> Option<Seq<Seq<char>>>;

/// The ordered elements of `v`, when `v` is a list value; `None` otherwise.
pub uninterp spec fn list_rows_of(v: nu_protocol::Value) -> Option<Seq<nu_protocol::Value>>;

/// The ordered (column name, value) entries of `v`, when `v` is a record
/// value; `None` otherwise.
pub uninterp spec fn record_entries_of(v: nu_protocol::Value) -> Option<
    Seq<(Seq<char>, nu_protocol::Value)>,
>;

/// The source location carried by `v`.
pub uninterp spec fn span_of(v: nu_protocol::Value) -> Span;

/// The nothing value tagged with the given span.
pub uninterp spec fn nothing_at(span: Span) -> nu_protocol::Value;

/// The span of the designated "missing" placeholder value: the test-data
/// span, whose start and end are both `usize::MAX / 2`.
pub open spec fn missing_span() -> Span {
    Span { start: usize::MAX / 2, end: usize::MAX / 2 }
}

/// The designated "missing" placeholder: the nothing value at the
/// test-data span.
pub open spec fn missing_value_spec() -> nu_protocol::Value {
    nothing_at(missing_span())
}

/// The entries of an owned record, seen at the level of views: each column
/// name as its character sequence.
pub open spec fn entries_view(entries: Seq<(String, nu_protocol::Value)>) -> Seq<
    (Seq<char>, nu_protocol::Value),
> {
    entries.map_values(|e: (String, nu_protocol::Value)| (e.0@, e.1))
}

/// Whether a value is a custom value: the variant carrying caller-defined
/// behaviour behind the `CustomValue` trait. Every other variant is built
/// from plain data (nested lists and records share their storage rather
/// than copy it), so cloning it yields the value itself; cloning a custom
/// value runs the caller's `clone_value`, which nu licenses to
/// materialize a different representation.
pub uninterp spec fn is_custom(v: nu_protocol::Value) -> bool;

/// Relies on `nu_protocol::Value::clone`: it rebuilds the value variant
/// by variant, copying plain fields and sharing list and record storage,
/// so every non-custom value clones to itself; a custom value is cloned
/// by its own caller-defined `clone_value` and may differ.
pub assume_specification[ <nu_protocol::Value as Clone>::clone ](
    v: &nu_protocol::Value,
) -> (r: nu_protocol::Value)
    ensures
        !is_custom(*v) ==> r == *v,
;

/// Relies on `nu_protocol::Value::get_type`: the declared type is computed
/// from the value alone, and is `Type::Table(columns)` exactly when the
/// value is a list whose elements' common supertype is a record type —
/// `columns` then being that type's column list; the returned names are
/// those columns', in order. That supertype arises only when every
/// element's own type is a record type, and only a record value has one,
/// so a table-shaped value is a list of record values: every element
/// decomposes into entries and none is custom.
#[verifier::external_body]
pub(crate) fn value_table_columns(v: &nu_protocol::Value) -> (r: Option<Vec<String>>)
    ensures
        r is Some <==> table_columns_of(*v) is Some,
        r matches Some(cols) ==> table_columns_of(*v) == Some(cols.deep_view()),
        r is Some ==> list_rows_of(*v) is Some,
        r is Some ==> forall|i: int|
            0 <= i < list_rows_of(*v)->Some_0.len() ==> record_entries_of(
                #[trigger] list_rows_of(*v)->Some_0[i],
            ) is Some && !is_custom(list_rows_of(*v)->Some_0[i]),
{
    match v.get_type() {
        nu_protocol::Type::Table(cols) => Some(cols.iter().map(|(name, _)| name.clone()).collect()),
        _ => None,
    }
}

/// Relies on `nu_protocol::Value::span`: the span stored in the value.
#[verifier::external_body]
pub(crate) fn value_span(v: &nu_protocol::Value) -> (r: Span)
    ensures
        r == span_of(*v),
{
    let s = v.span();
    Span { start: s.start, end: s.end }
}

/// Relies on `nu_protocol::Value::into_list`: a list value yields its
/// elements in order; every other value is refused. A list whose storage
/// is shared is extracted by cloning each element, and a clone is exact
/// except for a custom element, so each non-custom element is handed
/// over unchanged; of a custom element only its place is promised.
#[verifier::external_body]
pub(crate) fn value_into_list(v: nu_protocol::Value) -> (r: Option<Vec<nu_protocol::Value>>)
    ensures
        r is Some <==> list_rows_of(v) is Some,
        r matches Some(items) ==> items@.len() == list_rows_of(v)->Some_0.len(),
        r matches Some(items) ==> forall|i: int|
            0 <= i < items@.len() && !is_custom(list_rows_of(v)->Some_0[i]) ==> (
            #[trigger] items@[i]) == list_rows_of(v)->Some_0[i],
{
    v.into_list().ok()
}

/// Relies on `nu_protocol::Value::into_record` and `Record`'s iteration: a
/// record value yields its (column name, value) entries in order; every
/// other value is refused. A record value's declared type is a record
/// type, never table-shaped, and no list extraction accepts it. A record
/// whose storage is shared is extracted by cloning each entry: the keys
/// are plain strings and come over exactly, and each non-custom entry
/// value comes over unchanged; of a custom entry value only its place is
/// promised.
#[verifier::external_body]
pub(crate) fn value_into_record(v: nu_protocol::Value) -> (r: Option<
    Vec<(String, nu_protocol::Value)>,
>)
    ensures
        r is Some <==> record_entries_of(v) is Some,
        r is Some ==> table_columns_of(v) is None && list_rows_of(v) is None,
        r matches Some(entries) ==> entries@.len() == record_entries_of(v)->Some_0.len(),
        r matches Some(entries) ==> forall|j: int|
            0 <= j < entries@.len() ==> (#[trigger] entries@[j]).0@ == record_entries_of(
                v,
            )->Some_0[j].0,
        r matches Some(entries) ==> forall|j: int|
            0 <= j < entries@.len() && !is_custom(record_entries_of(v)->Some_0[j].1) ==> (
            #[trigger] entries@[j]).1 == record_entries_of(v)->Some_0[j].1,
{
    v.into_record().ok().map(|record| record.into_iter().collect())
}

/// Relies on `nu_protocol::Value::test_nothing`: it builds the nothing
/// value at `Span::test_data()`, whose start and end are `usize::MAX / 2`.
/// A nothing value holds a span and nothing else, so it is not custom.
#[verifier::external_body]
pub(crate) fn missing_value() -> (r: nu_protocol::Value)
    ensures
        r == nothing_at(missing_span()),
        !is_custom(r),
{
    nu_protocol::Value::test_nothing()
}

/// Relies on `nu_protocol::Value::record` and `Record`'s construction from
/// an ordered sequence of entries: the built value is a record holding
/// exactly the given entries in order, tagged with the given span. A
/// record value's declared type is a record type, never table-shaped,
/// and no list extraction accepts it.
#[verifier::external_body]
pub(crate) fn make_record_value(
    entries: Vec<(String, nu_protocol::Value)>,
    span: Span,
) -> (r: nu_protocol::Value)
    requires
        span.wf(),
    ensures
        record_entries_of(r) == Some(entries_view(entries@)),
        span_of(r) == span,
        table_columns_of(r) is None,
        list_rows_of(r) is None,
{
    nu_protocol::Value::record(
        entries.into_iter().collect(),
        nu_protocol::Span::new(span.start, span.end),
    )
}

/// Relies on `nu_protocol::Value::list`: the built value is a list holding
/// exactly the given elements in order, tagged with the given span.
#[verifier::external_body]
pub(crate) fn make_list_value(items: Vec<nu_protocol::Value>, span: Span) -> (r: nu_protocol::Value)
    requires
        span.wf(),
    ensures
        list_rows_of(r) == Some(items@),
        span_of(r) == span,
{
    nu_protocol::Value::list(items, nu_protocol::Span::new(span.start, span.end))
}

} // verus!
