use dualtable::{ColMajorTable, RowMajorTable, Span};
use nu_protocol::{Record, Value};

fn record_of(pairs: Vec<(&str, Value)>) -> Value {
    let record: Record = pairs
        .into_iter()
        .map(|(key, val)| (key.to_string(), val))
        .collect();
    Value::test_record(record)
}

/// Three rows over the columns `["index", "dec"]`.
fn sample_table_value() -> Value {
    Value::test_list(vec![
        record_of(vec![("index", Value::test_int(0)), ("dec", Value::test_string("0"))]),
        record_of(vec![("index", Value::test_int(1)), ("dec", Value::test_string("1"))]),
        record_of(vec![("index", Value::test_int(2)), ("dec", Value::test_string("2"))]),
    ])
}

fn square_of_index(index: Option<&Value>) -> Value {
    let index = index.expect("index column present").as_int().expect("an int");
    Value::test_int(index * index)
}

#[test]
fn scenario_a_row_major() {
    let mut table = RowMajorTable::from_value(sample_table_value()).expect("table-shaped");
    assert_eq!(table.columns(), &vec!["index".to_string(), "dec".to_string()]);
    assert_eq!(
        table.get_row(1).expect("row 1").get_named("index"),
        Some(&Value::test_int(1))
    );
    table.insert("sq", |row| square_of_index(row.get_named("index")));
    assert_eq!(
        table.get_row(2).expect("row 2").get_named("sq"),
        Some(&Value::test_int(4))
    );
    assert_eq!(
        table.columns(),
        &vec!["index".to_string(), "dec".to_string(), "sq".to_string()]
    );
}

#[test]
fn scenario_a_col_major() {
    let mut table = ColMajorTable::from_value(sample_table_value()).expect("table-shaped");
    assert_eq!(table.columns(), &vec!["index".to_string(), "dec".to_string()]);
    assert_eq!(
        table.get_row(1).expect("row 1").get_named("index"),
        Some(&Value::test_int(1))
    );
    table.insert("sq", |row| square_of_index(row.get_named("index")));
    assert_eq!(
        table.get_row(2).expect("row 2").get_named("sq"),
        Some(&Value::test_int(4))
    );
    assert_eq!(
        table.columns(),
        &vec!["index".to_string(), "dec".to_string(), "sq".to_string()]
    );
}

#[test]
fn scenario_b_unmatched_keys_are_dropped() {
    // With this value library, a list's table schema is the set of keys
    // every row shares, so a key one row lacks leaves the schema and is
    // silently dropped from the rows that carry it; construction succeeds.
    let input = Value::test_list(vec![
        record_of(vec![("index", Value::test_int(0)), ("dec", Value::test_string("0"))]),
        record_of(vec![("index", Value::test_int(5))]),
    ]);
    let table = RowMajorTable::from_value(input.clone()).expect("construction succeeds");
    assert_eq!(table.columns(), &vec!["index".to_string()]);
    let row = table.get_row(1).expect("row 1");
    assert_eq!(row.get_named("index"), Some(&Value::test_int(5)));
    assert_eq!(row.get_named("dec"), None);

    let table = ColMajorTable::from_value(input).expect("construction succeeds");
    assert_eq!(table.columns(), &vec!["index".to_string()]);
    let row = table.get_row(0).expect("row 0");
    assert_eq!(row.get_named("dec"), None);
}

#[test]
fn scenario_c_single_record_is_refused() {
    let input = record_of(vec![("index", Value::test_int(5))]);
    let err = RowMajorTable::from_value(input.clone()).expect_err("not a list");
    assert_eq!(err.message, "expected table".to_string());
    assert_eq!(err.span, Span::new(usize::MAX / 2, usize::MAX / 2));

    let err = ColMajorTable::from_value(input).expect_err("not a list");
    assert_eq!(err.message, "expected table".to_string());
    assert_eq!(err.span, Span::new(usize::MAX / 2, usize::MAX / 2));
}

#[test]
fn non_table_scalars_are_refused() {
    let err = RowMajorTable::from_value(Value::test_int(3)).expect_err("not a table");
    assert_eq!(err.message, "expected table".to_string());
    let err = ColMajorTable::from_value(Value::test_string("x")).expect_err("not a table");
    assert_eq!(err.message, "expected table".to_string());
}

#[test]
fn round_trip_row_major() {
    let table = RowMajorTable::from_value(sample_table_value()).expect("table-shaped");
    let exported = table.to_list_of_records(Span::new(7, 9));
    assert_eq!(exported.span(), nu_protocol::Span::new(7, 9));
    let rows = exported.into_list().expect("a list");
    assert_eq!(rows.len(), 3);
    for (i, row) in rows.into_iter().enumerate() {
        assert_eq!(row.span(), nu_protocol::Span::new(7, 9));
        let record = row.into_record().expect("a record");
        let entries: Vec<(String, Value)> = record.into_iter().collect();
        assert_eq!(
            entries,
            vec![
                ("index".to_string(), Value::test_int(i as i64)),
                ("dec".to_string(), Value::test_string(i.to_string())),
            ]
        );
    }
}

#[test]
fn round_trip_col_major() {
    let table = ColMajorTable::from_value(sample_table_value()).expect("table-shaped");
    let exported = table.into_value(Span::new(0, 4));
    let rows = exported.into_list().expect("a list");
    assert_eq!(rows.len(), 3);
    for (i, row) in rows.into_iter().enumerate() {
        let record = row.into_record().expect("a record");
        let entries: Vec<(String, Value)> = record.into_iter().collect();
        assert_eq!(
            entries,
            vec![
                ("index".to_string(), Value::test_int(i as i64)),
                ("dec".to_string(), Value::test_string(i.to_string())),
            ]
        );
    }
}

#[test]
fn layout_equivalence() {
    let row_table = RowMajorTable::from_value(sample_table_value()).expect("table-shaped");
    let col_table = ColMajorTable::from_value(sample_table_value()).expect("table-shaped");
    assert_eq!(row_table.columns(), col_table.columns());
    for i in 0..3 {
        let row_record = row_table.get_row(i).expect("in range").to_record();
        let col_record = col_table.get_row(i).expect("in range").to_record();
        assert_eq!(row_record, col_record);
    }
    assert!(row_table.get_row(3).is_none());
    assert!(col_table.get_row(3).is_none());
}

#[test]
fn get_row_bounds() {
    let table = RowMajorTable::from_value(sample_table_value()).expect("table-shaped");
    assert!(table.get_row(0).is_some());
    assert!(table.get_row(2).is_some());
    assert!(table.get_row(3).is_none());
    assert!(table.get_row(usize::MAX).is_none());

    let table = ColMajorTable::from_value(sample_table_value()).expect("table-shaped");
    assert!(table.get_row(0).is_some());
    assert!(table.get_row(2).is_some());
    assert!(table.get_row(3).is_none());
    assert!(table.get_row(usize::MAX).is_none());
}

#[test]
fn insert_keeps_existing_values() {
    let mut table = RowMajorTable::from_value(sample_table_value()).expect("table-shaped");
    let before: Vec<Vec<(String, Value)>> =
        (0..3).map(|i| table.get_row(i).unwrap().to_record()).collect();
    table.insert("sq", |row| square_of_index(row.get_named("index")));
    for (i, old_record) in before.iter().enumerate() {
        let new_record = table.get_row(i).unwrap().to_record();
        assert_eq!(new_record.len(), old_record.len() + 1);
        assert_eq!(&new_record[..old_record.len()], &old_record[..]);
        assert_eq!(
            new_record.last().unwrap(),
            &("sq".to_string(), Value::test_int((i * i) as i64))
        );
    }

    let mut table = ColMajorTable::from_value(sample_table_value()).expect("table-shaped");
    table.insert("sq", |row| square_of_index(row.get_named("index")));
    for i in 0..3 {
        let record = table.get_row(i).unwrap().to_record();
        assert_eq!(record.len(), 3);
        assert_eq!(
            record.last().unwrap(),
            &("sq".to_string(), Value::test_int((i * i) as i64))
        );
    }
}

#[test]
fn insert_duplicate_name_appends() {
    let mut table = RowMajorTable::from_value(sample_table_value()).expect("table-shaped");
    table.insert("index", |_row| Value::test_int(99));
    assert_eq!(
        table.columns(),
        &vec!["index".to_string(), "dec".to_string(), "index".to_string()]
    );
    // A name scan still finds the first matching column.
    assert_eq!(
        table.get_row(1).unwrap().get_named("index"),
        Some(&Value::test_int(1))
    );
    // The appended column is reachable by position.
    assert_eq!(
        table.get_row(1).unwrap().get_index(2),
        Some(&Value::test_int(99))
    );
}

#[test]
fn iteration_yields_all_rows_in_order() {
    let table = RowMajorTable::from_value(sample_table_value()).expect("table-shaped");
    let mut iter = table.iter();
    assert_eq!(iter.size_hint(), (3, Some(3)));
    let mut count: usize = 0;
    while let Some(row) = iter.next() {
        assert_eq!(row.to_record(), table.get_row(count).unwrap().to_record());
        count += 1;
    }
    assert_eq!(count, 3);
    assert_eq!(iter.size_hint(), (0, Some(0)));

    let table = ColMajorTable::from_value(sample_table_value()).expect("table-shaped");
    let mut iter = table.iter();
    assert_eq!(iter.size_hint(), (3, Some(3)));
    let mut count: usize = 0;
    while let Some(row) = iter.next() {
        assert_eq!(row.to_record(), table.get_row(count).unwrap().to_record());
        count += 1;
    }
    assert_eq!(count, 3);
    // This layout reports its cached row count however far the cursor is.
    assert_eq!(iter.size_hint(), (3, Some(3)));
    assert!(iter.next().is_none());
}

#[test]
fn row_views_by_position() {
    let table = RowMajorTable::from_value(sample_table_value()).expect("table-shaped");
    let row = table.get_row(2).expect("row 2");
    assert_eq!(row.get_index(0), Some(&Value::test_int(2)));
    assert_eq!(row.get_index(1), Some(&Value::test_string("2")));
    assert_eq!(row.get_index(2), None);
    assert_eq!(row.get_named("missing"), None);

    let table = ColMajorTable::from_value(sample_table_value()).expect("table-shaped");
    let row = table.get_row(2).expect("row 2");
    assert_eq!(row.get_index(0), Some(&Value::test_int(2)));
    assert_eq!(row.get_index(1), Some(&Value::test_string("2")));
    assert_eq!(row.get_index(2), None);
    assert_eq!(row.get_named("missing"), None);
}

#[test]
fn empty_list_is_not_table_shaped() {
    // An empty list's declared type carries no column schema, so
    // construction refuses it rather than producing a zero-row table.
    let input = Value::test_list(vec![]);
    assert!(RowMajorTable::from_value(input.clone()).is_err());
    assert!(ColMajorTable::from_value(input).is_err());
}

#[test]
fn key_order_differs_from_schema_order() {
    // The schema's column order wins over the order keys appear in a row.
    let input = Value::test_list(vec![
        record_of(vec![("index", Value::test_int(1)), ("dec", Value::test_string("1"))]),
        record_of(vec![("dec", Value::test_string("2")), ("index", Value::test_int(2))]),
    ]);
    let table = RowMajorTable::from_value(input.clone()).expect("table-shaped");
    let record = table.get_row(1).expect("row 1").to_record();
    assert_eq!(record[0], ("index".to_string(), Value::test_int(2)));
    assert_eq!(record[1], ("dec".to_string(), Value::test_string("2")));

    let table = ColMajorTable::from_value(input).expect("table-shaped");
    let record = table.get_row(1).expect("row 1").to_record();
    assert_eq!(record[0], ("index".to_string(), Value::test_int(2)));
    assert_eq!(record[1], ("dec".to_string(), Value::test_string("2")));
}

#[test]
fn build_row_fills_missing_slots_with_placeholder() {
    // One constructed row, on its own: a schema column the entries leave
    // out holds the missing placeholder, and unknown keys are dropped.
    let columns = vec!["index".to_string(), "dec".to_string()];
    let entries = vec![
        ("index".to_string(), Value::test_int(5)),
        ("unknown".to_string(), Value::test_string("x")),
    ];
    let row = dualtable::model::build_row(&columns, entries);
    assert_eq!(row.len(), 2);
    assert_eq!(row[0], Value::test_int(5));
    assert_eq!(row[1], Value::test_nothing());
}

#[test]
fn find_column_scans_for_first_match() {
    let columns = vec!["a".to_string(), "b".to_string(), "a".to_string()];
    assert_eq!(dualtable::model::find_column(&columns, "a"), Some(0));
    assert_eq!(dualtable::model::find_column(&columns, "b"), Some(1));
    assert_eq!(dualtable::model::find_column(&columns, "c"), None);
}
