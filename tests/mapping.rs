use gdcf_dbcache::mapping::{decode, encode, from_row, kinds_of, row_from, values, FieldData, FieldKind, MappingError};
use gdcf_dbcache::sql::Backend;
use gdcf_dbcache::table::Table;
use gdcf_dbcache::value::SqlValue;

fn song_table() -> Table {
    Table::new("song".to_string(), vec!["id".to_string(), "name".to_string(), "alt_name".to_string()]).unwrap()
}

fn song(id: u64, alt: Option<&str>) -> Vec<FieldData> {
    vec![
        FieldData::U64(id),
        FieldData::Text("Level".to_string()),
        FieldData::OptText(alt.map(|a| a.to_string())),
    ]
}

#[test]
fn absent_optional_field_is_left_out() {
    let t = song_table();
    let sets = values(Backend::Postgres, &t, &song(7, None)).unwrap();
    assert_eq!(sets.len(), 2);
    assert_eq!(sets[0].field.name(), "id");
    assert_eq!(sets[1].field.name(), "name");
}

#[test]
fn present_optional_field_is_written() {
    let t = song_table();
    let sets = values(Backend::Postgres, &t, &song(7, Some("x"))).unwrap();
    assert_eq!(sets.len(), 3);
    assert_eq!(sets[2].field.name(), "alt_name");
}

#[test]
fn max_unsigned_is_refused_by_signed_backends() {
    let d = FieldData::U64(18446744073709551615);
    assert!(matches!(encode(Backend::Postgres, &d), Err(MappingError::OutOfRange)));
    assert!(matches!(encode(Backend::Sqlite, &d), Err(MappingError::OutOfRange)));
    assert!(matches!(encode(Backend::MySql, &d), Ok(Some(SqlValue::UInt(18446744073709551615)))));
    let t = song_table();
    assert!(matches!(values(Backend::Postgres, &t, &song(u64::MAX, None)), Err(MappingError::OutOfRange)));
}

#[test]
fn largest_signed_value_fits() {
    let d = FieldData::U64(i64::MAX as u64);
    assert!(matches!(encode(Backend::Postgres, &d), Ok(Some(SqlValue::Int(i64::MAX)))));
}

#[test]
fn booleans_are_small_integers_on_sqlite() {
    assert!(matches!(encode(Backend::Sqlite, &FieldData::Bool(true)), Ok(Some(SqlValue::SmallInt(1)))));
    assert!(matches!(encode(Backend::Postgres, &FieldData::Bool(true)), Ok(Some(SqlValue::Bool(true)))));
    assert!(matches!(decode(FieldKind::Bool, &SqlValue::SmallInt(0)), Ok(FieldData::Bool(false))));
    assert!(matches!(decode(FieldKind::Bool, &SqlValue::SmallInt(2)), Err(MappingError::OutOfRange)));
}

#[test]
fn negative_column_is_refused_for_unsigned_field() {
    assert!(matches!(decode(FieldKind::U64, &SqlValue::Int(-1)), Err(MappingError::OutOfRange)));
    assert!(matches!(decode(FieldKind::I64, &SqlValue::UInt(u64::MAX)), Err(MappingError::OutOfRange)));
}

#[test]
fn wrong_scalar_type_is_a_mismatch() {
    assert!(matches!(decode(FieldKind::Text, &SqlValue::Int(1)), Err(MappingError::TypeMismatch)));
    assert!(matches!(decode(FieldKind::U64, &SqlValue::Null), Err(MappingError::TypeMismatch)));
}

fn round_trip(b: Backend, rec: Vec<FieldData>) {
    let t = song_table();
    let sets = values(b, &t, &rec).unwrap();
    let row = row_from(&t, &sets);
    assert_eq!(row.len(), 3);
    let back = from_row(&kinds_of(&rec), &row, 0).unwrap();
    assert_eq!(back.len(), rec.len());
    for (x, y) in back.iter().zip(rec.iter()) {
        match (x, y) {
            (FieldData::U64(a), FieldData::U64(b)) => assert_eq!(a, b),
            (FieldData::Text(a), FieldData::Text(b)) => assert_eq!(a, b),
            (FieldData::OptText(a), FieldData::OptText(b)) => assert_eq!(a, b),
            _ => panic!("field kinds differ"),
        }
    }
}

#[test]
fn records_round_trip_on_every_backend() {
    for b in [Backend::Postgres, Backend::Sqlite, Backend::MySql] {
        round_trip(b, song(7, None));
        round_trip(b, song(9, Some("alt")));
    }
    round_trip(Backend::MySql, song(u64::MAX, Some("big")));
}

#[test]
fn absent_field_reads_back_from_null_column() {
    let t = song_table();
    let sets = values(Backend::Sqlite, &t, &song(1, None)).unwrap();
    let row = row_from(&t, &sets);
    assert!(matches!(row[2], SqlValue::Null));
    assert!(matches!(row[0], SqlValue::Int(1)));
}

#[test]
fn from_row_reads_from_offset() {
    let row = vec![SqlValue::Text("skip".to_string()), SqlValue::Int(4), SqlValue::Text("n".to_string())];
    let rec = from_row(&vec![FieldKind::U64, FieldKind::Text], &row, 1).unwrap();
    assert!(matches!(rec[0], FieldData::U64(4)));
    assert!(matches!(&rec[1], FieldData::Text(s) if s == "n"));
    let bad = from_row(&vec![FieldKind::U64, FieldKind::Text], &row, 0);
    assert!(matches!(bad, Err(MappingError::TypeMismatch)));
}
