use gdcf_dbcache::table::{Field, FieldValue, SchemaError, Table};
use gdcf_dbcache::value::SqlValue;

fn names(cols: &[&str]) -> Vec<String> {
    cols.iter().map(|c| c.to_string()).collect()
}

#[test]
fn table_rejects_duplicate_column_names() {
    let r = Table::new("song".to_string(), names(&["id", "name", "id"]));
    assert!(matches!(r, Err(SchemaError::DuplicateColumn)));
}

#[test]
fn table_keeps_columns_in_order() {
    let t = Table::new("song".to_string(), names(&["id", "name", "alt_name"])).unwrap();
    assert_eq!(t.name(), "song");
    let fs = t.fields();
    assert_eq!(fs.len(), 3);
    assert_eq!(fs[0].name(), "id");
    assert_eq!(fs[2].name(), "alt_name");
    for f in fs.iter() {
        assert_eq!(f.table, "song");
    }
    for i in 0..fs.len() {
        for j in (i + 1)..fs.len() {
            assert!(!fs[i].same_identity(&fs[j]));
        }
    }
}

#[test]
fn empty_table_is_accepted() {
    let t = Table::new("empty".to_string(), Vec::new()).unwrap();
    assert_eq!(t.fields().len(), 0);
}

#[test]
fn qualified_name_joins_table_and_column() {
    let f = Field::new("song".to_string(), "artist".to_string());
    assert_eq!(f.qualified_name(), "song.artist");
    assert_eq!(f.name(), "artist");
}

#[test]
fn same_identity_compares_table_and_name() {
    let a = Field::new("song".to_string(), "id".to_string());
    let b = Field::new("song".to_string(), "id".to_string());
    let c = Field::new("level".to_string(), "id".to_string());
    assert!(a.same_identity(&b));
    assert!(!a.same_identity(&c));
}

#[test]
fn field_value_tags() {
    let f = Field::new("song".to_string(), "id".to_string());
    let d = f.set_default();
    assert!(d.value.is_default());
    assert!(!d.value.is_value());
    let v = f.set(SqlValue::Int(3));
    assert!(v.value.is_value());
    assert!(!v.value.is_default());
    assert!(FieldValue::from(SqlValue::Null).is_value());
}
