use gdcf_dbcache::create::{constraints_from, BuildError, Column, Constraint, ConstraintKind, SqlType};
use gdcf_dbcache::sql::Backend;
use gdcf_dbcache::table::Table;
use gdcf_dbcache::value::SqlValue;

fn kinds(cs: &[Constraint]) -> Vec<ConstraintKind> {
    cs.iter().map(|c| c.kind()).collect()
}

#[test]
fn unique_not_null_integer_column() {
    let col = Column::new("song_id".to_string(), SqlType::Integer, &vec![Constraint::Unique, Constraint::NotNull]);
    let text = col.to_sql_unprepared(Backend::Postgres).unwrap();
    assert_eq!(text.matches("UNIQUE").count(), 1);
    assert_eq!(text.matches("NOT NULL").count(), 1);
    assert_eq!(text, "\"song_id\" INTEGER UNIQUE NOT NULL");
}

#[test]
fn repeated_modifiers_give_one_constraint_each() {
    let cs = constraints_from(&vec![Constraint::NotNull, Constraint::Unique, Constraint::NotNull, Constraint::Unique]);
    assert_eq!(kinds(&cs), vec![ConstraintKind::NotNull, ConstraintKind::Unique]);
}

#[test]
fn modifier_order_does_not_change_the_kinds() {
    let a = constraints_from(&vec![Constraint::PrimaryKey, Constraint::NotNull, Constraint::Unique]);
    let b = constraints_from(&vec![Constraint::Unique, Constraint::PrimaryKey, Constraint::NotNull]);
    let mut ka = kinds(&a);
    let mut kb = kinds(&b);
    ka.sort_by_key(|k| format!("{:?}", k));
    kb.sort_by_key(|k| format!("{:?}", k));
    assert_eq!(ka, kb);
    assert_eq!(ka.len(), 3);
}

#[test]
fn no_modifiers_give_no_constraints() {
    assert!(constraints_from(&Vec::new()).is_empty());
    let col = Column::new("name".to_string(), SqlType::Text, &Vec::new());
    assert_eq!(col.to_sql_unprepared(Backend::Sqlite).unwrap(), "\"name\" TEXT");
}

#[test]
fn default_constraint_renders_its_literal() {
    let col = Column::new("banned".to_string(), SqlType::SmallInt, &vec![Constraint::Default(SqlValue::SmallInt(0))]);
    assert_eq!(col.to_sql_unprepared(Backend::Sqlite).unwrap(), "\"banned\" SMALLINT DEFAULT 0");
}

#[test]
fn create_statement_lists_columns_in_order() {
    let t = Table::new("song".to_string(), vec!["id".to_string(), "name".to_string()]).unwrap();
    let c = t
        .create()
        .with_column(Column::new("id".to_string(), SqlType::BigInt, &vec![Constraint::PrimaryKey]))
        .with_column(Column::new("name".to_string(), SqlType::Text, &vec![Constraint::NotNull]));
    assert_eq!(
        c.to_sql_unprepared(Backend::Postgres).unwrap(),
        "CREATE TABLE \"song\" (\"id\" BIGINT PRIMARY KEY, \"name\" TEXT NOT NULL)"
    );
    assert_eq!(
        c.to_sql_unprepared(Backend::MySql).unwrap(),
        "CREATE TABLE `song` (`id` BIGINT PRIMARY KEY, `name` TEXT NOT NULL)"
    );
}

#[test]
fn unsigned_column_exists_only_on_mysql() {
    let t = Table::new("song".to_string(), vec!["id".to_string()]).unwrap();
    let c = t.create().with_column(Column::new("id".to_string(), SqlType::UnsignedBigInt, &Vec::new()));
    assert!(matches!(c.to_sql_unprepared(Backend::Postgres), Err(BuildError::UnsupportedType)));
    assert!(matches!(c.to_sql_unprepared(Backend::Sqlite), Err(BuildError::UnsupportedType)));
    assert_eq!(c.to_sql_unprepared(Backend::MySql).unwrap(), "CREATE TABLE `song` (`id` BIGINT UNSIGNED)");
}

#[test]
fn timestamp_name_differs_by_backend() {
    let col = Column::new("at".to_string(), SqlType::Timestamp, &Vec::new());
    assert_eq!(col.to_sql_unprepared(Backend::Postgres).unwrap(), "\"at\" TIMESTAMP");
    assert_eq!(col.to_sql_unprepared(Backend::MySql).unwrap(), "`at` DATETIME");
}
