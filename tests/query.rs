use gdcf_dbcache::query::insert_sql;
use gdcf_dbcache::sql::Backend;
use gdcf_dbcache::table::{Field, Table};
use gdcf_dbcache::value::SqlValue;

fn field(t: &str, n: &str) -> Field {
    Field::new(t.to_string(), n.to_string())
}

#[test]
fn eq_value_renders_per_backend() {
    let f = field("song", "song_id");
    let c = f.eq(SqlValue::Int(5));
    assert_eq!(c.to_sql_unprepared(Backend::Postgres), "\"song\".\"song_id\" = 5");
    assert_eq!(c.to_sql_unprepared(Backend::Sqlite), "\"song\".\"song_id\" = 5");
    assert_eq!(c.to_sql_unprepared(Backend::MySql), "`song`.`song_id` = 5");
}

#[test]
fn eq_value_against_null_uses_is_null() {
    let f = field("song", "alt_artist");
    let c = f.eq(SqlValue::Null);
    assert_eq!(c.to_sql_unprepared(Backend::Postgres), "\"song\".\"alt_artist\" IS NULL");
}

#[test]
fn eq_field_renders_both_sides() {
    let a = field("song", "id");
    let b = field("level", "song_id");
    let c = a.same_as(&b);
    assert_eq!(c.to_sql_unprepared(Backend::MySql), "`song`.`id` = `level`.`song_id`");
}

#[test]
fn text_literal_doubles_quotes() {
    let f = field("song", "name");
    let c = f.eq(SqlValue::Text("it's".to_string()));
    assert_eq!(c.to_sql_unprepared(Backend::Postgres), "\"song\".\"name\" = 'it''s'");
}

#[test]
fn identifier_quote_is_doubled() {
    let f = field("so\"ng", "na`me");
    let c = f.eq(SqlValue::Bool(true));
    assert_eq!(c.to_sql_unprepared(Backend::Postgres), "\"so\"\"ng\".\"na`me\" = TRUE");
    assert_eq!(c.to_sql_unprepared(Backend::MySql), "`so\"ng`.`na``me` = TRUE");
}

#[test]
fn integer_literals_cover_extremes() {
    let f = field("t", "c");
    assert_eq!(f.eq(SqlValue::Int(i64::MIN)).to_sql_unprepared(Backend::Sqlite), "\"t\".\"c\" = -9223372036854775808");
    assert_eq!(f.eq(SqlValue::UInt(u64::MAX)).to_sql_unprepared(Backend::MySql), "`t`.`c` = 18446744073709551615");
    assert_eq!(f.eq(SqlValue::SmallInt(-7)).to_sql_unprepared(Backend::Sqlite), "\"t\".\"c\" = -7");
    assert_eq!(f.eq(SqlValue::Int(0)).to_sql_unprepared(Backend::Sqlite), "\"t\".\"c\" = 0");
    assert_eq!(f.eq(SqlValue::Bool(false)).to_sql_unprepared(Backend::Sqlite), "\"t\".\"c\" = FALSE");
}

#[test]
fn insert_lists_columns_and_values_in_order() {
    let t = Table::new("song".to_string(), vec!["id".to_string(), "name".to_string()]).unwrap();
    let sets = vec![t.fields()[0].set_default(), t.fields()[1].set(SqlValue::Text("x".to_string()))];
    assert_eq!(
        insert_sql(Backend::Postgres, t.name(), &sets),
        "INSERT INTO \"song\" (\"id\", \"name\") VALUES (DEFAULT, 'x')"
    );
    let again = insert_sql(Backend::Postgres, t.name(), &sets);
    assert_eq!(again, insert_sql(Backend::Postgres, t.name(), &sets));
}

#[test]
fn insert_with_no_assignments() {
    assert_eq!(insert_sql(Backend::MySql, "t", &Vec::new()), "INSERT INTO `t` () VALUES ()");
}
