use rorm_sql::alter_table::AlterTableOperation;
use rorm_sql::create_trigger::{SQLCreateTriggerOperation, SQLCreateTriggerPointInTime};
use rorm_sql::conditional::{BinaryOperator, Condition};
use rorm_sql::create_column::{Annotation, DbType, ReferentialAction};
use rorm_sql::create_table::TableConstraint;
use rorm_sql::error::{Error, Feature, Malformed};
use rorm_sql::on_conflict::OnConflict;
use rorm_sql::value::Value;
use rorm_sql::DBImpl;

fn s(x: &str) -> String {
    x.to_string()
}

fn users_table(d: DBImpl) -> (String, Vec<Value>) {
    d.create_table("users")
        .add_column(d.create_column("users", "id", DbType::Int64, vec![Annotation::PrimaryKey]))
        .add_column(d.create_column("users", "name", DbType::VarChar, vec![Annotation::NotNull]))
        .build()
        .unwrap()
}

#[test]
fn create_table_scenario() {
    let (sql, params) = users_table(DBImpl::SQLite);
    assert_eq!(sql, "CREATE TABLE \"users\" (\"id\" INTEGER PRIMARY KEY, \"name\" TEXT NOT NULL)");
    assert!(!sql.contains("IF NOT EXISTS"));
    assert!(params.is_empty());
}

#[test]
fn create_table_if_not_exists() {
    let d = DBImpl::Postgres;
    let (sql, _) = d
        .create_table("t")
        .if_not_exists()
        .add_column(d.create_column("t", "a", DbType::Int32, vec![]))
        .build()
        .unwrap();
    assert_eq!(sql, "CREATE TABLE IF NOT EXISTS \"t\" (\"a\" INTEGER)");
}

#[test]
fn create_table_without_columns() {
    let r = DBImpl::SQLite.create_table("t").build();
    assert_eq!(r.unwrap_err(), Error::MalformedRequest(Malformed::NoColumns));
}

#[test]
fn create_table_dialects_diverge() {
    let (a, pa) = users_table(DBImpl::SQLite);
    let (b, pb) = users_table(DBImpl::Postgres);
    let (c, pc) = users_table(DBImpl::MySQL);
    assert_eq!(a, "CREATE TABLE \"users\" (\"id\" INTEGER PRIMARY KEY, \"name\" TEXT NOT NULL)");
    assert_eq!(b, "CREATE TABLE \"users\" (\"id\" BIGINT PRIMARY KEY, \"name\" TEXT NOT NULL)");
    assert_eq!(c, "CREATE TABLE `users` (`id` BIGINT PRIMARY KEY, `name` TEXT NOT NULL)");
    assert_eq!(pa, pb);
    assert_eq!(pb, pc);
    for t in [&a, &b, &c] {
        assert_eq!(t.matches(", ").count(), 1);
    }
}

#[test]
fn primary_key_comes_first() {
    let orders = vec![
        vec![Annotation::NotNull, Annotation::Unique, Annotation::PrimaryKey],
        vec![Annotation::Unique, Annotation::PrimaryKey, Annotation::NotNull],
        vec![Annotation::PrimaryKey, Annotation::NotNull, Annotation::Unique],
    ];
    let expected = [
        "CREATE TABLE \"t\" (\"a\" INTEGER PRIMARY KEY NOT NULL UNIQUE)",
        "CREATE TABLE \"t\" (\"a\" INTEGER PRIMARY KEY UNIQUE NOT NULL)",
        "CREATE TABLE \"t\" (\"a\" INTEGER PRIMARY KEY NOT NULL UNIQUE)",
    ];
    for (anns, want) in orders.into_iter().zip(expected) {
        let d = DBImpl::SQLite;
        let (sql, _) = d
            .create_table("t")
            .add_column(d.create_column("t", "a", DbType::Int32, anns))
            .build()
            .unwrap();
        assert_eq!(sql, want);
    }
}

#[test]
fn column_annotations_per_dialect() {
    let cols = |d: DBImpl| {
        d.create_table("t")
            .add_column(d.create_column(
                "t",
                "id",
                DbType::Int64,
                vec![Annotation::AutoIncrement, Annotation::PrimaryKey],
            ))
            .add_column(d.create_column(
                "t",
                "name",
                DbType::VarChar,
                vec![Annotation::MaxLength(255), Annotation::DefaultValue(Value::String(s("x")))],
            ))
            .add_column(d.create_column(
                "t",
                "owner",
                DbType::Int64,
                vec![Annotation::ForeignKey(
                    s("user"),
                    s("id"),
                    ReferentialAction::Cascade,
                    ReferentialAction::SetNull,
                )],
            ))
            .build()
            .unwrap()
    };
    let (a, pa) = cols(DBImpl::SQLite);
    assert_eq!(
        a,
        "CREATE TABLE \"t\" (\"id\" INTEGER PRIMARY KEY AUTOINCREMENT, \"name\" TEXT DEFAULT ?, \"owner\" INTEGER REFERENCES \"user\"(\"id\") ON DELETE CASCADE ON UPDATE SET NULL)"
    );
    assert_eq!(pa, vec![Value::String(s("x"))]);
    let (b, _) = cols(DBImpl::Postgres);
    assert_eq!(
        b,
        "CREATE TABLE \"t\" (\"id\" BIGINT PRIMARY KEY GENERATED BY DEFAULT AS IDENTITY, \"name\" VARCHAR(255) DEFAULT $1, \"owner\" BIGINT REFERENCES \"user\"(\"id\") ON DELETE CASCADE ON UPDATE SET NULL)"
    );
    let (c, _) = cols(DBImpl::MySQL);
    assert_eq!(
        c,
        "CREATE TABLE `t` (`id` BIGINT PRIMARY KEY AUTO_INCREMENT, `name` VARCHAR(255) DEFAULT ?, `owner` BIGINT REFERENCES `user`(`id`) ON DELETE CASCADE ON UPDATE SET NULL)"
    );
}

#[test]
fn type_keywords() {
    let d = DBImpl::MySQL;
    let (sql, _) = d
        .create_table("t")
        .add_column(d.create_column("t", "a", DbType::Binary, vec![]))
        .add_column(d.create_column("t", "b", DbType::Double, vec![]))
        .add_column(d.create_column("t", "c", DbType::DateTime, vec![]))
        .add_column(d.create_column("t", "e", DbType::Boolean, vec![]))
        .build()
        .unwrap();
    assert_eq!(sql, "CREATE TABLE `t` (`a` LONGBLOB, `b` DOUBLE, `c` DATETIME, `e` BOOL)");
    let d = DBImpl::Postgres;
    let (sql, _) = d
        .create_table("t")
        .add_column(d.create_column("t", "a", DbType::Binary, vec![]))
        .add_column(d.create_column("t", "b", DbType::Double, vec![]))
        .add_column(d.create_column("t", "c", DbType::DateTime, vec![]))
        .add_column(d.create_column("t", "e", DbType::Int16, vec![]))
        .build()
        .unwrap();
    assert_eq!(sql, "CREATE TABLE \"t\" (\"a\" BYTEA, \"b\" DOUBLE PRECISION, \"c\" TIMESTAMP, \"e\" SMALLINT)");
}

#[test]
fn select_scenario() {
    let (sql, params) = DBImpl::SQLite
        .select(&["id", "name"], "users")
        .where_clause(Condition::BinaryValue(s("age"), BinaryOperator::GreaterOrEquals, Value::I64(18)))
        .build()
        .unwrap();
    assert_eq!(sql, "SELECT \"id\",\"name\" FROM \"users\" WHERE \"age\" >= ?");
    assert_eq!(sql.matches('?').count(), 1);
    assert_eq!(params, vec![Value::I64(18)]);
}

#[test]
fn select_errors() {
    let empty: [&str; 0] = [];
    let r = DBImpl::SQLite.select(&empty, "users").build();
    assert_eq!(r.unwrap_err(), Error::MalformedRequest(Malformed::NoColumns));
    let r = DBImpl::SQLite.select(&["a"], "").build();
    assert_eq!(r.unwrap_err(), Error::MalformedRequest(Malformed::NoFromClause));
}

#[test]
fn select_limit_offset_per_dialect() {
    let q = |d: DBImpl| d.select(&["a"], "t").offset_clause(5).build().unwrap().0;
    assert_eq!(q(DBImpl::SQLite), "SELECT \"a\" FROM \"t\" LIMIT -1 OFFSET 5");
    assert_eq!(q(DBImpl::MySQL), "SELECT `a` FROM `t` LIMIT 18446744073709551615 OFFSET 5");
    assert_eq!(q(DBImpl::Postgres), "SELECT \"a\" FROM \"t\" OFFSET 5");
    let (sql, _) = DBImpl::Postgres
        .select(&["a"], "t")
        .distinct()
        .limit_clause(1234567890)
        .offset_clause(20)
        .build()
        .unwrap();
    assert_eq!(sql, "SELECT DISTINCT \"a\" FROM \"t\" LIMIT 1234567890 OFFSET 20");
}

#[test]
fn nested_condition_numbering() {
    let cond = Condition::Conjunction(vec![
        Condition::BinaryValue(s("a"), BinaryOperator::Equals, Value::I32(1)),
        Condition::Disjunction(vec![
            Condition::IsNull(s("b")),
            Condition::In(s("c"), vec![Value::I16(2), Value::I16(3)]),
        ]),
        Condition::Not(Box::new(Condition::BinaryColumn(s("d"), BinaryOperator::Less, s("e")))),
    ]);
    let (sql, params) = DBImpl::Postgres.select(&["x"], "t").where_clause(cond).build().unwrap();
    assert_eq!(
        sql,
        "SELECT \"x\" FROM \"t\" WHERE (\"a\" = $1 AND (\"b\" IS NULL OR \"c\" IN ($2,$3)) AND NOT \"d\" < \"e\")"
    );
    assert_eq!(params, vec![Value::I32(1), Value::I16(2), Value::I16(3)]);
}

#[test]
fn placeholders_match_value_leaves() {
    let cond = || {
        Condition::Disjunction(vec![
            Condition::BinaryValue(s("a"), BinaryOperator::Like, Value::String(s("%x%"))),
            Condition::In(s("b"), vec![Value::Bool(true), Value::Null, Value::I64(-4)]),
            Condition::BinaryValue(s("c"), BinaryOperator::NotEquals, Value::Binary(vec![1, 2])),
        ])
    };
    let (sql, params) = DBImpl::SQLite.select(&["x"], "t").where_clause(cond()).build().unwrap();
    assert_eq!(sql.matches('?').count(), 5);
    assert_eq!(params.len(), 5);
    let (sql, params) = DBImpl::Postgres.select(&["x"], "t").where_clause(cond()).build().unwrap();
    assert_eq!(sql.matches('$').count(), 5);
    assert!(sql.contains("$5"));
    assert_eq!(params[4], Value::Binary(vec![1, 2]));
}

#[test]
fn empty_groups_and_raw() {
    let q = |c: Condition| DBImpl::SQLite.delete("t").where_clause(c).build();
    assert_eq!(q(Condition::Conjunction(vec![])).0, "DELETE FROM \"t\" WHERE 1=1");
    assert_eq!(q(Condition::Disjunction(vec![])).0, "DELETE FROM \"t\" WHERE 1=0");
    let (sql, params) = q(Condition::In(s("a"), vec![]));
    assert_eq!(sql, "DELETE FROM \"t\" WHERE 1=0");
    assert!(params.is_empty());
    assert_eq!(q(Condition::Raw(s("x > 2"))).0, "DELETE FROM \"t\" WHERE x > 2");
    assert_eq!(
        q(Condition::Conjunction(vec![Condition::IsNotNull(s("a"))])).0,
        "DELETE FROM \"t\" WHERE (\"a\" IS NOT NULL)"
    );
}

#[test]
fn delete_scenario() {
    let (sql, params) = DBImpl::SQLite.delete("t").build();
    assert_eq!(sql, "DELETE FROM \"t\"");
    assert!(params.is_empty());
    let (sql, params) = DBImpl::MySQL
        .delete("t")
        .where_clause(Condition::BinaryValue(s("id"), BinaryOperator::Greater, Value::I64(7)))
        .build();
    assert_eq!(sql, "DELETE FROM `t` WHERE `id` > ?");
    assert_eq!(params, vec![Value::I64(7)]);
}

fn two_rows() -> Vec<Vec<Value>> {
    vec![vec![Value::I64(1), Value::String(s("a"))], vec![Value::I64(2), Value::String(s("b"))]]
}

#[test]
fn insert_scenario() {
    let expected = vec![Value::I64(1), Value::String(s("a")), Value::I64(2), Value::String(s("b"))];
    let (sql, params) = DBImpl::SQLite.insert("users", &["id", "name"], two_rows()).build().unwrap();
    assert_eq!(sql, "INSERT OR ABORT INTO \"users\"(\"id\",\"name\") VALUES (?,?),(?,?)");
    assert_eq!(params, expected);
    let (sql, params) = DBImpl::Postgres.insert("users", &["id", "name"], two_rows()).build().unwrap();
    assert_eq!(sql, "INSERT INTO \"users\"(\"id\",\"name\") VALUES ($1,$2),($3,$4)");
    assert_eq!(params, expected);
    let (sql, _) = DBImpl::MySQL.insert("users", &["id", "name"], two_rows()).build().unwrap();
    assert_eq!(sql, "INSERT INTO `users`(`id`,`name`) VALUES (?,?),(?,?)");
}

#[test]
fn insert_parameter_layout() {
    let rows: Vec<Vec<Value>> =
        (0..4).map(|r| (0..3).map(|c| Value::I32(r * 3 + c)).collect()).collect();
    let (sql, params) = DBImpl::Postgres.insert("t", &["a", "b", "c"], rows).build().unwrap();
    assert_eq!(params.len(), 12);
    for (i, p) in params.iter().enumerate() {
        assert_eq!(*p, Value::I32(i as i32));
    }
    assert!(sql.ends_with("VALUES ($1,$2,$3),($4,$5,$6),($7,$8,$9),($10,$11,$12)"));
}

#[test]
fn insert_errors() {
    let empty: [&str; 0] = [];
    let r = DBImpl::SQLite.insert("t", &empty, two_rows()).build();
    assert_eq!(r.unwrap_err(), Error::MalformedRequest(Malformed::NoColumns));
    let r = DBImpl::SQLite.insert("t", &["a", "b"], vec![]).build();
    assert_eq!(r.unwrap_err(), Error::MalformedRequest(Malformed::NoRows));
    let r = DBImpl::SQLite.insert("t", &["a", "b"], vec![vec![Value::Null]]).build();
    assert_eq!(r.unwrap_err(), Error::MalformedRequest(Malformed::ArityMismatch));
    let r = DBImpl::Postgres.insert("t", &["a", "b"], two_rows()).on_conflict(OnConflict::ROLLBACK).build();
    assert_eq!(r.unwrap_err(), Error::UnsupportedOnDialect(Feature::Rollback, DBImpl::Postgres));
    let r = DBImpl::MySQL.insert("t", &["a", "b"], two_rows()).on_conflict(OnConflict::FAIL).build();
    assert_eq!(r.unwrap_err(), Error::UnsupportedOnDialect(Feature::Fail, DBImpl::MySQL));
    let r = DBImpl::SQLite
        .insert("t", &["a", "b"], two_rows())
        .on_conflict(OnConflict::UPSERT(vec![], vec![s("b")]))
        .build();
    assert_eq!(r.unwrap_err(), Error::MalformedRequest(Malformed::IncompleteUpsert));
}

#[test]
fn upsert_unsupported_on_mysql() {
    let r = DBImpl::MySQL
        .insert("users", &["id", "name"], two_rows())
        .on_conflict(OnConflict::UPSERT(vec![s("id")], vec![s("name")]))
        .build();
    assert_eq!(r.unwrap_err(), Error::UnsupportedOnDialect(Feature::Upsert, DBImpl::MySQL));
}

#[test]
fn conflict_clauses_per_dialect() {
    let upsert = || OnConflict::UPSERT(vec![s("id")], vec![s("name"), s("age")]);
    let one = || vec![vec![Value::I64(1), Value::String(s("a"))]];
    let (sql, _) = DBImpl::SQLite.insert("u", &["id", "name"], one()).on_conflict(upsert()).build().unwrap();
    assert_eq!(
        sql,
        "INSERT INTO \"u\"(\"id\",\"name\") VALUES (?,?) ON CONFLICT (\"id\") DO UPDATE SET \"name\"=EXCLUDED.\"name\",\"age\"=EXCLUDED.\"age\""
    );
    let (sql, _) = DBImpl::Postgres.insert("u", &["id", "name"], one()).on_conflict(upsert()).build().unwrap();
    assert_eq!(
        sql,
        "INSERT INTO \"u\"(\"id\",\"name\") VALUES ($1,$2) ON CONFLICT (\"id\") DO UPDATE SET \"name\"=EXCLUDED.\"name\",\"age\"=EXCLUDED.\"age\""
    );
    let (sql, _) = DBImpl::Postgres.insert("u", &["id", "name"], one()).on_conflict(OnConflict::IGNORE).build().unwrap();
    assert_eq!(sql, "INSERT INTO \"u\"(\"id\",\"name\") VALUES ($1,$2) ON CONFLICT DO NOTHING");
    let (sql, _) = DBImpl::MySQL.insert("u", &["id", "name"], one()).on_conflict(OnConflict::IGNORE).build().unwrap();
    assert_eq!(sql, "INSERT IGNORE INTO `u`(`id`,`name`) VALUES (?,?)");
    let (sql, _) = DBImpl::SQLite.insert("u", &["id", "name"], one()).on_conflict(OnConflict::FAIL).build().unwrap();
    assert_eq!(sql, "INSERT OR FAIL INTO \"u\"(\"id\",\"name\") VALUES (?,?)");
}

#[test]
fn update_statement() {
    let (sql, params) = DBImpl::Postgres
        .update("t")
        .add_update(s("a"), Value::I32(1))
        .add_update(s("b"), Value::String(s("x")))
        .where_clause(Condition::BinaryValue(s("id"), BinaryOperator::Equals, Value::I64(9)))
        .build()
        .unwrap();
    assert_eq!(sql, "UPDATE \"t\" SET \"a\" = $1,\"b\" = $2 WHERE \"id\" = $3");
    assert_eq!(params, vec![Value::I32(1), Value::String(s("x")), Value::I64(9)]);
    let (sql, _) = DBImpl::SQLite
        .update("t")
        .add_update(s("a"), Value::Null)
        .on_conflict(OnConflict::ROLLBACK)
        .build()
        .unwrap();
    assert_eq!(sql, "UPDATE OR ROLLBACK \"t\" SET \"a\" = ?");
    let (sql, _) = DBImpl::MySQL
        .update("t")
        .add_update(s("a"), Value::Null)
        .on_conflict(OnConflict::IGNORE)
        .build()
        .unwrap();
    assert_eq!(sql, "UPDATE IGNORE `t` SET `a` = ?");
}

#[test]
fn update_errors() {
    let r = DBImpl::SQLite.update("t").build();
    assert_eq!(r.unwrap_err(), Error::MalformedRequest(Malformed::NoAssignments));
    let r = DBImpl::Postgres.update("t").add_update(s("a"), Value::Null).on_conflict(OnConflict::IGNORE).build();
    assert_eq!(r.unwrap_err(), Error::UnsupportedOnDialect(Feature::Ignore, DBImpl::Postgres));
    let r = DBImpl::SQLite
        .update("t")
        .add_update(s("a"), Value::Null)
        .on_conflict(OnConflict::UPSERT(vec![s("a")], vec![s("a")]))
        .build();
    assert_eq!(r.unwrap_err(), Error::UnsupportedOnDialect(Feature::Upsert, DBImpl::SQLite));
}

#[test]
fn render_twice_from_same_state() {
    let q = || {
        DBImpl::Postgres
            .select(&["a", "b"], "t")
            .where_clause(Condition::In(s("a"), vec![Value::I64(1), Value::I64(2)]))
            .limit_clause(3)
    };
    let first = q().build().unwrap();
    let second = q().build().unwrap();
    assert_eq!(first, second);
}

#[test]
fn drop_table_statement() {
    assert_eq!(DBImpl::SQLite.drop_table("t").build(), "DROP TABLE \"t\"");
    assert_eq!(DBImpl::MySQL.drop_table("t").if_exists().build(), "DROP TABLE IF EXISTS `t`");
}

#[test]
fn alter_table_statement() {
    let d = DBImpl::Postgres;
    let (sql, _) = d.alter_table("t", AlterTableOperation::RenameTo(s("u"))).build().unwrap();
    assert_eq!(sql, "ALTER TABLE \"t\" RENAME TO \"u\"");
    let (sql, _) = d.alter_table("t", AlterTableOperation::RenameColumnTo(s("a"), s("b"))).build().unwrap();
    assert_eq!(sql, "ALTER TABLE \"t\" RENAME COLUMN \"a\" TO \"b\"");
    let (sql, _) = d.alter_table("t", AlterTableOperation::DropColumn(s("a"))).build().unwrap();
    assert_eq!(sql, "ALTER TABLE \"t\" DROP COLUMN \"a\"");
    let col = d.create_column(
        "t",
        "n",
        DbType::Int32,
        vec![Annotation::NotNull, Annotation::DefaultValue(Value::I32(0))],
    );
    let (sql, params) = DBImpl::MySQL.alter_table("t", AlterTableOperation::AddColumn(col)).build().unwrap();
    assert_eq!(sql, "ALTER TABLE `t` ADD COLUMN `n` INT NOT NULL DEFAULT ?");
    assert_eq!(params, vec![Value::I32(0)]);
}

#[test]
fn create_index_statement() {
    let (sql, params) = DBImpl::SQLite
        .create_index("idx", "t")
        .add_column(s("a"))
        .add_column(s("b"))
        .unique()
        .if_not_exists()
        .set_condition(Condition::BinaryValue(s("a"), BinaryOperator::Greater, Value::I64(0)))
        .build()
        .unwrap();
    assert_eq!(sql, "CREATE UNIQUE INDEX IF NOT EXISTS \"idx\" ON \"t\" (\"a\",\"b\") WHERE \"a\" > ?");
    assert_eq!(params, vec![Value::I64(0)]);
    let (sql, _) = DBImpl::MySQL.create_index("idx", "t").add_column(s("a")).build().unwrap();
    assert_eq!(sql, "CREATE INDEX `idx` ON `t` (`a`)");
}

#[test]
fn create_index_errors() {
    let r = DBImpl::SQLite.create_index("idx", "t").build();
    assert_eq!(r.unwrap_err(), Error::MalformedRequest(Malformed::NoColumns));
    let r = DBImpl::MySQL
        .create_index("idx", "t")
        .add_column(s("a"))
        .set_condition(Condition::IsNull(s("a")))
        .build();
    assert_eq!(r.unwrap_err(), Error::UnsupportedOnDialect(Feature::PartialIndex, DBImpl::MySQL));
    let r = DBImpl::MySQL.create_index("idx", "t").add_column(s("a")).if_not_exists().build();
    assert_eq!(r.unwrap_err(), Error::UnsupportedOnDialect(Feature::IfNotExists, DBImpl::MySQL));
}

#[test]
fn create_trigger_statement() {
    let sql = DBImpl::SQLite
        .create_trigger(
            "tr",
            "t",
            Some(SQLCreateTriggerPointInTime::After),
            SQLCreateTriggerOperation::Update,
        )
        .if_not_exists()
        .for_each_row()
        .add_statement(s("UPDATE t SET n = n + 1"))
        .add_statement(s("SELECT 1"))
        .build()
        .unwrap();
    assert_eq!(
        sql,
        "CREATE TRIGGER IF NOT EXISTS \"tr\" AFTER UPDATE ON \"t\" FOR EACH ROW BEGIN UPDATE t SET n = n + 1; SELECT 1; END"
    );
    let sql = DBImpl::SQLite.create_trigger("tr", "t", None, SQLCreateTriggerOperation::Delete).build().unwrap();
    assert_eq!(sql, "CREATE TRIGGER \"tr\" DELETE ON \"t\" BEGIN END");
    let sql = DBImpl::MySQL
        .create_trigger("tr", "t", Some(SQLCreateTriggerPointInTime::Before), SQLCreateTriggerOperation::Insert)
        .for_each_row()
        .add_statement(s("SET NEW.n = 0"))
        .build()
        .unwrap();
    assert_eq!(sql, "CREATE TRIGGER `tr` BEFORE INSERT ON `t` FOR EACH ROW BEGIN SET NEW.n = 0; END");
}

#[test]
fn create_trigger_errors() {
    let r = DBImpl::Postgres
        .create_trigger("tr", "t", Some(SQLCreateTriggerPointInTime::After), SQLCreateTriggerOperation::Insert)
        .for_each_row()
        .build();
    assert_eq!(r.unwrap_err(), Error::UnsupportedOnDialect(Feature::TriggerBody, DBImpl::Postgres));
    let r = DBImpl::MySQL.create_trigger("tr", "t", None, SQLCreateTriggerOperation::Delete).for_each_row().build();
    assert_eq!(r.unwrap_err(), Error::UnsupportedOnDialect(Feature::TriggerTiming, DBImpl::MySQL));
    let r = DBImpl::MySQL
        .create_trigger("tr", "t", Some(SQLCreateTriggerPointInTime::InsteadOf), SQLCreateTriggerOperation::Delete)
        .for_each_row()
        .build();
    assert_eq!(r.unwrap_err(), Error::UnsupportedOnDialect(Feature::TriggerTiming, DBImpl::MySQL));
    let r = DBImpl::MySQL
        .create_trigger("tr", "t", Some(SQLCreateTriggerPointInTime::After), SQLCreateTriggerOperation::Delete)
        .build();
    assert_eq!(r.unwrap_err(), Error::UnsupportedOnDialect(Feature::StatementTrigger, DBImpl::MySQL));
}

fn one_column_table(d: DBImpl, ty: DbType, anns: Vec<Annotation>) -> Result<(String, Vec<Value>), Error> {
    d.create_table("t").add_column(d.create_column("t", "id", ty, anns)).build()
}

#[test]
fn autoincrement_needs_a_form_on_the_dialect() {
    let unsupported = |d: DBImpl| Error::UnsupportedOnDialect(Feature::AutoIncrement, d);
    let r = one_column_table(DBImpl::SQLite, DbType::Int64, vec![Annotation::AutoIncrement]);
    assert_eq!(r.unwrap_err(), unsupported(DBImpl::SQLite));
    let r = one_column_table(DBImpl::MySQL, DbType::Int64, vec![Annotation::AutoIncrement]);
    assert_eq!(r.unwrap_err(), unsupported(DBImpl::MySQL));
    let r = one_column_table(DBImpl::Postgres, DbType::VarChar, vec![Annotation::AutoIncrement]);
    assert_eq!(r.unwrap_err(), unsupported(DBImpl::Postgres));
    let (sql, _) = one_column_table(DBImpl::Postgres, DbType::Int32, vec![Annotation::AutoIncrement]).unwrap();
    assert_eq!(sql, "CREATE TABLE \"t\" (\"id\" INTEGER GENERATED BY DEFAULT AS IDENTITY)");
    let (sql, _) =
        one_column_table(DBImpl::MySQL, DbType::Int32, vec![Annotation::Unique, Annotation::AutoIncrement]).unwrap();
    assert_eq!(sql, "CREATE TABLE `t` (`id` INT UNIQUE AUTO_INCREMENT)");
}

#[test]
fn annotations_keep_input_order_after_primary_key() {
    let anns = vec![Annotation::NotNull, Annotation::AutoIncrement, Annotation::PrimaryKey];
    let (sql, _) = one_column_table(DBImpl::Postgres, DbType::Int64, anns).unwrap();
    assert_eq!(sql, "CREATE TABLE \"t\" (\"id\" BIGINT PRIMARY KEY NOT NULL GENERATED BY DEFAULT AS IDENTITY)");
    let anns = vec![Annotation::NotNull, Annotation::AutoIncrement, Annotation::PrimaryKey];
    let (sql, _) = one_column_table(DBImpl::MySQL, DbType::Int64, anns).unwrap();
    assert_eq!(sql, "CREATE TABLE `t` (`id` BIGINT PRIMARY KEY NOT NULL AUTO_INCREMENT)");
}

#[test]
fn sqlite_autoincrement_right_after_primary_key() {
    let anns = vec![Annotation::AutoIncrement, Annotation::PrimaryKey, Annotation::NotNull];
    let (sql, _) = one_column_table(DBImpl::SQLite, DbType::Int64, anns).unwrap();
    assert_eq!(sql, "CREATE TABLE \"t\" (\"id\" INTEGER PRIMARY KEY AUTOINCREMENT NOT NULL)");
    let anns = vec![Annotation::NotNull, Annotation::AutoIncrement, Annotation::PrimaryKey];
    let r = one_column_table(DBImpl::SQLite, DbType::Int64, anns);
    assert_eq!(r.unwrap_err(), Error::UnsupportedOnDialect(Feature::AutoIncrement, DBImpl::SQLite));
}

#[test]
fn columns_take_the_table_dialect() {
    let col = DBImpl::MySQL.create_column("t", "a", DbType::Int32, vec![]);
    let mut t = DBImpl::Postgres.create_table("t");
    t.columns.push(col);
    let (sql, _) = t.build().unwrap();
    assert_eq!(sql, "CREATE TABLE \"t\" (\"a\" INTEGER)");
}

#[test]
fn alter_table_add_unsupported_column() {
    let d = DBImpl::SQLite;
    let col = d.create_column("t", "n", DbType::Int32, vec![Annotation::AutoIncrement]);
    let r = d.alter_table("t", AlterTableOperation::AddColumn(col)).build();
    assert_eq!(r.unwrap_err(), Error::UnsupportedOnDialect(Feature::AutoIncrement, DBImpl::SQLite));
}

#[test]
fn table_constraints_follow_columns() {
    let d = DBImpl::Postgres;
    let (sql, _) = d
        .create_table("t")
        .add_column(d.create_column("t", "a", DbType::Int32, vec![]))
        .add_column(d.create_column("t", "b", DbType::Int32, vec![]))
        .add_constraint(TableConstraint::PrimaryKey(vec![s("a"), s("b")]))
        .add_constraint(TableConstraint::ForeignKey(
            vec![s("a"), s("b")],
            s("u"),
            vec![s("x"), s("y")],
            ReferentialAction::Restrict,
            ReferentialAction::NoAction,
        ))
        .add_constraint(TableConstraint::Unique(vec![s("b")]))
        .build()
        .unwrap();
    assert_eq!(
        sql,
        "CREATE TABLE \"t\" (\"a\" INTEGER, \"b\" INTEGER, PRIMARY KEY (\"a\",\"b\"), FOREIGN KEY (\"a\",\"b\") REFERENCES \"u\"(\"x\",\"y\") ON DELETE RESTRICT ON UPDATE NO ACTION, UNIQUE (\"b\"))"
    );
}

#[test]
fn table_constraint_errors() {
    let d = DBImpl::SQLite;
    let base = || d.create_table("t").add_column(d.create_column("t", "a", DbType::Int32, vec![]));
    let r = base().add_constraint(TableConstraint::Unique(vec![])).build();
    assert_eq!(r.unwrap_err(), Error::MalformedRequest(Malformed::EmptyConstraint));
    let r = base()
        .add_constraint(TableConstraint::ForeignKey(
            vec![s("a")],
            s("u"),
            vec![s("x"), s("y")],
            ReferentialAction::Cascade,
            ReferentialAction::Cascade,
        ))
        .build();
    assert_eq!(r.unwrap_err(), Error::MalformedRequest(Malformed::ArityMismatch));
}

#[test]
fn raw_operands() {
    let (sql, params) = DBImpl::Postgres
        .select(&["a"], "(SELECT a FROM t) AS s")
        .raw_from_clause()
        .where_clause(Condition::RawValue(s("lower(\"a\")"), BinaryOperator::Equals, Value::String(s("x"))))
        .build()
        .unwrap();
    assert_eq!(sql, "SELECT \"a\" FROM (SELECT a FROM t) AS s WHERE lower(\"a\") = $1");
    assert_eq!(params, vec![Value::String(s("x"))]);
}

#[test]
fn index_annotations_give_index_statements() {
    let d = DBImpl::MySQL;
    let t = d
        .create_table("users")
        .add_column(d.create_column("users", "id", DbType::Int64, vec![Annotation::PrimaryKey]))
        .add_column(d.create_column(
            "users",
            "name",
            DbType::VarChar,
            vec![Annotation::Index(None), Annotation::NotNull, Annotation::Index(Some(s("by_name")))],
        ));
    assert_eq!(
        t.index_statements(),
        vec![
            s("CREATE INDEX `users_name_index` ON `users` (`name`)"),
            s("CREATE INDEX `by_name` ON `users` (`name`)"),
        ]
    );
    let (sql, _) = t.build().unwrap();
    assert_eq!(sql, "CREATE TABLE `users` (`id` BIGINT PRIMARY KEY, `name` TEXT NOT NULL)");
}
