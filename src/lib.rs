//! Renders structured descriptions of SQL statements into dialect-correct
//! SQL text plus the ordered list of values to bind to its placeholders.
use vstd::prelude::*;

pub mod text;
pub mod value;
pub mod conditional;
pub mod error;
pub mod on_conflict;
pub mod select;
pub mod delete;
pub mod insert;
pub mod update;
pub mod create_column;
pub mod create_table;
pub mod drop_table;
pub mod alter_table;
pub mod create_index;
pub mod create_trigger;

use crate::alter_table::{AlterTable, AlterTableOperation};
use crate::create_column::{Annotation, CreateColumn, DbType};
use crate::create_index::CreateIndex;
use crate::create_table::CreateTable;
use crate::create_trigger::{SQLCreateTrigger, SQLCreateTriggerOperation, SQLCreateTriggerPointInTime};
use crate::delete::Delete;
use crate::drop_table::DropTable;
use crate::insert::Insert;
use crate::on_conflict::OnConflict;
use crate::select::Select;
use crate::update::Update;
use crate::value::Value;

verus! {

/// The SQL backend that a statement is rendered for.
#[derive(Copy, Clone, Debug, PartialEq, Eq, Structural)]
pub enum DBImpl {
    /// SQLite: double-quoted identifiers, `?` placeholders.
    SQLite,
    /// Postgres: double-quoted identifiers, numbered `$n` placeholders.
    Postgres,
    /// MySQL / MariaDB: backtick-quoted identifiers, `?` placeholders.
    MySQL,
}

/// The strings of `xs`, owned.
fn owned_strings(xs: &[&str]) -> (r: Vec<String>)
    ensures
        r@.len() == xs@.len(),
        forall|i: int| 0 <= i < xs@.len() ==> (#[trigger] r@[i])@ == xs@[i]@,
{
    let mut r: Vec<String> = Vec::new();
    let mut i: usize = 0;
    while i < xs.len()
        invariant
            i <= xs@.len(),
            r@.len() == i,
            forall|j: int| 0 <= j < i ==> (#[trigger] r@[j])@ == xs@[j]@,
        decreases xs@.len() - i,
    {
        r.push(xs[i].to_owned());
        i = i + 1;
    }
    r
}

impl DBImpl {
    /// Starts a CREATE TABLE for the table `name`, without columns.
    pub fn create_table(&self, name: &str) -> (r: CreateTable)
        ensures
            r.dialect == *self,
            r.name@ == name@,
            r.columns@.len() == 0,
            !r.if_not_exists,
            r.constraints@.len() == 0,
    {
        CreateTable {
            dialect: *self,
            name: name.to_owned(),
            columns: Vec::new(),
            if_not_exists: false,
            constraints: Vec::new(),
        }
    }

    /// Starts a CREATE TRIGGER `name` on `table_name`, fired by `operation`,
    /// with an empty body.
    pub fn create_trigger(
        &self,
        name: &str,
        table_name: &str,
        point_in_time: Option<SQLCreateTriggerPointInTime>,
        operation: SQLCreateTriggerOperation,
    ) -> (r: SQLCreateTrigger)
        ensures
            r.dialect == *self,
            r.name@ == name@,
            r.table_name@ == table_name@,
            !r.if_not_exists,
            r.point_in_time == point_in_time,
            r.operation == operation,
            r.statements@.len() == 0,
            !r.for_each_row,
    {
        SQLCreateTrigger {
            dialect: *self,
            name: name.to_owned(),
            table_name: table_name.to_owned(),
            if_not_exists: false,
            point_in_time,
            operation,
            statements: Vec::new(),
            for_each_row: false,
        }
    }

    /// Starts a CREATE INDEX `name` on `table_name`, without columns.
    pub fn create_index(&self, name: &str, table_name: &str) -> (r: CreateIndex)
        ensures
            r.dialect == *self,
            r.name@ == name@,
            r.table_name@ == table_name@,
            !r.unique,
            !r.if_not_exists,
            r.columns@.len() == 0,
            r.condition is None,
    {
        CreateIndex {
            dialect: *self,
            name: name.to_owned(),
            table_name: table_name.to_owned(),
            unique: false,
            if_not_exists: false,
            columns: Vec::new(),
            condition: None,
        }
    }

    /// Starts a DROP TABLE of `name`.
    pub fn drop_table(&self, name: &str) -> (r: DropTable)
        ensures
            r.dialect == *self,
            r.name@ == name@,
            !r.if_exists,
    {
        DropTable { dialect: *self, name: name.to_owned(), if_exists: false }
    }

    /// Starts an ALTER TABLE of `name` that makes `operation`.
    pub fn alter_table(&self, name: &str, operation: AlterTableOperation) -> (r: AlterTable)
        ensures
            r == (AlterTable { dialect: *self, name: r.name, operation }),
            r.name@ == name@,
    {
        AlterTable { dialect: *self, name: name.to_owned(), operation }
    }

    /// Describes the column `name` of `table_name`, of type `data_type`,
    /// with `annotations` (rendered primary keys first).
    pub fn create_column(
        &self,
        table_name: &str,
        name: &str,
        data_type: DbType,
        annotations: Vec<Annotation>,
    ) -> (r: CreateColumn)
        ensures
            r.dialect == *self,
            r.table_name@ == table_name@,
            r.name@ == name@,
            r.data_type == data_type,
            r.annotations == annotations,
    {
        CreateColumn {
            dialect: *self,
            table_name: table_name.to_owned(),
            name: name.to_owned(),
            data_type,
            annotations,
        }
    }

    /// Starts a SELECT of `columns` from `from_clause`.
    pub fn select(&self, columns: &[&str], from_clause: &str) -> (r: Select)
        ensures
            r.dialect == *self,
            r.columns@.len() == columns@.len(),
            forall|i: int| 0 <= i < columns@.len() ==> (#[trigger] r.columns@[i])@ == columns@[i]@,
            r.from_clause@ == from_clause@,
            !r.raw_from,
            r.where_clause is None,
            !r.distinct,
            r.limit is None,
            r.offset is None,
    {
        Select {
            dialect: *self,
            columns: owned_strings(columns),
            from_clause: from_clause.to_owned(),
            raw_from: false,
            where_clause: None,
            distinct: false,
            limit: None,
            offset: None,
        }
    }

    /// Starts an INSERT of `insert_values` (one row each) into the columns
    /// `insert_columns` of `into_clause`, with the ABORT policy.
    pub fn insert(
        &self,
        into_clause: &str,
        insert_columns: &[&str],
        insert_values: Vec<Vec<Value>>,
    ) -> (r: Insert)
        ensures
            r.dialect == *self,
            r.into_clause@ == into_clause@,
            r.columns@.len() == insert_columns@.len(),
            forall|i: int|
                0 <= i < insert_columns@.len() ==> (#[trigger] r.columns@[i])@
                    == insert_columns@[i]@,
            r.rows == insert_values,
            r.on_conflict is ABORT,
    {
        Insert {
            dialect: *self,
            into_clause: into_clause.to_owned(),
            columns: owned_strings(insert_columns),
            rows: insert_values,
            on_conflict: OnConflict::ABORT,
        }
    }

    /// Starts a DELETE of all rows of `table_name`.
    pub fn delete(&self, table_name: &str) -> (r: Delete)
        ensures
            r.dialect == *self,
            r.table@ == table_name@,
            r.where_clause is None,
    {
        Delete { dialect: *self, table: table_name.to_owned(), where_clause: None }
    }

    /// Starts an UPDATE of `table_name`, without assignments, with the ABORT
    /// policy.
    pub fn update(&self, table_name: &str) -> (r: Update)
        ensures
            r.dialect == *self,
            r.table@ == table_name@,
            r.updates@.len() == 0,
            r.where_clause is None,
            r.on_conflict is ABORT,
    {
        Update {
            dialect: *self,
            table: table_name.to_owned(),
            updates: Vec::new(),
            where_clause: None,
            on_conflict: OnConflict::ABORT,
        }
    }
}

} // verus!
