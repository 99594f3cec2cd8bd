//! CREATE TRIGGER statements.
use vstd::prelude::*;
use vstd::string::StringExecFns;

use crate::error::{Error, Feature};
use crate::text::{push_quoted, quoted};
use crate::DBImpl;

verus! {

/// When a trigger runs, relative to the operation that fires it.
#[derive(Copy, Clone, Debug, PartialEq, Eq, Structural)]
pub enum SQLCreateTriggerPointInTime {
    /// Before the operation.
    Before,
    /// After the operation.
    After,
    /// In place of the operation.
    InsteadOf,
}

/// The operation that fires a trigger.
#[derive(Copy, Clone, Debug, PartialEq, Eq, Structural)]
pub enum SQLCreateTriggerOperation {
    /// An INSERT.
    Insert,
    /// An UPDATE.
    Update,
    /// A DELETE.
    Delete,
}

/// A CREATE TRIGGER statement under construction.
#[derive(Debug)]
pub struct SQLCreateTrigger {
    /// The dialect to render for.
    pub dialect: DBImpl,
    /// The trigger's name.
    pub name: String,
    /// The table that the trigger watches.
    pub table_name: String,
    /// Whether IF NOT EXISTS is added.
    pub if_not_exists: bool,
    /// When the trigger runs; the dialect's default when absent.
    pub point_in_time: Option<SQLCreateTriggerPointInTime>,
    /// The operation that fires the trigger.
    pub operation: SQLCreateTriggerOperation,
    /// The statements of the body, run in order; each is written as given.
    pub statements: Vec<String>,
    /// Whether the trigger runs once per row.
    pub for_each_row: bool,
}

/// The keywords of a point in time, with a leading space.
pub open spec fn point_sql(p: Option<SQLCreateTriggerPointInTime>) -> Seq<char> {
    match p {
        None => Seq::empty(),
        Some(SQLCreateTriggerPointInTime::Before) => " BEFORE"@,
        Some(SQLCreateTriggerPointInTime::After) => " AFTER"@,
        Some(SQLCreateTriggerPointInTime::InsteadOf) => " INSTEAD OF"@,
    }
}

/// The keyword of an operation.
pub open spec fn trigger_operation_sql(o: SQLCreateTriggerOperation) -> Seq<char> {
    match o {
        SQLCreateTriggerOperation::Insert => "INSERT"@,
        SQLCreateTriggerOperation::Update => "UPDATE"@,
        SQLCreateTriggerOperation::Delete => "DELETE"@,
    }
}

/// Each statement followed by `; `.
pub open spec fn body_sql(stmts: Seq<Seq<char>>) -> Seq<char>
    decreases stmts.len(),
{
    if stmts.len() == 0 {
        Seq::empty()
    } else {
        body_sql(stmts.drop_last()) + stmts.last() + "; "@
    }
}

/// The error of a CREATE TRIGGER, if any. The body is a list of statements
/// between BEGIN and END: Postgres has no such trigger body (it runs a
/// function instead). MySQL needs BEFORE or AFTER, and FOR EACH ROW.
pub open spec fn create_trigger_error(q: SQLCreateTrigger) -> Option<Error> {
    match q.dialect {
        DBImpl::Postgres => Some(Error::UnsupportedOnDialect(Feature::TriggerBody, DBImpl::Postgres)),
        DBImpl::MySQL => if q.point_in_time is None || q.point_in_time == Some(
            SQLCreateTriggerPointInTime::InsteadOf,
        ) {
            Some(Error::UnsupportedOnDialect(Feature::TriggerTiming, DBImpl::MySQL))
        } else if !q.for_each_row {
            Some(Error::UnsupportedOnDialect(Feature::StatementTrigger, DBImpl::MySQL))
        } else {
            None
        },
        DBImpl::SQLite => None,
    }
}

/// The text of a CREATE TRIGGER.
pub open spec fn create_trigger_sql(q: SQLCreateTrigger) -> Seq<char> {
    let d = q.dialect;
    "CREATE TRIGGER "@ + (if q.if_not_exists { "IF NOT EXISTS "@ } else { Seq::empty() }) + quoted(
        d,
        q.name@,
    ) + point_sql(q.point_in_time) + " "@ + trigger_operation_sql(q.operation) + " ON "@ + quoted(
        d,
        q.table_name@,
    ) + (if q.for_each_row { " FOR EACH ROW"@ } else { Seq::empty() }) + " BEGIN "@ + body_sql(
        q.statements@.map_values(|s: String| s@),
    ) + "END"@
}

impl SQLCreateTrigger {
    /// Adds IF NOT EXISTS.
    pub fn if_not_exists(self) -> (r: SQLCreateTrigger)
        ensures
            r == (SQLCreateTrigger { if_not_exists: true, ..self }),
    {
        SQLCreateTrigger { if_not_exists: true, ..self }
    }

    /// Makes the trigger run once per row.
    pub fn for_each_row(self) -> (r: SQLCreateTrigger)
        ensures
            r == (SQLCreateTrigger { for_each_row: true, ..self }),
    {
        SQLCreateTrigger { for_each_row: true, ..self }
    }

    /// Adds a statement to the end of the body.
    pub fn add_statement(self, statement: String) -> (r: SQLCreateTrigger)
        ensures
            r.statements@ == self.statements@.push(statement),
            r.dialect == self.dialect,
            r.name == self.name,
            r.table_name == self.table_name,
            r.if_not_exists == self.if_not_exists,
            r.point_in_time == self.point_in_time,
            r.operation == self.operation,
            r.for_each_row == self.for_each_row,
    {
        let mut t = self;
        t.statements.push(statement);
        t
    }

    /// Renders the statement, or the error that `create_trigger_error` names.
    pub fn build(self) -> (r: Result<String, Error>)
        ensures
            match r {
                Ok(s) => create_trigger_error(self) is None && s@ == create_trigger_sql(self),
                Err(e) => create_trigger_error(self) == Some(e),
            },
    {
        let d = self.dialect;
        match d {
            DBImpl::Postgres => {
                return Err(Error::UnsupportedOnDialect(Feature::TriggerBody, DBImpl::Postgres));
            },
            DBImpl::MySQL => {
                match self.point_in_time {
                    None | Some(SQLCreateTriggerPointInTime::InsteadOf) => {
                        return Err(Error::UnsupportedOnDialect(Feature::TriggerTiming, DBImpl::MySQL));
                    },
                    _ => {},
                }
                if !self.for_each_row {
                    return Err(Error::UnsupportedOnDialect(Feature::StatementTrigger, DBImpl::MySQL));
                }
            },
            DBImpl::SQLite => {},
        }
        let mut out = String::new();
        out.append("CREATE TRIGGER ");
        if self.if_not_exists {
            out.append("IF NOT EXISTS ");
        }
        push_quoted(&mut out, d, self.name.as_str());
        match self.point_in_time {
            None => {},
            Some(SQLCreateTriggerPointInTime::Before) => out.append(" BEFORE"),
            Some(SQLCreateTriggerPointInTime::After) => out.append(" AFTER"),
            Some(SQLCreateTriggerPointInTime::InsteadOf) => out.append(" INSTEAD OF"),
        }
        out.append(" ");
        match self.operation {
            SQLCreateTriggerOperation::Insert => out.append("INSERT"),
            SQLCreateTriggerOperation::Update => out.append("UPDATE"),
            SQLCreateTriggerOperation::Delete => out.append("DELETE"),
        }
        out.append(" ON ");
        push_quoted(&mut out, d, self.table_name.as_str());
        if self.for_each_row {
            out.append(" FOR EACH ROW");
        }
        out.append(" BEGIN ");
        let ghost before = out@;
        let ghost stmts = self.statements@.map_values(|s: String| s@);
        let mut i: usize = 0;
        while i < self.statements.len()
            invariant
                i <= self.statements@.len(),
                stmts == self.statements@.map_values(|s: String| s@),
                out@ == before + body_sql(stmts.subrange(0, i as int)),
            decreases self.statements@.len() - i,
        {
            out.append(self.statements[i].as_str());
            out.append("; ");
            proof {
                assert(stmts.subrange(0, i + 1).drop_last() =~= stmts.subrange(0, i as int));
                assert(out@ =~= before + body_sql(stmts.subrange(0, i + 1)));
            }
            i = i + 1;
        }
        out.append("END");
        proof {
            assert(stmts.subrange(0, stmts.len() as int) =~= stmts);
            assert(out@ =~= create_trigger_sql(self));
        }
        Ok(out)
    }
}

} // verus!
