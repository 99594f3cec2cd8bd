//! ALTER TABLE statements.
use vstd::prelude::*;
use vstd::string::StringExecFns;

use crate::create_column::{column_params, column_sql, column_unsupported, CreateColumn};
use crate::error::{Error, Feature};
use crate::text::{push_quoted, quoted};
use crate::value::Value;
use crate::DBImpl;

verus! {

/// The one change that an ALTER TABLE makes.
#[derive(Debug)]
pub enum AlterTableOperation {
    /// Rename the table.
    RenameTo(String),
    /// Rename a column: old name, new name.
    RenameColumnTo(String, String),
    /// Add a column.
    AddColumn(CreateColumn),
    /// Drop a column.
    DropColumn(String),
}

/// An ALTER TABLE statement under construction.
#[derive(Debug)]
pub struct AlterTable {
    /// The dialect to render for.
    pub dialect: DBImpl,
    /// The table to change.
    pub name: String,
    /// The change.
    pub operation: AlterTableOperation,
}

/// The text of an operation on dialect `d`, with its leading space. An added
/// column is rendered for `d`.
pub open spec fn operation_sql(d: DBImpl, op: AlterTableOperation) -> Seq<char> {
    match op {
        AlterTableOperation::RenameTo(n) => " RENAME TO "@ + quoted(d, n@),
        AlterTableOperation::RenameColumnTo(a, b) => " RENAME COLUMN "@ + quoted(d, a@) + " TO "@
            + quoted(d, b@),
        AlterTableOperation::AddColumn(c) => " ADD COLUMN "@ + column_sql(
            CreateColumn { dialect: d, ..c },
            0,
        ),
        AlterTableOperation::DropColumn(n) => " DROP COLUMN "@ + quoted(d, n@),
    }
}

/// The values an operation binds.
pub open spec fn operation_params(op: AlterTableOperation) -> Seq<Value> {
    match op {
        AlterTableOperation::AddColumn(c) => column_params(c),
        _ => Seq::empty(),
    }
}

/// The error of an ALTER TABLE, if any: an added column that asks for an
/// autoincrement that the dialect cannot express.
pub open spec fn alter_table_error(q: AlterTable) -> Option<Error> {
    match q.operation {
        AlterTableOperation::AddColumn(c) => if column_unsupported(c, q.dialect) {
            Some(Error::UnsupportedOnDialect(Feature::AutoIncrement, q.dialect))
        } else {
            None
        },
        _ => None,
    }
}

/// The text of an ALTER TABLE.
pub open spec fn alter_table_sql(q: AlterTable) -> Seq<char> {
    "ALTER TABLE "@ + quoted(q.dialect, q.name@) + operation_sql(q.dialect, q.operation)
}

impl AlterTable {
    /// Renders the statement: its text and the values of an added column's
    /// default, if any; or the error that `alter_table_error` names.
    pub fn build(self) -> (r: Result<(String, Vec<Value>), Error>)
        ensures
            match r {
                Ok((s, p)) => alter_table_error(self) is None && s@ == alter_table_sql(self) && p@
                    == operation_params(self.operation),
                Err(e) => alter_table_error(self) == Some(e),
            },
    {
        let ghost me = self;
        let d = self.dialect;
        if let AlterTableOperation::AddColumn(c) = &self.operation {
            if c.unsupported(d) {
                return Err(Error::UnsupportedOnDialect(Feature::AutoIncrement, d));
            }
        }
        let mut out = String::new();
        let mut params: Vec<Value> = Vec::new();
        out.append("ALTER TABLE ");
        push_quoted(&mut out, d, self.name.as_str());
        match self.operation {
            AlterTableOperation::RenameTo(n) => {
                out.append(" RENAME TO ");
                push_quoted(&mut out, d, n.as_str());
            },
            AlterTableOperation::RenameColumnTo(a, b) => {
                out.append(" RENAME COLUMN ");
                push_quoted(&mut out, d, a.as_str());
                out.append(" TO ");
                push_quoted(&mut out, d, b.as_str());
            },
            AlterTableOperation::AddColumn(c) => {
                out.append(" ADD COLUMN ");
                let c2 = CreateColumn { dialect: d, ..c };
                c2.render(&mut out, &mut params);
            },
            AlterTableOperation::DropColumn(n) => {
                out.append(" DROP COLUMN ");
                push_quoted(&mut out, d, n.as_str());
            },
        }
        proof {
            assert(out@ =~= alter_table_sql(me));
            assert(params@ =~= operation_params(me.operation));
        }
        Ok((out, params))
    }
}

} // verus!
