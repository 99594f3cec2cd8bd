//! DELETE statements.
use vstd::prelude::*;
use vstd::string::StringExecFns;

use crate::conditional::{push_where, where_params, where_sql, Condition};
use crate::text::{push_quoted, quoted};
use crate::value::Value;
use crate::DBImpl;

verus! {

/// A DELETE statement under construction.
#[derive(Debug)]
pub struct Delete {
    /// The dialect to render for.
    pub dialect: DBImpl,
    /// The table to delete from.
    pub table: String,
    /// Which rows to delete; all when absent.
    pub where_clause: Option<Condition>,
}

/// The text of a DELETE statement.
pub open spec fn delete_sql(q: Delete) -> Seq<char> {
    "DELETE FROM "@ + quoted(q.dialect, q.table@) + where_sql(q.where_clause, q.dialect, 0)
}

impl Delete {
    /// Restricts the rows to delete to those that meet `condition`.
    pub fn where_clause(self, condition: Condition) -> (r: Delete)
        ensures
            r == (Delete { where_clause: Some(condition), ..self }),
    {
        Delete { where_clause: Some(condition), ..self }
    }

    /// Renders the statement: its text and the values to bind, in order.
    pub fn build(self) -> (r: (String, Vec<Value>))
        ensures
            r.0@ == delete_sql(self),
            r.1@ == where_params(self.where_clause),
    {
        let ghost me = self;
        let mut out = String::new();
        let mut params: Vec<Value> = Vec::new();
        out.append("DELETE FROM ");
        push_quoted(&mut out, self.dialect, self.table.as_str());
        push_where(self.where_clause, self.dialect, &mut out, &mut params);
        proof {
            assert(out@ =~= delete_sql(me));
            assert(params@ =~= where_params(me.where_clause));
        }
        (out, params)
    }
}

} // verus!
