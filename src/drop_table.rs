//! DROP TABLE statements.
use vstd::prelude::*;
use vstd::string::StringExecFns;

use crate::text::{push_quoted, quoted};
use crate::DBImpl;

verus! {

/// A DROP TABLE statement under construction.
#[derive(Debug)]
pub struct DropTable {
    /// The dialect to render for.
    pub dialect: DBImpl,
    /// The table to drop.
    pub name: String,
    /// Whether IF EXISTS is added.
    pub if_exists: bool,
}

/// The text of a DROP TABLE.
pub open spec fn drop_table_sql(q: DropTable) -> Seq<char> {
    "DROP TABLE "@ + (if q.if_exists { "IF EXISTS "@ } else { Seq::empty() }) + quoted(
        q.dialect,
        q.name@,
    )
}

impl DropTable {
    /// Adds IF EXISTS.
    pub fn if_exists(self) -> (r: DropTable)
        ensures
            r == (DropTable { if_exists: true, ..self }),
    {
        DropTable { if_exists: true, ..self }
    }

    /// Renders the statement.
    pub fn build(self) -> (r: String)
        ensures
            r@ == drop_table_sql(self),
    {
        let mut out = String::new();
        out.append("DROP TABLE ");
        if self.if_exists {
            out.append("IF EXISTS ");
        }
        push_quoted(&mut out, self.dialect, self.name.as_str());
        proof {
            assert(out@ =~= drop_table_sql(self));
        }
        out
    }
}

} // verus!
