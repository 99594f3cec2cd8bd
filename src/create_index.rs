//! CREATE INDEX statements.
use vstd::prelude::*;
use vstd::string::StringExecFns;

use crate::conditional::{push_where, where_params, where_sql, Condition};
use crate::error::{Error, Feature, Malformed};
use crate::text::{push_quoted, push_quoted_list, quoted, quoted_list, views};
use crate::value::Value;
use crate::DBImpl;

verus! {

/// A CREATE INDEX statement under construction.
#[derive(Debug)]
pub struct CreateIndex {
    /// The dialect to render for.
    pub dialect: DBImpl,
    /// The index's name.
    pub name: String,
    /// The table that the index is on.
    pub table_name: String,
    /// Whether the index is UNIQUE.
    pub unique: bool,
    /// Whether IF NOT EXISTS is added.
    pub if_not_exists: bool,
    /// The indexed columns, in order.
    pub columns: Vec<String>,
    /// The condition of a partial index.
    pub condition: Option<Condition>,
}

/// The error of a CREATE INDEX, if any. MySQL has neither partial indexes
/// nor IF NOT EXISTS on indexes.
pub open spec fn create_index_error(q: CreateIndex) -> Option<Error> {
    if q.columns.len() == 0 {
        Some(Error::MalformedRequest(Malformed::NoColumns))
    } else if q.dialect == DBImpl::MySQL && q.condition is Some {
        Some(Error::UnsupportedOnDialect(Feature::PartialIndex, DBImpl::MySQL))
    } else if q.dialect == DBImpl::MySQL && q.if_not_exists {
        Some(Error::UnsupportedOnDialect(Feature::IfNotExists, DBImpl::MySQL))
    } else {
        None
    }
}

/// The text of a CREATE INDEX.
pub open spec fn create_index_sql(q: CreateIndex) -> Seq<char> {
    let d = q.dialect;
    "CREATE "@ + (if q.unique { "UNIQUE "@ } else { Seq::empty() }) + "INDEX "@ + (if q.if_not_exists {
        "IF NOT EXISTS "@
    } else {
        Seq::empty()
    }) + quoted(d, q.name@) + " ON "@ + quoted(d, q.table_name@) + " ("@ + quoted_list(
        d,
        views(q.columns@),
    ) + ")"@ + where_sql(q.condition, d, 0)
}

impl CreateIndex {
    /// Adds an indexed column.
    pub fn add_column(self, column: String) -> (r: CreateIndex)
        ensures
            r.columns@ == self.columns@.push(column),
            r.dialect == self.dialect,
            r.name == self.name,
            r.table_name == self.table_name,
            r.unique == self.unique,
            r.if_not_exists == self.if_not_exists,
            r.condition == self.condition,
    {
        let mut q = self;
        q.columns.push(column);
        q
    }

    /// Makes the index UNIQUE.
    pub fn unique(self) -> (r: CreateIndex)
        ensures
            r == (CreateIndex { unique: true, ..self }),
    {
        CreateIndex { unique: true, ..self }
    }

    /// Adds IF NOT EXISTS.
    pub fn if_not_exists(self) -> (r: CreateIndex)
        ensures
            r == (CreateIndex { if_not_exists: true, ..self }),
    {
        CreateIndex { if_not_exists: true, ..self }
    }

    /// Makes the index partial: only rows that meet `condition` are indexed.
    pub fn set_condition(self, condition: Condition) -> (r: CreateIndex)
        ensures
            r == (CreateIndex { condition: Some(condition), ..self }),
    {
        CreateIndex { condition: Some(condition), ..self }
    }

    /// Renders the statement: its text and the values of its condition; or
    /// the error that `create_index_error` names.
    pub fn build(self) -> (r: Result<(String, Vec<Value>), Error>)
        ensures
            match r {
                Ok((s, p)) => create_index_error(self) is None && s@ == create_index_sql(self)
                    && p@ == where_params(self.condition),
                Err(e) => create_index_error(self) == Some(e),
            },
    {
        let ghost me = self;
        let d = self.dialect;
        if self.columns.len() == 0 {
            return Err(Error::MalformedRequest(Malformed::NoColumns));
        }
        if d == DBImpl::MySQL && self.condition.is_some() {
            return Err(Error::UnsupportedOnDialect(Feature::PartialIndex, DBImpl::MySQL));
        }
        if d == DBImpl::MySQL && self.if_not_exists {
            return Err(Error::UnsupportedOnDialect(Feature::IfNotExists, DBImpl::MySQL));
        }
        let mut out = String::new();
        let mut params: Vec<Value> = Vec::new();
        out.append("CREATE ");
        if self.unique {
            out.append("UNIQUE ");
        }
        out.append("INDEX ");
        if self.if_not_exists {
            out.append("IF NOT EXISTS ");
        }
        push_quoted(&mut out, d, self.name.as_str());
        out.append(" ON ");
        push_quoted(&mut out, d, self.table_name.as_str());
        out.append(" (");
        push_quoted_list(&mut out, d, &self.columns);
        out.append(")");
        push_where(self.condition, d, &mut out, &mut params);
        proof {
            assert(out@ =~= create_index_sql(me));
            assert(params@ =~= where_params(me.condition));
        }
        Ok((out, params))
    }
}

} // verus!
