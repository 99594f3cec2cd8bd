//! UPDATE statements.
use vstd::prelude::*;
use vstd::string::StringExecFns;

use crate::conditional::{bind, push_where, where_params, where_sql, Condition};
use crate::error::{Error, Malformed};
use crate::on_conflict::{policy_feature, policy_prefix, update_supports, OnConflict};
use crate::text::{placeholder, push_quoted, quoted};
use crate::value::Value;
use crate::DBImpl;

verus! {

/// An UPDATE statement under construction.
#[derive(Debug)]
pub struct Update {
    /// The dialect to render for.
    pub dialect: DBImpl,
    /// The table to update.
    pub table: String,
    /// The assignments, each a column and its new value, in order.
    pub updates: Vec<(String, Value)>,
    /// Which rows to update; all when absent.
    pub where_clause: Option<Condition>,
    /// What to do on a uniqueness conflict.
    pub on_conflict: OnConflict,
}

/// `"c" = <placeholder>` for each assignment, comma-joined, numbered from 1.
pub open spec fn set_sql(d: DBImpl, ups: Seq<(String, Value)>) -> Seq<char>
    decreases ups.len(),
{
    if ups.len() == 0 {
        Seq::empty()
    } else {
        let item = quoted(d, ups.last().0@) + " = "@ + placeholder(d, ups.len());
        if ups.len() == 1 {
            item
        } else {
            set_sql(d, ups.drop_last()) + ","@ + item
        }
    }
}

/// The new values of the assignments, in order.
pub open spec fn set_params(ups: Seq<(String, Value)>) -> Seq<Value> {
    ups.map_values(|u: (String, Value)| u.1)
}

/// The error of an update, if any.
pub open spec fn update_error(q: Update) -> Option<Error> {
    if q.updates.len() == 0 {
        Some(Error::MalformedRequest(Malformed::NoAssignments))
    } else if !update_supports(q.dialect, q.on_conflict) {
        Some(Error::UnsupportedOnDialect(policy_feature(q.on_conflict).unwrap(), q.dialect))
    } else {
        None
    }
}

/// The text of an update.
pub open spec fn update_sql(q: Update) -> Seq<char> {
    let d = q.dialect;
    "UPDATE "@ + policy_prefix(d, q.on_conflict) + quoted(d, q.table@) + " SET "@ + set_sql(
        d,
        q.updates@,
    ) + where_sql(q.where_clause, d, q.updates.len() as nat)
}

/// The values an update binds: the assignments', then the condition's.
pub open spec fn update_params(q: Update) -> Seq<Value> {
    set_params(q.updates@) + where_params(q.where_clause)
}

fn push_assignments(
    ups: Vec<(String, Value)>,
    d: DBImpl,
    out: &mut String,
    params: &mut Vec<Value>,
)
    requires
        old(params)@.len() == 0,
    ensures
        final(out)@ == old(out)@ + set_sql(d, ups@),
        final(params)@ == set_params(ups@),
{
    let ghost orig = ups@;
    let ghost out0 = out@;
    let mut rest = ups;
    let n = rest.len();
    let mut i: usize = 0;
    while i < n
        invariant
            n == orig.len(),
            i <= n,
            rest@ == orig.subrange(i as int, n as int),
            out@ == out0 + set_sql(d, orig.subrange(0, i as int)),
            params@ == set_params(orig.subrange(0, i as int)),
        decreases n - i,
    {
        let ghost pre = orig.subrange(0, i as int);
        let ghost next = orig.subrange(0, i + 1);
        if i > 0 {
            out.append(",");
        }
        let pair = rest.remove(0);
        proof {
            assert(pair == orig[i as int]);
            assert(params@.len() == i);
        }
        let (column, value) = pair;
        push_quoted(out, d, column.as_str());
        out.append(" = ");
        bind(value, d, out, params);
        proof {
            assert(next.drop_last() =~= pre);
            assert(next.last() == pair);
            assert(rest@ =~= orig.subrange(i + 1, n as int));
            assert(set_params(next) =~= set_params(pre).push(pair.1));
            assert(params@ =~= set_params(next));
            let item = quoted(d, pair.0@) + " = "@ + placeholder(d, (i + 1) as nat);
            if i == 0 {
                assert(set_sql(d, next) == item);
                assert(out@ =~= out0 + set_sql(d, next));
            } else {
                assert(set_sql(d, next) == set_sql(d, pre) + ","@ + item);
                assert(out@ =~= out0 + set_sql(d, next));
            }
        }
        i = i + 1;
    }
    proof {
        assert(orig.subrange(0, n as int) =~= orig);
    }
}

impl Update {
    /// Adds the assignment of `value` to `column`.
    pub fn add_update(self, column: String, value: Value) -> (r: Update)
        ensures
            r.updates@ == self.updates@.push((column, value)),
            r.dialect == self.dialect,
            r.table == self.table,
            r.where_clause == self.where_clause,
            r.on_conflict == self.on_conflict,
    {
        let mut u = self;
        u.updates.push((column, value));
        u
    }

    /// Restricts the rows to update to those that meet `condition`.
    pub fn where_clause(self, condition: Condition) -> (r: Update)
        ensures
            r == (Update { where_clause: Some(condition), ..self }),
    {
        Update { where_clause: Some(condition), ..self }
    }

    /// Sets what to do on a uniqueness conflict.
    pub fn on_conflict(self, policy: OnConflict) -> (r: Update)
        ensures
            r == (Update { on_conflict: policy, ..self }),
    {
        Update { on_conflict: policy, ..self }
    }

    /// Renders the statement: its text and the values to bind (assignments
    /// first, then the condition's); or the error that `update_error` names.
    pub fn build(self) -> (r: Result<(String, Vec<Value>), Error>)
        ensures
            match r {
                Ok((s, p)) => update_error(self) is None && s@ == update_sql(self) && p@
                    == update_params(self),
                Err(e) => update_error(self) == Some(e),
            },
    {
        let ghost me = self;
        let d = self.dialect;
        if self.updates.len() == 0 {
            return Err(Error::MalformedRequest(Malformed::NoAssignments));
        }
        if !self.on_conflict.update_supported(d) {
            return Err(Error::UnsupportedOnDialect(self.on_conflict.feature(), d));
        }
        let Update { dialect: _, table, updates, where_clause, on_conflict } = self;
        let mut out = String::new();
        let mut params: Vec<Value> = Vec::new();
        out.append("UPDATE ");
        on_conflict.push_prefix(d, &mut out);
        push_quoted(&mut out, d, table.as_str());
        out.append(" SET ");
        push_assignments(updates, d, &mut out, &mut params);
        proof {
            assert(params@.len() == me.updates@.len());
        }
        push_where(where_clause, d, &mut out, &mut params);
        proof {
            assert(out@ =~= update_sql(me));
            assert(params@ =~= update_params(me));
        }
        Ok((out, params))
    }
}

} // verus!
