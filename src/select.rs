//! SELECT queries.
use vstd::prelude::*;
use vstd::string::StringExecFns;

use crate::conditional::{
    cond_sql, lemma_placeholders_match_leaves, push_where, value_leaves, value_tree, where_params,
    where_sql, Condition,
};
use crate::error::{Error, Malformed};
use crate::text::{
    dec, free_of, lemma_dec_free, lemma_free_add, lemma_occurrences_append, lemma_occurrences_free,
    lemma_quoted_free, lemma_quoted_list_free, marker, names_free, occurrences, push_dec, push_quoted,
    push_quoted_list, quoted, quoted_list, views,
};
use crate::value::Value;
use crate::DBImpl;

verus! {

/// A SELECT query under construction.
#[derive(Debug)]
pub struct Select {
    /// The dialect to render for.
    pub dialect: DBImpl,
    /// The columns of the result, in order.
    pub columns: Vec<String>,
    /// The table to select from, or a sub-query when `raw_from` is set.
    pub from_clause: String,
    /// Whether the from-clause is written verbatim (a sub-query) rather than
    /// quoted as a table name.
    pub raw_from: bool,
    /// Which rows to select; all when absent.
    pub where_clause: Option<Condition>,
    /// Whether duplicate rows are removed.
    pub distinct: bool,
    /// The largest number of rows to return.
    pub limit: Option<u64>,
    /// The number of rows to skip.
    pub offset: Option<u64>,
}

/// The LIMIT / OFFSET clause of dialect `d`, with its leading space. An
/// offset without a limit takes each dialect's own form.
pub open spec fn limit_sql(d: DBImpl, limit: Option<u64>, offset: Option<u64>) -> Seq<char> {
    match (limit, offset) {
        (None, None) => Seq::empty(),
        (Some(l), None) => " LIMIT "@ + dec(l as nat),
        (Some(l), Some(o)) => " LIMIT "@ + dec(l as nat) + " OFFSET "@ + dec(o as nat),
        (None, Some(o)) => match d {
            DBImpl::SQLite => " LIMIT -1 OFFSET "@ + dec(o as nat),
            DBImpl::MySQL => " LIMIT 18446744073709551615 OFFSET "@ + dec(o as nat),
            DBImpl::Postgres => " OFFSET "@ + dec(o as nat),
        },
    }
}

/// The error of a query, if any.
pub open spec fn select_error(q: Select) -> Option<Error> {
    if q.columns.len() == 0 {
        Some(Error::MalformedRequest(Malformed::NoColumns))
    } else if q.from_clause@.len() == 0 {
        Some(Error::MalformedRequest(Malformed::NoFromClause))
    } else {
        None
    }
}

/// The text of a query.
pub open spec fn select_sql(q: Select) -> Seq<char> {
    let d = q.dialect;
    "SELECT "@ + (if q.distinct { "DISTINCT "@ } else { Seq::empty() }) + quoted_list(
        d,
        views(q.columns@),
    ) + " FROM "@ + (if q.raw_from { q.from_clause@ } else { quoted(d, q.from_clause@) }) + where_sql(q.where_clause, d, 0) + limit_sql(
        d,
        q.limit,
        q.offset,
    )
}

fn push_limit(out: &mut String, d: DBImpl, limit: Option<u64>, offset: Option<u64>)
    ensures
        final(out)@ == old(out)@ + limit_sql(d, limit, offset),
{
    match limit {
        Some(l) => {
            out.append(" LIMIT ");
            push_dec(out, l);
            match offset {
                Some(o) => {
                    out.append(" OFFSET ");
                    push_dec(out, o);
                },
                None => {},
            }
        },
        None => match offset {
            Some(o) => {
                match d {
                    DBImpl::SQLite => out.append(" LIMIT -1 OFFSET "),
                    DBImpl::MySQL => out.append(" LIMIT 18446744073709551615 OFFSET "),
                    DBImpl::Postgres => out.append(" OFFSET "),
                }
                push_dec(out, o);
            },
            None => {},
        },
    }
    proof {
        assert(out@ =~= old(out)@ + limit_sql(d, limit, offset));
    }
}

impl Select {
    /// Removes duplicate rows from the result.
    pub fn distinct(self) -> (r: Select)
        ensures
            r == (Select { distinct: true, ..self }),
    {
        Select { distinct: true, ..self }
    }

    /// Writes the from-clause verbatim, as a sub-query; its safety is the
    /// caller's concern.
    pub fn raw_from_clause(self) -> (r: Select)
        ensures
            r == (Select { raw_from: true, ..self }),
    {
        Select { raw_from: true, ..self }
    }

    /// Restricts the rows to those that meet `condition`.
    pub fn where_clause(self, condition: Condition) -> (r: Select)
        ensures
            r == (Select { where_clause: Some(condition), ..self }),
    {
        Select { where_clause: Some(condition), ..self }
    }

    /// Returns at most `limit` rows.
    pub fn limit_clause(self, limit: u64) -> (r: Select)
        ensures
            r == (Select { limit: Some(limit), ..self }),
    {
        Select { limit: Some(limit), ..self }
    }

    /// Skips the first `offset` rows.
    pub fn offset_clause(self, offset: u64) -> (r: Select)
        ensures
            r == (Select { offset: Some(offset), ..self }),
    {
        Select { offset: Some(offset), ..self }
    }

    /// Renders the query: its text and the values to bind, in order; or the
    /// error when the column list or the from-clause is empty.
    pub fn build(self) -> (r: Result<(String, Vec<Value>), Error>)
        ensures
            match r {
                Ok((s, p)) => select_error(self) is None && s@ == select_sql(self) && p@
                    == where_params(self.where_clause),
                Err(e) => select_error(self) == Some(e),
            },
    {
        let ghost me = self;
        if self.columns.len() == 0 {
            return Err(Error::MalformedRequest(Malformed::NoColumns));
        }
        if self.from_clause.as_str().is_empty() {
            return Err(Error::MalformedRequest(Malformed::NoFromClause));
        }
        let d = self.dialect;
        let mut out = String::new();
        let mut params: Vec<Value> = Vec::new();
        out.append("SELECT ");
        if self.distinct {
            out.append("DISTINCT ");
        }
        push_quoted_list(&mut out, d, &self.columns);
        out.append(" FROM ");
        if self.raw_from {
            out.append(self.from_clause.as_str());
        } else {
            push_quoted(&mut out, d, self.from_clause.as_str());
        }
        push_where(self.where_clause, d, &mut out, &mut params);
        push_limit(&mut out, d, self.limit, self.offset);
        proof {
            assert(out@ =~= select_sql(me));
            assert(params@ =~= where_params(me.where_clause));
        }
        Ok((out, params))
    }
}

/// Rendering is a function of the query's state: two queries in the same
/// state render to the same text and the same values, or the same error.
pub proof fn lemma_select_render_deterministic(a: Select, b: Select)
    requires
        a == b,
    ensures
        select_error(a) == select_error(b),
        select_sql(a) == select_sql(b),
        where_params(a.where_clause) == where_params(b.where_clause),
{
}

proof fn lemma_limit_free(d: DBImpl, limit: Option<u64>, offset: Option<u64>)
    ensures
        free_of(limit_sql(d, limit, offset), marker(d)),
{
    reveal_strlit(" LIMIT ");
    reveal_strlit(" OFFSET ");
    reveal_strlit(" LIMIT -1 OFFSET ");
    reveal_strlit(" LIMIT 18446744073709551615 OFFSET ");
    let m = marker(d);
    match (limit, offset) {
        (None, None) => {},
        (Some(l), None) => {
            lemma_dec_free(l as nat, d);
            lemma_free_add(" LIMIT "@, dec(l as nat), m);
        },
        (Some(l), Some(o)) => {
            lemma_dec_free(l as nat, d);
            lemma_dec_free(o as nat, d);
            lemma_free_add(" LIMIT "@, dec(l as nat), m);
            lemma_free_add(" LIMIT "@ + dec(l as nat), " OFFSET "@, m);
            lemma_free_add(" LIMIT "@ + dec(l as nat) + " OFFSET "@, dec(o as nat), m);
        },
        (None, Some(o)) => {
            lemma_dec_free(o as nat, d);
            lemma_free_add(" LIMIT -1 OFFSET "@, dec(o as nat), m);
            lemma_free_add(" LIMIT 18446744073709551615 OFFSET "@, dec(o as nat), m);
            lemma_free_add(" OFFSET "@, dec(o as nat), m);
        },
    }
}

/// Over the whole text of a query whose names hold no placeholder marker
/// and whose condition, if any, is a tree of value comparisons and `IN`
/// lists: the text holds exactly as many placeholders as the condition has
/// bound-value leaves, and as many values are bound.
pub proof fn lemma_select_placeholders(q: Select, c: Condition)
    requires
        q.where_clause == Some(c),
        value_tree(c, q.dialect),
        names_free(q.columns@, marker(q.dialect)),
        free_of(q.from_clause@, marker(q.dialect)),
    ensures
        occurrences(select_sql(q), marker(q.dialect)) == value_leaves(c),
        where_params(q.where_clause).len() == value_leaves(c),
{
    let d = q.dialect;
    let m = marker(d);
    reveal_strlit("SELECT ");
    reveal_strlit("DISTINCT ");
    reveal_strlit(" FROM ");
    reveal_strlit(" WHERE ");
    lemma_quoted_list_free(d, q.columns@);
    lemma_quoted_free(d, q.from_clause@);
    lemma_limit_free(d, q.limit, q.offset);
    let dist: Seq<char> = if q.distinct { "DISTINCT "@ } else { Seq::empty() };
    let from: Seq<char> = if q.raw_from { q.from_clause@ } else { quoted(d, q.from_clause@) };
    let a1 = "SELECT "@ + dist;
    lemma_free_add("SELECT "@, dist, m);
    let a2 = a1 + quoted_list(d, views(q.columns@));
    lemma_free_add(a1, quoted_list(d, views(q.columns@)), m);
    let a3 = a2 + " FROM "@;
    lemma_free_add(a2, " FROM "@, m);
    let a4 = a3 + from;
    lemma_free_add(a3, from, m);
    let head = a4 + " WHERE "@;
    lemma_free_add(a4, " WHERE "@, m);
    let body = cond_sql(c, d, 0);
    let tail = limit_sql(d, q.limit, q.offset);
    lemma_placeholders_match_leaves(c, d, 0);
    lemma_occurrences_free(head, m);
    lemma_occurrences_free(tail, m);
    lemma_occurrences_append(head, body, m);
    lemma_occurrences_append(head + body, tail, m);
    assert(select_sql(q) =~= head + body + tail);
}

} // verus!
