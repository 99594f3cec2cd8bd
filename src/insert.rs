//! INSERT statements.
use vstd::prelude::*;
use vstd::string::StringExecFns;

use crate::conditional::{bind_all, lemma_fixed_text_unmarked, lemma_run_marks, placeholder_run};
use crate::text::{
    free_of, lemma_free_add, lemma_occurrences_append, lemma_occurrences_free, lemma_quoted_free,
    lemma_quoted_list_free, marker, names_free, occurrences,
};
use crate::error::{Error, Malformed};
use crate::on_conflict::{
    incomplete_upsert, insert_suffix, lemma_prefix_free, lemma_suffix_free, policy_names_free, insert_supports, policy_feature, policy_prefix, OnConflict,
};
use crate::text::{push_quoted, push_quoted_list, quoted, quoted_list, views};
use crate::value::Value;
use crate::DBImpl;

verus! {

/// An INSERT statement under construction.
#[derive(Debug)]
pub struct Insert {
    /// The dialect to render for.
    pub dialect: DBImpl,
    /// The table to insert into.
    pub into_clause: String,
    /// The columns that each row gives values for, in order.
    pub columns: Vec<String>,
    /// The rows to insert, each with one value per column.
    pub rows: Vec<Vec<Value>>,
    /// What to do on a uniqueness conflict.
    pub on_conflict: OnConflict,
}

/// The values of all rows, row after row.
pub open spec fn flat(rows: Seq<Vec<Value>>) -> Seq<Value>
    decreases rows.len(),
{
    if rows.len() == 0 {
        Seq::empty()
    } else {
        flat(rows.drop_last()) + rows.last()@
    }
}

/// One parenthesized group of placeholders per row, comma-joined; the
/// placeholders are numbered on across the rows.
pub open spec fn rows_sql(d: DBImpl, rows: Seq<Vec<Value>>) -> Seq<char>
    decreases rows.len(),
{
    if rows.len() == 0 {
        Seq::empty()
    } else {
        let prefix = rows.drop_last();
        let group = "("@ + placeholder_run(d, flat(prefix).len(), rows.last()@.len()) + ")"@;
        if rows.len() == 1 {
            group
        } else {
            rows_sql(d, prefix) + ","@ + group
        }
    }
}

/// Every row has `n` values.
pub open spec fn rows_have_arity(rows: Seq<Vec<Value>>, n: nat) -> bool {
    forall|i: int| 0 <= i < rows.len() ==> (#[trigger] rows[i])@.len() == n
}

/// The error of an insert, if any.
pub open spec fn insert_error(q: Insert) -> Option<Error> {
    if q.columns.len() == 0 {
        Some(Error::MalformedRequest(Malformed::NoColumns))
    } else if q.rows.len() == 0 {
        Some(Error::MalformedRequest(Malformed::NoRows))
    } else if !rows_have_arity(q.rows@, q.columns.len() as nat) {
        Some(Error::MalformedRequest(Malformed::ArityMismatch))
    } else if !insert_supports(q.dialect, q.on_conflict) {
        Some(Error::UnsupportedOnDialect(policy_feature(q.on_conflict).unwrap(), q.dialect))
    } else if incomplete_upsert(q.on_conflict) {
        Some(Error::MalformedRequest(Malformed::IncompleteUpsert))
    } else {
        None
    }
}

/// The text of an insert.
pub open spec fn insert_sql(q: Insert) -> Seq<char> {
    let d = q.dialect;
    "INSERT "@ + policy_prefix(d, q.on_conflict) + "INTO "@ + quoted(d, q.into_clause@) + "("@
        + quoted_list(d, views(q.columns@)) + ") VALUES "@ + rows_sql(d, q.rows@) + insert_suffix(
        d,
        q.on_conflict,
    )
}

fn check_arity(rows: &Vec<Vec<Value>>, n: usize) -> (r: bool)
    ensures
        r == rows_have_arity(rows@, n as nat),
{
    let mut i: usize = 0;
    while i < rows.len()
        invariant
            i <= rows.len(),
            forall|j: int| 0 <= j < i ==> (#[trigger] rows@[j])@.len() == n,
        decreases rows.len() - i,
    {
        if rows[i].len() != n {
            return false;
        }
        i = i + 1;
    }
    true
}

fn push_rows(rows: Vec<Vec<Value>>, d: DBImpl, out: &mut String, params: &mut Vec<Value>)
    requires
        old(params)@.len() == 0,
    ensures
        final(out)@ == old(out)@ + rows_sql(d, rows@),
        final(params)@ == flat(rows@),
{
    let ghost orig = rows@;
    let ghost out0 = out@;
    let mut rest = rows;
    let n = rest.len();
    let mut i: usize = 0;
    while i < n
        invariant
            n == orig.len(),
            i <= n,
            rest@ == orig.subrange(i as int, n as int),
            out@ == out0 + rows_sql(d, orig.subrange(0, i as int)),
            params@ == flat(orig.subrange(0, i as int)),
        decreases n - i,
    {
        let ghost pre = orig.subrange(0, i as int);
        let ghost next = orig.subrange(0, i + 1);
        if i > 0 {
            out.append(",");
        }
        let row = rest.remove(0);
        out.append("(");
        bind_all(row, d, out, params);
        out.append(")");
        proof {
            assert(row == orig[i as int]);
            assert(next.drop_last() =~= pre);
            assert(next.last() == row);
            assert(rest@ =~= orig.subrange(i + 1, n as int));
            assert(params@ =~= flat(next));
            assert(out@ =~= out0 + rows_sql(d, next));
        }
        i = i + 1;
    }
    proof {
        assert(orig.subrange(0, n as int) =~= orig);
    }
}

impl Insert {
    /// Sets what to do on a uniqueness conflict.
    pub fn on_conflict(self, policy: OnConflict) -> (r: Insert)
        ensures
            r == (Insert { on_conflict: policy, ..self }),
    {
        Insert { on_conflict: policy, ..self }
    }

    /// Renders the statement: its text and the values of all rows, row after
    /// row; or the error that `insert_error` names.
    pub fn build(self) -> (r: Result<(String, Vec<Value>), Error>)
        ensures
            match r {
                Ok((s, p)) => insert_error(self) is None && s@ == insert_sql(self) && p@ == flat(
                    self.rows@,
                ),
                Err(e) => insert_error(self) == Some(e),
            },
    {
        let ghost me = self;
        let d = self.dialect;
        if self.columns.len() == 0 {
            return Err(Error::MalformedRequest(Malformed::NoColumns));
        }
        if self.rows.len() == 0 {
            return Err(Error::MalformedRequest(Malformed::NoRows));
        }
        if !check_arity(&self.rows, self.columns.len()) {
            return Err(Error::MalformedRequest(Malformed::ArityMismatch));
        }
        if !self.on_conflict.insert_supported(d) {
            return Err(Error::UnsupportedOnDialect(self.on_conflict.feature(), d));
        }
        if self.on_conflict.is_incomplete_upsert() {
            return Err(Error::MalformedRequest(Malformed::IncompleteUpsert));
        }
        let Insert { dialect: _, into_clause, columns, rows, on_conflict } = self;
        let mut out = String::new();
        let mut params: Vec<Value> = Vec::new();
        out.append("INSERT ");
        on_conflict.push_prefix(d, &mut out);
        out.append("INTO ");
        push_quoted(&mut out, d, into_clause.as_str());
        out.append("(");
        push_quoted_list(&mut out, d, &columns);
        out.append(") VALUES ");
        push_rows(rows, d, &mut out, &mut params);
        on_conflict.push_insert_suffix(d, &mut out);
        proof {
            assert(out@ =~= insert_sql(me));
        }
        Ok((out, params))
    }
}

/// For rows of `n` values each: the rows bind `rows.len() * n` values, row
/// after row; the value at `r * n + c` is column `c` of row `r`; and the
/// placeholders of row `r` are numbered on from `r * n`, so the placeholder
/// numbered `r * n + c + 1` stands for that value.
pub proof fn lemma_insert_layout(rows: Seq<Vec<Value>>, n: nat)
    requires
        rows_have_arity(rows, n),
    ensures
        flat(rows).len() == rows.len() * n,
        forall|r: int, c: int|
            0 <= r < rows.len() && 0 <= c < n ==> flat(rows)[r * n + c] == #[trigger] rows[r]@[c],
        forall|r: int| 0 <= r <= rows.len() ==> (#[trigger] flat(rows.subrange(0, r))).len() == r * n,
    decreases rows.len(),
{
    if rows.len() > 0 {
        let pre = rows.drop_last();
        let len = rows.len() as int;
        assert(rows_have_arity(pre, n)) by {
            assert forall|i: int| 0 <= i < pre.len() implies (#[trigger] pre[i])@.len() == n by {
                assert(pre[i] == rows[i]);
            }
        }
        lemma_insert_layout(pre, n);
        assert(rows.last() == rows[len - 1]);
        assert(flat(rows).len() == rows.len() * n) by (nonlinear_arith)
            requires
                flat(rows).len() == flat(pre).len() + n,
                flat(pre).len() == pre.len() * n,
                pre.len() + 1 == rows.len(),
        ;
        assert forall|r: int, c: int| 0 <= r < rows.len() && 0 <= c < n implies flat(rows)[r * n
            + c] == #[trigger] rows[r]@[c] by {
            if r < len - 1 {
                assert(r * n + c < (len - 1) * n) by (nonlinear_arith)
                    requires
                        r < len - 1,
                        c < n,
                ;
                assert(0 <= r * n) by (nonlinear_arith)
                    requires
                        0 <= r,
                ;
                assert(pre[r] == rows[r]);
            } else {
                assert(r * n == (len - 1) * n);
            }
        }
        assert forall|r: int| 0 <= r <= rows.len() implies (#[trigger] flat(
            rows.subrange(0, r),
        )).len() == r * n by {
            if r < len {
                assert(rows.subrange(0, r) =~= pre.subrange(0, r));
            } else {
                assert(rows.subrange(0, r) =~= rows);
            }
        }
    } else {
        assert forall|r: int| 0 <= r <= rows.len() implies (#[trigger] flat(
            rows.subrange(0, r),
        )).len() == r * n by {
            assert(rows.subrange(0, r) =~= rows);
        }
    }
}

/// The VALUES part of an insert holds exactly one placeholder per value
/// bound, that is `rows.len() * n` for rows of `n` values each.
pub proof fn lemma_rows_placeholders(d: DBImpl, rows: Seq<Vec<Value>>)
    ensures
        occurrences(rows_sql(d, rows), marker(d)) == flat(rows).len(),
    decreases rows.len(),
{
    let m = marker(d);
    lemma_fixed_text_unmarked(d);
    if rows.len() > 0 {
        let pre = rows.drop_last();
        let run = placeholder_run(d, flat(pre).len(), rows.last()@.len());
        lemma_run_marks(d, flat(pre).len(), rows.last()@.len());
        lemma_occurrences_append("("@, run, m);
        lemma_occurrences_append("("@ + run, ")"@, m);
        let group = "("@ + run + ")"@;
        if rows.len() == 1 {
            assert(flat(pre).len() == 0);
        } else {
            lemma_rows_placeholders(d, pre);
            lemma_occurrences_append(rows_sql(d, pre), ","@, m);
            lemma_occurrences_append(rows_sql(d, pre) + ","@, group, m);
        }
    }
}

/// Over the whole text of an insert whose table and column names hold no
/// placeholder marker: the text holds exactly one placeholder per value
/// bound, `rows.len() * n` for rows of `n` values each.
pub proof fn lemma_insert_placeholders(q: Insert)
    requires
        free_of(q.into_clause@, marker(q.dialect)),
        names_free(q.columns@, marker(q.dialect)),
        policy_names_free(q.on_conflict, marker(q.dialect)),
    ensures
        occurrences(insert_sql(q), marker(q.dialect)) == flat(q.rows@).len(),
{
    let d = q.dialect;
    let m = marker(d);
    reveal_strlit("INSERT ");
    reveal_strlit("INTO ");
    reveal_strlit("(");
    reveal_strlit(") VALUES ");
    lemma_prefix_free(d, q.on_conflict);
    lemma_suffix_free(d, q.on_conflict);
    lemma_quoted_free(d, q.into_clause@);
    lemma_quoted_list_free(d, q.columns@);
    let a1 = "INSERT "@ + policy_prefix(d, q.on_conflict);
    lemma_free_add("INSERT "@, policy_prefix(d, q.on_conflict), m);
    let a2 = a1 + "INTO "@;
    lemma_free_add(a1, "INTO "@, m);
    let a3 = a2 + quoted(d, q.into_clause@);
    lemma_free_add(a2, quoted(d, q.into_clause@), m);
    let a4 = a3 + "("@;
    lemma_free_add(a3, "("@, m);
    let a5 = a4 + quoted_list(d, views(q.columns@));
    lemma_free_add(a4, quoted_list(d, views(q.columns@)), m);
    let head = a5 + ") VALUES "@;
    lemma_free_add(a5, ") VALUES "@, m);
    let tail = insert_suffix(d, q.on_conflict);
    lemma_occurrences_free(head, m);
    lemma_occurrences_free(tail, m);
    lemma_rows_placeholders(d, q.rows@);
    lemma_occurrences_append(head, rows_sql(d, q.rows@), m);
    lemma_occurrences_append(head + rows_sql(d, q.rows@), tail, m);
    assert(insert_sql(q) == head + rows_sql(d, q.rows@) + tail);
}

} // verus!
