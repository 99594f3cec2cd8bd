//! The boolean condition tree used in WHERE clauses and partial indexes.
use vstd::prelude::*;
use vstd::string::StringExecFns;

use crate::text::{
    free_of, lemma_occurrences_append, lemma_occurrences_free, lemma_placeholder_marks,
    lemma_quoted_marks, marker, occurrences, placeholder, push_placeholder, push_quoted, quoted,
};
use crate::value::Value;
use crate::DBImpl;

verus! {

broadcast use vstd::std_specs::vec::group_vec_axioms;

/// A comparison between a column and a value or another column.
#[derive(Copy, Clone, Debug, PartialEq, Eq, Structural)]
pub enum BinaryOperator {
    /// `=`
    Equals,
    /// `<>`
    NotEquals,
    /// `<`
    Less,
    /// `<=`
    LessOrEquals,
    /// `>`
    Greater,
    /// `>=`
    GreaterOrEquals,
    /// `LIKE`
    Like,
    /// `NOT LIKE`
    NotLike,
}

/// A boolean expression over columns and bound values.
///
/// An empty conjunction renders as `1=1` (always true), an empty disjunction
/// and an `IN` over an empty list as `1=0` (always false). Non-empty
/// conjunctions and disjunctions are always parenthesized.
#[derive(Debug)]
pub enum Condition {
    /// All of the conditions hold (`AND`).
    Conjunction(Vec<Condition>),
    /// Any of the conditions holds (`OR`).
    Disjunction(Vec<Condition>),
    /// The condition does not hold (`NOT`).
    Not(Box<Condition>),
    /// A column compared with a bound value.
    BinaryValue(String, BinaryOperator, Value),
    /// A sub-expression, written verbatim, compared with a bound value; the
    /// expression's safety is the caller's concern.
    RawValue(String, BinaryOperator, Value),
    /// A column compared with another column.
    BinaryColumn(String, BinaryOperator, String),
    /// A column is one of the bound values.
    In(String, Vec<Value>),
    /// A column is `NULL`.
    IsNull(String),
    /// A column is not `NULL`.
    IsNotNull(String),
    /// A fragment emitted verbatim; its safety is the caller's concern.
    Raw(String),
}

/// The token of a comparison, with the spaces around it.
pub open spec fn op_text(op: BinaryOperator) -> Seq<char> {
    match op {
        BinaryOperator::Equals => " = "@,
        BinaryOperator::NotEquals => " <> "@,
        BinaryOperator::Less => " < "@,
        BinaryOperator::LessOrEquals => " <= "@,
        BinaryOperator::Greater => " > "@,
        BinaryOperator::GreaterOrEquals => " >= "@,
        BinaryOperator::Like => " LIKE "@,
        BinaryOperator::NotLike => " NOT LIKE "@,
    }
}

/// `n` comma-joined placeholders numbered from `k + 1`.
pub open spec fn placeholder_run(d: DBImpl, k: nat, n: nat) -> Seq<char>
    decreases n,
{
    if n == 0 {
        Seq::empty()
    } else if n == 1 {
        placeholder(d, k + 1)
    } else {
        placeholder_run(d, k, (n - 1) as nat) + ","@ + placeholder(d, k + n)
    }
}

/// The values that a condition binds, in the order of their placeholders.
pub open spec fn cond_params(c: Condition) -> Seq<Value>
    decreases c,
{
    match c {
        Condition::Conjunction(v) => group_params(v@),
        Condition::Disjunction(v) => group_params(v@),
        Condition::Not(b) => cond_params(*b),
        Condition::BinaryValue(_, _, x) => seq![x],
        Condition::RawValue(_, _, x) => seq![x],
        Condition::In(_, xs) => xs@,
        _ => Seq::empty(),
    }
}

/// The values bound by a list of conditions, one after another.
pub open spec fn group_params(cs: Seq<Condition>) -> Seq<Value>
    decreases cs,
{
    if cs.len() == 0 {
        Seq::empty()
    } else {
        group_params(cs.subrange(0, cs.len() - 1)) + cond_params(cs[cs.len() - 1])
    }
}

/// The text of a condition on dialect `d`, after `k` values were already bound.
pub open spec fn cond_sql(c: Condition, d: DBImpl, k: nat) -> Seq<char>
    decreases c,
{
    match c {
        Condition::Conjunction(v) => if v.len() == 0 {
            "1=1"@
        } else {
            "("@ + join_sql(v@, " AND "@, d, k) + ")"@
        },
        Condition::Disjunction(v) => if v.len() == 0 {
            "1=0"@
        } else {
            "("@ + join_sql(v@, " OR "@, d, k) + ")"@
        },
        Condition::Not(b) => "NOT "@ + cond_sql(*b, d, k),
        Condition::BinaryValue(col, op, _) => quoted(d, col@) + op_text(op) + placeholder(d, k + 1),
        Condition::RawValue(e, op, _) => e@ + op_text(op) + placeholder(d, k + 1),
        Condition::BinaryColumn(a, op, b) => quoted(d, a@) + op_text(op) + quoted(d, b@),
        Condition::In(col, xs) => if xs.len() == 0 {
            "1=0"@
        } else {
            quoted(d, col@) + " IN ("@ + placeholder_run(d, k, xs.len() as nat) + ")"@
        },
        Condition::IsNull(col) => quoted(d, col@) + " IS NULL"@,
        Condition::IsNotNull(col) => quoted(d, col@) + " IS NOT NULL"@,
        Condition::Raw(s) => s@,
    }
}

/// The texts of a list of conditions joined by `sep`, after `k` bound values.
pub open spec fn join_sql(cs: Seq<Condition>, sep: Seq<char>, d: DBImpl, k: nat) -> Seq<char>
    decreases cs,
{
    if cs.len() == 0 {
        Seq::empty()
    } else if cs.len() == 1 {
        cond_sql(cs[0], d, k)
    } else {
        let prefix = cs.subrange(0, cs.len() - 1);
        join_sql(prefix, sep, d, k) + sep + cond_sql(
            cs[cs.len() - 1],
            d,
            k + group_params(prefix).len(),
        )
    }
}

/// The number of bound-value leaves of a condition: one per compared value,
/// one per member of an `IN` list.
pub open spec fn value_leaves(c: Condition) -> nat
    decreases c,
{
    match c {
        Condition::Conjunction(v) => group_value_leaves(v@),
        Condition::Disjunction(v) => group_value_leaves(v@),
        Condition::Not(b) => value_leaves(*b),
        Condition::BinaryValue(_, _, _) => 1,
        Condition::RawValue(_, _, _) => 1,
        Condition::In(_, xs) => xs.len() as nat,
        _ => 0,
    }
}

/// The bound-value leaves of a list of conditions.
pub open spec fn group_value_leaves(cs: Seq<Condition>) -> nat
    decreases cs,
{
    if cs.len() == 0 {
        0
    } else {
        group_value_leaves(cs.subrange(0, cs.len() - 1)) + value_leaves(cs[cs.len() - 1])
    }
}

fn push_op(out: &mut String, op: BinaryOperator)
    ensures
        final(out)@ == old(out)@ + op_text(op),
{
    match op {
        BinaryOperator::Equals => out.append(" = "),
        BinaryOperator::NotEquals => out.append(" <> "),
        BinaryOperator::Less => out.append(" < "),
        BinaryOperator::LessOrEquals => out.append(" <= "),
        BinaryOperator::Greater => out.append(" > "),
        BinaryOperator::GreaterOrEquals => out.append(" >= "),
        BinaryOperator::Like => out.append(" LIKE "),
        BinaryOperator::NotLike => out.append(" NOT LIKE "),
    }
}

/// Moves `v` onto the end of `params` and appends its placeholder.
pub fn bind(v: Value, d: DBImpl, out: &mut String, params: &mut Vec<Value>)
    ensures
        final(out)@ == old(out)@ + placeholder(d, old(params)@.len() + 1),
        final(params)@ == old(params)@.push(v),
{
    params.push(v);
    let n = params.len() as u64;
    push_placeholder(out, d, n);
}

/// Binds every value of `xs` in order, with comma-joined placeholders.
pub fn bind_all(xs: Vec<Value>, d: DBImpl, out: &mut String, params: &mut Vec<Value>)
    ensures
        final(out)@ == old(out)@ + placeholder_run(d, old(params)@.len(), xs@.len()),
        final(params)@ == old(params)@ + xs@,
{
    let ghost orig = xs@;
    let ghost out0 = out@;
    let ghost p0 = params@;
    let mut rest = xs;
    let n = rest.len();
    let mut i: usize = 0;
    while i < n
        invariant
            n == orig.len(),
            i <= n,
            rest@ == orig.subrange(i as int, n as int),
            out@ == out0 + placeholder_run(d, p0.len(), i as nat),
            params@ == p0 + orig.subrange(0, i as int),
        decreases n - i,
    {
        if i > 0 {
            out.append(",");
        }
        let x = rest.remove(0);
        bind(x, d, out, params);
        proof {
            assert(x == orig[i as int]);
            assert(params@ =~= p0 + orig.subrange(0, i + 1));
            assert(rest@ =~= orig.subrange(i + 1, n as int));
            if i == 0 {
                assert(out@ =~= out0 + placeholder_run(d, p0.len(), (i + 1) as nat));
            } else {
                assert(out@ =~= out0 + placeholder_run(d, p0.len(), (i + 1) as nat));
            }
        }
        i = i + 1;
    }
    proof {
        assert(orig.subrange(0, n as int) =~= orig);
    }
}

/// Renders each condition of `cs` in turn, joined by `sep`.
fn render_group(
    cs: Vec<Condition>,
    sep: &str,
    d: DBImpl,
    out: &mut String,
    params: &mut Vec<Value>,
)
    ensures
        final(out)@ == old(out)@ + join_sql(cs@, sep@, d, old(params)@.len()),
        final(params)@ == old(params)@ + group_params(cs@),
    decreases cs,
{
    let ghost orig = cs@;
    let ghost out0 = out@;
    let ghost p0 = params@;
    let mut rest = cs;
    let n = rest.len();
    let mut i: usize = 0;
    while i < n
        invariant
            n == orig.len(),
            orig == cs@,
            i <= n,
            rest@ == orig.subrange(i as int, n as int),
            out@ == out0 + join_sql(orig.subrange(0, i as int), sep@, d, p0.len()),
            params@ == p0 + group_params(orig.subrange(0, i as int)),
        decreases n - i,
    {
        let ghost pre = orig.subrange(0, i as int);
        let ghost next = orig.subrange(0, i + 1);
        if i > 0 {
            out.append(sep);
        }
        let c = rest.remove(0);
        proof {
            assert(c == orig[i as int]);
            assert(decreases_to!(cs => c));
        }
        c.render(d, out, params);
        proof {
            assert(next.subrange(0, i as int) =~= pre);
            assert(next[i as int] == c);
            assert(rest@ =~= orig.subrange(i + 1, n as int));
            assert(params@ =~= p0 + group_params(next));
            if i == 0 {
                assert(pre.len() == 0);
                assert(out@ =~= out0 + join_sql(next, sep@, d, p0.len()));
            } else {
                assert(out@ =~= out0 + join_sql(next, sep@, d, p0.len()));
            }
        }
        i = i + 1;
    }
    proof {
        assert(orig.subrange(0, n as int) =~= orig);
    }
}

impl Condition {
    /// Appends the text of this condition to `out` and moves its values onto
    /// `params`, in placeholder order.
    #[verifier::rlimit(60)]
    pub fn render(self, d: DBImpl, out: &mut String, params: &mut Vec<Value>)
        ensures
            final(out)@ == old(out)@ + cond_sql(self, d, old(params)@.len()),
            final(params)@ == old(params)@ + cond_params(self),
        decreases self,
    {
        let ghost me = self;
        match self {
            Condition::Conjunction(v) => {
                if v.len() == 0 {
                    out.append("1=1");
                    proof {
                        assert(v@.len() == 0);
                        assert(group_params(v@) =~= Seq::<Value>::empty());
                        assert(params@ =~= old(params)@ + cond_params(me));
                    }
                } else {
                    out.append("(");
                    render_group(v, " AND ", d, out, params);
                    out.append(")");
                    proof {
                        assert(out@ =~= old(out)@ + cond_sql(me, d, old(params)@.len()));
                    }
                }
            },
            Condition::Disjunction(v) => {
                if v.len() == 0 {
                    out.append("1=0");
                    proof {
                        assert(v@.len() == 0);
                        assert(group_params(v@) =~= Seq::<Value>::empty());
                        assert(params@ =~= old(params)@ + cond_params(me));
                    }
                } else {
                    out.append("(");
                    render_group(v, " OR ", d, out, params);
                    out.append(")");
                    proof {
                        assert(out@ =~= old(out)@ + cond_sql(me, d, old(params)@.len()));
                    }
                }
            },
            Condition::Not(b) => {
                out.append("NOT ");
                (*b).render(d, out, params);
                proof {
                    assert(out@ =~= old(out)@ + cond_sql(me, d, old(params)@.len()));
                }
            },
            Condition::BinaryValue(col, op, x) => {
                push_quoted(out, d, col.as_str());
                push_op(out, op);
                bind(x, d, out, params);
                proof {
                    assert(out@ =~= old(out)@ + cond_sql(me, d, old(params)@.len()));
                    assert(params@ =~= old(params)@ + cond_params(me));
                }
            },
            Condition::RawValue(e, op, x) => {
                out.append(e.as_str());
                push_op(out, op);
                bind(x, d, out, params);
                proof {
                    assert(out@ =~= old(out)@ + cond_sql(me, d, old(params)@.len()));
                    assert(params@ =~= old(params)@ + cond_params(me));
                }
            },
            Condition::BinaryColumn(a, op, b) => {
                push_quoted(out, d, a.as_str());
                push_op(out, op);
                push_quoted(out, d, b.as_str());
                proof {
                    assert(out@ =~= old(out)@ + cond_sql(me, d, old(params)@.len()));
                    assert(params@ =~= old(params)@ + cond_params(me));
                }
            },
            Condition::In(col, xs) => {
                if xs.len() == 0 {
                    out.append("1=0");
                    proof {
                        assert(params@ =~= old(params)@ + cond_params(me));
                    }
                } else {
                    push_quoted(out, d, col.as_str());
                    out.append(" IN (");
                    bind_all(xs, d, out, params);
                    out.append(")");
                    proof {
                        assert(out@ =~= old(out)@ + cond_sql(me, d, old(params)@.len()));
                    }
                }
            },
            Condition::IsNull(col) => {
                push_quoted(out, d, col.as_str());
                out.append(" IS NULL");
                proof {
                    assert(out@ =~= old(out)@ + cond_sql(me, d, old(params)@.len()));
                    assert(params@ =~= old(params)@ + cond_params(me));
                }
            },
            Condition::IsNotNull(col) => {
                push_quoted(out, d, col.as_str());
                out.append(" IS NOT NULL");
                proof {
                    assert(out@ =~= old(out)@ + cond_sql(me, d, old(params)@.len()));
                    assert(params@ =~= old(params)@ + cond_params(me));
                }
            },
            Condition::Raw(s) => {
                out.append(s.as_str());
                proof {
                    assert(params@ =~= old(params)@ + cond_params(me));
                }
            },
        }
    }
}

/// The WHERE clause, with its leading space, of an optional condition.
pub open spec fn where_sql(w: Option<Condition>, d: DBImpl, k: nat) -> Seq<char> {
    match w {
        Some(c) => " WHERE "@ + cond_sql(c, d, k),
        None => Seq::empty(),
    }
}

/// The values bound by an optional condition.
pub open spec fn where_params(w: Option<Condition>) -> Seq<Value> {
    match w {
        Some(c) => cond_params(c),
        None => Seq::empty(),
    }
}

/// Appends the WHERE clause of `w`, if any, and binds its values.
pub fn push_where(w: Option<Condition>, d: DBImpl, out: &mut String, params: &mut Vec<Value>)
    ensures
        final(out)@ == old(out)@ + where_sql(w, d, old(params)@.len()),
        final(params)@ == old(params)@ + where_params(w),
{
    match w {
        Some(c) => {
            out.append(" WHERE ");
            c.render(d, out, params);
            proof {
                assert(out@ =~= old(out)@ + where_sql(w, d, old(params)@.len()));
            }
        },
        None => {
            proof {
                assert(out@ =~= old(out)@ + where_sql(w, d, old(params)@.len()));
                assert(params@ =~= old(params)@ + where_params(w));
            }
        },
    }
}

/// Rendering a condition binds exactly one value per bound-value leaf: one
/// per compared value, one per member of an `IN` list, none for the rest.
pub proof fn lemma_params_match_leaves(c: Condition)
    ensures
        cond_params(c).len() == value_leaves(c),
    decreases c,
{
    match c {
        Condition::Conjunction(v) => lemma_group_params_match_leaves(v@),
        Condition::Disjunction(v) => lemma_group_params_match_leaves(v@),
        Condition::Not(b) => lemma_params_match_leaves(*b),
        _ => {},
    }
}

/// The group form of `lemma_params_match_leaves`.
pub proof fn lemma_group_params_match_leaves(cs: Seq<Condition>)
    ensures
        group_params(cs).len() == group_value_leaves(cs),
    decreases cs,
{
    if cs.len() > 0 {
        lemma_group_params_match_leaves(cs.subrange(0, cs.len() - 1));
        lemma_params_match_leaves(cs[cs.len() - 1]);
    }
}

/// A tree of comparisons with values and of `IN` lists, under `AND`, `OR`
/// and `NOT`, whose column names and raw operands hold no placeholder marker
/// of `d`.
pub open spec fn value_tree(c: Condition, d: DBImpl) -> bool
    decreases c,
{
    match c {
        Condition::Conjunction(v) => group_value_tree(v@, d),
        Condition::Disjunction(v) => group_value_tree(v@, d),
        Condition::Not(b) => value_tree(*b, d),
        Condition::BinaryValue(col, _, _) => free_of(col@, marker(d)),
        Condition::RawValue(e, _, _) => free_of(e@, marker(d)),
        Condition::In(col, _) => free_of(col@, marker(d)),
        _ => false,
    }
}

/// Every condition of the list is a `value_tree`.
pub open spec fn group_value_tree(cs: Seq<Condition>, d: DBImpl) -> bool
    decreases cs,
{
    if cs.len() == 0 {
        true
    } else {
        group_value_tree(cs.subrange(0, cs.len() - 1), d) && value_tree(cs[cs.len() - 1], d)
    }
}

pub(crate) proof fn lemma_fixed_text_unmarked(d: DBImpl)
    ensures
        occurrences(" AND "@, marker(d)) == 0,
        occurrences(" OR "@, marker(d)) == 0,
        occurrences("("@, marker(d)) == 0,
        occurrences(")"@, marker(d)) == 0,
        occurrences(","@, marker(d)) == 0,
        occurrences(" IN ("@, marker(d)) == 0,
        occurrences("1=1"@, marker(d)) == 0,
        occurrences("1=0"@, marker(d)) == 0,
        occurrences("NOT "@, marker(d)) == 0,
        forall|op: BinaryOperator| occurrences(#[trigger] op_text(op), marker(d)) == 0,
{
    reveal_strlit(" AND ");
    reveal_strlit(" OR ");
    reveal_strlit("(");
    reveal_strlit(")");
    reveal_strlit(",");
    reveal_strlit(" IN (");
    reveal_strlit("1=1");
    reveal_strlit("1=0");
    reveal_strlit("NOT ");
    reveal_strlit(" = ");
    reveal_strlit(" <> ");
    reveal_strlit(" < ");
    reveal_strlit(" <= ");
    reveal_strlit(" > ");
    reveal_strlit(" >= ");
    reveal_strlit(" LIKE ");
    reveal_strlit(" NOT LIKE ");
    let m = marker(d);
    lemma_occurrences_free(" AND "@, m);
    lemma_occurrences_free(" OR "@, m);
    lemma_occurrences_free("("@, m);
    lemma_occurrences_free(")"@, m);
    lemma_occurrences_free(","@, m);
    lemma_occurrences_free(" IN ("@, m);
    lemma_occurrences_free("1=1"@, m);
    lemma_occurrences_free("1=0"@, m);
    lemma_occurrences_free("NOT "@, m);
    assert forall|op: BinaryOperator| occurrences(#[trigger] op_text(op), m) == 0 by {
        assert(free_of(op_text(op), m));
        lemma_occurrences_free(op_text(op), m);
    }
}

pub(crate) proof fn lemma_run_marks(d: DBImpl, k: nat, n: nat)
    ensures
        occurrences(placeholder_run(d, k, n), marker(d)) == n,
    decreases n,
{
    let m = marker(d);
    lemma_fixed_text_unmarked(d);
    lemma_placeholder_marks(d, k + n);
    if n == 0 {
        assert(placeholder_run(d, k, n).len() == 0);
    } else if n > 1 {
        lemma_run_marks(d, k, (n - 1) as nat);
        let a = placeholder_run(d, k, (n - 1) as nat);
        lemma_occurrences_append(a, ","@, m);
        lemma_occurrences_append(a + ","@, placeholder(d, k + n), m);
    }
}

/// In a tree of value comparisons and `IN` lists, the text holds exactly as
/// many placeholders as the tree has bound-value leaves, which is also the
/// number of values bound (`lemma_params_match_leaves`).
pub proof fn lemma_placeholders_match_leaves(c: Condition, d: DBImpl, k: nat)
    requires
        value_tree(c, d),
    ensures
        occurrences(cond_sql(c, d, k), marker(d)) == value_leaves(c),
        cond_params(c).len() == value_leaves(c),
    decreases c,
{
    let m = marker(d);
    lemma_fixed_text_unmarked(d);
    lemma_params_match_leaves(c);
    match c {
        Condition::Conjunction(v) => {
            if v.len() == 0 {
                assert(group_value_leaves(v@) == 0);
            } else {
                lemma_group_placeholders(v@, " AND "@, d, k);
                let j = join_sql(v@, " AND "@, d, k);
                lemma_occurrences_append("("@, j, m);
                lemma_occurrences_append("("@ + j, ")"@, m);
            }
        },
        Condition::Disjunction(v) => {
            if v.len() == 0 {
                assert(group_value_leaves(v@) == 0);
            } else {
                lemma_group_placeholders(v@, " OR "@, d, k);
                let j = join_sql(v@, " OR "@, d, k);
                lemma_occurrences_append("("@, j, m);
                lemma_occurrences_append("("@ + j, ")"@, m);
            }
        },
        Condition::Not(b) => {
            lemma_placeholders_match_leaves(*b, d, k);
            lemma_occurrences_append("NOT "@, cond_sql(*b, d, k), m);
        },
        Condition::BinaryValue(col, op, _) => {
            lemma_quoted_marks(d, col@);
            lemma_occurrences_free(col@, m);
            lemma_placeholder_marks(d, k + 1);
            let q = quoted(d, col@);
            lemma_occurrences_append(q, op_text(op), m);
            lemma_occurrences_append(q + op_text(op), placeholder(d, k + 1), m);
        },
        Condition::RawValue(e, op, _) => {
            lemma_occurrences_free(e@, m);
            lemma_placeholder_marks(d, k + 1);
            lemma_occurrences_append(e@, op_text(op), m);
            lemma_occurrences_append(e@ + op_text(op), placeholder(d, k + 1), m);
        },
        Condition::In(col, xs) => {
            if xs.len() > 0 {
                lemma_quoted_marks(d, col@);
                lemma_occurrences_free(col@, m);
                lemma_run_marks(d, k, xs.len() as nat);
                let q = quoted(d, col@);
                let r = placeholder_run(d, k, xs.len() as nat);
                lemma_occurrences_append(q, " IN ("@, m);
                lemma_occurrences_append(q + " IN ("@, r, m);
                lemma_occurrences_append(q + " IN ("@ + r, ")"@, m);
            }
        },
        _ => {},
    }
}

/// The group form of `lemma_placeholders_match_leaves`, for a separator
/// without markers.
pub proof fn lemma_group_placeholders(cs: Seq<Condition>, sep: Seq<char>, d: DBImpl, k: nat)
    requires
        group_value_tree(cs, d),
        occurrences(sep, marker(d)) == 0,
    ensures
        occurrences(join_sql(cs, sep, d, k), marker(d)) == group_value_leaves(cs),
    decreases cs,
{
    let m = marker(d);
    if cs.len() == 1 {
        assert(cs.subrange(0, 0).len() == 0);
        assert(group_value_leaves(cs.subrange(0, 0)) == 0);
        lemma_placeholders_match_leaves(cs[0], d, k);
    } else if cs.len() > 1 {
        let prefix = cs.subrange(0, cs.len() - 1);
        let last = cs[cs.len() - 1];
        let k2 = k + group_params(prefix).len();
        lemma_group_placeholders(prefix, sep, d, k);
        lemma_placeholders_match_leaves(last, d, k2);
        let a = join_sql(prefix, sep, d, k);
        lemma_occurrences_append(a, sep, m);
        lemma_occurrences_append(a + sep, cond_sql(last, d, k2), m);
    }
}

} // verus!
