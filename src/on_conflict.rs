//! Conflict policies of INSERT and UPDATE, and how each dialect spells them.
use vstd::prelude::*;
use vstd::string::StringExecFns;

use crate::error::Feature;
use crate::text::{
    free_of, lemma_free_add, lemma_quoted_free, lemma_quoted_list_free, marker, names_free,
    push_quoted, push_quoted_list, quoted, quoted_list, views,
};
use crate::DBImpl;

verus! {

/// What to do when a statement violates a uniqueness constraint.
#[derive(Debug)]
pub enum OnConflict {
    /// Abort the statement (the default).
    ABORT,
    /// Roll back the transaction.
    ROLLBACK,
    /// Fail the statement, keeping prior changes of it.
    FAIL,
    /// Skip the conflicting row.
    IGNORE,
    /// Update the existing row instead: the columns whose uniqueness is
    /// violated, then the columns to take from the new row.
    UPSERT(Vec<String>, Vec<String>),
}

/// The feature that a policy asks of the dialect (`None` for ABORT, which
/// every dialect has).
pub open spec fn policy_feature(p: OnConflict) -> Option<Feature> {
    match p {
        OnConflict::ABORT => None,
        OnConflict::ROLLBACK => Some(Feature::Rollback),
        OnConflict::FAIL => Some(Feature::Fail),
        OnConflict::IGNORE => Some(Feature::Ignore),
        OnConflict::UPSERT(_, _) => Some(Feature::Upsert),
    }
}

/// Whether an INSERT on dialect `d` can carry policy `p`.
pub open spec fn insert_supports(d: DBImpl, p: OnConflict) -> bool {
    match d {
        DBImpl::SQLite => true,
        DBImpl::Postgres => p is ABORT || p is IGNORE || p is UPSERT,
        DBImpl::MySQL => p is ABORT || p is IGNORE,
    }
}

/// Whether an UPDATE on dialect `d` can carry policy `p`.
pub open spec fn update_supports(d: DBImpl, p: OnConflict) -> bool {
    match d {
        DBImpl::SQLite => !(p is UPSERT),
        DBImpl::Postgres => p is ABORT,
        DBImpl::MySQL => p is ABORT || p is IGNORE,
    }
}

/// Whether `p` is an upsert that lacks its conflict or its update columns.
pub open spec fn incomplete_upsert(p: OnConflict) -> bool {
    match p {
        OnConflict::UPSERT(c, u) => c.len() == 0 || u.len() == 0,
        _ => false,
    }
}

/// The words between the statement's verb and its table (INSERT and UPDATE
/// alike), with a trailing space where not empty.
pub open spec fn policy_prefix(d: DBImpl, p: OnConflict) -> Seq<char> {
    match d {
        DBImpl::SQLite => match p {
            OnConflict::ABORT => "OR ABORT "@,
            OnConflict::ROLLBACK => "OR ROLLBACK "@,
            OnConflict::FAIL => "OR FAIL "@,
            OnConflict::IGNORE => "OR IGNORE "@,
            OnConflict::UPSERT(_, _) => Seq::empty(),
        },
        DBImpl::MySQL => match p {
            OnConflict::IGNORE => "IGNORE "@,
            _ => Seq::empty(),
        },
        DBImpl::Postgres => Seq::empty(),
    }
}

/// `"c"=EXCLUDED."c"` for each column, comma-joined.
pub open spec fn excluded_list(d: DBImpl, cols: Seq<Seq<char>>) -> Seq<char>
    decreases cols.len(),
{
    if cols.len() == 0 {
        Seq::empty()
    } else {
        let c = cols.last();
        let item = quoted(d, c) + "=EXCLUDED."@ + quoted(d, c);
        if cols.len() == 1 {
            item
        } else {
            excluded_list(d, cols.drop_last()) + ","@ + item
        }
    }
}

/// The clause that follows the values of an INSERT.
pub open spec fn insert_suffix(d: DBImpl, p: OnConflict) -> Seq<char> {
    match p {
        OnConflict::IGNORE => if d == DBImpl::Postgres {
            " ON CONFLICT DO NOTHING"@
        } else {
            Seq::empty()
        },
        OnConflict::UPSERT(c, u) => " ON CONFLICT ("@ + quoted_list(d, views(c@))
            + ") DO UPDATE SET "@ + excluded_list(d, views(u@)),
        _ => Seq::empty(),
    }
}

impl OnConflict {
    /// Whether an INSERT on dialect `d` can carry this policy.
    pub fn insert_supported(&self, d: DBImpl) -> (r: bool)
        ensures
            r == insert_supports(d, *self),
    {
        match d {
            DBImpl::SQLite => true,
            DBImpl::Postgres => !(matches!(self, OnConflict::ROLLBACK) || matches!(self, OnConflict::FAIL)),
            DBImpl::MySQL => matches!(self, OnConflict::ABORT) || matches!(self, OnConflict::IGNORE),
        }
    }

    /// Whether an UPDATE on dialect `d` can carry this policy.
    pub fn update_supported(&self, d: DBImpl) -> (r: bool)
        ensures
            r == update_supports(d, *self),
    {
        match d {
            DBImpl::SQLite => !matches!(self, OnConflict::UPSERT(_, _)),
            DBImpl::Postgres => matches!(self, OnConflict::ABORT),
            DBImpl::MySQL => matches!(self, OnConflict::ABORT) || matches!(self, OnConflict::IGNORE),
        }
    }

    /// Whether this is an upsert that lacks its conflict or update columns.
    pub fn is_incomplete_upsert(&self) -> (r: bool)
        ensures
            r == incomplete_upsert(*self),
    {
        match self {
            OnConflict::UPSERT(c, u) => c.len() == 0 || u.len() == 0,
            _ => false,
        }
    }

    /// The feature that this policy, other than ABORT, asks of the dialect.
    pub fn feature(&self) -> (r: Feature)
        requires
            !(*self is ABORT),
        ensures
            policy_feature(*self) == Some(r),
    {
        match self {
            OnConflict::ROLLBACK => Feature::Rollback,
            OnConflict::FAIL => Feature::Fail,
            OnConflict::IGNORE => Feature::Ignore,
            _ => Feature::Upsert,
        }
    }

    /// Appends the words that follow the statement's verb.
    pub fn push_prefix(&self, d: DBImpl, out: &mut String)
        ensures
            final(out)@ == old(out)@ + policy_prefix(d, *self),
    {
        match d {
            DBImpl::SQLite => match self {
                OnConflict::ABORT => out.append("OR ABORT "),
                OnConflict::ROLLBACK => out.append("OR ROLLBACK "),
                OnConflict::FAIL => out.append("OR FAIL "),
                OnConflict::IGNORE => out.append("OR IGNORE "),
                OnConflict::UPSERT(_, _) => {
                    proof {
                        assert(out@ =~= old(out)@ + policy_prefix(d, *self));
                    }
                },
            },
            DBImpl::MySQL => match self {
                OnConflict::IGNORE => out.append("IGNORE "),
                _ => {
                    proof {
                        assert(out@ =~= old(out)@ + policy_prefix(d, *self));
                    }
                },
            },
            DBImpl::Postgres => {
                proof {
                    assert(out@ =~= old(out)@ + policy_prefix(d, *self));
                }
            },
        }
    }

    /// Appends the clause that follows the values of an INSERT.
    pub fn push_insert_suffix(&self, d: DBImpl, out: &mut String)
        ensures
            final(out)@ == old(out)@ + insert_suffix(d, *self),
    {
        match self {
            OnConflict::IGNORE => {
                if d == DBImpl::Postgres {
                    out.append(" ON CONFLICT DO NOTHING");
                } else {
                    proof {
                        assert(out@ =~= old(out)@ + insert_suffix(d, *self));
                    }
                }
            },
            OnConflict::UPSERT(c, u) => {
                out.append(" ON CONFLICT (");
                push_quoted_list(out, d, c);
                out.append(") DO UPDATE SET ");
                push_excluded_list(out, d, u);
                proof {
                    assert(out@ =~= old(out)@ + insert_suffix(d, *self));
                }
            },
            _ => {
                proof {
                    assert(out@ =~= old(out)@ + insert_suffix(d, *self));
                }
            },
        }
    }
}

fn push_excluded_list(out: &mut String, d: DBImpl, cols: &Vec<String>)
    ensures
        final(out)@ == old(out)@ + excluded_list(d, views(cols@)),
{
    let ghost start = out@;
    let mut i: usize = 0;
    while i < cols.len()
        invariant
            i <= cols.len(),
            out@ == start + excluded_list(d, views(cols@.subrange(0, i as int))),
        decreases cols.len() - i,
    {
        let ghost before = views(cols@.subrange(0, i as int));
        if i > 0 {
            out.append(",");
        }
        push_quoted(out, d, cols[i].as_str());
        out.append("=EXCLUDED.");
        push_quoted(out, d, cols[i].as_str());
        proof {
            let after = views(cols@.subrange(0, i + 1));
            assert(after.drop_last() =~= before);
            assert(after.last() == cols@[i as int]@);
            assert(out@ =~= start + excluded_list(d, after));
        }
        i = i + 1;
    }
    proof {
        assert(cols@.subrange(0, cols.len() as int) =~= cols@);
    }
}

/// The column names of an upsert are free of `m`; other policies name none.
pub open spec fn policy_names_free(p: OnConflict, m: char) -> bool {
    match p {
        OnConflict::UPSERT(c, u) => names_free(c@, m) && names_free(u@, m),
        _ => true,
    }
}

/// The words that a policy adds before the table hold no placeholder marker.
pub proof fn lemma_prefix_free(d: DBImpl, p: OnConflict)
    ensures
        free_of(policy_prefix(d, p), marker(d)),
{
    reveal_strlit("OR ABORT ");
    reveal_strlit("OR ROLLBACK ");
    reveal_strlit("OR FAIL ");
    reveal_strlit("OR IGNORE ");
    reveal_strlit("IGNORE ");
}

proof fn lemma_excluded_free(d: DBImpl, cols: Seq<String>)
    requires
        names_free(cols, marker(d)),
    ensures
        free_of(excluded_list(d, views(cols)), marker(d)),
    decreases cols.len(),
{
    reveal_strlit(",");
    reveal_strlit("=EXCLUDED.");
    if cols.len() > 0 {
        let pre = cols.drop_last();
        let m = marker(d);
        assert(views(cols).drop_last() =~= views(pre));
        assert(names_free(pre, m)) by {
            assert forall|i: int| 0 <= i < pre.len() implies free_of((#[trigger] pre[i])@, m) by {
                assert(pre[i] == cols[i]);
            }
        }
        lemma_excluded_free(d, pre);
        let c = cols.last()@;
        assert(views(cols).last() == c);
        assert(free_of(cols[cols.len() - 1]@, m));
        lemma_quoted_free(d, c);
        lemma_free_add(quoted(d, c), "=EXCLUDED."@, m);
        lemma_free_add(quoted(d, c) + "=EXCLUDED."@, quoted(d, c), m);
        let item = quoted(d, c) + "=EXCLUDED."@ + quoted(d, c);
        if cols.len() > 1 {
            lemma_free_add(excluded_list(d, views(pre)), ","@, m);
            lemma_free_add(excluded_list(d, views(pre)) + ","@, item, m);
        }
    }
}

/// The clause after the values of an insert holds no placeholder marker
/// where the upsert's column names hold none.
pub proof fn lemma_suffix_free(d: DBImpl, p: OnConflict)
    requires
        policy_names_free(p, marker(d)),
    ensures
        free_of(insert_suffix(d, p), marker(d)),
{
    reveal_strlit(" ON CONFLICT DO NOTHING");
    reveal_strlit(" ON CONFLICT (");
    reveal_strlit(") DO UPDATE SET ");
    let m = marker(d);
    if let OnConflict::UPSERT(c, u) = p {
        lemma_quoted_list_free(d, c@);
        lemma_excluded_free(d, u@);
        let a = " ON CONFLICT ("@ + quoted_list(d, views(c@));
        lemma_free_add(" ON CONFLICT ("@, quoted_list(d, views(c@)), m);
        lemma_free_add(a, ") DO UPDATE SET "@, m);
        lemma_free_add(a + ") DO UPDATE SET "@, excluded_list(d, views(u@)), m);
    }
}

} // verus!
