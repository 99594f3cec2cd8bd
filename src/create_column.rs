//! Column definitions: type keywords, annotations and their order.
use vstd::prelude::*;
use vstd::string::StringExecFns;

use crate::conditional::bind;
use crate::text::{dec, placeholder, push_dec, push_quoted, quoted};
use crate::value::Value;
use crate::DBImpl;

verus! {

/// The abstract type of a column.
#[derive(Copy, Clone, Debug, PartialEq, Eq, Structural)]
pub enum DbType {
    /// Text; with a `MaxLength` annotation, of bounded length where the
    /// dialect can say so.
    VarChar,
    /// Binary data.
    Binary,
    /// 16-bit integer.
    Int16,
    /// 32-bit integer.
    Int32,
    /// 64-bit integer.
    Int64,
    /// Single-precision floating point.
    Float,
    /// Double-precision floating point.
    Double,
    /// Boolean.
    Boolean,
    /// Calendar date.
    Date,
    /// Date and time of day.
    DateTime,
    /// Time of day.
    Time,
}

/// What a foreign key does when the row it refers to is deleted or updated.
#[derive(Copy, Clone, Debug, PartialEq, Eq, Structural)]
pub enum ReferentialAction {
    /// Refuse the change.
    Restrict,
    /// Apply the change to the referring rows too.
    Cascade,
    /// Set the referring column to NULL.
    SetNull,
    /// Set the referring column to its default.
    SetDefault,
    /// Do nothing (checked at the end of the statement).
    NoAction,
}

/// A constraint on a column.
#[derive(Debug, PartialEq, Eq)]
pub enum Annotation {
    /// The column is the primary key.
    PrimaryKey,
    /// The column takes the next number on insert.
    AutoIncrement,
    /// The column cannot hold NULL.
    NotNull,
    /// No two rows have the same value in the column.
    Unique,
    /// The value of the column when an insert gives none; bound, not inlined.
    DefaultValue(Value),
    /// The largest length of a text column; rendered with the type.
    MaxLength(u32),
    /// The column is indexed, by an index of the given name or of a name
    /// made from the table's and the column's; the index is a statement of
    /// its own, run after the table is created.
    Index(Option<String>),
    /// The column refers to a column of another table: table, column, action
    /// on delete, action on update.
    ForeignKey(String, String, ReferentialAction, ReferentialAction),
}

/// The type keyword of `ty` on dialect `d`, given the column's maximal length.
pub open spec fn type_sql(d: DBImpl, ty: DbType, max_len: Option<u32>) -> Seq<char> {
    match ty {
        DbType::VarChar => match (d, max_len) {
            (DBImpl::SQLite, _) => "TEXT"@,
            (_, Some(n)) => "VARCHAR("@ + dec(n as nat) + ")"@,
            (_, None) => "TEXT"@,
        },
        DbType::Binary => match d {
            DBImpl::SQLite => "BLOB"@,
            DBImpl::Postgres => "BYTEA"@,
            DBImpl::MySQL => "LONGBLOB"@,
        },
        DbType::Int16 => match d {
            DBImpl::SQLite => "INTEGER"@,
            _ => "SMALLINT"@,
        },
        DbType::Int32 => match d {
            DBImpl::MySQL => "INT"@,
            _ => "INTEGER"@,
        },
        DbType::Int64 => match d {
            DBImpl::SQLite => "INTEGER"@,
            _ => "BIGINT"@,
        },
        DbType::Float => match d {
            DBImpl::MySQL => "FLOAT"@,
            _ => "REAL"@,
        },
        DbType::Double => match d {
            DBImpl::SQLite => "REAL"@,
            DBImpl::Postgres => "DOUBLE PRECISION"@,
            DBImpl::MySQL => "DOUBLE"@,
        },
        DbType::Boolean => match d {
            DBImpl::MySQL => "BOOL"@,
            _ => "BOOLEAN"@,
        },
        DbType::Date => match d {
            DBImpl::SQLite => "TEXT"@,
            _ => "DATE"@,
        },
        DbType::DateTime => match d {
            DBImpl::SQLite => "TEXT"@,
            DBImpl::Postgres => "TIMESTAMP"@,
            DBImpl::MySQL => "DATETIME"@,
        },
        DbType::Time => match d {
            DBImpl::SQLite => "TEXT"@,
            _ => "TIME"@,
        },
    }
}

/// The referential action's keywords.
pub open spec fn action_sql(a: ReferentialAction) -> Seq<char> {
    match a {
        ReferentialAction::Restrict => "RESTRICT"@,
        ReferentialAction::Cascade => "CASCADE"@,
        ReferentialAction::SetNull => "SET NULL"@,
        ReferentialAction::SetDefault => "SET DEFAULT"@,
        ReferentialAction::NoAction => "NO ACTION"@,
    }
}

/// The text of one annotation, with its leading space, after `k` bound values.
pub open spec fn annotation_sql(d: DBImpl, a: Annotation, k: nat) -> Seq<char> {
    match a {
        Annotation::PrimaryKey => " PRIMARY KEY"@,
        Annotation::AutoIncrement => match d {
            DBImpl::SQLite => " AUTOINCREMENT"@,
            DBImpl::Postgres => " GENERATED BY DEFAULT AS IDENTITY"@,
            DBImpl::MySQL => " AUTO_INCREMENT"@,
        },
        Annotation::NotNull => " NOT NULL"@,
        Annotation::Unique => " UNIQUE"@,
        Annotation::DefaultValue(_) => " DEFAULT "@ + placeholder(d, k + 1),
        Annotation::MaxLength(_) => Seq::empty(),
        Annotation::Index(_) => Seq::empty(),
        Annotation::ForeignKey(t, c, on_delete, on_update) => " REFERENCES "@ + quoted(d, t@) + "("@
            + quoted(d, c@) + ") ON DELETE "@ + action_sql(on_delete) + " ON UPDATE "@ + action_sql(
            on_update,
        ),
    }
}

/// The values an annotation binds.
pub open spec fn annotation_params(a: Annotation) -> Seq<Value> {
    match a {
        Annotation::DefaultValue(v) => seq![v],
        _ => Seq::empty(),
    }
}

/// The values a list of annotations binds, in order.
pub open spec fn annotations_params(anns: Seq<Annotation>) -> Seq<Value>
    decreases anns.len(),
{
    if anns.len() == 0 {
        Seq::empty()
    } else {
        annotations_params(anns.drop_last()) + annotation_params(anns.last())
    }
}

/// The texts of a list of annotations, in order, after `k` bound values.
pub open spec fn annotations_sql(d: DBImpl, anns: Seq<Annotation>, k: nat) -> Seq<char>
    decreases anns.len(),
{
    if anns.len() == 0 {
        Seq::empty()
    } else {
        let pre = anns.drop_last();
        annotations_sql(d, pre, k) + annotation_sql(d, anns.last(), k + annotations_params(pre).len())
    }
}

/// Whether an annotation is `PrimaryKey`.
pub open spec fn is_pk(a: Annotation) -> bool {
    a is PrimaryKey
}

/// The primary-key annotations of a list, in order.
pub open spec fn pks(anns: Seq<Annotation>) -> Seq<Annotation>
    decreases anns.len(),
{
    if anns.len() == 0 {
        Seq::empty()
    } else if is_pk(anns.last()) {
        pks(anns.drop_last()).push(anns.last())
    } else {
        pks(anns.drop_last())
    }
}

/// The other annotations of a list, in order.
pub open spec fn others(anns: Seq<Annotation>) -> Seq<Annotation>
    decreases anns.len(),
{
    if anns.len() == 0 {
        Seq::empty()
    } else if is_pk(anns.last()) {
        others(anns.drop_last())
    } else {
        others(anns.drop_last()).push(anns.last())
    }
}

/// The annotations in rendering order: the primary keys first, then all
/// the others in the order given.
pub open spec fn ordered(anns: Seq<Annotation>) -> Seq<Annotation> {
    pks(anns) + others(anns)
}

/// Whether the first annotation that is not a primary key is an
/// autoincrement, so that it is rendered right after the primary key.
pub open spec fn auto_follows_pk(anns: Seq<Annotation>) -> bool {
    exists|i: int|
        0 <= i < anns.len() && (#[trigger] anns[i]) is AutoIncrement && forall|j: int|
            0 <= j < i ==> (#[trigger] anns[j]) is PrimaryKey
}

/// Whether some annotation of the list satisfies `f`.
pub open spec fn has(anns: Seq<Annotation>, f: spec_fn(Annotation) -> bool) -> bool {
    exists|i: int| 0 <= i < anns.len() && f(#[trigger] anns[i])
}

/// Whether a type is one of the integer types.
pub open spec fn is_integer(ty: DbType) -> bool {
    ty is Int16 || ty is Int32 || ty is Int64
}

/// Whether the column asks for an autoincrement that dialect `d` cannot
/// express: every dialect needs an integer column; SQLite also needs the
/// primary key on it, with the autoincrement right after it (the first
/// annotation that is not a primary key); MySQL needs a key (primary or
/// unique).
pub open spec fn column_unsupported(c: CreateColumn, d: DBImpl) -> bool {
    let anns = c.annotations@;
    let pk = has(anns, |a: Annotation| a is PrimaryKey);
    let unique = has(anns, |a: Annotation| a is Unique);
    has(anns, |a: Annotation| a is AutoIncrement) && (!is_integer(c.data_type) || (d
        == DBImpl::SQLite && (!pk || !auto_follows_pk(anns))) || (d == DBImpl::MySQL && !pk && !unique))
}

/// The length of the last `MaxLength` annotation, if any.
pub open spec fn max_length(anns: Seq<Annotation>) -> Option<u32>
    decreases anns.len(),
{
    if anns.len() == 0 {
        None
    } else {
        match anns.last() {
            Annotation::MaxLength(n) => Some(n),
            _ => max_length(anns.drop_last()),
        }
    }
}

/// A column definition: quoted name, type, annotations.
#[derive(Debug)]
pub struct CreateColumn {
    /// The dialect to render for.
    pub dialect: DBImpl,
    /// The table that the column belongs to.
    pub table_name: String,
    /// The column's name.
    pub name: String,
    /// The column's type.
    pub data_type: DbType,
    /// The column's annotations, in the order given.
    pub annotations: Vec<Annotation>,
}

/// The text of a column definition, after `k` bound values.
pub open spec fn column_sql(c: CreateColumn, k: nat) -> Seq<char> {
    let d = c.dialect;
    quoted(d, c.name@) + " "@ + type_sql(d, c.data_type, max_length(c.annotations@))
        + annotations_sql(d, ordered(c.annotations@), k)
}

/// The values a column definition binds.
pub open spec fn column_params(c: CreateColumn) -> Seq<Value> {
    annotations_params(ordered(c.annotations@))
}

fn type_keyword(d: DBImpl, ty: DbType) -> (r: &'static str)
    requires
        !(ty is VarChar),
    ensures
        r@ == type_sql(d, ty, None),
{
    match ty {
        DbType::VarChar => "TEXT",
        DbType::Binary => match d {
            DBImpl::SQLite => "BLOB",
            DBImpl::Postgres => "BYTEA",
            DBImpl::MySQL => "LONGBLOB",
        },
        DbType::Int16 => match d {
            DBImpl::SQLite => "INTEGER",
            _ => "SMALLINT",
        },
        DbType::Int32 => match d {
            DBImpl::MySQL => "INT",
            _ => "INTEGER",
        },
        DbType::Int64 => match d {
            DBImpl::SQLite => "INTEGER",
            _ => "BIGINT",
        },
        DbType::Float => match d {
            DBImpl::MySQL => "FLOAT",
            _ => "REAL",
        },
        DbType::Double => match d {
            DBImpl::SQLite => "REAL",
            DBImpl::Postgres => "DOUBLE PRECISION",
            DBImpl::MySQL => "DOUBLE",
        },
        DbType::Boolean => match d {
            DBImpl::MySQL => "BOOL",
            _ => "BOOLEAN",
        },
        DbType::Date => match d {
            DBImpl::SQLite => "TEXT",
            _ => "DATE",
        },
        DbType::DateTime => match d {
            DBImpl::SQLite => "TEXT",
            DBImpl::Postgres => "TIMESTAMP",
            DBImpl::MySQL => "DATETIME",
        },
        DbType::Time => match d {
            DBImpl::SQLite => "TEXT",
            _ => "TIME",
        },
    }
}

fn push_type(out: &mut String, d: DBImpl, ty: DbType, max_len: Option<u32>)
    ensures
        final(out)@ == old(out)@ + type_sql(d, ty, max_len),
{
    match ty {
        DbType::VarChar => match (d, max_len) {
            (DBImpl::SQLite, _) => out.append("TEXT"),
            (_, Some(n)) => {
                out.append("VARCHAR(");
                push_dec(out, n as u64);
                out.append(")");
                proof {
                    assert(out@ =~= old(out)@ + type_sql(d, ty, max_len));
                }
            },
            (_, None) => out.append("TEXT"),
        },
        _ => out.append(type_keyword(d, ty)),
    }
}

fn find_max_length(anns: &Vec<Annotation>) -> (r: Option<u32>)
    ensures
        r == max_length(anns@),
{
    let mut cur: Option<u32> = None;
    let mut i: usize = 0;
    while i < anns.len()
        invariant
            i <= anns.len(),
            cur == max_length(anns@.subrange(0, i as int)),
        decreases anns.len() - i,
    {
        if let Annotation::MaxLength(n) = &anns[i] {
            cur = Some(*n);
        }
        proof {
            assert(anns@.subrange(0, i + 1).drop_last() =~= anns@.subrange(0, i as int));
        }
        i = i + 1;
    }
    proof {
        assert(anns@.subrange(0, anns.len() as int) =~= anns@);
    }
    cur
}

pub(crate) fn push_action(out: &mut String, a: ReferentialAction)
    ensures
        final(out)@ == old(out)@ + action_sql(a),
{
    match a {
        ReferentialAction::Restrict => out.append("RESTRICT"),
        ReferentialAction::Cascade => out.append("CASCADE"),
        ReferentialAction::SetNull => out.append("SET NULL"),
        ReferentialAction::SetDefault => out.append("SET DEFAULT"),
        ReferentialAction::NoAction => out.append("NO ACTION"),
    }
}

fn push_annotation(a: Annotation, d: DBImpl, out: &mut String, params: &mut Vec<Value>)
    ensures
        final(out)@ == old(out)@ + annotation_sql(d, a, old(params)@.len()),
        final(params)@ == old(params)@ + annotation_params(a),
{
    let ghost a0 = a;
    match a {
        Annotation::PrimaryKey => out.append(" PRIMARY KEY"),
        Annotation::AutoIncrement => match d {
            DBImpl::SQLite => out.append(" AUTOINCREMENT"),
            DBImpl::Postgres => out.append(" GENERATED BY DEFAULT AS IDENTITY"),
            DBImpl::MySQL => out.append(" AUTO_INCREMENT"),
        },
        Annotation::NotNull => out.append(" NOT NULL"),
        Annotation::Unique => out.append(" UNIQUE"),
        Annotation::DefaultValue(v) => {
            out.append(" DEFAULT ");
            bind(v, d, out, params);
        },
        Annotation::MaxLength(_) => {},
        Annotation::Index(_) => {},
        Annotation::ForeignKey(t, c, on_delete, on_update) => {
            out.append(" REFERENCES ");
            push_quoted(out, d, t.as_str());
            out.append("(");
            push_quoted(out, d, c.as_str());
            out.append(") ON DELETE ");
            push_action(out, on_delete);
            out.append(" ON UPDATE ");
            push_action(out, on_update);
        },
    }
    proof {
        assert(out@ =~= old(out)@ + annotation_sql(d, a0, old(params)@.len()));
        assert(params@ =~= old(params)@ + annotation_params(a0));
    }
}

/// Rendering a list of annotations after another: the texts and the values
/// follow each other, the second numbered on from the first.
pub proof fn lemma_annotations_append(d: DBImpl, a: Seq<Annotation>, b: Seq<Annotation>, k: nat)
    ensures
        annotations_sql(d, a + b, k) == annotations_sql(d, a, k) + annotations_sql(
            d,
            b,
            k + annotations_params(a).len(),
        ),
        annotations_params(a + b) == annotations_params(a) + annotations_params(b),
    decreases b.len(),
{
    if b.len() == 0 {
        assert(a + b =~= a);
    } else {
        let b0 = b.drop_last();
        lemma_annotations_append(d, a, b0, k);
        assert((a + b).drop_last() =~= a + b0);
        assert((a + b).last() == b.last());
        assert(annotations_sql(d, a + b, k) =~= annotations_sql(d, a, k) + annotations_sql(
            d,
            b,
            k + annotations_params(a).len(),
        ));
        assert(annotations_params(a + b) =~= annotations_params(a) + annotations_params(b));
    }
}

proof fn lemma_leading_bind_nothing(anns: Seq<Annotation>)
    ensures
        annotations_params(pks(anns)) == Seq::<Value>::empty(),
    decreases anns.len(),
{
    if anns.len() > 0 {
        lemma_leading_bind_nothing(anns.drop_last());
        if is_pk(anns.last()) {
            assert(pks(anns).drop_last() =~= pks(anns.drop_last()));
            assert(annotations_params(pks(anns)) =~= Seq::<Value>::empty());
        }
    }
}

fn first_other_is_auto(anns: &Vec<Annotation>) -> (r: bool)
    ensures
        r == auto_follows_pk(anns@),
{
    let mut i: usize = 0;
    while i < anns.len()
        invariant
            i <= anns.len(),
            forall|j: int| 0 <= j < i ==> (#[trigger] anns@[j]) is PrimaryKey,
        decreases anns.len() - i,
    {
        match &anns[i] {
            Annotation::PrimaryKey => {},
            Annotation::AutoIncrement => {
                return true;
            },
            _ => {
                proof {
                    assert forall|k: int|
                        0 <= k < anns@.len() && (#[trigger] anns@[k]) is AutoIncrement implies !(
                        forall|j: int| 0 <= j < k ==> (#[trigger] anns@[j]) is PrimaryKey) by {
                        if k > i {
                            assert(!(anns@[i as int] is PrimaryKey));
                        }
                    }
                }
                return false;
            },
        }
        i = i + 1;
    }
    false
}

fn find_flags(anns: &Vec<Annotation>) -> (r: (bool, bool, bool))
    ensures
        r.0 == has(anns@, |a: Annotation| a is PrimaryKey),
        r.1 == has(anns@, |a: Annotation| a is Unique),
        r.2 == has(anns@, |a: Annotation| a is AutoIncrement),
{
    let mut pk = false;
    let mut unique = false;
    let mut auto = false;
    let mut i: usize = 0;
    while i < anns.len()
        invariant
            i <= anns.len(),
            pk == exists|j: int| 0 <= j < i && (#[trigger] anns@[j]) is PrimaryKey,
            unique == exists|j: int| 0 <= j < i && (#[trigger] anns@[j]) is Unique,
            auto == exists|j: int| 0 <= j < i && (#[trigger] anns@[j]) is AutoIncrement,
        decreases anns.len() - i,
    {
        match &anns[i] {
            Annotation::PrimaryKey => pk = true,
            Annotation::Unique => unique = true,
            Annotation::AutoIncrement => auto = true,
            _ => {},
        }
        i = i + 1;
    }
    (pk, unique, auto)
}

impl CreateColumn {
    /// Whether the column asks for an autoincrement that dialect `d` cannot
    /// express.
    pub fn unsupported(&self, d: DBImpl) -> (r: bool)
        ensures
            r == column_unsupported(*self, d),
    {
        let (pk, unique, auto) = find_flags(&self.annotations);
        let integer = match self.data_type {
            DbType::Int16 | DbType::Int32 | DbType::Int64 => true,
            _ => false,
        };
        let follows = first_other_is_auto(&self.annotations);
        auto && (!integer || (d == DBImpl::SQLite && (!pk || !follows)) || (d == DBImpl::MySQL && !pk && !unique))
    }

    /// Appends the column definition to `out` and moves the values of its
    /// defaults onto `params`. The primary-key annotations come first, the
    /// others follow in the order given.
    pub fn render(self, out: &mut String, params: &mut Vec<Value>)
        ensures
            final(out)@ == old(out)@ + column_sql(self, old(params)@.len()),
            final(params)@ == old(params)@ + column_params(self),
    {
        let ghost me = self;
        let ghost k = params@.len();
        let d = self.dialect;
        push_quoted(out, d, self.name.as_str());
        out.append(" ");
        let max_len = find_max_length(&self.annotations);
        push_type(out, d, self.data_type, max_len);
        let ghost anns = self.annotations@;
        let ghost out1 = out@;
        let mut i: usize = 0;
        while i < self.annotations.len()
            invariant
                anns == self.annotations@,
                i <= anns.len(),
                params@.len() == k,
                params@ == old(params)@,
                out@ == out1 + annotations_sql(d, pks(anns.subrange(0, i as int)), k),
            decreases anns.len() - i,
        {
            let ghost pre = anns.subrange(0, i as int);
            let ghost next = anns.subrange(0, i + 1);
            proof {
                assert(next.drop_last() =~= pre);
                assert(next.last() == anns[i as int]);
                lemma_leading_bind_nothing(pre);
            }
            if let Annotation::PrimaryKey = &self.annotations[i] {
                out.append(" PRIMARY KEY");
                proof {
                    assert(pks(next).drop_last() =~= pks(pre));
                    assert(out@ =~= out1 + annotations_sql(d, pks(next), k));
                }
            }
            i = i + 1;
        }
        proof {
            assert(anns.subrange(0, anns.len() as int) =~= anns);
            lemma_leading_bind_nothing(anns);
        }
        let ghost out2 = out@;
        let ghost p0 = params@;
        let mut rest = self.annotations;
        let n = rest.len();
        let mut i: usize = 0;
        while i < n
            invariant
                n == anns.len(),
                p0.len() == k,
                i <= n,
                rest@ == anns.subrange(i as int, n as int),
                params@ == p0 + annotations_params(others(anns.subrange(0, i as int))),
                out@ == out2 + annotations_sql(d, others(anns.subrange(0, i as int)), k),
            decreases n - i,
        {
            let ghost pre = anns.subrange(0, i as int);
            let ghost next = anns.subrange(0, i + 1);
            let a = rest.remove(0);
            proof {
                assert(a == anns[i as int]);
                assert(next.drop_last() =~= pre);
                assert(next.last() == a);
                assert(rest@ =~= anns.subrange(i + 1, n as int));
            }
            match a {
                Annotation::PrimaryKey => {},
                _ => {
                    push_annotation(a, d, out, params);
                    proof {
                        assert(others(next).drop_last() =~= others(pre));
                        assert(out@ =~= out2 + annotations_sql(d, others(next), k));
                        assert(params@ =~= p0 + annotations_params(others(next)));
                    }
                },
            }
            i = i + 1;
        }
        proof {
            assert(anns.subrange(0, n as int) =~= anns);
            lemma_annotations_append(d, pks(anns), others(anns), k);
            assert(out@ =~= old(out)@ + column_sql(me, k));
            assert(params@ =~= old(params)@ + column_params(me));
        }
    }
}

proof fn lemma_split_kinds(anns: Seq<Annotation>)
    ensures
        forall|i: int| 0 <= i < pks(anns).len() ==> (#[trigger] pks(anns)[i]) is PrimaryKey,
        forall|i: int|
            0 <= i < others(anns).len() ==> !((#[trigger] others(anns)[i]) is PrimaryKey),
        (exists|i: int| 0 <= i < anns.len() && (#[trigger] anns[i]) is PrimaryKey) ==> pks(anns).len()
            > 0,
    decreases anns.len(),
{
    if anns.len() > 0 {
        let pre = anns.drop_last();
        lemma_split_kinds(pre);
        if exists|i: int| 0 <= i < anns.len() && (#[trigger] anns[i]) is PrimaryKey {
            if !is_pk(anns.last()) {
                let i = choose|i: int| 0 <= i < anns.len() && (#[trigger] anns[i]) is PrimaryKey;
                assert(pre[i] == anns[i]);
            }
        }
    }
}

/// Whatever the order of the annotations given, the rendered annotations
/// hold the primary keys first, then only the others, in the order given; so where a primary key is given, the rendering starts with
/// ` PRIMARY KEY`.
pub proof fn lemma_primary_key_first(d: DBImpl, anns: Seq<Annotation>, k: nat)
    ensures
        forall|i: int| 0 <= i < pks(anns).len() ==> (#[trigger] pks(anns)[i]) is PrimaryKey,
        forall|i: int|
            0 <= i < others(anns).len() ==> !((#[trigger] others(anns)[i]) is PrimaryKey),
        (exists|i: int| 0 <= i < anns.len() && (#[trigger] anns[i]) is PrimaryKey) ==> {
            &&& annotations_sql(d, ordered(anns), k).len() >= " PRIMARY KEY"@.len()
            &&& annotations_sql(d, ordered(anns), k).subrange(0, " PRIMARY KEY"@.len() as int)
                == " PRIMARY KEY"@
        },
{
    lemma_split_kinds(anns);
    if exists|i: int| 0 <= i < anns.len() && (#[trigger] anns[i]) is PrimaryKey {
        let p = pks(anns);
        let x = seq![p[0]];
        let y = p.subrange(1, p.len() as int) + others(anns);
        assert(ordered(anns) =~= x + y);
        lemma_annotations_append(d, x, y, k);
        assert(x.drop_last() =~= Seq::<Annotation>::empty());
        assert(p[0] is PrimaryKey);
        assert(x.last() == p[0]);
        assert(annotations_sql(d, x.drop_last(), k) == Seq::<char>::empty());
        assert(annotations_sql(d, x, k) == " PRIMARY KEY"@);
        let whole = annotations_sql(d, x, k) + annotations_sql(d, y, k + annotations_params(x).len());
        assert(whole.subrange(0, " PRIMARY KEY"@.len() as int) =~= " PRIMARY KEY"@);
    }
}

/// In the text of a column definition with a primary key, ` PRIMARY KEY`
/// comes right after the name and the type, before every other annotation,
/// whatever the order of the annotations given.
pub proof fn lemma_column_primary_key_first(c: CreateColumn, k: nat)
    requires
        exists|i: int| 0 <= i < c.annotations@.len() && (#[trigger] c.annotations@[i]) is PrimaryKey,
    ensures
        ({
            let head = quoted(c.dialect, c.name@) + " "@ + type_sql(
                c.dialect,
                c.data_type,
                max_length(c.annotations@),
            );
            column_sql(c, k).subrange(head.len() as int, (head.len() + " PRIMARY KEY"@.len()) as int)
                == " PRIMARY KEY"@
        }),
{
    let d = c.dialect;
    let head = quoted(d, c.name@) + " "@ + type_sql(d, c.data_type, max_length(c.annotations@));
    let rest = annotations_sql(d, ordered(c.annotations@), k);
    lemma_primary_key_first(d, c.annotations@, k);
    lemma_pk_text_len();
    assert(column_sql(c, k) == head + rest);
    assert((head + rest).subrange(head.len() as int, (head.len() + " PRIMARY KEY"@.len()) as int)
        =~= rest.subrange(0, " PRIMARY KEY"@.len() as int));
}

proof fn lemma_pk_text_len()
    ensures
        " PRIMARY KEY"@.len() == 12,
{
    reveal_strlit(" PRIMARY KEY");
}

} // verus!
