//! CREATE TABLE statements.
use vstd::prelude::*;
use vstd::string::StringExecFns;

use crate::create_column::{
    action_sql, column_params, column_sql, column_unsupported, push_action, Annotation, CreateColumn,
    ReferentialAction,
};
use crate::error::{Error, Feature, Malformed};
use crate::text::{push_quoted, push_quoted_list, quoted, quoted_list, views};
use crate::value::Value;
use crate::DBImpl;

verus! {

/// A CREATE TABLE statement under construction.
#[derive(Debug)]
pub struct CreateTable {
    /// The dialect to render for.
    pub dialect: DBImpl,
    /// The table's name.
    pub name: String,
    /// The column definitions, in order.
    pub columns: Vec<CreateColumn>,
    /// Whether IF NOT EXISTS is added.
    pub if_not_exists: bool,
    /// The table constraints, rendered after the last column, in order.
    pub constraints: Vec<TableConstraint>,
}

/// A constraint over several columns of a table.
#[derive(Debug)]
pub enum TableConstraint {
    /// The columns form the primary key.
    PrimaryKey(Vec<String>),
    /// No two rows agree on all of the columns.
    Unique(Vec<String>),
    /// The columns refer to columns of another table: the columns, the
    /// table, its columns, action on delete, action on update.
    ForeignKey(Vec<String>, String, Vec<String>, ReferentialAction, ReferentialAction),
}

/// The text of a foreign key over several columns.
pub open spec fn foreign_key_sql(
    d: DBImpl,
    cs: Seq<String>,
    t: Seq<char>,
    rs: Seq<String>,
    on_delete: ReferentialAction,
    on_update: ReferentialAction,
) -> Seq<char> {
    "FOREIGN KEY ("@ + quoted_list(d, views(cs)) + ") REFERENCES "@ + quoted(d, t) + "("@
        + quoted_list(d, views(rs)) + ") ON DELETE "@ + action_sql(on_delete) + " ON UPDATE "@
        + action_sql(on_update)
}

/// The text of a table constraint.
pub open spec fn constraint_sql(d: DBImpl, c: TableConstraint) -> Seq<char> {
    match c {
        TableConstraint::PrimaryKey(cs) => "PRIMARY KEY ("@ + quoted_list(d, views(cs@)) + ")"@,
        TableConstraint::Unique(cs) => "UNIQUE ("@ + quoted_list(d, views(cs@)) + ")"@,
        TableConstraint::ForeignKey(cs, t, rs, on_delete, on_update) => foreign_key_sql(
            d,
            cs@,
            t@,
            rs@,
            on_delete,
            on_update,
        ),
    }
}

/// Each table constraint preceded by `, `.
pub open spec fn constraints_sql(d: DBImpl, cs: Seq<TableConstraint>) -> Seq<char>
    decreases cs.len(),
{
    if cs.len() == 0 {
        Seq::empty()
    } else {
        constraints_sql(d, cs.drop_last()) + ", "@ + constraint_sql(d, cs.last())
    }
}

/// A constraint with an empty column list.
pub open spec fn constraint_empty(c: TableConstraint) -> bool {
    match c {
        TableConstraint::PrimaryKey(cs) => cs.len() == 0,
        TableConstraint::Unique(cs) => cs.len() == 0,
        TableConstraint::ForeignKey(cs, _, rs, _, _) => cs.len() == 0 || rs.len() == 0,
    }
}

/// A foreign key whose two column lists differ in length.
pub open spec fn constraint_mismatch(c: TableConstraint) -> bool {
    match c {
        TableConstraint::ForeignKey(cs, _, rs, _, _) => cs.len() != rs.len(),
        _ => false,
    }
}

/// The values a list of column definitions binds, in order.
pub open spec fn columns_params(cs: Seq<CreateColumn>) -> Seq<Value>
    decreases cs.len(),
{
    if cs.len() == 0 {
        Seq::empty()
    } else {
        columns_params(cs.drop_last()) + column_params(cs.last())
    }
}

/// The column definitions, each rendered for dialect `d`, joined by `, `,
/// after `k` bound values.
pub open spec fn columns_sql(cs: Seq<CreateColumn>, d: DBImpl, k: nat) -> Seq<char>
    decreases cs.len(),
{
    if cs.len() == 0 {
        Seq::empty()
    } else {
        let pre = cs.drop_last();
        let item = column_sql(CreateColumn { dialect: d, ..cs.last() }, k + columns_params(pre).len());
        if cs.len() == 1 {
            item
        } else {
            columns_sql(pre, d, k) + ", "@ + item
        }
    }
}

/// The error of a CREATE TABLE, if any.
pub open spec fn create_table_error(q: CreateTable) -> Option<Error> {
    if q.columns.len() == 0 {
        Some(Error::MalformedRequest(Malformed::NoColumns))
    } else if exists|i: int|
        0 <= i < q.columns.len() && column_unsupported(#[trigger] q.columns@[i], q.dialect) {
        Some(Error::UnsupportedOnDialect(Feature::AutoIncrement, q.dialect))
    } else if exists|i: int| 0 <= i < q.constraints.len() && constraint_empty(#[trigger] q.constraints@[i]) {
        Some(Error::MalformedRequest(Malformed::EmptyConstraint))
    } else if exists|i: int|
        0 <= i < q.constraints.len() && constraint_mismatch(#[trigger] q.constraints@[i]) {
        Some(Error::MalformedRequest(Malformed::ArityMismatch))
    } else {
        None
    }
}

/// The text of a CREATE TABLE up to the first column definition.
pub open spec fn create_table_head(q: CreateTable) -> Seq<char> {
    "CREATE TABLE "@ + (if q.if_not_exists { "IF NOT EXISTS "@ } else { Seq::empty() }) + quoted(
        q.dialect,
        q.name@,
    ) + " ("@
}

/// The text of a CREATE TABLE.
pub open spec fn create_table_sql(q: CreateTable) -> Seq<char> {
    create_table_head(q) + columns_sql(q.columns@, q.dialect, 0) + constraints_sql(
        q.dialect,
        q.constraints@,
    ) + ")"@
}

fn push_columns(cs: Vec<CreateColumn>, d: DBImpl, out: &mut String, params: &mut Vec<Value>)
    requires
        old(params)@.len() == 0,
    ensures
        final(out)@ == old(out)@ + columns_sql(cs@, d, 0),
        final(params)@ == columns_params(cs@),
{
    let ghost orig = cs@;
    let ghost out0 = out@;
    let mut rest = cs;
    let n = rest.len();
    let mut i: usize = 0;
    while i < n
        invariant
            n == orig.len(),
            i <= n,
            rest@ == orig.subrange(i as int, n as int),
            out@ == out0 + columns_sql(orig.subrange(0, i as int), d, 0),
            params@ == columns_params(orig.subrange(0, i as int)),
        decreases n - i,
    {
        let ghost pre = orig.subrange(0, i as int);
        let ghost next = orig.subrange(0, i + 1);
        if i > 0 {
            out.append(", ");
        }
        let c = rest.remove(0);
        let ghost c0 = c;
        let c = CreateColumn { dialect: d, ..c };
        c.render(out, params);
        proof {
            assert(c0 == orig[i as int]);
            assert(next.drop_last() =~= pre);
            assert(next.last() == c0);
            assert(rest@ =~= orig.subrange(i + 1, n as int));
            assert(params@ =~= columns_params(next));
            assert(out@ =~= out0 + columns_sql(next, d, 0));
        }
        i = i + 1;
    }
    proof {
        assert(orig.subrange(0, n as int) =~= orig);
    }
}

fn push_foreign_key(
    out: &mut String,
    d: DBImpl,
    cs: &Vec<String>,
    t: &String,
    rs: &Vec<String>,
    on_delete: ReferentialAction,
    on_update: ReferentialAction,
)
    ensures
        final(out)@ == old(out)@ + foreign_key_sql(d, cs@, t@, rs@, on_delete, on_update),
{
    out.append("FOREIGN KEY (");
    push_quoted_list(out, d, cs);
    out.append(") REFERENCES ");
    push_quoted(out, d, t.as_str());
    out.append("(");
    push_quoted_list(out, d, rs);
    out.append(") ON DELETE ");
    push_action(out, on_delete);
    out.append(" ON UPDATE ");
    push_action(out, on_update);
    proof {
        assert(out@ =~= old(out)@ + foreign_key_sql(d, cs@, t@, rs@, on_delete, on_update));
    }
}

fn push_key(out: &mut String, d: DBImpl, keyword: &str, cs: &Vec<String>)
    ensures
        final(out)@ == old(out)@ + keyword@ + quoted_list(d, views(cs@)) + ")"@,
{
    out.append(keyword);
    push_quoted_list(out, d, cs);
    out.append(")");
    proof {
        assert(out@ =~= old(out)@ + keyword@ + quoted_list(d, views(cs@)) + ")"@);
    }
}

fn push_constraint(out: &mut String, d: DBImpl, c: &TableConstraint)
    ensures
        final(out)@ == old(out)@ + constraint_sql(d, *c),
{
    match c {
        TableConstraint::PrimaryKey(cs) => push_key(out, d, "PRIMARY KEY (", cs),
        TableConstraint::Unique(cs) => push_key(out, d, "UNIQUE (", cs),
        TableConstraint::ForeignKey(cs, t, rs, on_delete, on_update) => {
            push_foreign_key(out, d, cs, t, rs, *on_delete, *on_update);
        },
    }
}

fn push_constraints(out: &mut String, d: DBImpl, cs: &Vec<TableConstraint>)
    ensures
        final(out)@ == old(out)@ + constraints_sql(d, cs@),
{
    let ghost start = out@;
    let mut i: usize = 0;
    while i < cs.len()
        invariant
            i <= cs.len(),
            out@ == start + constraints_sql(d, cs@.subrange(0, i as int)),
        decreases cs.len() - i,
    {
        out.append(", ");
        push_constraint(out, d, &cs[i]);
        proof {
            let next = cs@.subrange(0, i + 1);
            assert(next.drop_last() =~= cs@.subrange(0, i as int));
            assert(out@ =~= start + constraints_sql(d, next));
        }
        i = i + 1;
    }
    proof {
        assert(cs@.subrange(0, cs.len() as int) =~= cs@);
    }
}

fn check_constraints(cs: &Vec<TableConstraint>) -> (r: Option<Malformed>)
    ensures
        r == (if exists|i: int| 0 <= i < cs.len() && constraint_empty(#[trigger] cs@[i]) {
            Some(Malformed::EmptyConstraint)
        } else if exists|i: int| 0 <= i < cs.len() && constraint_mismatch(#[trigger] cs@[i]) {
            Some(Malformed::ArityMismatch)
        } else {
            None
        }),
{
    let mut i: usize = 0;
    while i < cs.len()
        invariant
            i <= cs.len(),
            forall|j: int| 0 <= j < i ==> !constraint_empty(#[trigger] cs@[j]),
        decreases cs.len() - i,
    {
        let empty = match &cs[i] {
            TableConstraint::PrimaryKey(c) => c.len() == 0,
            TableConstraint::Unique(c) => c.len() == 0,
            TableConstraint::ForeignKey(c, _, r, _, _) => c.len() == 0 || r.len() == 0,
        };
        if empty {
            return Some(Malformed::EmptyConstraint);
        }
        i = i + 1;
    }
    let mut i: usize = 0;
    while i < cs.len()
        invariant
            i <= cs.len(),
            forall|j: int| 0 <= j < cs.len() ==> !constraint_empty(#[trigger] cs@[j]),
            forall|j: int| 0 <= j < i ==> !constraint_mismatch(#[trigger] cs@[j]),
        decreases cs.len() - i,
    {
        if let TableConstraint::ForeignKey(c, _, r, _, _) = &cs[i] {
            if c.len() != r.len() {
                return Some(Malformed::ArityMismatch);
            }
        }
        i = i + 1;
    }
    None
}

fn find_unsupported_column(cs: &Vec<CreateColumn>, d: DBImpl) -> (r: bool)
    ensures
        r == exists|i: int| 0 <= i < cs.len() && column_unsupported(#[trigger] cs@[i], d),
{
    let mut i: usize = 0;
    while i < cs.len()
        invariant
            i <= cs.len(),
            forall|j: int| 0 <= j < i ==> !column_unsupported(#[trigger] cs@[j], d),
        decreases cs.len() - i,
    {
        if cs[i].unsupported(d) {
            return true;
        }
        i = i + 1;
    }
    false
}

/// The name of the index that an `Index` annotation asks for.
pub open spec fn index_name(table: Seq<char>, column: Seq<char>, name: Option<String>) -> Seq<char> {
    match name {
        Some(n) => n@,
        None => table + "_"@ + column + "_index"@,
    }
}

/// The CREATE INDEX statement of an `Index` annotation.
pub open spec fn index_sql(d: DBImpl, table: Seq<char>, column: Seq<char>, name: Option<String>) -> Seq<
    char,
> {
    "CREATE INDEX "@ + quoted(d, index_name(table, column, name)) + " ON "@ + quoted(d, table)
        + " ("@ + quoted(d, column) + ")"@
}

/// The CREATE INDEX statements of a column's `Index` annotations, in order.
pub open spec fn column_indexes(d: DBImpl, table: Seq<char>, column: Seq<char>, anns: Seq<Annotation>) -> Seq<
    Seq<char>,
>
    decreases anns.len(),
{
    if anns.len() == 0 {
        Seq::empty()
    } else {
        let pre = column_indexes(d, table, column, anns.drop_last());
        match anns.last() {
            Annotation::Index(n) => pre.push(index_sql(d, table, column, n)),
            _ => pre,
        }
    }
}

/// The CREATE INDEX statements of all columns' `Index` annotations, column
/// after column.
pub open spec fn table_indexes(d: DBImpl, table: Seq<char>, cs: Seq<CreateColumn>) -> Seq<Seq<char>>
    decreases cs.len(),
{
    if cs.len() == 0 {
        Seq::empty()
    } else {
        table_indexes(d, table, cs.drop_last()) + column_indexes(
            d,
            table,
            cs.last().name@,
            cs.last().annotations@,
        )
    }
}

fn push_column_indexes(
    r: &mut Vec<String>,
    d: DBImpl,
    table: &String,
    column: &String,
    anns: &Vec<Annotation>,
)
    ensures
        views(final(r)@) == views(old(r)@) + column_indexes(d, table@, column@, anns@),
{
    let ghost r0 = views(r@);
    let mut j: usize = 0;
    while j < anns.len()
        invariant
            j <= anns.len(),
            views(r@) == r0 + column_indexes(d, table@, column@, anns@.subrange(0, j as int)),
        decreases anns.len() - j,
    {
        let ghost pre = anns@.subrange(0, j as int);
        let ghost next = anns@.subrange(0, j + 1);
        proof {
            assert(next.drop_last() =~= pre);
            assert(next.last() == anns@[j as int]);
        }
        if let Annotation::Index(n) = &anns[j] {
            let mut s = String::new();
            s.append("CREATE INDEX ");
            match n {
                Some(name) => push_quoted(&mut s, d, name.as_str()),
                None => {
                    let mut generated = String::new();
                    generated.append(table.as_str());
                    generated.append("_");
                    generated.append(column.as_str());
                    generated.append("_index");
                    push_quoted(&mut s, d, generated.as_str());
                    proof {
                        assert(generated@ =~= index_name(table@, column@, *n));
                    }
                },
            }
            s.append(" ON ");
            push_quoted(&mut s, d, table.as_str());
            s.append(" (");
            push_quoted(&mut s, d, column.as_str());
            s.append(")");
            let ghost before = r@;
            r.push(s);
            proof {
                assert(s@ =~= index_sql(d, table@, column@, *n));
                assert(views(r@) =~= views(before).push(s@));
                assert(views(r@) =~= r0 + column_indexes(d, table@, column@, next));
            }
        } else {
            proof {
                assert(column_indexes(d, table@, column@, next) == column_indexes(
                    d,
                    table@,
                    column@,
                    pre,
                ));
            }
        }
        j = j + 1;
    }
    proof {
        assert(anns@.subrange(0, anns.len() as int) =~= anns@);
    }
}

impl CreateTable {
    /// The CREATE INDEX statements that the columns' `Index` annotations ask
    /// for, column after column, to run after the CREATE TABLE.
    pub fn index_statements(&self) -> (r: Vec<String>)
        ensures
            views(r@) == table_indexes(self.dialect, self.name@, self.columns@),
    {
        let mut r: Vec<String> = Vec::new();
        let mut i: usize = 0;
        proof {
            assert(views(r@) =~= table_indexes(self.dialect, self.name@, self.columns@.subrange(0, 0)));
        }
        while i < self.columns.len()
            invariant
                i <= self.columns@.len(),
                views(r@) == table_indexes(self.dialect, self.name@, self.columns@.subrange(0, i as int)),
            decreases self.columns@.len() - i,
        {
            let c = &self.columns[i];
            push_column_indexes(&mut r, self.dialect, &self.name, &c.name, &c.annotations);
            proof {
                let next = self.columns@.subrange(0, i + 1);
                assert(next.drop_last() =~= self.columns@.subrange(0, i as int));
                assert(next.last() == self.columns@[i as int]);
            }
            i = i + 1;
        }
        proof {
            assert(self.columns@.subrange(0, self.columns.len() as int) =~= self.columns@);
        }
        r
    }

    /// Adds a table constraint, rendered after the columns.
    pub fn add_constraint(self, constraint: TableConstraint) -> (r: CreateTable)
        ensures
            r.constraints@ == self.constraints@.push(constraint),
            r.dialect == self.dialect,
            r.name == self.name,
            r.columns == self.columns,
            r.if_not_exists == self.if_not_exists,
    {
        let mut t = self;
        t.constraints.push(constraint);
        t
    }

    /// Adds a column definition; it is rendered for the table's dialect.
    pub fn add_column(self, column: CreateColumn) -> (r: CreateTable)
        ensures
            r.columns@ == self.columns@.push(CreateColumn { dialect: self.dialect, ..column }),
            r.dialect == self.dialect,
            r.name == self.name,
            r.if_not_exists == self.if_not_exists,
            r.constraints == self.constraints,
    {
        let mut t = self;
        let c = CreateColumn { dialect: t.dialect, ..column };
        t.columns.push(c);
        t
    }

    /// Adds IF NOT EXISTS.
    pub fn if_not_exists(self) -> (r: CreateTable)
        ensures
            r == (CreateTable { if_not_exists: true, ..self }),
    {
        CreateTable { if_not_exists: true, ..self }
    }

    /// Renders the statement, every column for the table's dialect: its text
    /// and the values of the column defaults, in order; or the error that
    /// `create_table_error` names (no column, an autoincrement that the
    /// dialect cannot express, a malformed table constraint).
    pub fn build(self) -> (r: Result<(String, Vec<Value>), Error>)
        ensures
            match r {
                Ok((s, p)) => create_table_error(self) is None && s@ == create_table_sql(self)
                    && p@ == columns_params(self.columns@),
                Err(e) => create_table_error(self) == Some(e),
            },
    {
        let ghost me = self;
        if self.columns.len() == 0 {
            return Err(Error::MalformedRequest(Malformed::NoColumns));
        }
        if find_unsupported_column(&self.columns, self.dialect) {
            return Err(Error::UnsupportedOnDialect(Feature::AutoIncrement, self.dialect));
        }
        match check_constraints(&self.constraints) {
            Some(m) => {
                return Err(Error::MalformedRequest(m));
            },
            None => {},
        }
        let mut out = String::new();
        let mut params: Vec<Value> = Vec::new();
        out.append("CREATE TABLE ");
        if self.if_not_exists {
            out.append("IF NOT EXISTS ");
        }
        push_quoted(&mut out, self.dialect, self.name.as_str());
        out.append(" (");
        push_columns(self.columns, self.dialect, &mut out, &mut params);
        push_constraints(&mut out, self.dialect, &self.constraints);
        out.append(")");
        proof {
            assert(out@ =~= create_table_sql(me));
        }
        Ok((out, params))
    }
}

/// The same CREATE TABLE request (name, flag, columns, constraints) on two
/// dialects that can both express its columns: it fails alike; it binds the
/// same values in the same order; and its text on each dialect is the table
/// header, the same column definitions in the same order, each rendered for
/// that dialect, then the same constraints.
pub proof fn lemma_dialects_agree(q1: CreateTable, q2: CreateTable)
    requires
        q1.name == q2.name,
        q1.if_not_exists == q2.if_not_exists,
        q1.constraints == q2.constraints,
        q1.columns == q2.columns,
        forall|i: int|
            0 <= i < q1.columns@.len() ==> !column_unsupported(#[trigger] q1.columns@[i], q1.dialect)
                && !column_unsupported(q1.columns@[i], q2.dialect),
    ensures
        create_table_error(q1) == create_table_error(q2),
        columns_params(q1.columns@) == columns_params(q2.columns@),
        create_table_sql(q1) == create_table_head(q1) + columns_sql(q1.columns@, q1.dialect, 0)
            + constraints_sql(q1.dialect, q1.constraints@) + ")"@,
        create_table_sql(q2) == create_table_head(q2) + columns_sql(q1.columns@, q2.dialect, 0)
            + constraints_sql(q2.dialect, q1.constraints@) + ")"@,
{
}

} // verus!
