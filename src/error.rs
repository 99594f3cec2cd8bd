//! The errors that rendering a statement can end in.
use vstd::prelude::*;

use crate::DBImpl;

verus! {

/// What a request lacks, or how its parts disagree.
#[derive(Copy, Clone, Debug, PartialEq, Eq, Structural)]
pub enum Malformed {
    /// No column was given where at least one is required.
    NoColumns,
    /// An INSERT without any row of values.
    NoRows,
    /// A row whose number of values differs from the number of columns.
    ArityMismatch,
    /// A SELECT with an empty from-clause.
    NoFromClause,
    /// An UPDATE without any assignment.
    NoAssignments,
    /// An upsert without conflict columns or without columns to update.
    IncompleteUpsert,
    /// A table constraint without columns.
    EmptyConstraint,
}

/// A feature that some dialects cannot express.
#[derive(Copy, Clone, Debug, PartialEq, Eq, Structural)]
pub enum Feature {
    /// The ROLLBACK conflict policy.
    Rollback,
    /// The FAIL conflict policy.
    Fail,
    /// The IGNORE conflict policy.
    Ignore,
    /// The upsert conflict policy.
    Upsert,
    /// A partial index, that is an index with a condition.
    PartialIndex,
    /// IF NOT EXISTS on CREATE INDEX.
    IfNotExists,
    /// An autoincrement column of a type or without a key that the dialect
    /// cannot make autoincrement.
    AutoIncrement,
    /// A trigger whose body is a list of statements.
    TriggerBody,
    /// A trigger without a point in time, or one that runs INSTEAD OF.
    TriggerTiming,
    /// A trigger that runs once per statement rather than once per row.
    StatementTrigger,
}

/// The error of a render call.
#[derive(Copy, Clone, Debug, PartialEq, Eq, Structural)]
pub enum Error {
    /// A structurally required part of the request is missing.
    MalformedRequest(Malformed),
    /// The request asks for a feature that the dialect cannot express.
    UnsupportedOnDialect(Feature, DBImpl),
}

} // verus!
