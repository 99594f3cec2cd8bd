//! The values that a statement binds to its placeholders.
use vstd::prelude::*;

verus! {

/// A typed value that is bound to a placeholder, never written into the text.
#[derive(Debug, PartialEq, Eq)]
pub enum Value {
    /// SQL `NULL`.
    Null,
    /// A boolean.
    Bool(bool),
    /// A 16-bit integer.
    I16(i16),
    /// A 32-bit integer.
    I32(i32),
    /// A 64-bit integer.
    I64(i64),
    /// A text value.
    String(String),
    /// A binary value.
    Binary(Vec<u8>),
    /// A calendar date: year, month, day.
    NaiveDate(i32, u8, u8),
    /// A time of day: hour, minute, second, nanosecond.
    NaiveTime(u8, u8, u8, u32),
    /// A date and a time of day, without time zone.
    NaiveDateTime(i32, u8, u8, u8, u8, u8, u32),
}

} // verus!
