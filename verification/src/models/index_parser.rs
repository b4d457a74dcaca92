//! The totals stated in a `model.safetensors.index.json`.
use vstd::prelude::*;
use crate::text;

verus! {

/// A metadata value of the index file, as far as the totals need it.
pub enum IndexValue {
    /// A JSON number, with its value when it is a non-negative integer that fits in a `u64`.
    Number(Option<u64>),
    /// A JSON string.
    Text(String),
    /// Any other JSON value.
    Other,
}

/// Total weight bytes and parameter count (0 when not stated).
#[derive(Debug, Clone, Copy, PartialEq, Eq, Structural)]
pub struct IndexMetadata {
    pub total_size: u64,
    pub total_parameters: u64,
}

/// A number, or a string holding a decimal number; 0 otherwise.
pub open spec fn value_as_u64_spec(val: Option<IndexValue>) -> u64 {
    match val {
        Some(IndexValue::Number(n)) => match n {
            Some(v) => v,
            None => 0,
        },
        Some(IndexValue::Text(s)) => match text::parse_u64_spec(s@) {
            Some(v) => v,
            None => 0,
        },
        _ => 0,
    }
}

/// Reads a value that is a number or a string holding a number.
pub fn parse_value_as_u64(val: Option<IndexValue>) -> (r: u64)
    ensures
        r == value_as_u64_spec(val),
{
    match val {
        Some(IndexValue::Number(n)) => match n { Some(v) => v, None => 0 },
        Some(IndexValue::Text(s)) => match text::parse_u64(s.as_str()) { Some(v) => v, None => 0 },
        _ => 0,
    }
}

impl IndexMetadata {
    /// The totals of an index file whose metadata holds these two values.
    pub fn from_values(total_size: Option<IndexValue>, total_parameters: Option<IndexValue>) -> (r: IndexMetadata)
        ensures
            r.total_size == value_as_u64_spec(total_size),
            r.total_parameters == value_as_u64_spec(total_parameters),
    {
        IndexMetadata {
            total_size: parse_value_as_u64(total_size),
            total_parameters: parse_value_as_u64(total_parameters),
        }
    }

    /// No totals known.
    pub fn empty() -> (r: IndexMetadata)
        ensures
            r.total_size == 0 && r.total_parameters == 0,
    {
        IndexMetadata { total_size: 0, total_parameters: 0 }
    }
}

} // verus!
