//! JSON numbers.

use vstd::prelude::*;
use crate::json::{integer_in, number_integer, number_of_i64, number_of_u64};

verus! {

/// A JSON number. An integer is held as a plain value; a number that is no
/// integer is carried as `serde_json` holds it.
#[derive(Debug, PartialEq, Eq)]
pub enum JsonNumber {
    /// A non-negative integer.
    PosInt(u64),
    /// An integer below zero.
    NegInt(i64),
    /// A number that is no integer.
    Float(serde_json::Number),
}

impl JsonNumber {
    /// A negative integer is below zero, and what is carried as a float is no
    /// integer.
    pub open spec fn wf(self) -> bool {
        match self {
            JsonNumber::PosInt(_) => true,
            JsonNumber::NegInt(i) => i < 0,
            JsonNumber::Float(n) => integer_in(n) is None,
        }
    }

    /// The number that a `serde_json::Number` stands for.
    pub open spec fn of(number: serde_json::Number) -> JsonNumber {
        match integer_in(number) {
            Some(v) => if v >= 0 {
                JsonNumber::PosInt(v as u64)
            } else {
                JsonNumber::NegInt(v as i64)
            },
            None => JsonNumber::Float(number),
        }
    }

    /// The number as a signed 64-bit integer, where it is an integer in that range.
    pub open spec fn spec_as_i64(self) -> Option<i64> {
        match self {
            JsonNumber::PosInt(u) => if u <= i64::MAX as u64 {
                Some(u as i64)
            } else {
                None
            },
            JsonNumber::NegInt(i) => Some(i),
            JsonNumber::Float(_) => None,
        }
    }

    /// The number as a signed 64-bit integer, where it is an integer in that range.
    pub fn as_i64(&self) -> (r: Option<i64>)
        ensures
            r == self.spec_as_i64(),
    {
        match self {
            JsonNumber::PosInt(u) => if *u <= i64::MAX as u64 {
                Some(*u as i64)
            } else {
                None
            },
            JsonNumber::NegInt(i) => Some(*i),
            JsonNumber::Float(_) => None,
        }
    }

    /// Decides `wf`.
    pub fn is_well_formed(&self) -> (r: bool)
        ensures
            r == self.wf(),
    {
        match self {
            JsonNumber::PosInt(_) => true,
            JsonNumber::NegInt(i) => *i < 0,
            JsonNumber::Float(n) => number_integer(n).is_none(),
        }
    }

    /// Reads a `serde_json::Number`.
    pub fn from_number(number: serde_json::Number) -> (r: JsonNumber)
        ensures
            r == JsonNumber::of(number),
            r.wf(),
    {
        match number_integer(&number) {
            Some(v) => if v >= 0 {
                JsonNumber::PosInt(v as u64)
            } else {
                JsonNumber::NegInt(v as i64)
            },
            None => JsonNumber::Float(number),
        }
    }

    /// Writes the number as a `serde_json::Number`.
    pub fn to_number(&self) -> (r: serde_json::Number)
        requires
            self.wf(),
        ensures
            JsonNumber::of(r) == *self,
    {
        match self {
            JsonNumber::PosInt(u) => number_of_u64(*u),
            JsonNumber::NegInt(i) => number_of_i64(*i),
            JsonNumber::Float(n) => n.clone(),
        }
    }
}

impl Clone for JsonNumber {
    /// The same number.
    fn clone(&self) -> (r: JsonNumber)
        ensures
            r == *self,
    {
        match self {
            JsonNumber::PosInt(u) => JsonNumber::PosInt(*u),
            JsonNumber::NegInt(i) => JsonNumber::NegInt(*i),
            JsonNumber::Float(n) => JsonNumber::Float(n.clone()),
        }
    }
}

} // verus!
