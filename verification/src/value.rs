//! What decoding a field gives.
//!
//! The library reads the field and decides what its value is; it does no floating-point
//! arithmetic. Where a value is a number in floating point, the library says which number:
//! the integer of the field, and the coefficients that the format applies to it.

use crate::format::FloatBits;
use vstd::prelude::*;

verus! {

/// A single-precision number, given by the integer it is computed from.
#[derive(Debug, Clone, Copy)]
pub enum NumberValue {
    /// The integer itself, as a single-precision number.
    Raw(u32),
    /// The integer as a single-precision number, times `multiplier`, plus `offset`.
    Linear { raw: u32, multiplier: FloatBits, offset: FloatBits },
}

/// The text of a field.
#[derive(Debug, Clone)]
pub enum TextValue {
    /// The text itself.
    Text(String),
    /// The decimal form of `number`, followed by `suffix`.
    Number { number: NumberValue, suffix: String },
    /// The text that the table of the format gives to the integer `raw`, taken as a
    /// single-precision number.
    Lookup { raw: u32 },
}

/// A `TextValue` with its strings as sequences of characters.
pub enum TextView {
    Text(Seq<char>),
    Number { number: NumberValue, suffix: Seq<char> },
    Lookup { raw: u32 },
}

impl View for TextValue {
    type V = TextView;

    open spec fn view(&self) -> TextView {
        match *self {
            TextValue::Text(text) => TextView::Text(text@),
            TextValue::Number { number, suffix } => TextView::Number { number, suffix: suffix@ },
            TextValue::Lookup { raw } => TextView::Lookup { raw },
        }
    }
}

} // verus!
