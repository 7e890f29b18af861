//! The data formats of a parameter: how the bits of a field are to be understood.

use vstd::prelude::*;

verus! {

/// A single-precision floating-point number, held as its IEEE-754 bit pattern.
///
/// The library carries such numbers from the schema to the decoded value without computing
/// with them.
#[derive(Debug, Clone, Copy)]
pub struct FloatBits {
    pub bits: u32,
}

/// The encoding of a text field. Every encoding is at present read as UTF-8.
#[derive(Debug, Clone, Copy)]
pub enum StringEncoding {
    Ascii,
    Utf8,
    Utf16,
}

/// One entry of a lookup table: the name of the values between two bounds.
#[derive(Debug, Clone)]
pub struct TableData {
    pub name: String,
    pub start: FloatBits,
    pub end: FloatBits,
}

/// How the field of a parameter is to be understood.
#[derive(Debug, Clone)]
pub enum DataFormat {
    /// The bytes of the field, listed in hexadecimal.
    HexDump,
    /// The bytes of the field, as text.
    String(StringEncoding),
    /// A flag: zero or not zero, each with an optional name.
    Bool { pos_name: Option<String>, neg_name: Option<String> },
    /// A number that a table gives a name to.
    Table(Vec<TableData>),
    /// The number of the field as it is.
    Identical,
    /// The number of the field times `multiplier`, plus `offset`.
    Linear { multiplier: FloatBits, offset: FloatBits },
    ScaleLinear,
    RatFunc,
    ScaleRatFunc,
    TableInterpretation,
    CompuCode(String),
}

} // verus!
