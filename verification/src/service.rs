//! Services and their parameters, and the decoding of a parameter's field.

use crate::bits::read_bits;
use crate::bits::run_value;
use crate::endian::join_four;
use crate::endian::join_two;
use crate::endian::read_four;
use crate::endian::read_two;
use crate::format::DataFormat;
use crate::format::FloatBits;
use crate::text::format_hex_dump;
use crate::text::format_unit_suffix;
use crate::text::hex_dump;
use crate::text::lossy_text;
use crate::text::text_from_utf8_lossy;
use crate::text::unit_suffix;
use crate::value::NumberValue;
use crate::value::TextValue;
use crate::value::TextView;
use vstd::prelude::*;
use vstd::slice::slice_subrange;
use vstd::string::StringExecFns;
use vstd::utf8::decode_utf8;
use vstd::utf8::valid_utf8;

verus! {

/// The error of `String::from_utf8`, which `ParamDecodeError::StringDecodeFailure` carries.
#[verifier::external_type_specification]
#[verifier::external_body]
pub struct ExFromUtf8Error(std::string::FromUtf8Error);

/// How the bytes of a field that spans several bytes are assembled into one integer.
#[derive(Debug, Clone, Copy, PartialEq, Eq, Structural)]
pub enum ParamByteOrder {
    BigEndian,
    LittleEndian,
}

/// Why a field could not be decoded.
#[derive(Debug)]
pub enum ParamDecodeError {
    /// The format is known, but nothing decodes it yet.
    NotImplemented,
    /// The field does not lie inside the buffer, or has a width that cannot be read.
    BitRangeError,
    /// The format has no value of the kind that was asked for.
    DecodeNotSupported,
    /// Kept for a decoding of text that refuses malformed bytes. Text is decoded with
    /// replacement instead, so no function of this library returns this error.
    StringDecodeFailure(std::string::FromUtf8Error),
}

/// Bounds between which the number of a parameter is valid. They are kept with the
/// parameter; decoding does not look at them.
#[derive(Debug, Clone, Copy)]
pub struct Limit {
    pub upper: FloatBits,
    pub lower: FloatBits,
}

/// One signal of a payload: where its field lies and how it is to be understood.
#[derive(Debug, Clone)]
pub struct Parameter {
    pub name: String,
    pub unit: String,
    pub start_bit: usize,
    pub length_bits: usize,
    pub byte_order: ParamByteOrder,
    pub data_format: DataFormat,
    pub valid_bounds: Option<Limit>,
}

/// A diagnostic operation: a payload to send, and the parameters of what is sent and of
/// what comes back. Nothing ties the length of the payload to the fields of the parameters.
#[derive(Debug, Clone)]
pub struct Service {
    pub name: String,
    pub description: String,
    pub payload: Vec<u8>,
    pub input_params: Vec<Parameter>,
    pub output_params: Vec<Parameter>,
}

impl Service {
    /// Whether this service has parameters to send.
    pub fn service_has_input(&self) -> (r: bool)
        ensures
            r == (self.input_params@.len() > 0),
    {
        !self.input_params.is_empty()
    }

    /// Whether this service has parameters that come back.
    pub fn service_has_output(&self) -> (r: bool)
        ensures
            r == (self.output_params@.len() > 0),
    {
        !self.output_params.is_empty()
    }
}

/// Chunk `index` of a field: its bits `8 * index` to `8 * index + 7`, or those that are left
/// of them at the end of the field, read as one number.
pub open spec fn chunk_value(buf: Seq<u8>, start: int, length: int, index: int) -> int {
    let rest = length - 8 * index;
    run_value(buf, start + 8 * index, if rest < 8 { rest } else { 8 })
}

/// The number of a field of a width that can be read: up to 8 bits are one run of bits; up
/// to 16 bits are two chunks and up to 32 bits four chunks, joined in the byte order.
pub open spec fn field_value(buf: Seq<u8>, start: int, length: int, order: ParamByteOrder) -> int {
    if length <= 8 {
        run_value(buf, start, length)
    } else if length <= 16 {
        join_two(order, chunk_value(buf, start, length, 0), chunk_value(buf, start, length, 1))
    } else {
        join_four(
            order,
            chunk_value(buf, start, length, 0),
            chunk_value(buf, start, length, 1),
            chunk_value(buf, start, length, 2),
            chunk_value(buf, start, length, 3),
        )
    }
}

/// Whether a field of `length` bits from bit `start` on can be read from `buf`: it lies
/// inside the buffer, and it is made of one, two or four chunks.
pub open spec fn field_readable(buf: Seq<u8>, start: int, length: int) -> bool {
    &&& start + length <= 8 * buf.len()
    &&& (length <= 16 || 25 <= length <= 32)
}

/// What reading a field gives: its number, or `BitRangeError` where it cannot be read.
pub open spec fn field_number(buf: Seq<u8>, start: int, length: int, order: ParamByteOrder) -> Result<
    u32,
    ParamDecodeError,
> {
    if field_readable(buf, start, length) {
        Ok(field_value(buf, start, length, order) as u32)
    } else {
        Err(ParamDecodeError::BitRangeError)
    }
}

/// The whole bytes of a field: from byte `start / 8` up to byte `(start + length) / 8`, or up
/// to the end of the buffer where that lies before it. There are none where the field starts
/// beyond the end of the buffer.
pub open spec fn field_bytes(buf: Seq<u8>, start: int, length: int) -> Option<Seq<u8>> {
    let first = start / 8;
    let end = (start + length) / 8;
    let last = if end < buf.len() {
        end
    } else {
        buf.len() as int
    };
    if first <= last {
        Some(buf.subrange(first, last))
    } else {
        None
    }
}

/// The name of a flag: that of its state where the format gives one, else `False` for zero
/// and `True` for any other number.
pub open spec fn flag_name(number: u32, pos_name: Option<String>, neg_name: Option<String>) -> Seq<
    char,
> {
    if number == 0 {
        match neg_name {
            Some(name) => name@,
            None => "False"@,
        }
    } else {
        match pos_name {
            Some(name) => name@,
            None => "True"@,
        }
    }
}

impl Parameter {
    /// The number of this parameter's field in `input`, or why it cannot be read.
    pub open spec fn spec_number(&self, input: Seq<u8>) -> Result<u32, ParamDecodeError> {
        field_number(input, self.start_bit as int, self.length_bits as int, self.byte_order)
    }

    /// Whether the format of this parameter gives a number that can be plotted.
    pub open spec fn spec_can_plot(&self) -> bool {
        self.data_format is Bool || self.data_format is Identical || self.data_format is Linear
    }

    /// What `decode_value_to_number` gives for `input`.
    pub open spec fn spec_value(&self, input: Seq<u8>) -> Result<NumberValue, ParamDecodeError> {
        match self.data_format {
            DataFormat::Bool { .. } => match self.spec_number(input) {
                Ok(raw) => Ok(NumberValue::Raw(raw)),
                Err(error) => Err(error),
            },
            DataFormat::Linear { multiplier, offset } => match self.spec_number(input) {
                Ok(raw) => Ok(NumberValue::Linear { raw, multiplier, offset }),
                Err(error) => Err(error),
            },
            DataFormat::HexDump | DataFormat::String(_) | DataFormat::Table(_) => Err(
                ParamDecodeError::DecodeNotSupported,
            ),
            _ => Err(ParamDecodeError::NotImplemented),
        }
    }

    /// What `decode_value_to_string` gives for `input`.
    pub open spec fn spec_text(&self, input: Seq<u8>) -> Result<TextView, ParamDecodeError> {
        match self.data_format {
            DataFormat::HexDump => match field_bytes(
                input,
                self.start_bit as int,
                self.length_bits as int,
            ) {
                Some(bytes) => Ok(TextView::Text(hex_dump(bytes))),
                None => Err(ParamDecodeError::BitRangeError),
            },
            DataFormat::String(_) => match field_bytes(
                input,
                self.start_bit as int,
                self.length_bits as int,
            ) {
                Some(bytes) => Ok(TextView::Text(lossy_text(bytes))),
                None => Err(ParamDecodeError::BitRangeError),
            },
            DataFormat::Bool { pos_name, neg_name } => match self.spec_number(input) {
                Ok(raw) => Ok(
                    TextView::Text(flag_name(raw, pos_name, neg_name) + unit_suffix(self.unit@)),
                ),
                Err(error) => Err(error),
            },
            DataFormat::Table(_) => match self.spec_number(input) {
                Ok(raw) => Ok(TextView::Lookup { raw }),
                Err(error) => Err(error),
            },
            DataFormat::Identical => match self.spec_number(input) {
                Ok(raw) => Ok(
                    TextView::Number {
                        number: NumberValue::Raw(raw),
                        suffix: unit_suffix(self.unit@),
                    },
                ),
                Err(error) => Err(error),
            },
            DataFormat::Linear { multiplier, offset } => match self.spec_number(input) {
                Ok(raw) => Ok(
                    TextView::Number {
                        number: NumberValue::Linear { raw, multiplier, offset },
                        suffix: unit_suffix(self.unit@),
                    },
                ),
                Err(error) => Err(error),
            },
            _ => Err(ParamDecodeError::NotImplemented),
        }
    }
}

impl Parameter {
    /// Reads the number of this parameter's field from `resp`.
    pub fn get_number(&self, resp: &[u8]) -> (r: Result<u32, ParamDecodeError>)
        ensures
            r == field_number(
                resp@,
                self.start_bit as int,
                self.length_bits as int,
                self.byte_order,
            ),
            r matches Ok(number) ==> number == field_value(
                resp@,
                self.start_bit as int,
                self.length_bits as int,
                self.byte_order,
            ),
    {
        let length = self.length_bits;
        if length > 32 {
            return Err(ParamDecodeError::BitRangeError);
        }
        let byte = self.start_bit / 8;
        let offset = self.start_bit % 8;
        let span = (offset + length + 7) / 8;
        if byte > resp.len() || span > resp.len() - byte {
            return Err(ParamDecodeError::BitRangeError);
        }
        if length == 0 {
            return Ok(0);
        }
        if length <= 8 {
            return Ok(read_bits(resp, byte, offset, length) as u32);
        }
        let ghost start = self.start_bit as int;
        let mut chunks: Vec<u8> = Vec::new();
        let mut position = byte;
        let mut remaining = length;
        while remaining > 0
            invariant
                offset < 8,
                8 < length <= 32,
                start == 8 * byte + offset,
                remaining <= length,
                remaining == 0 || length - remaining == 8 * chunks@.len(),
                remaining == 0 ==> chunks@.len() == (length + 7) / 8,
                position == byte + chunks@.len(),
                position <= resp@.len(),
                remaining > 0 ==> 8 * position + offset + remaining <= 8 * resp@.len(),
                forall|k: int|
                    0 <= k < chunks@.len() ==> chunks@[k] as int == #[trigger] chunk_value(
                        resp@,
                        start,
                        length as int,
                        k,
                    ),
            decreases remaining,
        {
            let width = if remaining < 8 {
                remaining
            } else {
                8
            };
            let chunk = read_bits(resp, position, offset, width);
            chunks.push(chunk);
            remaining = remaining - width;
            assert(position < resp.len());
            position = position + 1;
        }
        if chunks.len() == 4 {
            Ok(read_four(&self.byte_order, chunks.as_slice()))
        } else if chunks.len() == 2 {
            Ok(read_two(&self.byte_order, chunks.as_slice()) as u32)
        } else {
            Err(ParamDecodeError::BitRangeError)
        }
    }

    /// The whole bytes of this parameter's field in `input`.
    fn get_bytes<'a>(&self, input: &'a [u8]) -> (r: Option<&'a [u8]>)
        ensures
            match r {
                Some(bytes) => field_bytes(
                    input@,
                    self.start_bit as int,
                    self.length_bits as int,
                ) == Some(bytes@),
                None => field_bytes(input@, self.start_bit as int, self.length_bits as int)
                    is None,
            },
    {
        let first = self.start_bit / 8;
        let end = self.length_bits / 8 + (self.start_bit % 8 + self.length_bits % 8) / 8;
        if first > input.len() {
            return None;
        }
        let last = if end < input.len() - first {
            first + end
        } else {
            input.len()
        };
        Some(slice_subrange(input, first, last))
    }

    /// Decodes this parameter's field in `input` for display.
    ///
    /// A text comes back as it is. A number comes back as the integer of the field with the
    /// coefficients of the format and the suffix of the unit: its decimal form is left to
    /// floating-point code. So is the look-up of a number in a table, which `format_table_text`
    /// completes.
    ///
    /// Text is decoded as UTF-8 with replacement, whatever encoding the format names. Bytes
    /// that are valid UTF-8 give the text that they encode; of other bytes the contract says
    /// only that the result is `lossy_text` of them.
    pub fn decode_value_to_string(&self, input: &[u8]) -> (r: Result<TextValue, ParamDecodeError>)
        ensures
            match r {
                Ok(value) => self.spec_text(input@) == Ok::<TextView, ParamDecodeError>(value@),
                Err(error) => self.spec_text(input@) == Err::<TextView, ParamDecodeError>(error),
            },
            self.data_format is String ==> (field_bytes(
                input@,
                self.start_bit as int,
                self.length_bits as int,
            ) matches Some(bytes) ==> (valid_utf8(bytes) ==> (r matches Ok(value) && value@
                == TextView::Text(decode_utf8(bytes))))),
    {
        match &self.data_format {
            DataFormat::HexDump => match self.get_bytes(input) {
                Some(bytes) => Ok(TextValue::Text(format_hex_dump(bytes))),
                None => Err(ParamDecodeError::BitRangeError),
            },
            DataFormat::String(_) => match self.get_bytes(input) {
                Some(bytes) => Ok(TextValue::Text(text_from_utf8_lossy(bytes))),
                None => Err(ParamDecodeError::BitRangeError),
            },
            DataFormat::Bool { pos_name, neg_name } => match self.get_number(input) {
                Ok(raw) => {
                    let name = if raw == 0 {
                        neg_name
                    } else {
                        pos_name
                    };
                    let mut text = match name {
                        Some(given) => given.clone(),
                        None => if raw == 0 {
                            String::from_str("False")
                        } else {
                            String::from_str("True")
                        },
                    };
                    let suffix = format_unit_suffix(&self.unit);
                    text.append(suffix.as_str());
                    Ok(TextValue::Text(text))
                },
                Err(error) => Err(error),
            },
            DataFormat::Table(_) => match self.get_number(input) {
                Ok(raw) => Ok(TextValue::Lookup { raw }),
                Err(error) => Err(error),
            },
            DataFormat::Identical => match self.get_number(input) {
                Ok(raw) => Ok(
                    TextValue::Number {
                        number: NumberValue::Raw(raw),
                        suffix: format_unit_suffix(&self.unit),
                    },
                ),
                Err(error) => Err(error),
            },
            DataFormat::Linear { multiplier, offset } => match self.get_number(input) {
                Ok(raw) => Ok(
                    TextValue::Number {
                        number: NumberValue::Linear {
                            raw,
                            multiplier: *multiplier,
                            offset: *offset,
                        },
                        suffix: format_unit_suffix(&self.unit),
                    },
                ),
                Err(error) => Err(error),
            },
            DataFormat::ScaleLinear => Err(ParamDecodeError::NotImplemented),
            DataFormat::RatFunc => Err(ParamDecodeError::NotImplemented),
            DataFormat::ScaleRatFunc => Err(ParamDecodeError::NotImplemented),
            DataFormat::TableInterpretation => Err(ParamDecodeError::NotImplemented),
            DataFormat::CompuCode(_) => Err(ParamDecodeError::NotImplemented),
        }
    }

    /// Decodes this parameter's field in `input` as a number: the integer of the field, with
    /// the coefficients that the format applies to it in floating point.
    pub fn decode_value_to_number(&self, input: &[u8]) -> (r: Result<
        NumberValue,
        ParamDecodeError,
    >)
        ensures
            r == self.spec_value(input@),
    {
        match &self.data_format {
            DataFormat::HexDump => Err(ParamDecodeError::DecodeNotSupported),
            DataFormat::String(_) => Err(ParamDecodeError::DecodeNotSupported),
            DataFormat::Bool { pos_name: _, neg_name: _ } => match self.get_number(input) {
                Ok(raw) => Ok(NumberValue::Raw(raw)),
                Err(error) => Err(error),
            },
            DataFormat::Table(_) => Err(ParamDecodeError::DecodeNotSupported),
            DataFormat::Identical => Err(ParamDecodeError::NotImplemented),
            DataFormat::Linear { multiplier, offset } => match self.get_number(input) {
                Ok(raw) => Ok(
                    NumberValue::Linear { raw, multiplier: *multiplier, offset: *offset },
                ),
                Err(error) => Err(error),
            },
            DataFormat::ScaleLinear => Err(ParamDecodeError::NotImplemented),
            DataFormat::RatFunc => Err(ParamDecodeError::NotImplemented),
            DataFormat::ScaleRatFunc => Err(ParamDecodeError::NotImplemented),
            DataFormat::TableInterpretation => Err(ParamDecodeError::NotImplemented),
            DataFormat::CompuCode(_) => Err(ParamDecodeError::NotImplemented),
        }
    }

    /// Whether the value of this parameter is a number that can be plotted.
    pub fn can_plot(&self) -> (r: bool)
        ensures
            r == self.spec_can_plot(),
    {
        match &self.data_format {
            DataFormat::HexDump => false,
            DataFormat::String(_) => false,
            DataFormat::Bool { pos_name: _, neg_name: _ } => true,
            DataFormat::Table(_) => false,
            DataFormat::Identical => true,
            DataFormat::Linear { multiplier: _, offset: _ } => true,
            DataFormat::ScaleLinear => false,
            DataFormat::RatFunc => false,
            DataFormat::ScaleRatFunc => false,
            DataFormat::TableInterpretation => false,
            DataFormat::CompuCode(_) => false,
        }
    }

    /// The unit of this parameter, if it has one.
    pub fn get_unit(&self) -> (r: Option<String>)
        ensures
            match r {
                Some(unit) => self.unit@.len() > 0 && unit@ == self.unit@,
                None => self.unit@.len() == 0,
            },
    {
        if self.unit.as_str().is_empty() {
            None
        } else {
            Some(self.unit.clone())
        }
    }
}

} // verus!
