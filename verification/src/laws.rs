//! What holds of decoding for every parameter and every buffer.

use crate::bits::bits_value;
use crate::bits::lemma_bits_value_split;
use crate::bits::lemma_run_is_bit_by_bit;
use crate::endian::join_four;
use crate::endian::join_two;
use crate::format::DataFormat;
use crate::service::chunk_value;
use crate::service::field_number;
use crate::service::field_readable;
use crate::service::field_value;
use crate::service::flag_name;
use crate::service::ParamByteOrder;
use crate::service::ParamDecodeError;
use crate::service::Parameter;
use crate::text::unit_suffix;
use crate::value::NumberValue;
use crate::value::TextView;
use vstd::prelude::*;

verus! {

/// The number of a field is what its bits spell, taken one at a time and most significant
/// first: a field of up to 8 bits is one such run of bits; a wider one is two or four runs
/// of 8 bits, the last of them shorter where the width is no multiple of 8, each run one
/// byte of the number in the byte order of the parameter.
///
/// This holds of every field that can be read. Fields of 17 to 24 bits make three runs and
/// are refused, so nothing is said of them.
pub proof fn lemma_field_is_bit_by_bit(
    buf: Seq<u8>,
    start: int,
    length: int,
    order: ParamByteOrder,
)
    requires
        0 <= start,
        0 <= length,
        field_readable(buf, start, length),
    ensures
        field_number(buf, start, length, order) == Ok::<u32, ParamDecodeError>(
            field_value(buf, start, length, order) as u32,
        ),
        length <= 8 ==> field_value(buf, start, length, order) == bits_value(
            buf,
            start,
            length as nat,
        ),
        8 < length <= 16 ==> field_value(buf, start, length, order) == join_two(
            order,
            bits_value(buf, start, 8),
            bits_value(buf, start + 8, (length - 8) as nat),
        ),
        24 < length <= 32 ==> field_value(buf, start, length, order) == join_four(
            order,
            bits_value(buf, start, 8),
            bits_value(buf, start + 8, 8),
            bits_value(buf, start + 16, 8),
            bits_value(buf, start + 24, (length - 24) as nat),
        ),
{
    if length <= 8 {
        lemma_run_is_bit_by_bit(buf, start, length);
    } else if length <= 16 {
        lemma_run_is_bit_by_bit(buf, start, 8);
        lemma_run_is_bit_by_bit(buf, start + 8, length - 8);
        assert(chunk_value(buf, start, length, 0) == bits_value(buf, start, 8));
        assert(chunk_value(buf, start, length, 1) == bits_value(
            buf,
            start + 8,
            (length - 8) as nat,
        ));
    } else {
        lemma_run_is_bit_by_bit(buf, start, 8);
        lemma_run_is_bit_by_bit(buf, start + 8, 8);
        lemma_run_is_bit_by_bit(buf, start + 16, 8);
        lemma_run_is_bit_by_bit(buf, start + 24, length - 24);
        assert(chunk_value(buf, start, length, 0) == bits_value(buf, start, 8));
        assert(chunk_value(buf, start, length, 1) == bits_value(buf, start + 8, 8));
        assert(chunk_value(buf, start, length, 2) == bits_value(buf, start + 16, 8));
        assert(chunk_value(buf, start, length, 3) == bits_value(
            buf,
            start + 24,
            (length - 24) as nat,
        ));
    }
}

/// In big-endian order a field of 16 or of 32 bits is the one number that all its bits
/// spell, wherever in the buffer it starts.
pub proof fn lemma_big_endian_field_is_bit_string(buf: Seq<u8>, start: int, length: int)
    requires
        0 <= start,
        length == 16 || length == 32,
        start + length <= 8 * buf.len(),
    ensures
        field_value(buf, start, length, ParamByteOrder::BigEndian) == bits_value(
            buf,
            start,
            length as nat,
        ),
{
    lemma_field_is_bit_by_bit(buf, start, length, ParamByteOrder::BigEndian);
    lemma_bits_value_split(buf, start, 8, 8);
    if length == 32 {
        lemma_bits_value_split(buf, start, 16, 8);
        lemma_bits_value_split(buf, start, 24, 8);
    }
}

/// A field wider than 32 bits is refused, whatever the buffer holds.
pub proof fn lemma_wide_field_is_refused(parameter: Parameter, input: Seq<u8>)
    requires
        parameter.length_bits > 32,
    ensures
        parameter.spec_number(input) == Err::<u32, ParamDecodeError>(
            ParamDecodeError::BitRangeError,
        ),
{
}

/// A field that reaches beyond the end of the buffer is refused.
pub proof fn lemma_field_beyond_buffer_is_refused(parameter: Parameter, input: Seq<u8>)
    requires
        parameter.start_bit + parameter.length_bits > 8 * input.len(),
    ensures
        parameter.spec_number(input) == Err::<u32, ParamDecodeError>(
            ParamDecodeError::BitRangeError,
        ),
{
}

/// Every format that reads the number of the field fails as reading that number fails, for
/// display and as a number alike.
pub proof fn lemma_number_error_is_passed_on(parameter: Parameter, input: Seq<u8>)
    requires
        parameter.spec_number(input) is Err,
    ensures
        parameter.data_format is Bool || parameter.data_format is Table
            || parameter.data_format is Identical || parameter.data_format is Linear
            ==> parameter.spec_text(input) == Err::<TextView, ParamDecodeError>(
            ParamDecodeError::BitRangeError,
        ),
        parameter.data_format is Bool || parameter.data_format is Linear ==> parameter.spec_value(
            input,
        ) == Err::<NumberValue, ParamDecodeError>(ParamDecodeError::BitRangeError),
{
}

/// The suffix of a unit is empty exactly where the unit is, and is a space and the unit
/// otherwise.
pub proof fn lemma_unit_suffix(unit: Seq<char>)
    ensures
        unit_suffix(unit).len() == 0 <==> unit.len() == 0,
        unit.len() > 0 ==> unit_suffix(unit) == seq![' '] + unit,
{
}

/// The formats that give a number end their text with the suffix of the unit: a flag's
/// name is followed by it, and so is the number of an identical or a linear format.
pub proof fn lemma_number_formats_carry_unit(parameter: Parameter, input: Seq<u8>)
    requires
        parameter.spec_number(input) is Ok,
    ensures
        parameter.data_format matches DataFormat::Bool { pos_name, neg_name }
            ==> parameter.spec_text(input) == Ok::<TextView, ParamDecodeError>(
            TextView::Text(
                flag_name(parameter.spec_number(input)->Ok_0, pos_name, neg_name) + unit_suffix(
                    parameter.unit@,
                ),
            ),
        ),
        parameter.data_format is Identical || parameter.data_format is Linear ==> {
            &&& parameter.spec_text(input) matches Ok(TextView::Number { suffix, .. })
            &&& suffix == unit_suffix(parameter.unit@)
        },
{
}

/// The other formats take no suffix: their text does not depend on the unit.
pub proof fn lemma_other_formats_ignore_unit(
    parameter: Parameter,
    other: Parameter,
    input: Seq<u8>,
)
    requires
        other.start_bit == parameter.start_bit,
        other.length_bits == parameter.length_bits,
        other.byte_order == parameter.byte_order,
        other.data_format == parameter.data_format,
        !parameter.spec_can_plot(),
    ensures
        other.spec_text(input) == parameter.spec_text(input),
{
}

/// A linear format hands on the number of the field and its own two coefficients,
/// unchanged, for every field that can be read: the value to compute is the number times
/// the multiplier plus the offset. The arithmetic itself is not part of this library.
pub proof fn lemma_linear_value(parameter: Parameter, input: Seq<u8>)
    requires
        parameter.data_format is Linear,
        parameter.spec_number(input) is Ok,
    ensures
        parameter.spec_value(input) == Ok::<NumberValue, ParamDecodeError>(
            NumberValue::Linear {
                raw: parameter.spec_number(input)->Ok_0,
                multiplier: parameter.data_format->multiplier,
                offset: parameter.data_format->offset,
            },
        ),
        parameter.spec_text(input) matches Ok(TextView::Number { number, .. })
            && parameter.spec_value(input) == Ok::<NumberValue, ParamDecodeError>(number),
{
}

} // verus!
