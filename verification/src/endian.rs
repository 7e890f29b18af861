//! Assembling the bytes of a field into one integer, in either byte order.

use crate::service::ParamByteOrder;
use byteorder::BigEndian;
use byteorder::ByteOrder;
use byteorder::LittleEndian;
use vstd::prelude::*;

verus! {

/// The 16-bit number that two bytes make in the given byte order.
pub open spec fn join_two(order: ParamByteOrder, first: int, second: int) -> int {
    match order {
        ParamByteOrder::BigEndian => 256 * first + second,
        ParamByteOrder::LittleEndian => first + 256 * second,
    }
}

/// The 32-bit number that four bytes make in the given byte order.
pub open spec fn join_four(
    order: ParamByteOrder,
    first: int,
    second: int,
    third: int,
    fourth: int,
) -> int {
    match order {
        ParamByteOrder::BigEndian => 16777216 * first + 65536 * second + 256 * third + fourth,
        ParamByteOrder::LittleEndian => first + 256 * second + 65536 * third + 16777216 * fourth,
    }
}

/// `BigEndian::read_u16` of the crate `byteorder`: the first two bytes of `buf` as a number,
/// the first byte being the high one. The call panics on a shorter slice.
#[verifier::external_body]
fn read_u16_big_endian(buf: &[u8]) -> (r: u16)
    requires
        buf@.len() >= 2,
    ensures
        r as int == 256 * buf@[0] + buf@[1],
{
    BigEndian::read_u16(buf)
}

/// `LittleEndian::read_u16` of the crate `byteorder`: the first two bytes of `buf` as a
/// number, the first byte being the low one. The call panics on a shorter slice.
#[verifier::external_body]
fn read_u16_little_endian(buf: &[u8]) -> (r: u16)
    requires
        buf@.len() >= 2,
    ensures
        r as int == buf@[0] + 256 * buf@[1],
{
    LittleEndian::read_u16(buf)
}

/// `BigEndian::read_u32` of the crate `byteorder`: the first four bytes of `buf` as a number,
/// the first byte being the highest. The call panics on a shorter slice.
#[verifier::external_body]
fn read_u32_big_endian(buf: &[u8]) -> (r: u32)
    requires
        buf@.len() >= 4,
    ensures
        r as int == 16777216 * buf@[0] + 65536 * buf@[1] + 256 * buf@[2] + buf@[3],
{
    BigEndian::read_u32(buf)
}

/// `LittleEndian::read_u32` of the crate `byteorder`: the first four bytes of `buf` as a
/// number, the first byte being the lowest. The call panics on a shorter slice.
#[verifier::external_body]
fn read_u32_little_endian(buf: &[u8]) -> (r: u32)
    requires
        buf@.len() >= 4,
    ensures
        r as int == buf@[0] + 256 * buf@[1] + 65536 * buf@[2] + 16777216 * buf@[3],
{
    LittleEndian::read_u32(buf)
}

/// Reads the first two bytes of `buf` as one number in the given byte order.
pub(crate) fn read_two(order: &ParamByteOrder, buf: &[u8]) -> (r: u32)
    requires
        buf@.len() >= 2,
    ensures
        r as int == join_two(*order, buf@[0] as int, buf@[1] as int),
{
    match order {
        ParamByteOrder::BigEndian => read_u16_big_endian(buf) as u32,
        ParamByteOrder::LittleEndian => read_u16_little_endian(buf) as u32,
    }
}

/// Reads the first four bytes of `buf` as one number in the given byte order.
pub(crate) fn read_four(order: &ParamByteOrder, buf: &[u8]) -> (r: u32)
    requires
        buf@.len() >= 4,
    ensures
        r as int == join_four(
            *order,
            buf@[0] as int,
            buf@[1] as int,
            buf@[2] as int,
            buf@[3] as int,
        ),
{
    match order {
        ParamByteOrder::BigEndian => read_u32_big_endian(buf),
        ParamByteOrder::LittleEndian => read_u32_little_endian(buf),
    }
}

} // verus!
