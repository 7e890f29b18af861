//! Bit-addressed reads from a byte buffer.
//!
//! Bits are numbered from the start of the buffer and, within a byte, from its most
//! significant bit: bit `8 * k` is the top bit of byte `k` and bit `8 * k + 7` its lowest.
//! A run of bits is read as a number whose most significant bit is the first bit of the run.

use bit_field::BitArray;
use vstd::arithmetic::div_mod::lemma_breakdown;
use vstd::arithmetic::div_mod::lemma_div_denominator;
use vstd::arithmetic::div_mod::lemma_fundamental_div_mod;
use vstd::arithmetic::div_mod::lemma_small_mod;
use vstd::prelude::*;
use vstd::slice::slice_subrange;

verus! {

/// `2^exponent`, for the exponents that occur inside one byte: 0 to 8.
pub open spec fn two_to(exponent: int) -> int
    recommends
        0 <= exponent <= 8,
{
    if exponent <= 0 {
        1
    } else if exponent == 1 {
        2
    } else if exponent == 2 {
        4
    } else if exponent == 3 {
        8
    } else if exponent == 4 {
        16
    } else if exponent == 5 {
        32
    } else if exponent == 6 {
        64
    } else if exponent == 7 {
        128
    } else {
        256
    }
}

/// Bit `index` of `buf`, as 0 or 1.
pub open spec fn bit_at(buf: Seq<u8>, index: int) -> int {
    (buf[index / 8] as int / two_to(7 - index % 8)) % 2
}

/// The number spelled by the `width` bits of `buf` from bit `start` on, taken one bit at a
/// time, the first bit being the most significant.
pub open spec fn bits_value(buf: Seq<u8>, start: int, width: nat) -> int
    decreases width,
{
    if width == 0 {
        0
    } else {
        2 * bits_value(buf, start, (width - 1) as nat) + bit_at(buf, start + width - 1)
    }
}

/// The same number for a run of at most 8 bits, computed from the one or two bytes that hold
/// it: inside one byte, the byte without the bits below the run, modulo `2^width`; over two
/// bytes, the low bits of the first byte followed by the second byte, without the bits below
/// the run.
pub open spec fn run_value(buf: Seq<u8>, start: int, width: int) -> int
    recommends
        0 <= start,
        0 <= width <= 8,
        start + width <= 8 * buf.len(),
{
    let byte = start / 8;
    let offset = start % 8;
    if width <= 0 {
        0
    } else if offset + width <= 8 {
        (buf[byte] as int / two_to(8 - offset - width)) % two_to(width)
    } else {
        (256 * (buf[byte] as int % two_to(8 - offset)) + buf[byte + 1] as int) / two_to(
            16 - offset - width,
        )
    }
}

/// Two bytes side by side, moved down by `shift` places: the first byte moves up by the
/// `8 - shift` places that are left of it.
proof fn lemma_shift_pair(first: int, second: int, shift: int)
    requires
        0 <= first < 256,
        0 <= second < 256,
        1 <= shift <= 7,
    ensures
        (256 * first + second) / two_to(shift) == first * two_to(8 - shift) + second / two_to(
            shift,
        ),
{
    if shift == 1 {
    } else if shift == 2 {
    } else if shift == 3 {
    } else if shift == 4 {
    } else if shift == 5 {
    } else if shift == 6 {
    } else {
    }
}

/// A run of `width` bits spells a number below `2^width`.
pub proof fn lemma_bits_value_bound(buf: Seq<u8>, start: int, width: nat)
    requires
        width <= 8,
    ensures
        0 <= bits_value(buf, start, width) < two_to(width as int),
    decreases width,
{
    if width > 0 {
        lemma_bits_value_bound(buf, start, (width - 1) as nat);
    }
}

/// A run of `first + rest` bits is its first `first` bits, moved up by `rest` places, plus its
/// last `rest` bits.
pub proof fn lemma_bits_value_split(buf: Seq<u8>, start: int, first: nat, rest: nat)
    requires
        rest <= 8,
    ensures
        bits_value(buf, start, first + rest) == bits_value(buf, start, first) * two_to(rest as int)
            + bits_value(buf, start + first, rest),
    decreases rest,
{
    let head = bits_value(buf, start, first);
    if rest == 0 {
        assert(head * 1 == head) by (nonlinear_arith);
    } else {
        let shorter = (rest - 1) as nat;
        lemma_bits_value_split(buf, start, first, shorter);
        let weight = two_to(shorter as int);
        assert(2 * (head * weight) == head * (2 * weight)) by (nonlinear_arith);
        assert(first + rest - 1 == first + shorter);
    }
}

/// Inside one byte, the run of `width` bits from bit `offset` on is the byte without its
/// `8 - offset - width` lowest bits, modulo `2^width`.
pub proof fn lemma_bits_value_in_byte(buf: Seq<u8>, byte: int, offset: nat, width: nat)
    requires
        0 <= byte < buf.len(),
        offset + width <= 8,
    ensures
        bits_value(buf, 8 * byte + offset, width) == (buf[byte] as int / two_to(
            8 - offset - width,
        )) % two_to(width as int),
    decreases width,
{
    if width > 0 {
        let shorter = (width - 1) as nat;
        lemma_bits_value_in_byte(buf, byte, offset, shorter);
        let last = 8 * byte + offset + width - 1;
        assert(last / 8 == byte && last % 8 == offset + width - 1);
        let low = two_to(8 - offset - width);
        let whole = buf[byte] as int;
        assert(two_to(8 - offset - shorter) == low * 2);
        lemma_div_denominator(whole, low, 2);
        lemma_breakdown(whole / low, 2, two_to(shorter as int));
    }
}

/// The law of the bit reader: the number that `run_value` computes from whole bytes is the
/// number that the bits of the run spell when they are taken one at a time, most significant
/// first.
pub proof fn lemma_run_is_bit_by_bit(buf: Seq<u8>, start: int, width: int)
    requires
        0 <= start,
        0 <= width <= 8,
        start + width <= 8 * buf.len(),
    ensures
        run_value(buf, start, width) == bits_value(buf, start, width as nat),
{
    let byte = start / 8;
    let offset = start % 8;
    if width == 0 {
    } else if offset + width <= 8 {
        lemma_bits_value_in_byte(buf, byte, offset as nat, width as nat);
    } else {
        let upper = (8 - offset) as nat;
        let lower = (width - upper) as nat;
        lemma_bits_value_split(buf, start, upper, lower);
        lemma_bits_value_in_byte(buf, byte, offset as nat, upper);
        lemma_bits_value_in_byte(buf, byte + 1, 0, lower);
        assert(start + upper == 8 * (byte + 1) + 0);
        let second = buf[byte + 1] as int;
        let cut = two_to(8 - lower);
        assert(second / cut < two_to(lower as int)) by {
            lemma_fundamental_div_mod(second, cut);
            assert(cut * two_to(lower as int) == 256) by (nonlinear_arith)
                requires
                    1 <= lower <= 7,
                    cut == two_to(8 - lower),
            ;
            assert(second / cut < two_to(lower as int)) by (nonlinear_arith)
                requires
                    second == cut * (second / cut) + second % cut,
                    0 <= second % cut,
                    second < 256,
                    cut * two_to(lower as int) == 256,
                    cut > 0,
            ;
        }
        lemma_small_mod((second / cut) as nat, two_to(lower as int) as nat);
        lemma_shift_pair(buf[byte] as int % two_to(upper as int), second, 8 - lower);
    }
}

/// `2^exponent`, for an exponent below 8.
fn small_power_of_two(exponent: usize) -> (r: u32)
    requires
        exponent < 8,
    ensures
        r == two_to(exponent as int),
{
    if exponent == 0 {
        1
    } else if exponent == 1 {
        2
    } else if exponent == 2 {
        4
    } else if exponent == 3 {
        8
    } else if exponent == 4 {
        16
    } else if exponent == 5 {
        32
    } else if exponent == 6 {
        64
    } else {
        128
    }
}

/// `BitArray::get_bits` of the crate `bit_field`, on a byte slice and for a range of bits
/// that lies inside one byte.
///
/// That crate numbers the bits of each byte from its least significant bit: bit `i` of the
/// slice is bit `i % 8` of byte `i / 8`, counted from below. For the range `from..to` it
/// returns the `to - from` bits of that byte from bit `from % 8` upwards, moved down to the
/// lowest places: the byte divided by `2^(from % 8)`, modulo `2^(to - from)`. On its way the
/// call multiplies the length of the slice by 8, so that product has to fit.
#[verifier::external_body]
fn get_bits(buf: &[u8], from: usize, to: usize) -> (r: u8)
    requires
        from < to,
        to <= 8 * buf@.len(),
        8 * buf@.len() <= usize::MAX,
        from / 8 == (to - 1) / 8,
    ensures
        r as int == (buf@[from as int / 8] as int / two_to(from as int % 8)) % two_to(to - from),
{
    buf.get_bits(from..to)
}

/// Reads the `width` bits of `buf` that start at bit `offset` of byte `byte`, most
/// significant first. The run may reach into the next byte.
pub(crate) fn read_bits(buf: &[u8], byte: usize, offset: usize, width: usize) -> (r: u8)
    requires
        offset < 8,
        1 <= width <= 8,
        8 * byte + offset + width <= 8 * buf@.len(),
    ensures
        r as int == run_value(buf@, 8 * byte + offset, width as int),
{
    assert(byte < buf.len());
    if offset + width <= 8 {
        let window = slice_subrange(buf, byte, byte + 1);
        get_bits(window, 8 - offset - width, 8 - offset)
    } else {
        let window = slice_subrange(buf, byte, byte + 2);
        let upper_width = 8 - offset;
        let lower_width = width - upper_width;
        let upper = get_bits(window, 0, upper_width);
        let lower = get_bits(window, 16 - lower_width, 16);
        let weight = small_power_of_two(lower_width);
        proof {
            let start = 8 * byte + offset;
            lemma_run_is_bit_by_bit(buf@, start, width as int);
            lemma_bits_value_bound(buf@, start, width as nat);
            assert(upper * weight <= 255 * 128) by (nonlinear_arith)
                requires
                    upper <= 255,
                    weight <= 128,
            ;
            lemma_small_mod(
                (buf@[byte + 1] as int / two_to(8 - lower_width)) as nat,
                two_to(lower_width as int) as nat,
            );
            lemma_shift_pair(upper as int, buf@[byte + 1] as int, 8 - lower_width);
        }
        let joined: u32 = upper as u32 * weight + lower as u32;
        joined as u8
    }
}

} // verus!
