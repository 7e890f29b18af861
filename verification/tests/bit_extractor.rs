use diag_service::format::DataFormat;
use diag_service::service::ParamByteOrder;
use diag_service::service::ParamDecodeError;
use diag_service::service::Parameter;

fn parameter(start_bit: usize, length_bits: usize, byte_order: ParamByteOrder) -> Parameter {
    Parameter {
        name: String::from("signal"),
        unit: String::new(),
        start_bit,
        length_bits,
        byte_order,
        data_format: DataFormat::Identical,
        valid_bounds: None,
    }
}

/// Bit `index` of `buf`, counted from the most significant bit of each byte.
fn bit(buf: &[u8], index: usize) -> u32 {
    ((buf[index / 8] >> (7 - index % 8)) & 1) as u32
}

/// `width` bits from `start` on, one at a time, the first being the most significant.
fn run(buf: &[u8], start: usize, width: usize) -> u32 {
    let mut value = 0u32;
    for index in start..start + width {
        value = value * 2 + bit(buf, index);
    }
    value
}

/// The number of a field, computed by hand from single bits.
fn by_hand(buf: &[u8], start: usize, length: usize, order: &ParamByteOrder) -> u32 {
    if length <= 8 {
        return run(buf, start, length);
    }
    let mut chunks: Vec<u32> = Vec::new();
    let mut at = start;
    while at < start + length {
        let width = std::cmp::min(8, start + length - at);
        chunks.push(run(buf, at, width));
        at += width;
    }
    let mut value = 0u32;
    match order {
        ParamByteOrder::BigEndian => {
            for chunk in chunks.iter() {
                value = value * 256 + chunk;
            }
        }
        ParamByteOrder::LittleEndian => {
            for chunk in chunks.iter().rev() {
                value = value * 256 + chunk;
            }
        }
    }
    value
}

const SAMPLE: [u8; 6] = [0x2A, 0xDE, 0xAD, 0xBE, 0xEF, 0x81];

#[test]
fn whole_byte_is_read_as_it_is() {
    let p = parameter(0, 8, ParamByteOrder::BigEndian);
    assert!(matches!(p.get_number(&[0x2A]), Ok(42)));
}

#[test]
fn first_bit_is_the_most_significant() {
    let high = parameter(0, 1, ParamByteOrder::BigEndian);
    let low = parameter(7, 1, ParamByteOrder::BigEndian);
    assert!(matches!(high.get_number(&[0x80]), Ok(1)));
    assert!(matches!(high.get_number(&[0x01]), Ok(0)));
    assert!(matches!(low.get_number(&[0x01]), Ok(1)));
    assert!(matches!(low.get_number(&[0x80]), Ok(0)));
}

#[test]
fn nibbles_are_read_from_the_top() {
    let upper = parameter(0, 4, ParamByteOrder::BigEndian);
    let lower = parameter(4, 4, ParamByteOrder::BigEndian);
    assert!(matches!(upper.get_number(&[0xA5]), Ok(0xA)));
    assert!(matches!(lower.get_number(&[0xA5]), Ok(0x5)));
}

#[test]
fn run_over_two_bytes_joins_them() {
    let p = parameter(4, 8, ParamByteOrder::BigEndian);
    assert!(matches!(p.get_number(&[0xA5, 0x3C]), Ok(0x53)));
    let q = parameter(6, 4, ParamByteOrder::BigEndian);
    assert!(matches!(q.get_number(&[0x01, 0x80]), Ok(0b0110)));
}

#[test]
fn sixteen_bits_follow_the_byte_order() {
    let big = parameter(8, 16, ParamByteOrder::BigEndian);
    let little = parameter(8, 16, ParamByteOrder::LittleEndian);
    assert!(matches!(big.get_number(&SAMPLE), Ok(0xDEAD)));
    assert!(matches!(little.get_number(&SAMPLE), Ok(0xADDE)));
}

#[test]
fn thirty_two_bits_follow_the_byte_order() {
    let big = parameter(8, 32, ParamByteOrder::BigEndian);
    let little = parameter(8, 32, ParamByteOrder::LittleEndian);
    assert!(matches!(big.get_number(&SAMPLE), Ok(0xDEADBEEF)));
    assert!(matches!(little.get_number(&SAMPLE), Ok(0xEFBEADDE)));
}

#[test]
fn short_last_chunk_fills_its_byte_from_below() {
    let big = parameter(4, 12, ParamByteOrder::BigEndian);
    let little = parameter(4, 12, ParamByteOrder::LittleEndian);
    assert!(matches!(big.get_number(&SAMPLE), Ok(0xAD0E)));
    assert!(matches!(little.get_number(&SAMPLE), Ok(0x0EAD)));
}

#[test]
fn every_readable_field_equals_the_bits_taken_by_hand() {
    let orders = [ParamByteOrder::BigEndian, ParamByteOrder::LittleEndian];
    let mut checked = 0;
    for order in orders.iter() {
        for length in 1..=32usize {
            if (17..=24).contains(&length) {
                continue;
            }
            for start in 0..=(8 * SAMPLE.len() - length) {
                let p = parameter(start, length, *order);
                let expected = by_hand(&SAMPLE, start, length, order);
                match p.get_number(&SAMPLE) {
                    Ok(number) => assert_eq!(number, expected, "start {} length {}", start, length),
                    Err(_) => panic!("start {} length {} was refused", start, length),
                }
                checked += 1;
            }
        }
    }
    assert!(checked > 1000);
}

#[test]
fn more_than_32_bits_are_refused() {
    let buf = [0u8; 16];
    for length in [33usize, 34, 40, 64, 128, usize::MAX] {
        let p = parameter(0, length, ParamByteOrder::BigEndian);
        assert!(matches!(p.get_number(&buf), Err(ParamDecodeError::BitRangeError)));
    }
}

#[test]
fn field_beyond_the_buffer_is_refused() {
    let cases = [(0usize, 9usize), (1, 8), (8, 1), (7, 2), (0, 32), (9, 4), (usize::MAX, 1), (usize::MAX - 3, 8)];
    for (start, length) in cases {
        for order in [ParamByteOrder::BigEndian, ParamByteOrder::LittleEndian] {
            let p = parameter(start, length, order);
            assert!(
                matches!(p.get_number(&[0xFF]), Err(ParamDecodeError::BitRangeError)),
                "start {} length {}",
                start,
                length
            );
        }
    }
    let p = parameter(0, 1, ParamByteOrder::BigEndian);
    assert!(matches!(p.get_number(&[]), Err(ParamDecodeError::BitRangeError)));
}

#[test]
fn field_that_ends_with_the_buffer_is_read() {
    let p = parameter(40, 8, ParamByteOrder::BigEndian);
    assert!(matches!(p.get_number(&SAMPLE), Ok(0x81)));
    let q = parameter(47, 1, ParamByteOrder::BigEndian);
    assert!(matches!(q.get_number(&SAMPLE), Ok(1)));
}

#[test]
fn three_chunks_are_refused() {
    for length in 17..=24usize {
        for order in [ParamByteOrder::BigEndian, ParamByteOrder::LittleEndian] {
            let p = parameter(0, length, order);
            assert!(
                matches!(p.get_number(&SAMPLE), Err(ParamDecodeError::BitRangeError)),
                "length {}",
                length
            );
        }
    }
}

#[test]
fn empty_field_is_zero() {
    let p = parameter(3, 0, ParamByteOrder::BigEndian);
    assert!(matches!(p.get_number(&SAMPLE), Ok(0)));
    let at_end = parameter(48, 0, ParamByteOrder::BigEndian);
    assert!(matches!(at_end.get_number(&SAMPLE), Ok(0)));
    let beyond = parameter(49, 0, ParamByteOrder::BigEndian);
    assert!(matches!(beyond.get_number(&SAMPLE), Err(ParamDecodeError::BitRangeError)));
}
