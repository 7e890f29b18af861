//! The texts that decoding produces: hexadecimal listings, decoded text, unit suffixes and
//! the names of a lookup table.

use crate::format::TableData;
use vstd::prelude::*;
use vstd::string::StringExecFns;
use vstd::utf8::decode_utf8;
use vstd::utf8::valid_utf8;

verus! {

/// The upper-case hexadecimal digit of a number from 0 to 15.
pub open spec fn hex_digit(value: int) -> char
    recommends
        0 <= value < 16,
{
    if value <= 0 {
        '0'
    } else if value == 1 {
        '1'
    } else if value == 2 {
        '2'
    } else if value == 3 {
        '3'
    } else if value == 4 {
        '4'
    } else if value == 5 {
        '5'
    } else if value == 6 {
        '6'
    } else if value == 7 {
        '7'
    } else if value == 8 {
        '8'
    } else if value == 9 {
        '9'
    } else if value == 10 {
        'A'
    } else if value == 11 {
        'B'
    } else if value == 12 {
        'C'
    } else if value == 13 {
        'D'
    } else if value == 14 {
        'E'
    } else {
        'F'
    }
}

/// A byte as two hexadecimal digits, the high one first.
pub open spec fn hex_byte(byte: u8) -> Seq<char> {
    seq![hex_digit(byte as int / 16), hex_digit(byte as int % 16)]
}

/// Bytes as two-digit hexadecimal numbers with `", "` between them.
pub open spec fn hex_list(bytes: Seq<u8>) -> Seq<char>
    decreases bytes.len(),
{
    if bytes.len() == 0 {
        Seq::empty()
    } else if bytes.len() == 1 {
        hex_byte(bytes[0])
    } else {
        hex_list(bytes.drop_last()) + seq![',', ' '] + hex_byte(bytes.last())
    }
}

/// The listing of bytes in hexadecimal: `[DE, AD]`, and `[]` for no bytes.
pub open spec fn hex_dump(bytes: Seq<u8>) -> Seq<char> {
    seq!['['] + hex_list(bytes) + seq![']']
}

/// The text of one hexadecimal digit.
fn hex_digit_text(value: u8) -> (r: &'static str)
    requires
        value < 16,
    ensures
        r@ == seq![hex_digit(value as int)],
{
    proof {
        reveal_strlit("0");
        reveal_strlit("1");
        reveal_strlit("2");
        reveal_strlit("3");
        reveal_strlit("4");
        reveal_strlit("5");
        reveal_strlit("6");
        reveal_strlit("7");
        reveal_strlit("8");
        reveal_strlit("9");
        reveal_strlit("A");
        reveal_strlit("B");
        reveal_strlit("C");
        reveal_strlit("D");
        reveal_strlit("E");
        reveal_strlit("F");
    }
    let text = if value == 0 {
        "0"
    } else if value == 1 {
        "1"
    } else if value == 2 {
        "2"
    } else if value == 3 {
        "3"
    } else if value == 4 {
        "4"
    } else if value == 5 {
        "5"
    } else if value == 6 {
        "6"
    } else if value == 7 {
        "7"
    } else if value == 8 {
        "8"
    } else if value == 9 {
        "9"
    } else if value == 10 {
        "A"
    } else if value == 11 {
        "B"
    } else if value == 12 {
        "C"
    } else if value == 13 {
        "D"
    } else if value == 14 {
        "E"
    } else {
        "F"
    };
    assert(text@ =~= seq![hex_digit(value as int)]);
    text
}

/// Lists `bytes` in hexadecimal, as the format `{:02X?}` prints a slice of bytes.
pub fn format_hex_dump(bytes: &[u8]) -> (r: String)
    ensures
        r@ == hex_dump(bytes@),
{
    let mut text = String::from_str("[");
    proof {
        reveal_strlit("[");
        reveal_strlit("]");
    }
    let mut index: usize = 0;
    while index < bytes.len()
        invariant
            index <= bytes@.len(),
            text@ == seq!['['] + hex_list(bytes@.take(index as int)),
        decreases bytes@.len() - index,
    {
        let byte = bytes[index];
        let ghost before = text@;
        if index > 0 {
            text.append(", ");
        }
        text.append(hex_digit_text(byte / 16));
        text.append(hex_digit_text(byte % 16));
        proof {
            let done = bytes@.take(index as int);
            let more = bytes@.take(index + 1);
            assert(more.drop_last() =~= done);
            assert(more.last() == byte);
            reveal_strlit(", ");
            assert(", "@ =~= seq![',', ' ']);
            if index > 0 {
                assert(text@ =~= before + seq![',', ' '] + hex_byte(byte));
                assert(text@ =~= seq!['['] + hex_list(more));
            } else {
                assert(hex_list(done) =~= Seq::<char>::empty());
                assert(more[0] == byte);
                assert(text@ =~= seq!['['] + hex_list(more));
            }
        }
        index = index + 1;
    }
    assert(bytes@.take(index as int) =~= bytes@);
    text.append("]");
    assert(text@ =~= hex_dump(bytes@));
    text
}

/// The text that `String::from_utf8_lossy` makes of bytes: their decoding as UTF-8, in which
/// every malformed sequence is replaced by the replacement character U+FFFD.
pub uninterp spec fn lossy_text(bytes: Seq<u8>) -> Seq<char>;

/// `String::from_utf8_lossy` of the standard library, with its result made an owned string.
///
/// Nothing here was proved of it. The contract names its result, and adds what the
/// documentation of that function says of well-formed input: bytes that are valid UTF-8 come
/// back as the text that they encode, with nothing replaced.
#[verifier::external_body]
pub(crate) fn text_from_utf8_lossy(bytes: &[u8]) -> (r: String)
    ensures
        r@ == lossy_text(bytes@),
        valid_utf8(bytes@) ==> r@ == decode_utf8(bytes@),
{
    String::from_utf8_lossy(bytes).into_owned()
}

/// What follows a number that has a unit: a space and the unit; nothing where the unit is
/// empty.
pub open spec fn unit_suffix(unit: Seq<char>) -> Seq<char> {
    if unit.len() == 0 {
        Seq::empty()
    } else {
        seq![' '] + unit
    }
}

/// The suffix that a unit adds to a number.
pub fn format_unit_suffix(unit: &String) -> (r: String)
    ensures
        r@ == unit_suffix(unit@),
{
    let mut text = String::new();
    if !unit.as_str().is_empty() {
        proof {
            reveal_strlit(" ");
        }
        text.append(" ");
        text.append(unit.as_str());
        assert(text@ =~= seq![' '] + unit@);
    }
    text
}

/// Whether entry `index` of a table was found to match: the answers beyond the end of
/// `matches` are no.
pub open spec fn entry_matches(matches: Seq<bool>, index: int) -> bool {
    0 <= index < matches.len() && matches[index]
}

/// The first of the first `count` entries of a table that matches, if there is one.
pub open spec fn first_match(matches: Seq<bool>, count: int) -> Option<int>
    decreases count,
{
    if count <= 0 {
        None
    } else {
        match first_match(matches, count - 1) {
            Some(index) => Some(index),
            None => if entry_matches(matches, count - 1) {
                Some(count - 1)
            } else {
                None
            },
        }
    }
}

/// The text of a number that a table has no name for.
pub open spec fn undefined_text(number: Seq<char>) -> Seq<char> {
    "Undefined ("@ + number + ")"@
}

/// The text that a table gives to a number: the name of the first entry that matches, or
/// `Undefined (..)` around the number where none does.
pub open spec fn table_text(table: Seq<TableData>, matches: Seq<bool>, number: Seq<char>) -> Seq<
    char,
> {
    match first_match(matches, table.len() as int) {
        Some(index) => table[index].name@,
        None => undefined_text(number),
    }
}

/// `first_match` finds the least matching index, and finds none only where none matches.
pub proof fn lemma_first_match(matches: Seq<bool>, count: int)
    ensures
        match first_match(matches, count) {
            Some(index) => {
                &&& 0 <= index < count
                &&& entry_matches(matches, index)
                &&& forall|earlier: int| 0 <= earlier < index ==> !entry_matches(matches, earlier)
            },
            None => forall|index: int| 0 <= index < count ==> !entry_matches(matches, index),
        },
    decreases count,
{
    if count > 0 {
        lemma_first_match(matches, count - 1);
    }
}

/// Names a number by a table. `matches` says of each entry, in the order of the table,
/// whether its bounds match the number; `number` is the number as text.
pub fn format_table_text(table: &Vec<TableData>, matches: &[bool], number: &str) -> (r: String)
    ensures
        r@ == table_text(table@, matches@, number@),
{
    let mut index: usize = 0;
    while index < table.len()
        invariant
            index <= table@.len(),
            first_match(matches@, index as int) is None,
        decreases table@.len() - index,
    {
        if index < matches.len() && matches[index] {
            assert(first_match(matches@, index + 1) == Some(index as int));
            proof {
                lemma_first_match_stays(matches@, index + 1, table@.len() as int);
            }
            return table[index].name.clone();
        }
        assert(first_match(matches@, index + 1) is None);
        index = index + 1;
    }
    let mut text = String::from_str("Undefined (");
    text.append(number);
    text.append(")");
    assert(text@ =~= undefined_text(number@));
    text
}

/// Once an entry among the first `count` matches, looking at more entries finds the same one.
proof fn lemma_first_match_stays(matches: Seq<bool>, count: int, more: int)
    requires
        count <= more,
        first_match(matches, count) is Some,
    ensures
        first_match(matches, more) == first_match(matches, count),
    decreases more - count,
{
    if count < more {
        lemma_first_match_stays(matches, count, more - 1);
    }
}

} // verus!
