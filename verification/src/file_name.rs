//! Names of region files.

use crate::decimal::{all_digits, digits_value, i32_of, is_digit, parse_i32};
use crate::text::{decimal_text, digit_char, push_signed, signed_text};
use vstd::prelude::*;
use vstd::slice::slice_subrange;
use vstd::string::StringSliceAdditionalSpecFns;

verus! {

/// The place of the first dot at or after `from`, or the length where
/// there is none.
pub open spec fn next_dot(name: Seq<u8>, from: int) -> int
    decreases name.len() - from,
{
    if from < 0 || from >= name.len() {
        name.len() as int
    } else if name[from] == 46 {
        from
    } else {
        next_dot(name, from + 1)
    }
}

/// The region coordinates in a file name of the form `r.<x>.<z>.<ext>`:
/// the name is cut at its dots, and the second and third pieces are the
/// coordinates in decimal digits. The first piece and whatever follows the
/// third are not looked at. A name with fewer than three pieces, or with a
/// piece that is no number, names no region.
pub open spec fn region_coords(name: Seq<u8>) -> Option<(i32, i32)> {
    let first = next_dot(name, 0);
    let second = next_dot(name, first + 1);
    let third = next_dot(name, second + 1);
    if first >= name.len() || second >= name.len() {
        None
    } else {
        match (i32_of(name.subrange(first + 1, second)), i32_of(name.subrange(second + 1, third))) {
            (Some(x), Some(z)) => Some((x, z)),
            _ => None,
        }
    }
}

/// The name of the region file for the region with the given coordinates.
pub open spec fn region_file_name_of(region_x: int, region_z: int) -> Seq<char> {
    seq!['r', '.'] + signed_text(region_x) + seq!['.'] + signed_text(region_z) + seq![
        '.',
        'm',
        'c',
        'a',
    ]
}

/// Writes the name of the region file for the region with the given
/// coordinates.
pub fn region_file_name(region_x: i32, region_z: i32) -> (name: String)
    ensures
        name@ == region_file_name_of(region_x as int, region_z as int),
{
    let mut name = String::new();
    name.push('r');
    name.push('.');
    push_signed(&mut name, region_x);
    name.push('.');
    push_signed(&mut name, region_z);
    name.push('.');
    name.push('m');
    name.push('c');
    name.push('a');
    assert(name@ =~= region_file_name_of(region_x as int, region_z as int));
    name
}

spec fn bytes_of(text: Seq<char>) -> Seq<u8> {
    text.map_values(|c: char| c as u8)
}

proof fn lemma_decimal_text(n: nat)
    ensures
        decimal_text(n).len() > 0,
        forall|i: int|
            0 <= i < decimal_text(n).len() ==> '0' <= #[trigger] decimal_text(n)[i] <= '9',
        all_digits(bytes_of(decimal_text(n))),
        digits_value(bytes_of(decimal_text(n))) == n,
    decreases n,
{
    let text = decimal_text(n);
    if n < 10 {
        assert(text =~= seq![digit_char(n)]);
        assert(bytes_of(text).drop_last() =~= Seq::<u8>::empty());
        assert(bytes_of(text).last() == 48 + n);
        assert(digits_value(bytes_of(text).drop_last()) == 0);
    } else {
        lemma_decimal_text(n / 10);
        let front = decimal_text(n / 10);
        assert(text == front.push(digit_char(n % 10)));
        assert(bytes_of(text).drop_last() =~= bytes_of(front));
        assert(bytes_of(text).last() == 48 + n % 10);
        assert forall|i: int| 0 <= i < text.len() implies '0' <= #[trigger] text[i] <= '9' by {
            if i < front.len() {
                assert(text[i] == front[i]);
            }
        }
        assert forall|i: int| 0 <= i < bytes_of(text).len() implies is_digit(
            #[trigger] bytes_of(text)[i],
        ) by {
            assert('0' <= text[i] <= '9');
        }
    }
}

proof fn lemma_signed_text(n: int)
    requires
        i32::MIN <= n <= i32::MAX,
    ensures
        signed_text(n).len() > 0,
        forall|i: int|
            0 <= i < signed_text(n).len() ==> '-' <= #[trigger] signed_text(n)[i] <= '9'
                && signed_text(n)[i] != '.',
        i32_of(bytes_of(signed_text(n))) == Some(n as i32),
{
    let text = signed_text(n);
    if n < 0 {
        let digits = decimal_text((-n) as nat);
        lemma_decimal_text((-n) as nat);
        assert(text == seq!['-'] + digits);
        assert(bytes_of(text)[0] == 45);
        assert(bytes_of(text).subrange(1, text.len() as int) =~= bytes_of(digits));
        assert forall|i: int| 0 <= i < text.len() implies '-' <= #[trigger] text[i] <= '9'
            && text[i] != '.' by {
            if i > 0 {
                assert(text[i] == digits[i - 1]);
            }
        }
    } else {
        lemma_decimal_text(n as nat);
        assert('0' <= text[0] <= '9');
        assert(bytes_of(text)[0] != 45 && bytes_of(text)[0] != 43);
    }
}

proof fn lemma_next_dot(name: Seq<u8>, from: int, to: int)
    requires
        0 <= from <= to <= name.len(),
        forall|i: int| from <= i < to ==> name[i] != 46,
        to == name.len() || name[to] == 46,
    ensures
        next_dot(name, from) == to,
    decreases to - from,
{
    if from < to {
        lemma_next_dot(name, from + 1, to);
    }
}

/// The name written for a region names that region: reading the
/// coordinates out of it gives the coordinates it was written for.
pub proof fn lemma_region_file_name_names_its_region(region_x: i32, region_z: i32)
    ensures
        region_coords(
            vstd::utf8::encode_utf8(region_file_name_of(region_x as int, region_z as int)),
        ) == Some((region_x, region_z)),
{
    let sx = signed_text(region_x as int);
    let sz = signed_text(region_z as int);
    let name = region_file_name_of(region_x as int, region_z as int);
    lemma_signed_text(region_x as int);
    lemma_signed_text(region_z as int);
    let second: int = 2 + sx.len() as int;
    let third: int = second + 1 + sz.len() as int;
    assert(name.len() == third + 4);
    assert forall|i: int| 0 <= i < name.len() implies '\0' <= #[trigger] name[i] <= '\u{7f}' by {
        if 2 <= i < second {
            assert(name[i] == sx[i - 2]);
        } else if second < i < third {
            assert(name[i] == sz[i - second - 1]);
        }
    }
    vstd::utf8::is_ascii_chars_encode_utf8(name);
    let bytes = vstd::utf8::encode_utf8(name);
    assert(bytes =~= bytes_of(name));
    assert(bytes[0] == 114 && bytes[1] == 46);
    lemma_next_dot(bytes, 0, 1);
    assert forall|i: int| 2 <= i < second implies bytes[i] != 46 by {
        assert(name[i] == sx[i - 2]);
    }
    assert(bytes[second] == 46);
    lemma_next_dot(bytes, 2, second);
    assert forall|i: int| second + 1 <= i < third implies bytes[i] != 46 by {
        assert(name[i] == sz[i - second - 1]);
    }
    assert(bytes[third] == 46);
    lemma_next_dot(bytes, second + 1, third);
    assert(bytes.subrange(2, second) =~= bytes_of(sx));
    assert(bytes.subrange(second + 1, third) =~= bytes_of(sz));
}

fn find_dot(name: &[u8], from: usize) -> (at: usize)
    requires
        from <= name@.len(),
    ensures
        at == next_dot(name@, from as int),
        from <= at <= name@.len(),
{
    let mut i: usize = from;
    while i < name.len() && name[i] != 46
        invariant
            from <= i <= name@.len(),
            next_dot(name@, from as int) == next_dot(name@, i as int),
        decreases name@.len() - i,
    {
        i += 1;
    }
    i
}

/// Reads the region coordinates out of a region file's name.
pub fn parse_region_file_name(input: &str) -> (r: Option<(i32, i32)>)
    ensures
        r == region_coords(input.spec_bytes()),
{
    let name = input.as_bytes();
    let len: usize = name.len();
    let first = find_dot(name, 0);
    if first >= len {
        return None;
    }
    let second = find_dot(name, first + 1);
    if second >= len {
        return None;
    }
    let third = find_dot(name, second + 1);
    let x: i32 = match parse_i32(slice_subrange(name, first + 1, second)) {
        Some(x) => x,
        None => {
            return None;
        },
    };
    let z: i32 = match parse_i32(slice_subrange(name, second + 1, third)) {
        Some(z) => z,
        None => {
            return None;
        },
    };
    Some((x, z))
}

/// The region coordinates in the name of a region file. The name must be
/// one that names a region.
pub fn get_region_coords_from_file_name(input: &str) -> (coords: (i32, i32))
    requires
        region_coords(input.spec_bytes()) is Some,
    ensures
        Some(coords) == region_coords(input.spec_bytes()),
{
    match parse_region_file_name(input) {
        Some(coords) => coords,
        None => (0, 0),
    }
}

} // verus!
