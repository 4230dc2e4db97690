//! Whole numbers written in decimal digits.

use vstd::prelude::*;
use vstd::slice::slice_subrange;

verus! {

/// Whether a byte is an ASCII digit.
pub open spec fn is_digit(b: u8) -> bool {
    48 <= b <= 57
}

/// Whether every byte is an ASCII digit.
pub open spec fn all_digits(s: Seq<u8>) -> bool {
    forall|i: int| 0 <= i < s.len() ==> is_digit(#[trigger] s[i])
}

/// The number that a run of digits spells.
pub open spec fn digits_value(s: Seq<u8>) -> int
    decreases s.len(),
{
    if s.len() == 0 {
        0
    } else {
        digits_value(s.drop_last()) * 10 + (s.last() - 48)
    }
}

/// The whole number that `s` spells: one or more digits, with a `+` or,
/// where `signed`, a `-` allowed in front. Nothing else is a number.
pub open spec fn number_of(s: Seq<u8>, signed: bool) -> Option<int> {
    let negative = signed && s.len() > 0 && s[0] == 45;
    let digits = if s.len() > 0 && (s[0] == 43 || negative) {
        s.subrange(1, s.len() as int)
    } else {
        s
    };
    if digits.len() == 0 || !all_digits(digits) {
        None
    } else if negative {
        Some(-digits_value(digits))
    } else {
        Some(digits_value(digits))
    }
}

/// The 32-bit signed number that `s` spells, if it spells one that fits.
pub open spec fn i32_of(s: Seq<u8>) -> Option<i32> {
    match number_of(s, true) {
        Some(v) => if i32::MIN <= v <= i32::MAX {
            Some(v as i32)
        } else {
            None
        },
        None => None,
    }
}

/// The 32-bit unsigned number that `s` spells, if it spells one that fits.
pub open spec fn u32_of(s: Seq<u8>) -> Option<u32> {
    match number_of(s, false) {
        Some(v) => if v <= u32::MAX {
            Some(v as u32)
        } else {
            None
        },
        None => None,
    }
}

/// Longer runs of digits spell no smaller numbers.
proof fn lemma_prefix_value(s: Seq<u8>, k: int)
    requires
        all_digits(s),
        0 <= k <= s.len(),
    ensures
        0 <= digits_value(s.subrange(0, k)) <= digits_value(s),
    decreases s.len() - k,
{
    if k == s.len() {
        assert(s.subrange(0, k) =~= s);
        lemma_value_not_negative(s);
    } else {
        lemma_prefix_value(s, k + 1);
        let longer = s.subrange(0, k + 1);
        assert(longer.drop_last() =~= s.subrange(0, k));
        assert(is_digit(s[k]));
        assert(longer.last() == s[k]);
        lemma_value_not_negative(s.subrange(0, k));
    }
}

proof fn lemma_value_not_negative(s: Seq<u8>)
    requires
        all_digits(s),
    ensures
        0 <= digits_value(s),
    decreases s.len(),
{
    if s.len() > 0 {
        assert(is_digit(s[s.len() - 1]));
        lemma_value_not_negative(s.drop_last());
    }
}

/// Reads a run of digits. Gives the number they spell where it is no more
/// than `limit`, and `None` where it is more, where the run is empty, or
/// where a byte is no digit.
pub(crate) fn read_digits(digits: &[u8], limit: u64) -> (r: Option<u64>)
    ensures
        r is None <==> digits@.len() == 0 || !all_digits(digits@) || digits_value(digits@) > limit,
        r matches Some(v) ==> v == digits_value(digits@) && v <= limit,
{
    let len: usize = digits.len();
    if len == 0 {
        return None;
    }
    let mut value: u64 = 0;
    let mut i: usize = 0;
    while i < len
        invariant
            i <= len,
            len == digits@.len(),
            all_digits(digits@.subrange(0, i as int)),
            value == digits_value(digits@.subrange(0, i as int)),
            value <= limit,
        decreases len - i,
    {
        let b: u8 = digits[i];
        if b < 48 || b > 57 {
            assert(!is_digit(digits@[i as int]));
            return None;
        }
        let next: u128 = value as u128 * 10 + (b - 48) as u128;
        proof {
            let longer = digits@.subrange(0, i + 1);
            assert(longer.drop_last() =~= digits@.subrange(0, i as int));
            assert(longer.last() == b);
            assert forall|j: int| 0 <= j < longer.len() implies is_digit(#[trigger] longer[j]) by {
                if j < i {
                    assert(is_digit(digits@.subrange(0, i as int)[j]));
                }
            }
        }
        if next > limit as u128 {
            proof {
                if all_digits(digits@) {
                    lemma_prefix_value(digits@, i + 1);
                }
            }
            return None;
        }
        value = next as u64;
        i += 1;
    }
    assert(digits@.subrange(0, len as int) =~= digits@);
    Some(value)
}

/// Reads a 32-bit signed number in decimal digits.
pub fn parse_i32(text: &[u8]) -> (r: Option<i32>)
    ensures
        r == i32_of(text@),
{
    let len: usize = text.len();
    if len > 0 && text[0] == 45 {
        match read_digits(slice_subrange(text, 1, len), 0x8000_0000) {
            Some(v) => Some((0i64 - v as i64) as i32),
            None => None,
        }
    } else if len > 0 && text[0] == 43 {
        match read_digits(slice_subrange(text, 1, len), 0x7fff_ffff) {
            Some(v) => Some(v as i32),
            None => None,
        }
    } else {
        match read_digits(text, 0x7fff_ffff) {
            Some(v) => Some(v as i32),
            None => None,
        }
    }
}

/// Reads a 32-bit unsigned number in decimal digits.
pub fn parse_u32(text: &[u8]) -> (r: Option<u32>)
    ensures
        r == u32_of(text@),
{
    let len: usize = text.len();
    let digits = if len > 0 && text[0] == 43 {
        slice_subrange(text, 1, len)
    } else {
        text
    };
    match read_digits(digits, 0xffff_ffff) {
        Some(v) => Some(v as u32),
        None => None,
    }
}

} // verus!
