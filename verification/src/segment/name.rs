//! The name of the folder of a segment: the segment's id in decimal.

use crate::id::SegmentId;
use vstd::prelude::*;

verus! {

/// The ASCII code of the digit zero.
pub const DIGIT_ZERO: u8 = 48;

/// The ASCII code of the plus sign.
pub const PLUS_SIGN: u8 = 43;

/// Whether a byte is an ASCII digit.
pub open spec fn is_digit(byte: u8) -> bool {
    48 <= byte <= 57
}

/// Whether every byte is an ASCII digit.
pub open spec fn all_digits(bytes: Seq<u8>) -> bool {
    forall|i: int| 0 <= i < bytes.len() ==> is_digit(#[trigger] bytes[i])
}

/// The number in decimal, as ASCII digits without leading zeros.
pub open spec fn decimal(n: nat) -> Seq<u8>
    decreases n,
{
    if n < 10 {
        seq![(48 + n) as u8]
    } else {
        decimal(n / 10).push((48 + n % 10) as u8)
    }
}

/// The number that a string of ASCII digits spells.
pub open spec fn digits_value(digits: Seq<u8>) -> nat
    decreases digits.len(),
{
    if digits.len() == 0 {
        0
    } else {
        digits_value(digits.drop_last()) * 10 + (digits.last() - 48) as nat
    }
}

/// The id that a folder name stands for: the name is a string of one or
/// more ASCII digits, with or without a plus sign in front, that spells a
/// number within `u64`. Any other name stands for no id.
pub open spec fn parsed_name(name: Seq<u8>) -> Option<SegmentId> {
    let digits = if name.len() > 0 && name[0] == 43 {
        name.skip(1)
    } else {
        name
    };
    if digits.len() > 0 && all_digits(digits) && digits_value(digits) <= u64::MAX {
        Some(digits_value(digits) as u64)
    } else {
        None
    }
}

/// The decimal form of a number is made of digits and spells the number.
pub proof fn lemma_decimal(n: nat)
    ensures
        decimal(n).len() > 0,
        all_digits(decimal(n)),
        digits_value(decimal(n)) == n,
    decreases n,
{
    if n < 10 {
        reveal_with_fuel(digits_value, 2);
        assert(decimal(n).drop_last().len() == 0);
    } else {
        lemma_decimal(n / 10);
        let head = decimal(n / 10);
        let last = (48 + n % 10) as u8;
        assert(head.push(last).drop_last() =~= head);
        assert forall|i: int| 0 <= i < decimal(n).len() implies is_digit(
            #[trigger] decimal(n)[i],
        ) by {
            if i < head.len() {
                assert(is_digit(head[i]));
            }
        }
    }
}

/// The folder name of a segment stands for the id of that segment.
pub proof fn lemma_folder_name_round_trip(id: SegmentId)
    ensures
        parsed_name(decimal(id as nat)) == Some(id),
{
    lemma_decimal(id as nat);
    assert(is_digit(decimal(id as nat)[0]));
}

/// A string of digits spells at least what its beginning spells.
pub proof fn lemma_digits_value_grows(digits: Seq<u8>, len: int)
    requires
        0 <= len <= digits.len(),
        all_digits(digits),
    ensures
        digits_value(digits.take(len)) <= digits_value(digits),
    decreases digits.len(),
{
    if len == digits.len() {
        assert(digits.take(len) =~= digits);
    } else {
        let head = digits.drop_last();
        assert(is_digit(digits[digits.len() - 1]));
        assert forall|i: int| 0 <= i < head.len() implies is_digit(#[trigger] head[i]) by {
            assert(is_digit(digits[i]));
        }
        lemma_digits_value_grows(head, len);
        assert(head.take(len) =~= digits.take(len));
    }
}

/// Appends the decimal digits of `n` to `out`.
fn push_decimal(n: u64, out: &mut Vec<u8>)
    ensures
        final(out)@ == old(out)@ + decimal(n as nat),
    decreases n,
{
    if n >= 10 {
        push_decimal(n / 10, out);
    }
    out.push(DIGIT_ZERO + (n % 10) as u8);
    proof {
        if n < 10 {
            assert(out@ =~= old(out)@ + decimal(n as nat));
        } else {
            assert(out@ =~= old(out)@ + decimal((n / 10) as nat).push((48 + n % 10) as u8));
        }
    }
}

/// The name of the folder of a segment: its id in decimal, as ASCII bytes.
pub fn folder_name(id: SegmentId) -> (name: Vec<u8>)
    ensures
        name@ == decimal(id as nat),
{
    let mut name: Vec<u8> = Vec::new();
    push_decimal(id, &mut name);
    assert(Seq::<u8>::empty() + decimal(id as nat) =~= decimal(id as nat));
    name
}

/// Reads the id of a segment out of the name of its folder. Gives `None`
/// for a name that stands for no id.
pub fn parse_folder_name(name: &[u8]) -> (id: Option<SegmentId>)
    ensures
        id == parsed_name(name@),
{
    let start: usize = if name.len() > 0 && name[0] == PLUS_SIGN {
        1
    } else {
        0
    };
    let ghost digits = name@.skip(start as int);
    assert(name@.skip(0) =~= name@);
    if start == name.len() {
        return None;
    }
    let mut value: u64 = 0;
    let mut i: usize = start;
    while i < name.len()
        invariant
            start <= i <= name.len(),
            start < name.len(),
            start == if name@.len() > 0 && name@[0] == 43 { 1int } else { 0int },
            digits == name@.skip(start as int),
            start == 0 ==> digits == name@,
            all_digits(digits.take(i - start)),
            value == digits_value(digits.take(i - start)),
        decreases name.len() - i,
    {
        let byte = name[i];
        let ghost seen = digits.take(i - start);
        let ghost next = digits.take(i - start + 1);
        proof {
            assert(digits[i - start] == byte);
            assert(next.drop_last() =~= seen);
            assert(next.last() == byte);
        }
        if byte < DIGIT_ZERO || byte > DIGIT_ZERO + 9 {
            assert(!is_digit(digits[i - start]));
            return None;
        }
        let digit = (byte - DIGIT_ZERO) as u64;
        proof {
            assert(digits_value(next) == digits_value(seen) * 10 + (byte - 48));
            assert forall|j: int| 0 <= j < next.len() implies is_digit(#[trigger] next[j]) by {
                if j < seen.len() {
                    assert(is_digit(seen[j]));
                }
            }
        }
        if value > (u64::MAX - digit) / 10 {
            proof {
                assert(digits_value(next) > u64::MAX);
                if all_digits(digits) {
                    lemma_digits_value_grows(digits, i - start + 1);
                }
            }
            return None;
        }
        value = value * 10 + digit;
        i += 1;
    }
    assert(digits.take(i - start) =~= digits);
    assert(name@.skip(0) =~= name@);
    Some(value)
}

} // verus!
