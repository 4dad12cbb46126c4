//! Texts as bytes: comparing, searching, and reading decimal numbers.

use vstd::prelude::*;
use vstd::slice::slice_subrange;

verus! {

/// The text is a number in decimal digits: at least one byte, each from `0` to `9`.
pub open spec fn is_decimal(text: Seq<u8>) -> bool {
    &&& text.len() > 0
    &&& forall|i: int| 0 <= i < text.len() ==> 48 <= #[trigger] text[i] <= 57
}

/// The digit that a byte stands for.
pub open spec fn digit_value(byte: u8) -> nat {
    if byte >= 48 {
        (byte - 48) as nat
    } else {
        0
    }
}

/// The number that a text in decimal digits stands for.
pub open spec fn decimal_value(text: Seq<u8>) -> nat
    decreases text.len(),
{
    if text.len() == 0 {
        0
    } else {
        10 * decimal_value(text.drop_last()) + digit_value(text.last())
    }
}

/// A longer text stands for a number that is no smaller than that of each start of it.
proof fn lemma_decimal_value_grows(text: Seq<u8>, shorter: int)
    requires
        0 <= shorter <= text.len(),
    ensures
        decimal_value(text.subrange(0, shorter)) <= decimal_value(text),
    decreases text.len() - shorter,
{
    if shorter == text.len() {
        assert(text.subrange(0, shorter) =~= text);
    } else {
        lemma_decimal_value_grows(text, shorter + 1);
        let longer = text.subrange(0, shorter + 1);
        assert(longer.drop_last() =~= text.subrange(0, shorter));
    }
}

/// Reads a number in decimal digits, without sign. There is none where the text is empty,
/// holds another byte than a digit, or stands for more than 64 bits hold.
pub fn parse_decimal(text: &[u8]) -> (number: Option<u64>)
    ensures
        match number {
            Some(n) => is_decimal(text@) && n == decimal_value(text@),
            None => !is_decimal(text@) || decimal_value(text@) > u64::MAX,
        },
{
    let len = text.len();
    if len == 0 {
        return None;
    }
    let mut value: u64 = 0;
    let mut at: usize = 0;
    assert(text@.subrange(0, 0) =~= Seq::<u8>::empty());
    while at < len
        invariant
            len == text@.len(),
            at <= len,
            value == decimal_value(text@.subrange(0, at as int)),
            forall|i: int| 0 <= i < at ==> 48 <= #[trigger] text@[i] <= 57,
        decreases len - at,
    {
        let byte = text[at];
        if byte < 48 || byte > 57 {
            return None;
        }
        let digit: u64 = (byte - 48) as u64;
        proof {
            let longer = text@.subrange(0, at + 1);
            assert(longer.drop_last() =~= text@.subrange(0, at as int));
            assert(longer.last() == byte);
            assert(decimal_value(longer) == 10 * value + digit);
            lemma_decimal_value_grows(text@, at + 1);
        }
        if value > (u64::MAX - digit) / 10 {
            return None;
        }
        value = value * 10 + digit;
        at = at + 1;
    }
    assert(text@.subrange(0, at as int) =~= text@);
    Some(value)
}

/// The byte of the plus sign.
pub const PLUS: u8 = 43;

/// The byte of the minus sign.
pub const MINUS: u8 = 45;

/// The text without its sign, if it starts with one.
pub open spec fn unsigned_part(text: Seq<u8>) -> Seq<u8> {
    if text.len() > 0 && (text[0] == PLUS || text[0] == MINUS) {
        text.drop_first()
    } else {
        text
    }
}

/// The integer that a text stands for: decimal digits, with a plus or a minus sign before
/// them or with none. There is none where the digits are missing or another byte stands
/// among them.
pub open spec fn integer_value(text: Seq<u8>) -> Option<int> {
    if !is_decimal(unsigned_part(text)) {
        None
    } else if text[0] == MINUS {
        Some(-(decimal_value(unsigned_part(text)) as int))
    } else {
        Some(decimal_value(unsigned_part(text)) as int)
    }
}

/// Reads an integer in decimal digits, with or without a sign. There is none where the
/// text stands for no integer, or for one that a signed 64-bit integer does not hold.
pub fn parse_integer(text: &[u8]) -> (number: Option<i64>)
    ensures
        match number {
            Some(n) => integer_value(text@) == Some(n as int),
            None => match integer_value(text@) {
                Some(n) => n < i64::MIN || n > i64::MAX,
                None => true,
            },
        },
{
    let signed = text.len() > 0 && (text[0] == PLUS || text[0] == MINUS);
    let digits = if signed {
        assert(text@.subrange(1, text@.len() as int) =~= text@.drop_first());
        slice_subrange(text, 1, text.len())
    } else {
        text
    };
    match parse_decimal(digits) {
        None => None,
        Some(magnitude) => {
            if signed && text[0] == MINUS {
                if magnitude <= i64::MAX as u64 {
                    Some(-(magnitude as i64))
                } else if magnitude == i64::MAX as u64 + 1 {
                    Some(i64::MIN)
                } else {
                    None
                }
            } else if magnitude <= i64::MAX as u64 {
                Some(magnitude as i64)
            } else {
                None
            }
        },
    }
}

/// Whether two texts hold the same bytes.
pub fn same_bytes(one: &[u8], other: &[u8]) -> (same: bool)
    ensures
        same == (one@ == other@),
{
    if one.len() != other.len() {
        return false;
    }
    let mut at: usize = 0;
    while at < one.len()
        invariant
            one@.len() == other@.len(),
            at <= one@.len(),
            forall|i: int| 0 <= i < at ==> one@[i] == other@[i],
        decreases one@.len() - at,
    {
        if one[at] != other[at] {
            return false;
        }
        at = at + 1;
    }
    assert(one@ =~= other@);
    true
}

/// `at` is the place of the first `byte` of `text` at or after `from`, or the length of the
/// text where there is none.
pub open spec fn first_at(text: Seq<u8>, byte: u8, from: int, at: int) -> bool {
    &&& from <= at <= text.len()
    &&& forall|i: int| from <= i < at ==> #[trigger] text[i] != byte
    &&& at < text.len() ==> text[at] == byte
}

/// The place of the first `byte` at or after `from`, or the length of the text where there
/// is none.
pub fn find_byte(text: &[u8], byte: u8, from: usize) -> (at: usize)
    requires
        from <= text@.len(),
    ensures
        first_at(text@, byte, from as int, at as int),
{
    let mut at: usize = from;
    while at < text.len() && text[at] != byte
        invariant
            from <= at <= text@.len(),
            forall|i: int| from <= i < at ==> #[trigger] text@[i] != byte,
        decreases text@.len() - at,
    {
        at = at + 1;
    }
    at
}

} // verus!
