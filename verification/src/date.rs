//! The date and hour that the name of an old file spells.

use vstd::prelude::*;
use vstd::string::StringSliceAdditionalSpecFns;
use vstd::utf8::encode_utf8_valid_utf8;
use vstd::utf8::is_char_boundary_iff_not_is_continuation_byte;
use vstd::utf8::is_char_boundary_start_end_of_seq;

verus! {

/// The month, day, year and hour (0 to 23) that a file name spells.
#[derive(Debug, Copy, Clone)]
pub struct DateSegments {
    pub month: i32,
    pub day: i32,
    pub year: i32,
    pub hour: i32,
}

/// Whether a byte is one of the ASCII digits `0` to `9`.
pub open spec fn is_digit(b: u8) -> bool {
    0x30 <= b <= 0x39
}

/// Whether every byte is an ASCII digit.
pub open spec fn all_digits(s: Seq<u8>) -> bool {
    forall|i: int| 0 <= i < s.len() ==> is_digit(#[trigger] s[i])
}

/// The number that a run of ASCII digits spells in base ten.
pub open spec fn digits_value(s: Seq<u8>) -> int
    decreases s.len(),
{
    if s.len() == 0 {
        0
    } else {
        10 * digits_value(s.drop_last()) + (s.last() - 0x30)
    }
}

/// The number that a run of ASCII digits spells, and zero for anything that
/// is not such a run: nothing at all, or a byte that is no digit.
pub open spec fn unsigned_value(s: Seq<u8>) -> int {
    if s.len() > 0 && all_digits(s) {
        digits_value(s)
    } else {
        0
    }
}

/// The number that a field of a date spells: a run of ASCII digits, which a
/// single `+` or `-` may precede. A field that does not have this form
/// counts as zero.
pub open spec fn field_value(s: Seq<u8>) -> int {
    if s.len() > 0 && s[0] == 0x2B {
        unsigned_value(s.skip(1))
    } else if s.len() > 0 && s[0] == 0x2D {
        -unsigned_value(s.skip(1))
    } else {
        unsigned_value(s)
    }
}

/// The date that ten bytes spell as `MMDDYYYYHH`.
pub open spec fn date_of(b: Seq<u8>) -> DateSegments {
    DateSegments {
        month: field_value(b.subrange(0, 2)) as i32,
        day: field_value(b.subrange(2, 4)) as i32,
        year: field_value(b.subrange(4, 8)) as i32,
        hour: field_value(b.subrange(8, 10)) as i32,
    }
}

/// What is left of a run of bytes once the bytes before its first ASCII
/// digit are dropped.
pub open spec fn from_first_digit(b: Seq<u8>) -> Seq<u8>
    decreases b.len(),
{
    if b.len() == 0 || is_digit(b[0]) {
        b
    } else {
        from_first_digit(b.drop_first())
    }
}

/// Ten to the power of `n`.
spec fn pow10(n: nat) -> nat
    decreases n,
{
    if n == 0 {
        1
    } else {
        10 * pow10((n - 1) as nat)
    }
}

/// A number of up to nine digits is below a thousand million.
proof fn lemma_pow10_up_to_nine(n: nat)
    requires
        n <= 9,
    ensures
        pow10(n) <= 1_000_000_000,
    decreases 9 - n,
{
    if n == 9 {
        reveal_with_fuel(pow10, 10);
    } else {
        lemma_pow10_up_to_nine(n + 1);
    }
}

/// Dropping bytes that are no digits from the front does not change what
/// is left from the first digit on.
proof fn lemma_from_first_digit_skips(b: Seq<u8>, n: int)
    requires
        0 <= n <= b.len(),
        forall|i: int| 0 <= i < n ==> !is_digit(#[trigger] b[i]),
    ensures
        from_first_digit(b) == from_first_digit(b.skip(n)),
    decreases n,
{
    if n == 0 {
        assert(b.skip(0) =~= b);
    } else {
        lemma_from_first_digit_skips(b.drop_first(), n - 1);
        assert(b.drop_first().skip(n - 1) =~= b.skip(n));
    }
}

/// Reads the bytes from `from` up to `to` as a run of digits.
fn parse_digits(bytes: &[u8], from: usize, to: usize) -> (value: i32)
    requires
        from <= to <= bytes@.len(),
        to - from <= 9,
    ensures
        value == unsigned_value(bytes@.subrange(from as int, to as int)),
        0 <= value <= 999_999_999,
{
    let ghost digits = bytes@.subrange(from as int, to as int);
    let mut value: i32 = 0;
    let mut k: usize = from;
    while k < to
        invariant
            from <= k <= to <= bytes@.len(),
            to - from <= 9,
            digits == bytes@.subrange(from as int, to as int),
            all_digits(bytes@.subrange(from as int, k as int)),
            value == digits_value(bytes@.subrange(from as int, k as int)),
            0 <= value < pow10((k - from) as nat),
        decreases to - k,
    {
        let b: u8 = bytes[k];
        if b < 0x30 || b > 0x39 {
            proof {
                assert(digits[k - from] == b);
            }
            return 0;
        }
        proof {
            let sofar = bytes@.subrange(from as int, k as int);
            let next = bytes@.subrange(from as int, k + 1);
            assert(next.drop_last() =~= sofar);
            lemma_pow10_up_to_nine((k - from + 1) as nat);
        }
        value = value * 10 + (b - 0x30) as i32;
        k = k + 1;
    }
    proof {
        lemma_pow10_up_to_nine((to - from) as nat);
    }
    value
}

/// Reads the bytes from `from` up to `to` as a field of a date.
fn parse_field(bytes: &[u8], from: usize, to: usize) -> (value: i32)
    requires
        from <= to <= bytes@.len(),
        to - from <= 9,
    ensures
        value == field_value(bytes@.subrange(from as int, to as int)),
{
    let ghost field = bytes@.subrange(from as int, to as int);
    if from == to {
        return 0;
    }
    let first: u8 = bytes[from];
    proof {
        assert(field.skip(1) =~= bytes@.subrange(from + 1, to as int));
    }
    if first == 0x2B {
        parse_digits(bytes, from + 1, to)
    } else if first == 0x2D {
        -parse_digits(bytes, from + 1, to)
    } else {
        parse_digits(bytes, from, to)
    }
}

impl DateSegments {
    /// The date that the first ten bytes of `chars` spell as `MMDDYYYYHH`:
    /// two digits for the month, two for the day, four for the year and two
    /// for the hour. A field that is no number counts as zero.
    pub fn from_chars(chars: &str) -> (date: Self)
        requires
            chars.spec_bytes().len() >= 10,
        ensures
            date == date_of(chars.spec_bytes()),
    {
        let bytes = chars.as_bytes();
        DateSegments {
            month: parse_field(bytes, 0, 2),
            day: parse_field(bytes, 2, 4),
            year: parse_field(bytes, 4, 8),
            hour: parse_field(bytes, 8, 10),
        }
    }
}

/// Finds where the date in a file name starts: splits `path` before its
/// first ASCII digit and returns what follows.
fn date_chars(path: &str) -> (rest: &str)
    ensures
        rest.spec_bytes() == from_first_digit(path.spec_bytes()),
{
    let bytes = path.as_bytes();
    let mut start: usize = 0;
    while start < bytes.len() && (bytes[start] < 0x30 || bytes[start] > 0x39)
        invariant
            start <= bytes@.len(),
            forall|i: int| 0 <= i < start ==> !is_digit(#[trigger] bytes@[i]),
        decreases bytes@.len() - start,
    {
        start = start + 1;
    }
    proof {
        lemma_from_first_digit_skips(bytes@, start as int);
        encode_utf8_valid_utf8(path@);
        if start < bytes@.len() {
            is_char_boundary_iff_not_is_continuation_byte(bytes@, start as int);
        } else {
            is_char_boundary_start_end_of_seq(bytes@);
        }
    }
    let (_, rest) = path.split_at(start);
    rest
}

/// The date in the name of an old file, such as `xmrg0506199516z`: the
/// ten bytes from the first digit of `path` on, read as `MMDDYYYYHH`.
pub fn read_old_xmrg_date(path: &str) -> (date: DateSegments)
    requires
        from_first_digit(path.spec_bytes()).len() >= 10,
    ensures
        date == date_of(from_first_digit(path.spec_bytes())),
{
    DateSegments::from_chars(date_chars(path))
}

/// The date in the name of an old file, if the name holds one: `None` where
/// fewer than ten bytes follow the first digit of `path`, and else what
/// [`read_old_xmrg_date`] gives.
pub fn find_old_xmrg_date(path: &str) -> (date: Option<DateSegments>)
    ensures
        match date {
            Some(found) => from_first_digit(path.spec_bytes()).len() >= 10 && found == date_of(
                from_first_digit(path.spec_bytes()),
            ),
            None => from_first_digit(path.spec_bytes()).len() < 10,
        },
{
    let rest = date_chars(path);
    if rest.as_bytes().len() >= 10 {
        Some(DateSegments::from_chars(rest))
    } else {
        None
    }
}

} // verus!
