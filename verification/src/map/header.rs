//! The header of a map text: three numbers with commas between them, the
//! map's width, its height and the scale of its tiles.

use crate::map::{BadMapDescriptor, MapDescriptor};
use vstd::prelude::*;

verus! {

/// Whether `c` is one of the ten decimal digits.
pub open spec fn is_digit(c: char) -> bool {
    '0' <= c && c <= '9'
}

/// Whether `s` holds decimal digits and nothing else.
pub open spec fn all_digits(s: Seq<char>) -> bool {
    forall|i: int| 0 <= i < s.len() ==> is_digit(#[trigger] s[i])
}

/// The number that the digit `c` stands for.
pub open spec fn digit_value(c: char) -> nat {
    (c as u32 - '0' as u32) as nat
}

/// The number that a row of decimal digits stands for, the most significant
/// digit first.
pub open spec fn decimal_value(digits: Seq<char>) -> nat
    decreases digits.len(),
{
    if digits.len() == 0 {
        0
    } else {
        10 * decimal_value(digits.drop_last()) + digit_value(digits.last())
    }
}

/// The number that a text stands for, where it stands for one that a `usize`
/// holds: one or more decimal digits, with or without a `+` before them, and
/// nothing else. A sign alone, a `-`, a blank, or a number too large make the
/// text stand for none.
pub open spec fn spec_parse_usize(text: Seq<char>) -> Option<usize> {
    let digits = if text.len() > 0 && text[0] == '+' {
        text.skip(1)
    } else {
        text
    };
    if digits.len() > 0 && all_digits(digits) && decimal_value(digits) <= usize::MAX {
        Some(decimal_value(digits) as usize)
    } else {
        None
    }
}

/// How many characters of `s` stand before its first comma: all of them,
/// where it has none.
pub open spec fn field_len(s: Seq<char>) -> nat
    decreases s.len(),
{
    if s.len() == 0 || s[0] == ',' {
        0
    } else {
        1 + field_len(s.skip(1))
    }
}

/// The first of the fields that the commas of `s` part: what stands before the
/// first comma.
pub open spec fn first_field(s: Seq<char>) -> Seq<char> {
    s.take(field_len(s) as int)
}

/// What follows the first comma of `s`, or `None` where `s` has none and so is
/// a single field.
pub open spec fn after_first_field(s: Seq<char>) -> Option<Seq<char>> {
    if field_len(s) < s.len() {
        Some(s.skip(field_len(s) as int + 1))
    } else {
        None
    }
}

/// What is left of a header once its next field was taken.
pub open spec fn spec_after_field(remaining: Option<Seq<char>>) -> Option<Seq<char>> {
    match remaining {
        Some(s) => after_first_field(s),
        None => None,
    }
}

/// The value of the next field of a header of which `remaining` is left: a
/// field is missing once nothing is left, and invalid where it stands for no
/// number that a `usize` holds. Zero is a number like any other.
pub open spec fn spec_parse_map_header_field(remaining: Option<Seq<char>>) -> Result<
    usize,
    BadMapDescriptor,
> {
    match remaining {
        None => Err(BadMapDescriptor::MissingHeaderField),
        Some(s) => match spec_parse_usize(first_field(s)) {
            Some(value) => Ok(value),
            None => Err(BadMapDescriptor::InvalidHeaderValue),
        },
    }
}

/// The descriptor that a header line gives, or the first fault met on the way
/// through its fields: width, height, scale. What follows a third comma is not
/// read.
pub open spec fn spec_parse_map_header(header: Seq<char>) -> Result<
    MapDescriptor,
    BadMapDescriptor,
> {
    let after_width = spec_after_field(Some(header));
    let after_height = spec_after_field(after_width);
    match spec_parse_map_header_field(Some(header)) {
        Err(e) => Err(e),
        Ok(width) => match spec_parse_map_header_field(after_width) {
            Err(e) => Err(e),
            Ok(height) => match spec_parse_map_header_field(after_height) {
                Err(e) => Err(e),
                Ok(tile_scale) => Ok(MapDescriptor { width, height, tile_scale }),
            },
        },
    }
}

/// A row of digits stands for no less than any of its beginnings.
pub proof fn lemma_decimal_value_of_prefix(digits: Seq<char>, k: int)
    requires
        0 <= k <= digits.len(),
    ensures
        decimal_value(digits.take(k)) <= decimal_value(digits),
    decreases digits.len(),
{
    if k < digits.len() {
        assert(digits.drop_last().take(k) == digits.take(k));
        lemma_decimal_value_of_prefix(digits.drop_last(), k);
    } else {
        assert(digits.take(k) == digits);
    }
}

/// The first field ends where the first comma stands: `field_len(s)` is `k`
/// as soon as no comma stands before `k` and one stands at `k`, or `s` ends
/// there.
pub proof fn lemma_field_len_is_first_comma(s: Seq<char>, k: int)
    requires
        0 <= k <= s.len(),
        forall|j: int| 0 <= j < k ==> s[j] != ',',
        k < s.len() ==> s[k] == ',',
    ensures
        field_len(s) == k,
    decreases k,
{
    if k > 0 {
        let rest = s.skip(1);
        assert forall|j: int| 0 <= j < k - 1 implies rest[j] != ',' by {}
        lemma_field_len_is_first_comma(rest, k - 1);
    }
}

/// The characters of a text, one element each.
pub fn chars_of(text: &str) -> (chars: Vec<char>)
    ensures
        chars@ == text@,
{
    let mut chars: Vec<char> = Vec::new();
    for c in it: text.chars()
        invariant
            chars@ == it.seq().take(it.index() as int),
            it.seq() == text@,
    {
        chars.push(c);
    }
    chars
}

/// Reads the characters of `text` from `start` up to `end` as a decimal
/// number.
fn parse_usize(text: &Vec<char>, start: usize, end: usize) -> (value: Option<usize>)
    requires
        start <= end <= text.len(),
    ensures
        value == spec_parse_usize(text@.subrange(start as int, end as int)),
{
    let ghost field = text@.subrange(start as int, end as int);
    let first: usize = if start < end && text[start] == '+' {
        start + 1
    } else {
        start
    };
    let ghost digits = text@.subrange(first as int, end as int);
    if first == end {
        return None;
    }
    let mut value: usize = 0;
    let mut i: usize = first;
    while i < end
        invariant
            first <= i <= end <= text.len(),
            digits == text@.subrange(first as int, end as int),
            field == text@.subrange(start as int, end as int),
            digits == if field.len() > 0 && field[0] == '+' {
                field.skip(1)
            } else {
                field
            },
            all_digits(digits.take(i - first)),
            value == decimal_value(digits.take(i - first)),
        decreases end - i,
    {
        let c = text[i];
        if !(c >= '0' && c <= '9') {
            assert(!is_digit(digits[i - first]));
            return None;
        }
        let digit = (c as u32 - '0' as u32) as usize;
        let ghost read = digits.take(i - first + 1);
        assert(read.drop_last() == digits.take(i - first));
        let next = match value.checked_mul(10) {
            Some(tens) => tens.checked_add(digit),
            None => None,
        };
        match next {
            Some(n) => {
                value = n;
            },
            None => {
                proof {
                    lemma_decimal_value_of_prefix(digits, i - first + 1);
                }
                return None;
            },
        }
        i += 1;
    }
    assert(digits.take(i - first) == digits);
    Some(value)
}

/// A header line on its way through `parse_map_header_field`: the fields
/// already taken are gone from it.
pub struct HeaderSplit {
    text: Vec<char>,
    next: Option<usize>,
}

impl HeaderSplit {
    #[verifier::type_invariant]
    spec fn next_is_in_text(self) -> bool {
        match self.next {
            Some(start) => start <= self.text.len(),
            None => true,
        }
    }

    /// The part of the line that no field was taken from yet; `None` once the
    /// last field was taken.
    pub closed spec fn remaining(self) -> Option<Seq<char>> {
        match self.next {
            Some(start) => Some(self.text@.skip(start as int)),
            None => None,
        }
    }

    /// Starts on a header line, with all of it left.
    pub fn new(header: &str) -> (header_split: HeaderSplit)
        ensures
            header_split.remaining() == Some(header@),
    {
        let text = chars_of(header);
        HeaderSplit { text, next: Some(0) }
    }
}

/// Takes the next field from a header and stores its value in `header_field`.
///
/// The field is taken whether it is valid or not. Nothing is stored unless
/// the field stands for a number: a header with no field left gives
/// `MissingHeaderField`, a field that stands for no number that a `usize`
/// holds gives `InvalidHeaderValue`.
pub fn parse_map_header_field(header_split: &mut HeaderSplit, header_field: &mut usize) -> (result:
    Result<(), BadMapDescriptor>)
    ensures
        final(header_split).remaining() == spec_after_field(old(header_split).remaining()),
        match spec_parse_map_header_field(old(header_split).remaining()) {
            Ok(value) => result == Ok::<(), BadMapDescriptor>(()) && *final(header_field) == value,
            Err(e) => result == Err::<(), BadMapDescriptor>(e) && *final(header_field) == *old(
                header_field,
            ),
        },
{
    proof {
        use_type_invariant(&*header_split);
    }
    let start = match header_split.next {
        Some(start) => start,
        None => {
            return Err(BadMapDescriptor::MissingHeaderField);
        },
    };
    let ghost rest = header_split.text@.skip(start as int);
    let len = header_split.text.len();
    let mut end: usize = start;
    while end < len && header_split.text[end] != ','
        invariant
            start <= end <= len,
            len == header_split.text.len(),
            forall|j: int| start <= j < end ==> header_split.text@[j] != ',',
        decreases len - end,
    {
        end += 1;
    }
    proof {
        lemma_field_len_is_first_comma(rest, end - start);
        assert(first_field(rest) == header_split.text@.subrange(start as int, end as int));
    }
    let parsed = parse_usize(&header_split.text, start, end);
    header_split.next = if end < len {
        Some(end + 1)
    } else {
        None
    };
    match parsed {
        Some(value) => {
            *header_field = value;
            Ok(())
        },
        None => Err(BadMapDescriptor::InvalidHeaderValue),
    }
}

/// Reads a header line into `map_descriptor`.
///
/// The line holds the map's width, its height and the scale of its tiles, in
/// this order and with a comma between them. The descriptor is written only
/// when all three are there and valid; otherwise it stays as it was, and the
/// error is that of the first field, in this order, that is missing or
/// invalid.
pub fn parse_map_header(header: &str, map_descriptor: &mut MapDescriptor) -> (result: Result<
    (),
    BadMapDescriptor,
>)
    ensures
        match spec_parse_map_header(header@) {
            Ok(parsed) => result == Ok::<(), BadMapDescriptor>(()) && *final(map_descriptor)
                == parsed,
            Err(e) => result == Err::<(), BadMapDescriptor>(e) && *final(map_descriptor) == *old(
                map_descriptor,
            ),
        },
{
    let mut header_split = HeaderSplit::new(header);
    let mut width: usize = 0;
    let mut height: usize = 0;
    let mut tile_scale: usize = 0;
    match parse_map_header_field(&mut header_split, &mut width) {
        Err(e) => {
            return Err(e);
        },
        Ok(()) => {},
    }
    match parse_map_header_field(&mut header_split, &mut height) {
        Err(e) => {
            return Err(e);
        },
        Ok(()) => {},
    }
    match parse_map_header_field(&mut header_split, &mut tile_scale) {
        Err(e) => {
            return Err(e);
        },
        Ok(()) => {},
    }
    *map_descriptor = MapDescriptor { width, height, tile_scale };
    Ok(())
}

/// Whether no comma stands in `field`.
pub open spec fn has_no_comma(field: Seq<char>) -> bool {
    forall|i: int| 0 <= i < field.len() ==> #[trigger] field[i] != ','
}

/// The header that gives the three fields `a`, `b` and `c`, in this order.
pub open spec fn spec_header_of(a: Seq<char>, b: Seq<char>, c: Seq<char>) -> Seq<char> {
    a + seq![','] + b + seq![','] + c
}

/// The digit that stands for a number below ten.
pub open spec fn digit_char(d: nat) -> char {
    ('0' as u32 + d) as char
}

/// A number written in decimal digits, without a sign and without a zero
/// before them.
pub open spec fn spec_decimal(n: nat) -> Seq<char>
    decreases n,
{
    if n < 10 {
        seq![digit_char(n)]
    } else {
        spec_decimal(n / 10).push(digit_char(n % 10))
    }
}

/// A field before a comma is the first field, and what follows the comma is
/// left after it.
pub proof fn lemma_first_field_before_comma(field: Seq<char>, rest: Seq<char>)
    requires
        has_no_comma(field),
    ensures
        first_field(field + seq![','] + rest) == field,
        after_first_field(field + seq![','] + rest) == Some(rest),
{
    let s = field + seq![','] + rest;
    assert forall|j: int| 0 <= j < field.len() implies s[j] != ',' by {}
    lemma_field_len_is_first_comma(s, field.len() as int);
}

/// A text without a comma is a single field, and nothing is left after it.
pub proof fn lemma_first_field_alone(field: Seq<char>)
    requires
        has_no_comma(field),
    ensures
        first_field(field) == field,
        after_first_field(field) == None::<Seq<char>>,
{
    lemma_field_len_is_first_comma(field, field.len() as int);
}

/// A header of a single field lacks the others, unless that field is invalid
/// itself.
pub proof fn lemma_header_of_one_field(a: Seq<char>)
    requires
        has_no_comma(a),
    ensures
        spec_parse_map_header(a) == Err::<MapDescriptor, BadMapDescriptor>(
            if spec_parse_usize(a) is Some {
                BadMapDescriptor::MissingHeaderField
            } else {
                BadMapDescriptor::InvalidHeaderValue
            },
        ),
{
    lemma_first_field_alone(a);
}

/// A header of two fields lacks the third, unless one of the two is invalid.
pub proof fn lemma_header_of_two_fields(a: Seq<char>, b: Seq<char>)
    requires
        has_no_comma(a),
        has_no_comma(b),
    ensures
        spec_parse_map_header(a + seq![','] + b) == Err::<MapDescriptor, BadMapDescriptor>(
            if spec_parse_usize(a) is Some && spec_parse_usize(b) is Some {
                BadMapDescriptor::MissingHeaderField
            } else {
                BadMapDescriptor::InvalidHeaderValue
            },
        ),
{
    lemma_first_field_before_comma(a, b);
    lemma_first_field_alone(b);
}

/// A header of three fields gives the descriptor of their values if each
/// stands for a number, and an invalid value otherwise.
pub proof fn lemma_header_of_three_fields(a: Seq<char>, b: Seq<char>, c: Seq<char>)
    requires
        has_no_comma(a),
        has_no_comma(b),
        has_no_comma(c),
    ensures
        spec_parse_map_header(spec_header_of(a, b, c)) == match (
            spec_parse_usize(a),
            spec_parse_usize(b),
            spec_parse_usize(c),
        ) {
            (Some(width), Some(height), Some(tile_scale)) => Ok(
                MapDescriptor { width, height, tile_scale },
            ),
            _ => Err(BadMapDescriptor::InvalidHeaderValue),
        },
{
    let tail = b + seq![','] + c;
    assert(spec_header_of(a, b, c) == a + seq![','] + tail);
    lemma_first_field_before_comma(a, tail);
    lemma_first_field_before_comma(b, c);
    lemma_first_field_alone(c);
}

/// The digits of a number stand for that number.
pub proof fn lemma_decimal_is_read_back(n: nat)
    ensures
        spec_decimal(n).len() > 0,
        all_digits(spec_decimal(n)),
        has_no_comma(spec_decimal(n)),
        decimal_value(spec_decimal(n)) == n,
    decreases n,
{
    let digits = spec_decimal(n);
    if n < 10 {
        assert(decimal_value(digits.drop_last()) == 0);
    } else {
        lemma_decimal_is_read_back(n / 10);
        assert(digits.drop_last() == spec_decimal(n / 10));
        assert forall|i: int| 0 <= i < digits.len() implies is_digit(#[trigger] digits[i])
            && digits[i] != ',' by {}
    }
}

/// A number written in digits is a valid field of the header, and its value
/// is the number.
pub proof fn lemma_header_value_of_decimal(n: usize)
    ensures
        has_no_comma(spec_decimal(n as nat)),
        spec_parse_usize(spec_decimal(n as nat)) == Some(n),
{
    lemma_decimal_is_read_back(n as nat);
}

/// The header that gives three numbers in digits is read as the descriptor of
/// exactly these numbers: so for all positive numbers, and for zero as well.
pub proof fn lemma_parse_map_header_of_decimals(width: usize, height: usize, tile_scale: usize)
    ensures
        spec_parse_map_header(
            spec_header_of(
                spec_decimal(width as nat),
                spec_decimal(height as nat),
                spec_decimal(tile_scale as nat),
            ),
        ) == Ok::<MapDescriptor, BadMapDescriptor>(MapDescriptor { width, height, tile_scale }),
{
    lemma_header_value_of_decimal(width);
    lemma_header_value_of_decimal(height);
    lemma_header_value_of_decimal(tile_scale);
    lemma_header_of_three_fields(
        spec_decimal(width as nat),
        spec_decimal(height as nat),
        spec_decimal(tile_scale as nat),
    );
}

/// A field is invalid if it is empty, if it begins with a minus sign, or if
/// it holds anything but digits after an optional plus sign.
pub proof fn lemma_invalid_header_values(field: Seq<char>)
    ensures
        field.len() > 0 && field[0] == '-' ==> spec_parse_usize(field) is None,
        field.len() == 0 ==> spec_parse_usize(field) is None,
        (exists|i: int| 1 <= i < field.len() && !is_digit(field[i])) ==> spec_parse_usize(field)
            is None,
{
    if exists|i: int| 1 <= i < field.len() && !is_digit(field[i]) {
        let i = choose|i: int| 1 <= i < field.len() && !is_digit(field[i]);
        if field[0] == '+' {
            assert(field.skip(1)[i - 1] == field[i]);
        }
    }
}

} // verus!
