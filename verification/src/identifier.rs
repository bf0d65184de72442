//! Device identifiers and their textual form.
//!
//! A token such as `VID_046D&PID_085C` is a list of fields separated by `&`.
//! The vendor id is read from the first field that begins with `VID_`, the
//! product id from the first that begins with `PID_`, in whatever order the
//! two stand; other fields are passed over. What follows the tag is a
//! hexadecimal number of at most 16 bits, in either letter case, with an
//! optional leading `+`.

use vstd::prelude::*;
use crate::text::chars_of;

verus! {

/// A vendor id and product id pair.
#[derive(Clone, Copy, Debug, PartialEq, Eq, Hash, Structural)]
pub struct DeviceIdentifier {
    pub vendor_id: u16,
    pub product_id: u16,
}

/// The token does not hold both ids as valid hexadecimal numbers.
#[derive(Clone, Copy, Debug, PartialEq, Eq, Structural)]
pub struct MalformedIdentifier;

/// The value of one hexadecimal digit.
pub open spec fn hex_digit(c: char) -> Option<int> {
    if '0' <= c <= '9' {
        Some(c as int - '0' as int)
    } else if 'a' <= c <= 'f' {
        Some(c as int - 'a' as int + 10)
    } else if 'A' <= c <= 'F' {
        Some(c as int - 'A' as int + 10)
    } else {
        None
    }
}

/// Whether every character is a hexadecimal digit.
pub open spec fn all_hex(digits: Seq<char>) -> bool {
    forall|i: int| 0 <= i < digits.len() ==> hex_digit(#[trigger] digits[i]) is Some
}

/// The number that a run of hexadecimal digits writes, most significant digit
/// first.
pub open spec fn hex_value(digits: Seq<char>) -> int
    decreases digits.len(),
{
    if digits.len() == 0 {
        0
    } else {
        16 * hex_value(digits.drop_last()) + hex_digit(digits.last()).unwrap()
    }
}

/// What is left of a number's text once an optional leading `+` is taken off.
pub open spec fn unsigned_part(text: Seq<char>) -> Seq<char> {
    if text.len() > 0 && text[0] == '+' {
        text.skip(1)
    } else {
        text
    }
}

/// The 16-bit number that `text` writes in hexadecimal, if it writes one: an
/// optional `+`, then at least one digit and nothing but digits, with a value
/// that fits.
pub open spec fn hex_u16(text: Seq<char>) -> Option<u16> {
    let digits = unsigned_part(text);
    if digits.len() > 0 && all_hex(digits) && hex_value(digits) <= u16::MAX {
        Some(hex_value(digits) as u16)
    } else {
        None
    }
}

/// Where the field that starts at `from` ends: at the first `&` at or after
/// `from`, or at the end of the token.
pub open spec fn field_end(s: Seq<char>, from: int) -> int
    decreases s.len() - from,
{
    if from >= s.len() {
        s.len() as int
    } else if s[from] == '&' {
        from
    } else {
        field_end(s, from + 1)
    }
}

/// What follows `tag` in the first field, from the field that starts at
/// `from` on, that begins with `tag`.
pub open spec fn tagged_field(s: Seq<char>, from: int, tag: Seq<char>) -> Option<Seq<char>>
    decreases s.len() - from,
{
    if from < 0 || from > s.len() {
        None
    } else {
        let end = field_end(s, from);
        let field = s.subrange(from, end);
        if tag.is_prefix_of(field) {
            Some(field.skip(tag.len() as int))
        } else if from <= end < s.len() {
            tagged_field(s, end + 1, tag)
        } else {
            None
        }
    }
}

/// The tag that opens the vendor id's field.
pub open spec fn vendor_tag() -> Seq<char> {
    "VID_"@
}

/// The tag that opens the product id's field.
pub open spec fn product_tag() -> Seq<char> {
    "PID_"@
}

/// The 16-bit number in the first field of `token` that begins with `tag`.
pub open spec fn tagged_id(token: Seq<char>, tag: Seq<char>) -> Option<u16> {
    match tagged_field(token, 0, tag) {
        Some(text) => hex_u16(text),
        None => None,
    }
}

/// The identifier that a token writes.
pub open spec fn identifier_of(token: Seq<char>) -> Result<DeviceIdentifier, MalformedIdentifier> {
    match (tagged_id(token, vendor_tag()), tagged_id(token, product_tag())) {
        (Some(vendor_id), Some(product_id)) => Ok(DeviceIdentifier { vendor_id, product_id }),
        _ => Err(MalformedIdentifier),
    }
}

/// With no `&` in `[from, at)`, the field that starts at `from` ends where
/// one that started at `at` would.
proof fn lemma_field_end_skips(s: Seq<char>, from: int, at: int)
    requires
        0 <= from <= at <= s.len(),
        forall|k: int| from <= k < at ==> s[k] != '&',
    ensures
        field_end(s, from) == field_end(s, at),
    decreases at - from,
{
    if from < at {
        lemma_field_end_skips(s, from + 1, at);
    }
}

/// The value of `c` as a hexadecimal digit, if it is one.
fn hex_digit_of(c: char) -> (value: Option<u32>)
    ensures
        match value {
            Some(v) => hex_digit(c) == Some(v as int),
            None => hex_digit(c) is None,
        },
{
    if '0' <= c && c <= '9' {
        Some(c as u32 - '0' as u32)
    } else if 'a' <= c && c <= 'f' {
        Some(c as u32 - 'a' as u32 + 10)
    } else if 'A' <= c && c <= 'F' {
        Some(c as u32 - 'A' as u32 + 10)
    } else {
        None
    }
}

/// Reads `chars[from..to]` as a 16-bit hexadecimal number.
fn read_hex_u16(chars: &Vec<char>, from: usize, to: usize) -> (value: Option<u16>)
    requires
        from <= to <= chars.len(),
    ensures
        value == hex_u16(chars@.subrange(from as int, to as int)),
{
    let ghost text = chars@.subrange(from as int, to as int);
    let first: usize = if from < to && chars[from] == '+' {
        from + 1
    } else {
        from
    };
    let ghost digits = chars@.subrange(first as int, to as int);
    assert(digits =~= unsigned_part(text));
    if first == to {
        return None;
    }
    // The value read so far, held at one past the largest 16-bit value once
    // it has grown beyond it.
    let mut acc: u32 = 0;
    let mut i: usize = first;
    while i < to
        invariant
            from <= first <= i <= to <= chars.len(),
            digits == chars@.subrange(first as int, to as int),
            digits == unsigned_part(chars@.subrange(from as int, to as int)),
            all_hex(digits.take(i - first)),
            0 <= hex_value(digits.take(i - first)),
            acc <= 0x1_0000,
            acc == if hex_value(digits.take(i - first)) <= u16::MAX {
                hex_value(digits.take(i - first))
            } else {
                0x1_0000
            },
        decreases to - i,
    {
        let ghost seen = digits.take(i - first);
        let ghost next = digits.take(i - first + 1);
        assert(next.drop_last() =~= seen);
        assert(next.last() == chars[i as int]);
        match hex_digit_of(chars[i]) {
            Some(d) => {
                assert forall|k: int| 0 <= k < next.len() implies hex_digit(#[trigger] next[k])
                    is Some by {
                    if k < seen.len() {
                        assert(next[k] == seen[k]);
                    }
                }
                if acc < 0x1_0000 {
                    acc = acc * 16 + d;
                    if acc > 0xFFFF {
                        acc = 0x1_0000;
                    }
                }
            },
            None => {
                assert(hex_digit(digits[i - first]) is None);
                return None;
            },
        }
        i += 1;
    }
    assert(digits.take(to - first) =~= digits);
    if acc <= 0xFFFF {
        Some(acc as u16)
    } else {
        None
    }
}

/// Finds the first field that begins with `tag` and returns the bounds of
/// what follows the tag in it.
fn find_tagged(chars: &Vec<char>, tag: &Vec<char>) -> (found: Option<(usize, usize)>)
    ensures
        match found {
            Some((from, to)) => from <= to <= chars.len() && tagged_field(chars@, 0, tag@) == Some(
                chars@.subrange(from as int, to as int),
            ),
            None => tagged_field(chars@, 0, tag@) is None,
        },
{
    let ghost s = chars@;
    let mut start: usize = 0;
    loop
        invariant
            start <= chars.len(),
            s == chars@,
            tagged_field(s, 0, tag@) == tagged_field(s, start as int, tag@),
        decreases chars.len() - start,
    {
        let mut end: usize = start;
        while end < chars.len() && chars[end] != '&'
            invariant
                start <= end <= chars.len(),
                s == chars@,
                forall|k: int| start <= k < end ==> s[k] != '&',
            decreases chars.len() - end,
        {
            end += 1;
        }
        proof {
            lemma_field_end_skips(s, start as int, end as int);
        }
        let ghost field = s.subrange(start as int, end as int);
        if has_prefix(chars, start, end, tag) {
            assert(field.skip(tag@.len() as int) =~= s.subrange(start + tag@.len(), end as int));
            return Some((start + tag.len(), end));
        }
        if end == chars.len() {
            return None;
        }
        start = end + 1;
    }
}

/// Whether `chars[from..to]` begins with `tag`.
fn has_prefix(chars: &Vec<char>, from: usize, to: usize, tag: &Vec<char>) -> (holds: bool)
    requires
        from <= to <= chars.len(),
    ensures
        holds == tag@.is_prefix_of(chars@.subrange(from as int, to as int)),
{
    let ghost field = chars@.subrange(from as int, to as int);
    if tag.len() > to - from {
        return false;
    }
    let mut k: usize = 0;
    while k < tag.len()
        invariant
            from <= to <= chars.len(),
            tag.len() <= to - from,
            k <= tag.len(),
            field == chars@.subrange(from as int, to as int),
            forall|j: int| 0 <= j < k ==> tag@[j] == field[j],
        decreases tag.len() - k,
    {
        if chars[from + k] != tag[k] {
            assert(field.subrange(0, tag@.len() as int)[k as int] != tag@[k as int]);
            return false;
        }
        k += 1;
    }
    assert(tag@ =~= field.subrange(0, tag@.len() as int));
    true
}

/// Reads the 16-bit number in the first field that begins with `tag`.
fn read_tagged(chars: &Vec<char>, tag: &str) -> (value: Option<u16>)
    ensures
        value == tagged_id(chars@, tag@),
{
    let tag_chars = chars_of(tag);
    match find_tagged(chars, &tag_chars) {
        Some((from, to)) => read_hex_u16(chars, from, to),
        None => None,
    }
}

/// Reads a device identifier from a token of the form `VID_xxxx&PID_yyyy`.
/// Fails exactly when the token has no field that begins with `VID_`, none
/// that begins with `PID_`, or when what follows the tag in the first such
/// field is not a hexadecimal number of at most 16 bits.
pub fn parse_vid_pid(id: &str) -> (parsed: Result<DeviceIdentifier, MalformedIdentifier>)
    ensures
        parsed == identifier_of(id@),
{
    let chars = chars_of(id);
    let vendor = read_tagged(&chars, "VID_");
    let product = read_tagged(&chars, "PID_");
    match (vendor, product) {
        (Some(vendor_id), Some(product_id)) => Ok(DeviceIdentifier { vendor_id, product_id }),
        _ => Err(MalformedIdentifier),
    }
}

} // verus!
