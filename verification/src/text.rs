//! Text primitives shared by the configuration loader and the output sink:
//! comparison of texts and the reading of unsigned decimal numbers.

use crate::error::IntError;
use vstd::prelude::*;
use vstd::utf8::{decode_utf8, encode_utf8, encode_utf8_decode_utf8};

verus! {

/// The characters of `s`, in order.
pub fn chars_of(s: &str) -> (chars: Vec<char>)
    ensures
        chars@ == s@,
{
    let mut chars: Vec<char> = Vec::new();
    for c in it: s.chars()
        invariant
            it.seq() == s@,
            chars@ == it.seq().take(it.index() as int),
    {
        chars.push(c);
    }
    chars
}

/// Whether two texts hold the same characters.
pub fn same_text(a: &str, b: &str) -> (same: bool)
    ensures
        same == (a@ == b@),
{
    let left = a.as_bytes();
    let right = b.as_bytes();
    proof {
        encode_utf8_decode_utf8(a@);
        encode_utf8_decode_utf8(b@);
    }
    if left.len() != right.len() {
        return false;
    }
    let mut i: usize = 0;
    while i < left.len()
        invariant
            left@ == encode_utf8(a@),
            right@ == encode_utf8(b@),
            decode_utf8(encode_utf8(a@)) == a@,
            decode_utf8(encode_utf8(b@)) == b@,
            left.len() == right.len(),
            i <= left.len(),
            forall|k: int| 0 <= k < i ==> left@[k] == right@[k],
        decreases left.len() - i,
    {
        if left[i] != right[i] {
            return false;
        }
        i += 1;
    }
    assert(left@ =~= right@);
    true
}

/// Whether the three characters `://` stand at index `i` of `text`.
pub open spec fn separator_at(text: Seq<char>, i: int) -> bool {
    &&& 0 <= i
    &&& i + 3 <= text.len()
    &&& text[i] == ':'
    &&& text[i + 1] == '/'
    &&& text[i + 2] == '/'
}

/// Whether `://` occurs in `text`.
pub open spec fn has_separator(text: Seq<char>) -> bool {
    exists|i: int| separator_at(text, i)
}

/// Whether the first `://` of `text` stands at index `i`.
pub open spec fn first_separator_at(text: Seq<char>, i: int) -> bool {
    &&& separator_at(text, i)
    &&& forall|j: int| 0 <= j < i ==> !separator_at(text, j)
}

/// Where the part of `text` before its first `://` ends: the index of that
/// `://`, or the length of `text` where there is none.
pub open spec fn scheme_end(text: Seq<char>) -> int {
    if has_separator(text) {
        choose|i: int| first_separator_at(text, i)
    } else {
        text.len() as int
    }
}

/// The first `://` of a text stands in one place only.
pub proof fn lemma_first_separator(text: Seq<char>, i: int)
    requires
        first_separator_at(text, i),
    ensures
        has_separator(text),
        scheme_end(text) == i,
{
    let chosen = choose|k: int| first_separator_at(text, k);
    assert(first_separator_at(text, chosen));
    if chosen < i {
        assert(!separator_at(text, chosen));
    }
    if i < chosen {
        assert(!separator_at(text, i));
    }
}

/// Finds the first `://` of `chars`.
pub fn find_separator(chars: &Vec<char>) -> (found: Option<usize>)
    ensures
        match found {
            Some(i) => has_separator(chars@) && scheme_end(chars@) == i && i + 3 <= chars@.len(),
            None => !has_separator(chars@) && scheme_end(chars@) == chars@.len(),
        },
{
    let n = chars.len();
    if n < 3 {
        return None;
    }
    let mut i: usize = 0;
    while i <= n - 3
        invariant
            n == chars.len(),
            n >= 3,
            forall|j: int| 0 <= j < i ==> !separator_at(chars@, j),
        decreases n - i,
    {
        if chars[i] == ':' && chars[i + 1] == '/' && chars[i + 2] == '/' {
            proof {
                lemma_first_separator(chars@, i as int);
            }
            return Some(i);
        }
        i += 1;
    }
    None
}

/// Whether `c` is one of the ten decimal digits.
pub open spec fn is_digit(c: char) -> bool {
    '0' <= c <= '9'
}

/// The number that the decimal digit `c` stands for.
pub open spec fn digit_value(c: char) -> nat
    recommends
        is_digit(c),
{
    (c as nat - '0' as nat) as nat
}

/// The number written by `digits`, read from the left, if every character is
/// a decimal digit and no prefix exceeds `max`; otherwise the first fault met.
pub open spec fn scan_digits(digits: Seq<char>, max: nat) -> Result<nat, IntError>
    decreases digits.len(),
{
    if digits.len() == 0 {
        Ok(0)
    } else {
        match scan_digits(digits.drop_last(), max) {
            Err(fault) => Err(fault),
            Ok(value) => if !is_digit(digits.last()) {
                Err(IntError::InvalidDigit)
            } else if value * 10 + digit_value(digits.last()) > max {
                Err(IntError::PosOverflow)
            } else {
                Ok(value * 10 + digit_value(digits.last()))
            },
        }
    }
}

/// The unsigned number written by `text`: decimal digits, which one `+` may
/// precede. Empty text, any other character and a number above `max` are faults.
pub open spec fn decimal(text: Seq<char>, max: nat) -> Result<nat, IntError> {
    if text.len() == 0 {
        Err(IntError::Empty)
    } else if text[0] == '+' && text.len() > 1 {
        scan_digits(text.skip(1), max)
    } else {
        scan_digits(text, max)
    }
}

/// A run of digits that was read never exceeds the bound it was read under.
pub proof fn lemma_scan_digits_bounded(digits: Seq<char>, max: nat)
    ensures
        scan_digits(digits, max) matches Ok(value) ==> value <= max,
    decreases digits.len(),
{
    if digits.len() > 0 {
        lemma_scan_digits_bounded(digits.drop_last(), max);
    }
}

/// A number that was read never exceeds the bound it was read under, so a
/// number of fixed width loses nothing where it is narrowed to its type.
pub proof fn lemma_decimal_bounded(text: Seq<char>, max: nat)
    ensures
        decimal(text, max) matches Ok(value) ==> value <= max,
{
    lemma_scan_digits_bounded(text, max);
    lemma_scan_digits_bounded(text.skip(1), max);
}

/// Once a prefix of `digits` is at fault, the whole is at the same fault.
pub proof fn lemma_fault_is_final(digits: Seq<char>, max: nat, n: int)
    requires
        0 <= n <= digits.len(),
    ensures
        scan_digits(digits.take(n), max) matches Err(fault) ==> scan_digits(digits, max) == Err::<
            nat,
            IntError,
        >(fault),
    decreases digits.len() - n,
{
    if n < digits.len() {
        assert(digits.take(n + 1).drop_last() == digits.take(n));
        lemma_fault_is_final(digits, max, n + 1);
    } else {
        assert(digits.take(n) == digits);
    }
}

/// Reads `text` as an unsigned decimal number of at most `max`.
pub fn parse_decimal(text: &str, max: u64) -> (parsed: Result<u64, IntError>)
    ensures
        match parsed {
            Ok(value) => decimal(text@, max as nat) == Ok::<nat, IntError>(value as nat),
            Err(fault) => decimal(text@, max as nat) == Err::<nat, IntError>(fault),
        },
{
    let chars = chars_of(text);
    let n = chars.len();
    if n == 0 {
        return Err(IntError::Empty);
    }
    let start: usize = if chars[0] == '+' && n > 1 { 1 } else { 0 };
    let ghost digits: Seq<char> = chars@.skip(start as int);
    assert(chars@.skip(0) == chars@);
    let mut value: u64 = 0;
    let mut i: usize = start;
    while i < n
        invariant
            chars@ == text@,
            n == chars.len(),
            start <= i <= n,
            digits == chars@.skip(start as int),
            decimal(text@, max as nat) == scan_digits(digits, max as nat),
            scan_digits(digits.take(i - start), max as nat) == Ok::<nat, IntError>(value as nat),
            value <= max,
        decreases n - i,
    {
        let c = chars[i];
        proof {
            let upto = digits.take(i - start + 1);
            assert(upto.drop_last() == digits.take(i - start));
            assert(upto.last() == c);
            if i + 1 < n {
                lemma_fault_is_final(digits, max as nat, i - start + 1);
            } else {
                assert(upto == digits);
            }
        }
        if c < '0' || c > '9' {
            return Err(IntError::InvalidDigit);
        }
        let d: u64 = (c as u32 - '0' as u32) as u64;
        if d > max || value > (max - d) / 10 {
            return Err(IntError::PosOverflow);
        }
        value = value * 10 + d;
        i += 1;
    }
    assert(digits.take(n - start) == digits);
    Ok(value)
}

/// The number below 2^8 that `text` writes.
pub open spec fn number_u8(text: Seq<char>) -> Result<u8, IntError> {
    match decimal(text, 0xff) {
        Ok(value) => Ok(value as u8),
        Err(fault) => Err(fault),
    }
}

/// The number below 2^16 that `text` writes.
pub open spec fn number_u16(text: Seq<char>) -> Result<u16, IntError> {
    match decimal(text, 0xffff) {
        Ok(value) => Ok(value as u16),
        Err(fault) => Err(fault),
    }
}

/// The number below 2^32 that `text` writes.
pub open spec fn number_u32(text: Seq<char>) -> Result<u32, IntError> {
    match decimal(text, 0xffff_ffff) {
        Ok(value) => Ok(value as u32),
        Err(fault) => Err(fault),
    }
}

/// Reads `text` as a number below 2^8.
pub fn parse_u8(text: &str) -> (parsed: Result<u8, IntError>)
    ensures
        parsed == number_u8(text@),
        parsed matches Ok(value) ==> decimal(text@, 0xff) == Ok::<nat, IntError>(value as nat),
{
    proof {
        lemma_decimal_bounded(text@, 0xff);
    }
    match parse_decimal(text, 0xff) {
        Ok(value) => Ok(value as u8),
        Err(fault) => Err(fault),
    }
}

/// Reads `text` as a number below 2^16.
pub fn parse_u16(text: &str) -> (parsed: Result<u16, IntError>)
    ensures
        parsed == number_u16(text@),
        parsed matches Ok(value) ==> decimal(text@, 0xffff) == Ok::<nat, IntError>(value as nat),
{
    proof {
        lemma_decimal_bounded(text@, 0xffff);
    }
    match parse_decimal(text, 0xffff) {
        Ok(value) => Ok(value as u16),
        Err(fault) => Err(fault),
    }
}

/// Reads `text` as a number below 2^32.
pub fn parse_u32(text: &str) -> (parsed: Result<u32, IntError>)
    ensures
        parsed == number_u32(text@),
        parsed matches Ok(value) ==> decimal(text@, 0xffff_ffff) == Ok::<nat, IntError>(value as nat),
{
    proof {
        lemma_decimal_bounded(text@, 0xffff_ffff);
    }
    match parse_decimal(text, 0xffff_ffff) {
        Ok(value) => Ok(value as u32),
        Err(fault) => Err(fault),
    }
}

} // verus!
