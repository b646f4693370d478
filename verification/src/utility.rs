//! Small helpers: the bytes of a word, register widths, association lists and
//! hexadecimal literals.

use vstd::prelude::*;
use vstd::std_specs::cmp::PartialEqSpec;
use crate::error::ErrorKind;

verus! {

/// The low byte of a 16-bit word.
pub fn read_lower_16(word: u16) -> (byte: u8)
    ensures
        byte == word % 256,
{
    assert(word & 0xFF == word % 256) by (bit_vector);
    (word & 0xFF) as u8
}

/// The high byte of a 16-bit word.
pub fn read_upper_16(word: u16) -> (byte: u8)
    ensures
        byte == word / 256,
{
    assert(word >> 8 == word / 256) by (bit_vector);
    (word >> 8) as u8
}

/// Replaces the low byte of `word` and keeps its high byte.
pub fn set_lower_16(word: &mut u16, byte: u8)
    ensures
        *final(word) == (*old(word) / 256) * 256 + byte,
{
    let w: u16 = *word;
    let b: u16 = byte as u16;
    assert((w & 0xFF00) | b == (w / 256) * 256 + b) by (bit_vector)
        requires
            b < 256,
    ;
    *word = (w & 0xFF00) | b;
}

/// Replaces the high byte of `word` and keeps its low byte.
pub fn set_upper_16(word: &mut u16, byte: u8)
    ensures
        *final(word) == byte * 256 + *old(word) % 256,
{
    let w: u16 = *word;
    let b: u16 = byte as u16;
    assert((w & 0xFF) | (b << 8) == b * 256 + w % 256) by (bit_vector)
        requires
            b < 256,
    ;
    *word = (w & 0xFF) | (b << 8);
}

/// Whether `encoding` names a register: `0x00..=0x07` are the 8-bit halves,
/// `0x08..=0x0F` the 16-bit registers, `0x10..=0x17` the 64-bit registers.
pub open spec fn valid_encoding(encoding: u8) -> bool {
    encoding <= 0x17
}

/// The width in bits of the register that `encoding` names.
pub open spec fn register_width(encoding: u8) -> Result<u8, ErrorKind> {
    if encoding <= 0x07 {
        Ok(8u8)
    } else if encoding <= 0x0F {
        Ok(16u8)
    } else if encoding <= 0x17 {
        Ok(64u8)
    } else {
        Err(ErrorKind::InvalidRegisterEncoding)
    }
}

/// Classifies a register encoding by width: 8, 16 or 64 bits.
pub fn get_register_size(encoding: u8) -> (width: Result<u8, ErrorKind>)
    ensures
        width == register_width(encoding),
{
    if encoding <= 0x07 {
        Ok(8)
    } else if encoding <= 0x0F {
        Ok(16)
    } else if encoding <= 0x17 {
        Ok(64)
    } else {
        Err(ErrorKind::InvalidRegisterEncoding)
    }
}

/// How many of the first `upto` entries have a key equal to `check`.
pub open spec fn count_keys<K: PartialEqSpec, V>(entries: Seq<(K, V)>, check: K, upto: nat) -> nat
    decreases upto,
{
    if upto == 0 {
        0
    } else {
        let earlier = count_keys(entries, check, (upto - 1) as nat);
        if entries[upto - 1].0.eq_spec(&check) {
            earlier + 1
        } else {
            earlier
        }
    }
}

/// Counts the entries of an association list whose key equals `check`.
pub fn map_count<K: Eq + PartialEqSpec, V>(map: &[(K, V)], check: K) -> (n: u32)
    requires
        K::obeys_eq_spec(),
        map@.len() <= u32::MAX,
    ensures
        n == count_keys(map@, check, map@.len()),
{
    let mut n: u32 = 0;
    let mut i: usize = 0;
    while i < map.len()
        invariant
            K::obeys_eq_spec(),
            map@.len() <= u32::MAX,
            i <= map@.len(),
            n == count_keys(map@, check, i as nat),
            n <= i,
        decreases map@.len() - i,
    {
        if map[i].0 == check {
            n += 1;
        }
        i += 1;
    }
    n
}

/// Whether `c` is one of `0-9`, `a-f`, `A-F`.
pub open spec fn is_hex_digit(c: char) -> bool {
    ('0' <= c && c <= '9') || ('a' <= c && c <= 'f') || ('A' <= c && c <= 'F')
}

/// The number that a hexadecimal digit stands for.
pub open spec fn hex_digit_value(c: char) -> nat {
    if '0' <= c && c <= '9' {
        (c as u32 - '0' as u32) as nat
    } else if 'a' <= c && c <= 'f' {
        (c as u32 - 'a' as u32 + 10) as nat
    } else {
        (c as u32 - 'A' as u32 + 10) as nat
    }
}

/// Whether every character of `s` is a hexadecimal digit.
pub open spec fn all_hex_digits(s: Seq<char>) -> bool {
    forall|i: int| 0 <= i < s.len() ==> is_hex_digit(#[trigger] s[i])
}

/// The number that a sequence of hexadecimal digits writes, most significant
/// digit first.
pub open spec fn hex_value(digits: Seq<char>) -> nat
    decreases digits.len(),
{
    if digits.len() == 0 {
        0
    } else {
        16 * hex_value(digits.drop_last()) + hex_digit_value(digits.last())
    }
}

/// Whether `s` begins with the two characters `0x`.
pub open spec fn has_hex_prefix(s: Seq<char>) -> bool {
    s.len() >= 2 && s[0] == '0' && s[1] == 'x'
}

/// Whether `s` is `0x` followed by one or more hexadecimal digits.
pub open spec fn is_hex_literal(s: Seq<char>) -> bool {
    has_hex_prefix(s) && s.len() > 2 && all_hex_digits(s.skip(2))
}

/// Copies the characters of a string into a vector.
pub fn to_chars(s: &str) -> (chars: Vec<char>)
    ensures
        chars@ == s@,
{
    let mut chars: Vec<char> = Vec::new();
    for c in it: s.chars()
        invariant
            chars@ == it.seq().take(it.index() as int),
            it.seq() == s@,
    {
        chars.push(c);
    }
    chars
}

/// Tests a character for being a hexadecimal digit.
pub fn hex_digit(c: char) -> (digit: Option<u8>)
    ensures
        digit is Some <==> is_hex_digit(c),
        digit matches Some(d) ==> d == hex_digit_value(c),
{
    if '0' <= c && c <= '9' {
        Some((c as u32 - '0' as u32) as u8)
    } else if 'a' <= c && c <= 'f' {
        Some((c as u32 - 'a' as u32 + 10) as u8)
    } else if 'A' <= c && c <= 'F' {
        Some((c as u32 - 'A' as u32 + 10) as u8)
    } else {
        None
    }
}

/// Tests `to_check` for being `0x` followed by one or more hexadecimal digits.
pub fn valid_hex_chars(to_check: &[char]) -> (valid: bool)
    ensures
        valid == is_hex_literal(to_check@),
{
    if to_check.len() <= 2 || to_check[0] != '0' || to_check[1] != 'x' {
        return false;
    }
    let mut i: usize = 2;
    while i < to_check.len()
        invariant
            2 <= i <= to_check@.len(),
            forall|j: int| 2 <= j < i ==> is_hex_digit(#[trigger] to_check@[j]),
        decreases to_check@.len() - i,
    {
        if hex_digit(to_check[i]).is_none() {
            assert(!is_hex_digit(to_check@.skip(2)[i - 2]));
            return false;
        }
        i += 1;
    }
    assert forall|j: int| 0 <= j < to_check@.skip(2).len() implies is_hex_digit(
        #[trigger] to_check@.skip(2)[j],
    ) by {
        assert(is_hex_digit(to_check@[j + 2]));
    }
    true
}

/// Tests `to_check` for being `0x` followed by one or more hexadecimal digits.
pub fn valid_hex_str(to_check: &str) -> (valid: bool)
    ensures
        valid == is_hex_literal(to_check@),
{
    let chars = to_chars(to_check);
    valid_hex_chars(chars.as_slice())
}

} // verus!
