//! UUIDs as their 128-bit values, written and read in the `uuid` crate's
//! hyphenated text form.
use uuid::Uuid;
use vstd::prelude::*;

use crate::text::digit_char;

verus! {

/// Hexadecimal digit character (lower case) for `d < 16`.
pub open spec fn hex_char(d: nat) -> char {
    if d < 10 {
        digit_char(d)
    } else {
        (87 + d) as char
    }
}

/// The `k`-th hexadecimal digit (from the most significant, `0 <= k < 32`)
/// of a 128-bit value.
pub open spec fn nibble(id: u128, k: int) -> nat {
    ((id as int / vstd::arithmetic::power2::pow2((4 * (31 - k)) as nat) as int) % 16) as nat
}

/// The position among the 32 hex digits of the character at `i` of the
/// hyphenated form (`8-4-4-4-12` digits).
pub open spec fn digit_index(i: int) -> int {
    if i < 8 {
        i
    } else if i < 13 {
        i - 1
    } else if i < 18 {
        i - 2
    } else if i < 23 {
        i - 3
    } else {
        i - 4
    }
}

/// The hyphenated lower-case text of a UUID: 36 characters, hex digits with
/// hyphens at positions 8, 13, 18 and 23.
pub open spec fn uuid_text(id: u128) -> Seq<char> {
    Seq::new(
        36,
        |i: int|
            if i == 8 || i == 13 || i == 18 || i == 23 {
                '-'
            } else {
                hex_char(nibble(id, digit_index(i)))
            },
    )
}

/// What `Uuid::parse_str` gives for a text: the UUID's 128-bit value, or
/// the text of the parse error.
pub uninterp spec fn uuid_parsed(s: Seq<char>) -> Result<u128, Seq<char>>;

/// `Uuid::from_u128(id).to_string()`: the hyphenated lower-case form
/// (`Display` for `Uuid` writes `LowerHex`, which writes the hyphenated form
/// of the big-endian bytes of the value).
#[verifier::external_body]
pub fn uuid_string(id: u128) -> (r: String)
    ensures
        r@ == uuid_text(id),
{
    Uuid::from_u128(id).to_string()
}

/// `Uuid::parse_str`, with the UUID as its 128-bit value and the error as
/// its message text. Both are what `uuid_parsed` names for the input.
#[verifier::external_body]
pub fn parse_uuid(s: &str) -> (r: Result<u128, String>)
    ensures
        match uuid_parsed(s@) {
            Ok(v) => r == Ok::<u128, String>(v),
            Err(m) => r matches Err(e) && e@ == m,
        },
{
    Uuid::parse_str(s).map(|u| u.as_u128()).map_err(|e| e.to_string())
}

/// Whether a 128-bit value is a version 4 (random) UUID of the RFC variant:
/// its version digit is 4 and its two variant bits are `10`.
pub open spec fn is_random_uuid(id: u128) -> bool {
    &&& id & 0xF000_0000_0000_0000_0000u128 == 0x4000_0000_0000_0000_0000u128
    &&& id & 0xC000_0000_0000_0000u128 == 0x8000_0000_0000_0000u128
}

/// `Uuid::new_v4()`, as its 128-bit value. Its random bits are not stated;
/// what holds of every outcome is stated: `new_v4` masks a random value and
/// sets the version digit to 4 and the variant bits to `10`.
#[verifier::external_body]
pub fn new_uuid() -> (r: u128)
    ensures
        is_random_uuid(r),
{
    Uuid::new_v4().as_u128()
}

} // verus!
