//! Task identifiers: random 128-bit numbers and the text that names them.

use vstd::prelude::*;
use vstd::arithmetic::power::pow;

verus! {

/// The character for a hexadecimal digit, in lower case.
pub open spec fn hex_digit(value: int) -> char {
    "0123456789abcdef"@[value]
}

/// The hexadecimal digit of `id` at place `place`, counted from the left of
/// its 32 digits.
pub open spec fn digit_at(id: u128, place: int) -> int {
    (id as int / pow(16, (31 - place) as nat)) % 16
}

/// How many hyphens stand before position `at` of an identifier's text.
pub open spec fn hyphens_before(at: int) -> int {
    if at < 8 {
        0
    } else if at < 13 {
        1
    } else if at < 18 {
        2
    } else if at < 23 {
        3
    } else {
        4
    }
}

/// The text of an identifier: its 32 hexadecimal digits in lower case, in
/// groups of 8, 4, 4, 4 and 12 with a hyphen between two groups.
pub open spec fn hyphenated(id: u128) -> Seq<char> {
    Seq::new(
        36,
        |at: int|
            if at == 8 || at == 13 || at == 18 || at == 23 {
                '-'
            } else {
                hex_digit(digit_at(id, at - hyphens_before(at)))
            },
    )
}

/// Whether `id` has the shape of a random identifier: version 4 in its
/// thirteenth digit, and `10` as the two highest bits of its seventeenth.
pub open spec fn is_random_shape(id: u128) -> bool {
    &&& digit_at(id, 12) == 4
    &&& digit_at(id, 16) / 4 == 2
}

/// Draws a fresh identifier. This is `uuid::Uuid::new_v4`, taken as a
/// number: 122 random bits around the fixed version and variant bits. Only
/// the fixed bits are promised; each call draws anew. The call panics where
/// the system cannot supply random bytes.
#[verifier::external_body]
pub(crate) fn random_id() -> (id: u128)
    ensures
        is_random_shape(id),
{
    uuid::Uuid::new_v4().as_u128()
}

/// The text of an identifier. This is the `to_string` of the `uuid::Uuid`
/// with the given number, which writes the hyphenated form in lower case.
#[verifier::external_body]
pub(crate) fn id_text(id: u128) -> (text: String)
    ensures
        text@ == hyphenated(id),
{
    uuid::Uuid::from_u128(id).to_string()
}

} // verus!
