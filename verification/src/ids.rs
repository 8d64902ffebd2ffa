//! Script identifiers: 128-bit values, drawn at random and written in the
//! hyphenated hexadecimal form of a UUID.

use vstd::prelude::*;

verus! {

/// The identifier of a stored script.
pub type ScriptId = u128;

/// Whether `id` has the shape of a randomly drawn identifier: its version
/// field holds 4 and the two highest bits of its variant field are `10`.
pub open spec fn is_random_form(id: u128) -> bool {
    &&& (id >> 76u128) & 0xfu128 == 4u128
    &&& (id >> 62u128) & 0x3u128 == 2u128
}

/// The sixteen lower-case hexadecimal digits, in order.
pub open spec fn hex_digits() -> Seq<char> {
    seq!['0', '1', '2', '3', '4', '5', '6', '7', '8', '9', 'a', 'b', 'c', 'd', 'e', 'f']
}

/// The `k`-th of the 32 hexadecimal digits of `id`, counted from the most
/// significant one.
pub open spec fn hex_digit_at(id: u128, k: int) -> char
    recommends
        0 <= k < 32,
{
    hex_digits()[((id >> ((124 - 4 * k) as u128)) & 0xfu128) as int]
}

/// Whether position `i` of the hyphenated form holds a hyphen.
pub open spec fn is_hyphen_position(i: int) -> bool {
    i == 8 || i == 13 || i == 18 || i == 23
}

/// The number of hyphens that stand before position `i` of the hyphenated form.
pub open spec fn hyphens_before(i: int) -> int {
    if i < 8 {
        0
    } else if i < 13 {
        1
    } else if i < 18 {
        2
    } else if i < 23 {
        3
    } else {
        4
    }
}

/// The hyphenated form of `id`: its 32 lower-case hexadecimal digits in groups
/// of 8, 4, 4, 4 and 12, separated by hyphens.
pub open spec fn hyphenated_text(id: u128) -> Seq<char> {
    Seq::new(
        36,
        |i: int|
            if is_hyphen_position(i) {
                '-'
            } else {
                hex_digit_at(id, i - hyphens_before(i))
            },
    )
}

/// Draws a fresh identifier with `uuid::Uuid::new_v4` and returns its 128-bit
/// value. The value itself is random; trusted here is only that the function
/// stamps the version and variant fields as [`is_random_form`] says. The draw
/// panics if the operating system cannot supply random bytes.
#[verifier::external_body]
pub(crate) fn fresh_id() -> (id: u128)
    ensures
        is_random_form(id),
{
    uuid::Uuid::new_v4().as_u128()
}

/// Writes `id` with the `Display` of `uuid::Uuid`, which is trusted to produce
/// the hyphenated lower-case form that [`hyphenated_text`] describes.
#[verifier::external_body]
pub(crate) fn id_text(id: u128) -> (text: String)
    ensures
        text@ == hyphenated_text(id),
{
    uuid::Uuid::from_u128(id).to_string()
}

} // verus!
