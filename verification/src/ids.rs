//! Identifiers shared by every part of the library.
use vstd::prelude::*;

use vstd::arithmetic::power::pow;

verus! {

/// Identifier of a fog node (the 128 bits of its UUID).
pub type NodeId = u128;

/// Identifier of a bid, and of the function provisioned from it (the 128 bits of its UUID).
pub type BidId = u128;

/// The lower-case hexadecimal digit of `n`, a value below 16.
pub open spec fn hex_digit(n: int) -> char {
    if n < 10 {
        ('0' as int + n) as char
    } else {
        ('a' as int + (n - 10)) as char
    }
}

/// The `i`-th of the 32 hexadecimal digits of `id`, the most significant first.
pub open spec fn uuid_digit(id: u128, i: int) -> char {
    hex_digit((id as int / pow(16, (31 - i) as nat)) % 16)
}

/// The number of hyphens before position `j` of a UUID's text.
pub open spec fn hyphens_before(j: int) -> int {
    (if j > 8 { 1int } else { 0int }) + (if j > 13 { 1int } else { 0int }) + (if j > 18 {
        1int
    } else {
        0int
    }) + (if j > 23 { 1int } else { 0int })
}

/// The text of the UUID with the given bits: its 32 hexadecimal digits,
/// lower-case and most significant first, in groups of 8, 4, 4, 4 and 12
/// separated by hyphens.
pub open spec fn uuid_hyphenated(id: u128) -> Seq<char> {
    Seq::new(
        36,
        |j: int|
            if j == 8 || j == 13 || j == 18 || j == 23 {
                '-'
            } else {
                uuid_digit(id, j - hyphens_before(j))
            },
    )
}

/// The text of the UUID `id`: `uuid::Uuid::from_u128(id).to_string()`, which
/// takes the bits big-endian and formats them hyphenated in lower case.
#[verifier::external_body]
pub(crate) fn uuid_text(id: u128) -> (res: String)
    ensures
        res@ == uuid_hyphenated(id),
{
    uuid::Uuid::from_u128(id).to_string()
}

} // verus!
