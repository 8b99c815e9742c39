//! Fresh identifiers, by the `uuid` crate.

use crate::text::is_digit;
use vstd::prelude::*;

verus! {

/// Lower-case hexadecimal digits.
pub open spec fn is_lower_hex(c: char) -> bool {
    is_digit(c) || 'a' <= c <= 'f'
}

/// Positions of the dashes in a hyphenated UUID.
pub open spec fn is_dash_position(i: int) -> bool {
    i == 8 || i == 13 || i == 18 || i == 23
}

/// The shape of a hyphenated UUID.
pub open spec fn is_hyphenated(id: Seq<char>) -> bool {
    &&& id.len() == 36
    &&& forall|i: int|
        0 <= i < 36 ==> if is_dash_position(i) {
            #[trigger] id[i] == '-'
        } else {
            is_lower_hex(id[i])
        }
}

/// The shape of a UUID without dashes.
pub open spec fn is_simple(id: Seq<char>) -> bool {
    id.len() == 32 && forall|i: int| 0 <= i < 32 ==> is_lower_hex(#[trigger] id[i])
}

/// A digit that tells the variant of a random UUID.
pub open spec fn is_variant_digit(c: char) -> bool {
    c == '8' || c == '9' || c == 'a' || c == 'b'
}

/// `Uuid::new_v4` in its default form: 32 lower-case hexadecimal digits in five groups joined
/// by dashes, with the version and the variant of a random UUID among them. Which digits come
/// otherwise is left to the random number generator.
#[verifier::external_body]
pub(crate) fn fresh_id() -> (r: String)
    ensures
        is_hyphenated(r@),
        r@[14] == '4' && is_variant_digit(r@[19]),
{
    uuid::Uuid::new_v4().to_string()
}

/// `Uuid::new_v4` in its simple form: 32 lower-case hexadecimal digits, with the version and the
/// variant of a random UUID among them. Which digits come otherwise is left to the random number
/// generator.
#[verifier::external_body]
pub(crate) fn fresh_secret() -> (r: String)
    ensures
        is_simple(r@),
        r@[12] == '4' && is_variant_digit(r@[16]),
{
    uuid::Uuid::new_v4().simple().to_string()
}

} // verus!
