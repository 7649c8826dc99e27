//! Identifiers of records.

use ulid::Ulid;
use vstd::prelude::*;

verus! {

/// `Ulid::new`: a fresh identifier, made of the time and chance. Nothing is
/// said of which one it is.
#[verifier::external_body]
pub(crate) fn new_id() -> (res: u128)
{
    Ulid::new().0
}

/// The character of a Crockford base 32 digit.
pub open spec fn base32_digit(n: int) -> char {
    "0123456789ABCDEFGHJKMNPQRSTVWXYZ"@[n]
}

/// A number in Crockford base 32, with so many digits.
pub open spec fn base32(n: nat, width: nat) -> Seq<char>
    decreases width,
{
    if width == 0 {
        Seq::empty()
    } else {
        base32(n / 32, (width - 1) as nat).push(base32_digit((n % 32) as int))
    }
}

/// `Ulid::to_string`: the identifier in Crockford base 32, with 26 digits.
#[verifier::external_body]
pub(crate) fn id_text(id: u128) -> (res: String)
    ensures
        res@ == base32(id as nat, 26),
{
    Ulid(id).to_string()
}

} // verus!
