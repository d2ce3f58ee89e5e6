//! Lowercase hexadecimal rendering of committed roots.

use vstd::prelude::*;

use crate::codec::PublicValues;

verus! {

/// The lowercase hexadecimal digit for a value below 16.
pub open spec fn hex_digit(v: u8) -> char {
    if v < 10 {
        (48 + v) as char
    } else {
        (87 + v) as char
    }
}

/// Two lowercase hexadecimal digits per byte, high nibble first, in order.
pub open spec fn hex_of(s: Seq<u8>) -> Seq<char>
    decreases s.len(),
{
    if s.len() == 0 {
        Seq::empty()
    } else {
        seq![hex_digit(s[0] / 16), hex_digit(s[0] % 16)] + hex_of(s.subrange(1, s.len() as int))
    }
}

/// Relies on hex::encode: each byte becomes two lowercase hexadecimal
/// digits, high nibble first, in input order.
#[verifier::external_body]
fn hex_encode(bytes: &Vec<u8>) -> (r: String)
    ensures
        r@ == hex_of(bytes@),
{
    hex::encode(bytes)
}

/// The hexadecimal rendering of the committed root, absent exactly when the
/// run committed no insertion.
pub fn root_hex(pv: &PublicValues) -> (r: Option<String>)
    ensures
        (r is None) <==> (pv@.root is None),
        r matches Some(s) ==> (pv@.root matches Some(h) && s@ == hex_of(h)),
{
    match &pv.root {
        Some(h) => Some(hex_encode(h)),
        None => None,
    }
}

} // verus!
