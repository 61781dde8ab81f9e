//! Event identifiers: 128-bit values whose upper 48 bits hold the time of
//! creation in milliseconds, written as 26 characters of Crockford base 32.

use vstd::prelude::*;
use ulid::Ulid;

verus! {

/// How many characters the text of an identifier has.
pub const ID_TEXT_LEN: usize = 26;

/// The digits of Crockford base 32, by value.
pub open spec fn crockford_digits() -> Seq<char> {
    "0123456789ABCDEFGHJKMNPQRSTVWXYZ"@
}

/// The value of the digit at place `i` of an identifier's text, counted from
/// the left: five bits of the identifier, the uppermost first.
pub open spec fn digit_value(id: u128, i: int) -> u128
    recommends
        0 <= i < ID_TEXT_LEN,
{
    (id >> ((5 * (25 - i)) as u128)) & 0x1f
}

/// The text of an identifier.
pub open spec fn id_text_of(id: u128) -> Seq<char> {
    Seq::new(ID_TEXT_LEN as nat, |i: int| crockford_digits()[digit_value(id, i) as int])
}

/// The creation time that an identifier holds, in milliseconds since the
/// epoch.
pub open spec fn timestamp_of(id: u128) -> u64 {
    (id >> 80) as u64
}

/// The identifier that the store assigns when it is offered `candidate` and
/// the last identifier it assigned was `last`: the candidate where it is
/// greater, else the successor of the last one. `None` where no greater
/// identifier exists.
pub open spec fn next_id_of(last: Option<u128>, candidate: u128) -> Option<u128> {
    match last {
        None => Some(candidate),
        Some(l) => if candidate > l {
            Some(candidate)
        } else if l < u128::MAX {
            Some((l + 1) as u128)
        } else {
            None
        },
    }
}

/// `Ulid::new` of the `ulid` crate, as a number: an identifier drawn from the
/// clock and a random source. Nothing is claimed of its value.
#[verifier::external_body]
pub(crate) fn fresh_ulid() -> (id: u128) {
    Ulid::new().0
}

/// `Ulid::to_string` of the `ulid` crate: the 26 digits of the value in
/// Crockford base 32, five bits each, the uppermost first.
#[verifier::external_body]
fn ulid_to_string(id: u128) -> (s: String)
    ensures
        s@ == id_text_of(id),
{
    Ulid(id).to_string()
}

/// Writes an identifier as text.
pub fn id_text(id: u128) -> (s: String)
    ensures
        s@ == id_text_of(id),
        s@.len() == ID_TEXT_LEN,
{
    ulid_to_string(id)
}

/// Reads the creation time out of an identifier.
pub fn timestamp_ms(id: u128) -> (t: u64)
    ensures
        t == timestamp_of(id),
{
    assert((id >> 80) <= 0xffff_ffff_ffff) by (bit_vector);
    (id >> 80) as u64
}

/// Chooses the identifier of the next event.
pub fn next_id(last: Option<u128>, candidate: u128) -> (r: Option<u128>)
    ensures
        r == next_id_of(last, candidate),
        r is Some ==> (last is Some ==> r->0 > last->0),
        r is None <==> last == Some(u128::MAX),
{
    match last {
        None => Some(candidate),
        Some(l) => {
            if candidate > l {
                Some(candidate)
            } else if l < u128::MAX {
                Some(l + 1)
            } else {
                None
            }
        },
    }
}

/// Assigns the identifier of the next event: a fresh candidate where that is
/// greater than the last identifier, else the successor of the last one.
/// Fails only where the last identifier is the greatest there is.
pub fn assign_id(last: Option<u128>) -> (r: Option<u128>)
    ensures
        r is None <==> last == Some(u128::MAX),
        r is Some && last is Some ==> r->0 > last->0,
        exists|candidate: u128| r == #[trigger] next_id_of(last, candidate),
{
    let candidate = fresh_ulid();
    next_id(last, candidate)
}

} // verus!
