//! Fresh row identifiers, the clock, and the text form of a caller identity.

use rand::Rng;
use vstd::prelude::*;

verus! {

/// `std::time::SystemTime`: a reading of the system clock, carried from one
/// call to the next and never looked into.
#[verifier::external_type_specification]
#[verifier::external_body]
pub struct ExSystemTime(std::time::SystemTime);

/// `std::time::SystemTimeError`: what `duration_since` returns for a reading
/// that lies before the moment it is measured from.
#[verifier::external_type_specification]
#[verifier::external_body]
pub struct ExSystemTimeError(std::time::SystemTimeError);

/// Number of characters in a generated identifier.
pub const ID_LENGTH: usize = 16;

/// Whether `c` is an ASCII letter or digit.
pub open spec fn is_alphanumeric(c: char) -> bool {
    ('A' <= c && c <= 'Z') || ('a' <= c && c <= 'z') || ('0' <= c && c <= '9')
}

/// Whether `id` has the shape of a generated identifier: sixteen ASCII
/// letters and digits.
pub open spec fn is_generated_id(id: Seq<char>) -> bool {
    &&& id.len() == ID_LENGTH
    &&& forall|i: int| 0 <= i < id.len() ==> is_alphanumeric(#[trigger] id[i])
}

/// Whether one of `keys` has the shape of a generated identifier, so that a
/// newly generated one could be equal to it.
pub open spec fn holds_generated_id(keys: Seq<Seq<char>>) -> bool {
    exists|i: int| 0 <= i < keys.len() && is_generated_id(#[trigger] keys[i])
}

/// Draws one byte from `rand::distributions::Alphanumeric` with the
/// thread-local generator of `rand::thread_rng`. The distribution samples
/// from the ASCII letters and digits only; nothing is claimed about which of
/// them comes back.
#[verifier::external_body]
fn random_alphanumeric() -> (b: u8)
    ensures
        is_alphanumeric(b as char),
{
    rand::thread_rng().sample(rand::distributions::Alphanumeric)
}

/// `String::push`: appends one character to the end of the string.
#[verifier::external_body]
fn push_char(text: &mut String, c: char)
    ensures
        final(text)@ == old(text)@.push(c),
{
    text.push(c)
}

/// Generates a random identifier of sixteen ASCII letters and digits.
pub fn generate_id() -> (id: String)
    ensures
        is_generated_id(id@),
{
    let mut id = String::new();
    let mut n: usize = 0;
    while n < ID_LENGTH
        invariant
            n <= ID_LENGTH,
            id@.len() == n,
            forall|i: int| 0 <= i < id@.len() ==> is_alphanumeric(#[trigger] id@[i]),
        decreases ID_LENGTH - n,
    {
        let b = random_alphanumeric();
        push_char(&mut id, b as char);
        n += 1;
    }
    id
}

/// The character that writes `nibble`, a number below sixteen, in lower-case
/// hexadecimal.
pub open spec fn hex_digit(nibble: int) -> char {
    if nibble < 10 {
        ('0' as int + nibble) as char
    } else {
        ('a' as int + nibble - 10) as char
    }
}

/// The text form of a caller identity: its bytes in lower-case hexadecimal,
/// two digits a byte, in the order given.
pub open spec fn identity_text(identity: Seq<u8>) -> Seq<char> {
    Seq::new(
        2 * identity.len(),
        |i: int|
            hex_digit(
                if i % 2 == 0 {
                    identity[i / 2] as int / 16
                } else {
                    identity[i / 2] as int % 16
                },
            ),
    )
}

/// `spacetimedb::Identity::from_be_byte_array` followed by the identity's
/// `to_string`: the identity whose 256-bit number has the given bytes, most
/// significant first, printed as 64 lower-case hexadecimal digits in that
/// same order.
#[verifier::external_body]
pub(crate) fn identity_to_string(identity: &[u8; 32]) -> (text: String)
    ensures
        text@ == identity_text(identity@),
{
    spacetimedb::Identity::from_be_byte_array(*identity).to_string()
}

/// `std::time::SystemTime::now`: the system clock's present reading.
/// Nothing is claimed about it.
#[verifier::external_body]
fn system_now() -> std::time::SystemTime {
    std::time::SystemTime::now()
}

/// `std::time::SystemTime::duration_since`, measured from
/// `std::time::UNIX_EPOCH`: the time elapsed since the epoch, or an error
/// where the reading lies before it. Nothing is claimed about either.
#[verifier::external_body]
fn since_unix_epoch(reading: &std::time::SystemTime) -> Result<
    std::time::Duration,
    std::time::SystemTimeError,
> {
    reading.duration_since(std::time::UNIX_EPOCH)
}

/// `std::time::Duration::as_secs`: the whole seconds a duration holds.
/// Nothing is claimed about their number.
#[verifier::external_body]
fn whole_seconds(elapsed: &std::time::Duration) -> u64 {
    elapsed.as_secs()
}

/// The present time in whole seconds since the Unix epoch. A clock that is
/// set before the epoch reads as 0.
pub fn current_timestamp() -> u64 {
    let reading = system_now();
    match since_unix_epoch(&reading) {
        Ok(elapsed) => whole_seconds(&elapsed),
        Err(_) => 0,
    }
}

} // verus!
