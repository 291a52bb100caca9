//! Hashing of keys and node labels onto the identifier circle.

use crate::error::{Error, Result};
use crate::text::{decimal_text, to_decimal};
use sha2::{Digest, Sha256};
use std::time::{Duration, SystemTime, SystemTimeError, UNIX_EPOCH};
use vstd::prelude::*;
use vstd::utf8::encode_utf8;

verus! {

/// What `sha2::Sha256::digest` returns for `input`: its SHA-256 digest.
pub uninterp spec fn sha256(input: Seq<u8>) -> Seq<u8>;

/// `sha2::Sha256::digest`: the result is the SHA-256 digest of the input,
/// which is 32 bytes long.
#[verifier::external_body]
fn sha256_digest(input: &[u8]) -> (digest: Vec<u8>)
    ensures
        digest@ == sha256(input@),
        digest@.len() == 32,
{
    Sha256::digest(input).to_vec()
}

/// `std::time::SystemTime`, a reading of the system clock.
#[verifier::external_type_specification]
#[verifier::external_body]
pub struct ExSystemTime(SystemTime);

/// `std::time::SystemTimeError`, the failure of a clock that stands before
/// the time it is measured from.
#[verifier::external_type_specification]
#[verifier::external_body]
pub struct ExSystemTimeError(SystemTimeError);

/// `SystemTime::now`: the time on the system clock. Nothing is promised of
/// the reading.
pub assume_specification[ SystemTime::now ]() -> (now: SystemTime)
;

/// `SystemTime::duration_since`, measured from `UNIX_EPOCH`: the time that
/// has passed since the epoch, or the clock's failure if `now` lies before
/// it. Nothing is promised of the result.
#[verifier::external_body]
fn since_unix_epoch(now: &SystemTime) -> (elapsed: core::result::Result<
    Duration,
    SystemTimeError,
>) {
    now.duration_since(UNIX_EPOCH)
}

/// `Duration::as_nanos`: the whole duration in nanoseconds. Nothing is
/// promised of the number.
pub assume_specification[ Duration::as_nanos ](elapsed: &Duration) -> (nanos: u128)
;

/// The number that `bytes` spell in base 256, most significant byte first.
pub open spec fn big_endian(bytes: Seq<u8>) -> int
    decreases bytes.len(),
{
    if bytes.len() == 0 {
        0
    } else {
        big_endian(bytes.drop_last()) * 256 + bytes.last()
    }
}

/// The point of the circle that `input` hashes to: the first eight bytes of
/// its SHA-256 digest, read most significant byte first.
pub open spec fn hash64(input: Seq<u8>) -> u64 {
    big_endian(sha256(input).subrange(0, 8)) as u64
}

/// The text that is hashed for a label registered at `nanos`.
pub open spec fn salted_text(label: Seq<char>, nanos: u128) -> Seq<char> {
    label + seq!['_'] + decimal_text(nanos as nat)
}

/// The message of the failure to read the clock.
pub open spec fn clock_failure_text() -> Seq<char> {
    "System clock is set before the Unix epoch."@
}

/// 256 to the power `n`.
pub open spec fn pow256(n: nat) -> int
    decreases n,
{
    if n == 0 {
        1
    } else {
        256 * pow256((n - 1) as nat)
    }
}

/// Hashes `input` onto the circle.
pub fn generate_hash64(input: &[u8]) -> (hash: Result<u64>)
    ensures
        hash matches Ok(point) && point == hash64(input@),
{
    let digest = sha256_digest(input);
    let mut output: u64 = 0;
    let mut i: usize = 0;
    while i < 8
        invariant
            0 <= i <= 8,
            digest@.len() == 32,
            output == big_endian(digest@.subrange(0, i as int)),
            output < pow256(i as nat),
        decreases 8 - i,
    {
        proof {
            let taken = digest@.subrange(0, i + 1);
            assert(taken.drop_last() =~= digest@.subrange(0, i as int));
            assert(taken.last() == digest@[i as int]);
            reveal_with_fuel(pow256, 9);
        }
        output = output * 256 + digest[i] as u64;
        i += 1;
    }
    Ok(output)
}

/// Hashes `label`, salted with the time `nanos`, onto the circle.
pub fn generate_salted_hash(label: &str, nanos: u128) -> (hash: Result<u64>)
    ensures
        hash matches Ok(point) && point == hash64(encode_utf8(salted_text(label@, nanos))),
{
    let salt = to_decimal(nanos);
    let salted = String::from_str(label).concat("_").concat(salt.as_str());
    proof {
        reveal_strlit("_");
        assert("_"@ =~= seq!['_']);
    }
    generate_hash64(salted.as_str().as_bytes())
}

/// Hashes `id`, salted with the time `nanos`, onto the circle.
pub fn generate_id_hash_at(id: u64, nanos: u128) -> (hash: Result<u64>)
    ensures
        hash matches Ok(point) && point == hash64(
            encode_utf8(salted_text(decimal_text(id as nat), nanos)),
        ),
{
    let label = to_decimal(id as u128);
    generate_salted_hash(label.as_str(), nanos)
}

/// The time on the system clock, in nanoseconds since the Unix epoch.
pub fn salt_from_clock() -> (salt: Result<u128>)
    ensures
        salt matches Err(failure) ==> failure.is_internal(clock_failure_text()),
{
    let now = SystemTime::now();
    let reading = match since_unix_epoch(&now) {
        Ok(elapsed) => Some(elapsed.as_nanos()),
        Err(_) => None,
    };
    salt_of_reading(reading)
}

/// The salt that a reading of the clock gives: the reading itself, in
/// nanoseconds since the Unix epoch, or a failure if the clock stood before
/// the epoch and gave none.
pub fn salt_of_reading(reading: Option<u128>) -> (salt: Result<u128>)
    ensures
        match reading {
            Some(nanos) => salt matches Ok(taken) && taken == nanos,
            None => salt matches Err(failure) && failure.is_internal(clock_failure_text()),
        },
{
    match reading {
        Some(nanos) => Ok(nanos),
        None => Err(
            Error::Internal(String::from_str("System clock is set before the Unix epoch.")),
        ),
    }
}

/// Hashes `id`, salted with the current time, onto the circle.
pub fn generate_id_hash(id: u64) -> (hash: Result<u64>)
    ensures
        match hash {
            Ok(point) => exists|nanos: u128|
                point == hash64(
                    encode_utf8(#[trigger] salted_text(decimal_text(id as nat), nanos)),
                ),
            Err(failure) => failure.is_internal(clock_failure_text()),
        },
{
    match salt_from_clock() {
        Ok(nanos) => generate_id_hash_at(id, nanos),
        Err(failure) => Err(failure),
    }
}

} // verus!
