use vstd::prelude::*;
use argon2::password_hash::{PasswordHash, PasswordHasher, PasswordVerifier, SaltString};
use argon2::Argon2;
use vstd::string::StringSliceAdditionalSpecFns;

verus! {

#[verifier::external_type_specification]
#[verifier::external_body]
pub struct ExPasswordHashError(argon2::password_hash::Error);

#[verifier::external_type_specification]
#[verifier::external_body]
pub struct ExGetrandomError(getrandom::Error);

/// The PHC string ("$argon2id$v=19$...") that Argon2id with its default
/// parameters makes of `password` and the salt bytes, or `None` where it
/// refuses them.
pub uninterp spec fn argon2_phc(password: Seq<u8>, salt: Seq<u8>) -> Option<Seq<char>>;

/// Whether `stored` parses as a PHC string.
pub uninterp spec fn phc_well_formed(stored: Seq<char>) -> bool;

/// Whether Argon2 accepts `password` against the PHC string `stored`.
pub uninterp spec fn argon2_verifies(password: Seq<u8>, stored: Seq<char>) -> bool;

/// The outcome of checking a password against a stored hash.
#[derive(PartialEq, Eq, Structural, Clone, Copy, Debug)]
pub enum PasswordCheck {
    /// The stored hash is not a PHC string.
    Malformed,
    /// The password does not match the stored hash.
    Mismatch,
    /// The password matches the stored hash.
    Match,
}

/// What checking `password` against `stored` gives.
pub open spec fn password_check_of(password: Seq<u8>, stored: Seq<char>) -> PasswordCheck {
    if !phc_well_formed(stored) {
        PasswordCheck::Malformed
    } else if argon2_verifies(password, stored) {
        PasswordCheck::Match
    } else {
        PasswordCheck::Mismatch
    }
}

/// Hashes `password` with Argon2id (default parameters) and the given salt
/// bytes, into a PHC string.
///
/// Trusted: password-hash's `SaltString::encode_b64` and argon2's
/// `Argon2::default().hash_password`, then `to_string`. The string is only
/// named (`argon2_phc`). As the argon2 crate's documentation shows (hash,
/// then `PasswordHash::new` and `verify_password` with the same password),
/// a string it makes parses and accepts the password it was made from.
#[verifier::external_body]
fn argon2_hash(password: &[u8], salt: &[u8; 16]) -> (r: Result<String, argon2::password_hash::Error>)
    ensures
        r matches Ok(h) ==> argon2_phc(password@, salt@) == Some(h@),
        r is Err ==> argon2_phc(password@, salt@) is None,
        r matches Ok(h) ==> phc_well_formed(h@) && argon2_verifies(password@, h@),
{
    let salt = SaltString::encode_b64(salt)?;
    Ok(Argon2::default().hash_password(password, &salt)?.to_string())
}

/// Checks `password` against the PHC string `stored`.
///
/// Trusted: password-hash's `PasswordHash::new` (whether `stored` parses,
/// named `phc_well_formed`) and `Argon2::default().verify_password` (named
/// `argon2_verifies`; it uses the parameters written in `stored`).
#[verifier::external_body]
fn argon2_check(password: &[u8], stored: &str) -> (r: PasswordCheck)
    ensures
        r == password_check_of(password@, stored@),
{
    match PasswordHash::new(stored) {
        Err(_) => PasswordCheck::Malformed,
        Ok(hash) => match Argon2::default().verify_password(password, &hash) {
            Ok(()) => PasswordCheck::Match,
            Err(_) => PasswordCheck::Mismatch,
        },
    }
}

/// Fills `dest` with random bytes from the operating system.
///
/// Trusted: getrandom's `fill`, which keeps the buffer's length and, as its
/// documentation says, succeeds at once on an empty buffer. Whether it
/// succeeds otherwise rests on the operating system, and the bytes are
/// random, so nothing is said of either.
#[verifier::external_body]
fn os_random_fill(dest: &mut [u8]) -> (r: Result<(), getrandom::Error>)
    ensures
        final(dest)@.len() == old(dest)@.len(),
        old(dest)@.len() == 0 ==> r is Ok,
{
    getrandom::fill(dest)
}


/// The Argon2 hash of a new password.
pub fn hash_password(password: &str, salt: &[u8; 16]) -> (r: Option<String>)
    ensures
        r is Some <==> argon2_phc(password.spec_bytes(), salt@) is Some,
        r matches Some(h) ==> argon2_phc(password.spec_bytes(), salt@) == Some(h@),
        r matches Some(h) ==> password_check_of(password.spec_bytes(), h@) == PasswordCheck::Match,
{
    match argon2_hash(password.as_bytes(), salt) {
        Ok(h) => Some(h),
        Err(_) => None,
    }
}

/// Checks a password attempt against the stored PHC string.
pub fn check_password(password: &str, stored: &str) -> (r: PasswordCheck)
    ensures
        r == password_check_of(password.spec_bytes(), stored@),
{
    argon2_check(password.as_bytes(), stored)
}

/// A failure of the operating system's random source, with the error code
/// that is reported for it.
pub struct RandomFailure {
    pub code: u32,
}

/// A source of random bytes backed by the operating system.
pub struct GetRandomWrapper;

/// The little-endian value of four bytes.
pub open spec fn le_u32(b: Seq<u8>) -> int {
    b[0] + 256 * b[1] + 65536 * b[2] + 16777216 * b[3]
}

/// The little-endian value of eight bytes.
pub open spec fn le_u64(b: Seq<u8>) -> int {
    le_u32(b) + 4294967296 * le_u32(b.skip(4))
}

/// The `u32` whose little-endian bytes are `b` (as `u32::from_le_bytes`).
pub fn u32_from_le(b: [u8; 4]) -> (v: u32)
    ensures
        v == le_u32(b@),
{
    (b[0] as u32) + 256 * (b[1] as u32) + 65536 * (b[2] as u32) + 16777216 * (b[3] as u32)
}

/// The `u64` whose little-endian bytes are `b` (as `u64::from_le_bytes`).
pub fn u64_from_le(b: [u8; 8]) -> (v: u64)
    ensures
        v == le_u64(b@),
{
    let lo = u32_from_le([b[0], b[1], b[2], b[3]]);
    let hi = u32_from_le([b[4], b[5], b[6], b[7]]);
    assert(b@.skip(4)[0] == b[4] && b@.skip(4)[1] == b[5] && b@.skip(4)[2] == b[6] && b@.skip(4)[3] == b[7]);
    (lo as u64) + 4294967296 * (hi as u64)
}

impl GetRandomWrapper {
    /// Fills `dest` with random bytes; a failure is reported with code 1.
    /// An empty buffer always succeeds.
    pub fn try_fill_bytes(&mut self, dest: &mut [u8]) -> (r: Result<(), RandomFailure>)
        ensures
            final(dest)@.len() == old(dest)@.len(),
            old(dest)@.len() == 0 ==> r is Ok,
            r matches Err(e) ==> e.code == 1,
    {
        match os_random_fill(dest) {
            Ok(()) => Ok(()),
            Err(_) => Err(RandomFailure { code: 1 }),
        }
    }

    /// A random `u32` made of four random bytes, little-endian; `None` when
    /// the random source fails.
    pub fn next_u32(&mut self) -> (r: Option<u32>) {
        let mut buf = [0u8; 4];
        match os_random_fill(&mut buf) {
            Ok(()) => Some(u32_from_le(buf)),
            Err(_) => None,
        }
    }

    /// A random `u64` made of eight random bytes, little-endian; `None` when
    /// the random source fails.
    pub fn next_u64(&mut self) -> (r: Option<u64>) {
        let mut buf = [0u8; 8];
        match os_random_fill(&mut buf) {
            Ok(()) => Some(u64_from_le(buf)),
            Err(_) => None,
        }
    }
}

} // verus!
