use argon2::password_hash::rand_core::{OsRng, RngCore};
use argon2::password_hash::{PasswordHash, PasswordHasher, PasswordVerifier, SaltString};
use argon2::Argon2;
use vstd::prelude::*;

verus! {

/// Whether Argon2 (default parameters) accepts `password` against the PHC
/// encoded hash `encoded`.
pub uninterp spec fn argon2_accepts(password: Seq<char>, encoded: Seq<char>) -> bool;

/// Failure of the key derivation function, with its message.
#[derive(Debug)]
pub enum HashError {
    Rejected(String),
}

impl HashError {
    /// The message the hasher gave.
    pub fn message(self) -> (r: String)
        ensures
            self matches HashError::Rejected(m) && r == m,
    {
        match self {
            HashError::Rejected(m) => m,
        }
    }
}

/// The longest password, in characters, that is hashed: encoded as UTF-8
/// it holds at most `u32::MAX` bytes, the most that Argon2 takes.
pub const MAX_PASSWORD_LEN: usize = 0x3FFF_FFFF;

/// `h` is a PHC string of the Argon2id algorithm.
pub open spec fn is_argon2id_phc(h: Seq<char>) -> bool {
    h.len() >= 10 && h.subrange(0, 10) == "$argon2id$"@
}

/// Relies on `SaltString::generate` over `OsRng` (a fresh 16-byte salt) and
/// `PasswordHasher::hash_password` of `Argon2::default()`, which rejects only
/// passwords over `u32::MAX` bytes. The PHC string it returns starts with
/// `$argon2id$` and records the version, parameters and salt, so
/// `PasswordVerifier::verify_password` recomputes the same key for the same
/// password and accepts it.
#[verifier::external_body]
fn argon2_hash(password: &str) -> (r: Result<String, String>)
    ensures
        r matches Ok(h) ==> argon2_accepts(password@, h@) && is_argon2id_phc(h@),
        password@.len() <= MAX_PASSWORD_LEN ==> r is Ok,
{
    let salt = SaltString::generate(&mut OsRng);
    match Argon2::default().hash_password(password.as_bytes(), &salt) {
        Ok(h) => Ok(h.to_string()),
        Err(e) => Err(e.to_string()),
    }
}

/// Relies on `PasswordHash::new` and `PasswordVerifier::verify_password` of
/// `Argon2::default()`: recomputes the key with the salt and parameters held
/// in `encoded` and compares it in constant time; an unparsable hash is
/// rejected.
#[verifier::external_body]
fn argon2_verify(password: &str, encoded: &str) -> (r: bool)
    ensures
        r == argon2_accepts(password@, encoded@),
{
    match PasswordHash::new(encoded) {
        Ok(h) => Argon2::default().verify_password(password.as_bytes(), &h).is_ok(),
        Err(_) => false,
    }
}

/// Relies on `RngCore::fill_bytes` of `OsRng`: 128 bits from the operating
/// system's secure random source.
#[verifier::external_body]
pub(crate) fn random_token() -> (r: u128) {
    let mut bytes = [0u8; 16];
    OsRng.fill_bytes(&mut bytes);
    u128::from_le_bytes(bytes)
}

/// Hashes a password with a fresh random salt into a self-describing
/// Argon2id PHC string; the result verifies against the same password, and
/// any password of at most `MAX_PASSWORD_LEN` characters is hashed.
pub fn hash_password(password: &str) -> (r: Result<String, HashError>)
    ensures
        r matches Ok(h) ==> argon2_accepts(password@, h@) && is_argon2id_phc(h@),
        r matches Ok(h) ==> (!is_argon2id_phc(password@) ==> h@ != password@),
        password@.len() <= MAX_PASSWORD_LEN ==> r is Ok,
{
    match argon2_hash(password) {
        Ok(h) => Ok(h),
        Err(e) => Err(HashError::Rejected(e)),
    }
}

/// Checks a password against an encoded hash.
pub fn verify_password(password: &str, encoded: &str) -> (r: bool)
    ensures
        r == argon2_accepts(password@, encoded@),
{
    argon2_verify(password, encoded)
}

} // verus!
