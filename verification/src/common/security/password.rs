//! Password hashing with Argon2id.
use vstd::prelude::*;
use crate::common::error::{internal_message, AppError};
use vstd::utf8::encode_utf8;

verus! {

/// Whether `argon2::PasswordHash::new` parses `phc` as a PHC hash string.
pub uninterp spec fn phc_parses(phc: Seq<char>) -> bool;

/// Whether `Argon2::default().verify_password` accepts the UTF-8 bytes of
/// `password` against the parsed hash string `phc` (recomputing the hash with
/// the algorithm, parameters and salt written in it).
pub uninterp spec fn argon2_accepts(password: Seq<char>, phc: Seq<char>) -> bool;

/// `phc` is an Argon2id hash string of `password`: it parses, it is accepted
/// for `password`, and it starts with `$argon2id$`.
pub open spec fn hashes(password: Seq<char>, phc: Seq<char>) -> bool {
    &&& phc_parses(phc)
    &&& argon2_accepts(password, phc)
    &&& phc.len() >= 10
    &&& phc.subrange(0, 10) == "$argon2id$"@
}

/// `argon2`: a fresh salt from `SaltString::generate(&mut OsRng)`, then
/// `Argon2::default().hash_password` (Argon2id, version 19, default
/// parameters), written as a PHC string. Claimed: the string parses, starts
/// with `$argon2id$`, and `verify_password` accepts the same password against
/// it, since it recomputes the hash from the salt and parameters written there.
/// Hashing fails only for a password of more than `0xFFFF_FFFF` bytes (argon2's
/// `MAX_PWD_LEN`; the generated 16-byte salt and the default parameters pass
/// every other check). The salt is random; nothing is claimed of it.
#[verifier::external_body]
fn argon2_hash(password: &str) -> (r: Option<String>)
    ensures
        r matches Some(h) ==> hashes(password@, h@),
        encode_utf8(password@).len() <= 0xFFFF_FFFF ==> r is Some,
{
    let salt = argon2::password_hash::SaltString::generate(&mut argon2::password_hash::rand_core::OsRng);
    let argon2 = argon2::Argon2::default();
    let hash = argon2::PasswordHasher::hash_password(&argon2, password.as_bytes(), &salt).ok()?;
    Some(hash.to_string())
}

/// `argon2::PasswordHash::new(phc)`, then `Argon2::default().verify_password`.
/// Claimed: `None` exactly where the string does not parse; otherwise whether
/// the password is accepted, as named by `argon2_accepts`.
#[verifier::external_body]
fn argon2_verify(password: &str, phc: &str) -> (r: Option<bool>)
    ensures
        r is Some <==> phc_parses(phc@),
        r matches Some(b) ==> b == argon2_accepts(password@, phc@),
{
    let parsed = argon2::PasswordHash::new(phc).ok()?;
    let argon2 = argon2::Argon2::default();
    Some(argon2::PasswordVerifier::verify_password(&argon2, password.as_bytes(), &parsed).is_ok())
}

/// Hashes a plain password into an Argon2id PHC string with a random salt.
pub fn hash_password(password: &str) -> (r: Result<String, AppError>)
    ensures
        r matches Ok(h) ==> hashes(password@, h@),
        r is Err ==> internal_message(r) == Some("비밀번호 해싱에 실패했습니다."@),
        encode_utf8(password@).len() <= 0xFFFF_FFFF ==> r is Ok,
{
    match argon2_hash(password) {
        Some(h) => Ok(h),
        None => Err(AppError::Internal(String::from_str("비밀번호 해싱에 실패했습니다."))),
    }
}

/// What checking `password` against the stored hash `phc` answers: whether
/// Argon2 accepts it, or an internal error where the hash does not parse.
pub open spec fn password_check(password: Seq<char>, phc: Seq<char>, r: Result<bool, AppError>) -> bool {
    if phc_parses(phc) {
        r == Ok::<bool, AppError>(argon2_accepts(password, phc))
    } else {
        internal_message(r) == Some("비밀번호 해시 형식이 올바르지 않습니다."@)
    }
}

/// Checks a plain password against a stored Argon2 hash string.
pub fn verify_password(password: &str, password_hash: &str) -> (r: Result<bool, AppError>)
    ensures
        password_check(password@, password_hash@, r),
{
    match argon2_verify(password, password_hash) {
        Some(ok) => Ok(ok),
        None => Err(AppError::Internal(String::from_str("비밀번호 해시 형식이 올바르지 않습니다."))),
    }
}

/// A password is accepted against a hash made from it.
pub proof fn lemma_hash_then_verify(password: Seq<char>, phc: Seq<char>, r: Result<bool, AppError>)
    requires
        hashes(password, phc),
        password_check(password, phc, r),
    ensures
        r == Ok::<bool, AppError>(true),
{
}

} // verus!
