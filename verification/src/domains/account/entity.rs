//! A row of the `accounts` table.
use vstd::prelude::*;

verus! {

/// An account as stored: id, normalised e-mail, Argon2 hash and display name.
#[derive(Debug, Clone)]
pub struct AccountEntity {
    pub id: i64,
    pub email: String,
    pub password_hash: String,
    pub name: String,
}

} // verus!
