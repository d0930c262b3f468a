//! What the account repository sends to the database and how it reads the
//! answers.
use vstd::prelude::*;
use crate::common::auth::role::{role_named, AccountRole};
use crate::common::error::{bad_request_message, internal_message, AppError};
use crate::common::text::{str_eq, unicode_lowercase};

verus! {

/// Parameters of an account insert.
#[derive(Debug)]
pub struct CreateAccountParams {
    pub email: String,
    pub password_hash: String,
    pub name: String,
}

impl CreateAccountParams {
    pub fn new(email: String, password_hash: String, name: String) -> (r: Self)
        ensures
            r.email@ == email@,
            r.password_hash@ == password_hash@,
            r.name@ == name@,
    {
        CreateAccountParams { email, password_hash, name }
    }
}

/// The role stored under a role name, compared case-insensitively.
pub open spec fn stored_role(name: Seq<char>) -> Option<AccountRole> {
    role_named(unicode_lowercase(name))
}

/// Every stored name names a role.
pub open spec fn all_roles_known(names: Seq<String>) -> bool {
    forall|i: int| 0 <= i < names.len() ==> (#[trigger] stored_role(names[i]@)) is Some
}

/// The message of a role that cannot be handled.
pub open spec fn role_failure_message() -> Seq<char> {
    "계정 역할 처리 중 오류가 발생했습니다."@
}

/// The roles of an account from the role names read for it, in the order
/// read; a name that is no role is an internal error.
pub fn roles_from_names(names: &Vec<String>) -> (r: Result<Vec<AccountRole>, AppError>)
    ensures
        r is Ok <==> all_roles_known(names@),
        r matches Ok(rs) ==> rs@.len() == names@.len() && forall|i: int|
            0 <= i < names@.len() ==> stored_role(names@[i]@) == Some(#[trigger] rs@[i]),
        r is Err ==> internal_message(r) == Some(role_failure_message()),
{
    let mut roles: Vec<AccountRole> = Vec::new();
    let mut i: usize = 0;
    while i < names.len()
        invariant
            i <= names@.len(),
            roles@.len() == i,
            forall|k: int| 0 <= k < i ==> stored_role(names@[k]@) == Some(#[trigger] roles@[k]),
        decreases names@.len() - i,
    {
        match AccountRole::try_from(names[i].as_str()) {
            Ok(role) => {
                roles.push(role);
            },
            Err(_) => {
                proof {
                    assert(stored_role(names@[i as int]@) is None);
                }
                return Err(AppError::Internal(String::from_str("계정 역할 처리 중 오류가 발생했습니다.")));
            },
        }
        i = i + 1;
    }
    proof {
        assert forall|k: int| 0 <= k < names@.len() implies (#[trigger] stored_role(names@[k]@)) is Some by {
            assert(stored_role(names@[k]@) == Some(roles@[k]));
        }
    }
    Ok(roles)
}

/// Linking a role that inserted no row means the role is missing from the
/// `roles` table: an internal error.
pub fn assign_role_outcome(rows_affected: u64) -> (r: Result<(), AppError>)
    ensures
        rows_affected > 0 <==> r is Ok,
        r is Err ==> internal_message(r) == Some(role_failure_message()),
{
    if rows_affected == 0 {
        return Err(AppError::Internal(String::from_str("계정 역할 처리 중 오류가 발생했습니다.")));
    }
    Ok(())
}

/// The name of the unique constraint on account e-mails.
pub open spec fn email_constraint() -> Seq<char> {
    "accounts_email_key"@
}

/// The message answered for an e-mail that is already taken.
pub open spec fn email_taken_message() -> Seq<char> {
    "이미 사용 중인 이메일입니다."@
}

/// The error answered for a failed account insert: breaking the unique
/// e-mail constraint is a bad request; any other failure is `other`.
pub fn insert_failure(constraint: Option<&str>, other: AppError) -> (r: AppError)
    ensures
        (constraint matches Some(c) && c@ == email_constraint()) ==> bad_request_message(Err::<(), AppError>(r))
            == Some(email_taken_message()),
        !(constraint matches Some(c) && c@ == email_constraint()) ==> r == other,
{
    proof {
        reveal_strlit("accounts_email_key");
    }
    match constraint {
        Some(c) => {
            if str_eq(c, "accounts_email_key") {
                AppError::BadRequest(String::from_str("이미 사용 중인 이메일입니다."))
            } else {
                other
            }
        },
        None => other,
    }
}

} // verus!
