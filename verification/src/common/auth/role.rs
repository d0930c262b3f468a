//! Account roles.
use vstd::prelude::*;
use crate::common::error::AppError;
use crate::common::text::{str_eq, to_lowercase, unicode_lowercase};

verus! {

/// The role of an account. Serialised as `ADMIN`, `CUSTOMER`, `EMPLOYEE`.
#[derive(Debug, Clone, Copy, PartialEq, Eq, Hash, Structural)]
pub enum AccountRole {
    Admin,
    Customer,
    Employee,
}

/// The lowercase name of a role.
pub open spec fn role_name(role: AccountRole) -> Seq<char> {
    match role {
        AccountRole::Admin => "admin"@,
        AccountRole::Customer => "customer"@,
        AccountRole::Employee => "employee"@,
    }
}

/// The role whose lowercase name is `name`, if any.
pub open spec fn role_named(name: Seq<char>) -> Option<AccountRole> {
    if name == "admin"@ {
        Some(AccountRole::Admin)
    } else if name == "customer"@ {
        Some(AccountRole::Customer)
    } else if name == "employee"@ {
        Some(AccountRole::Employee)
    } else {
        None
    }
}

/// The message of the error answered for an unknown role.
pub open spec fn invalid_role_message() -> Seq<char> {
    "올바르지 않은 요청 형식입니다."@
}

/// What `AccountRole::try_from` gives: the role named by the lowercased input,
/// or a bad request.
pub open spec fn role_parse_ok(value: Seq<char>, r: Result<AccountRole, AppError>) -> bool {
    match role_named(unicode_lowercase(value)) {
        Some(role) => r == Ok::<AccountRole, AppError>(role),
        None => r matches Err(AppError::BadRequest(m)) && m@ == invalid_role_message(),
    }
}

impl AccountRole {
    /// The role's lowercase name.
    pub fn as_str(&self) -> (r: &'static str)
        ensures
            r@ == role_name(*self),
    {
        match self {
            AccountRole::Admin => "admin",
            AccountRole::Customer => "customer",
            AccountRole::Employee => "employee",
        }
    }

    /// The role named by `value`, compared case-insensitively.
    pub fn try_from(value: &str) -> (r: Result<AccountRole, AppError>)
        ensures
            role_parse_ok(value@, r),
    {
        let lower = to_lowercase(value);
        if str_eq(lower.as_str(), "admin") {
            Ok(AccountRole::Admin)
        } else if str_eq(lower.as_str(), "customer") {
            Ok(AccountRole::Customer)
        } else if str_eq(lower.as_str(), "employee") {
            Ok(AccountRole::Employee)
        } else {
            Err(AppError::BadRequest(String::from_str("올바르지 않은 요청 형식입니다.")))
        }
    }
}

/// A role's name names that role back.
pub proof fn lemma_role_name_round_trip(role: AccountRole)
    ensures
        role_named(role_name(role)) == Some(role),
{
    reveal_strlit("admin");
    reveal_strlit("customer");
    reveal_strlit("employee");
    assert("customer"@[0] != "admin"@[0]);
    assert("employee"@[0] != "admin"@[0]);
    assert("employee"@[0] != "customer"@[0]);
}

} // verus!
