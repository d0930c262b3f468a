//! Account request and response bodies and their validation rules.
use vstd::prelude::*;
use crate::common::auth::role::{role_named, AccountRole};
use crate::common::text::{any_in_class, char_count, has_class, is_white_space, trim, trimmed, unicode_lowercase};
use crate::common::validation::{
    is_valid_email, length_within, validate_email, FieldCollector, ValidationError, ValidationErrors,
};

verus! {

/// How many of the four character kinds a password holds: ASCII uppercase,
/// ASCII lowercase, ASCII digit, and anything else (symbols, Hangul, emoji).
pub open spec fn password_kinds(s: Seq<char>) -> nat {
    (if has_class(s, 1) { 1nat } else { 0nat }) + (if has_class(s, 2) { 1nat } else { 0nat })
        + (if has_class(s, 3) { 1nat } else { 0nat }) + (if has_class(s, 4) { 1nat } else { 0nat })
}

/// The password rule: no white space and at least three of the four kinds.
pub open spec fn password_rule(s: Seq<char>) -> bool {
    !has_class(s, 0) && password_kinds(s) >= 3
}

/// The password rule in terms of characters: no white space, and at least
/// three of these four are present: an ASCII uppercase letter, an ASCII
/// lowercase letter, an ASCII digit, and a character that is none of those
/// (any symbol, `_` included, Hangul or emoji).
pub proof fn lemma_password_rule_by_characters(s: Seq<char>)
    ensures
        password_rule(s) <==> {
            let up = exists|k: int| 0 <= k < s.len() && 'A' <= #[trigger] s[k] && s[k] <= 'Z';
            let lo = exists|k: int| 0 <= k < s.len() && 'a' <= #[trigger] s[k] && s[k] <= 'z';
            let dg = exists|k: int| 0 <= k < s.len() && '0' <= #[trigger] s[k] && s[k] <= '9';
            let sp = exists|k: int|
                0 <= k < s.len() && !(('A' <= #[trigger] s[k] && s[k] <= 'Z') || ('a' <= s[k] && s[k] <= 'z') || (
                '0' <= s[k] && s[k] <= '9'));
            &&& forall|k: int| 0 <= k < s.len() ==> !is_white_space(#[trigger] s[k])
            &&& (if up { 1int } else { 0int }) + (if lo { 1int } else { 0int }) + (if dg { 1int } else { 0int }) + (
            if sp { 1int } else { 0int }) >= 3
        },
{
    assert(has_class(s, 0) <==> exists|k: int| 0 <= k < s.len() && is_white_space(#[trigger] s[k]));
    assert(has_class(s, 1) <==> exists|k: int| 0 <= k < s.len() && 'A' <= #[trigger] s[k] && s[k] <= 'Z');
    assert(has_class(s, 2) <==> exists|k: int| 0 <= k < s.len() && 'a' <= #[trigger] s[k] && s[k] <= 'z');
    assert(has_class(s, 3) <==> exists|k: int| 0 <= k < s.len() && '0' <= #[trigger] s[k] && s[k] <= '9');
    assert(has_class(s, 4) <==> exists|k: int|
        0 <= k < s.len() && !(('A' <= #[trigger] s[k] && s[k] <= 'Z') || ('a' <= s[k] && s[k] <= 'z') || (
        '0' <= s[k] && s[k] <= '9')));
}

/// Checks the password rule; the error code names the broken part.
pub fn validate_password(password: &str) -> (r: Result<(), ValidationError>)
    ensures
        r is Ok <==> password_rule(password@),
        r matches Err(e) ==> e.code_view() == (if has_class(password@, 0) {
            "password_whitespace"@
        } else {
            "password_combination"@
        }),
{
    if any_in_class(password, 0) {
        return Err(ValidationError::new("password_whitespace"));
    }
    let has_uppercase = any_in_class(password, 1);
    let has_lowercase = any_in_class(password, 2);
    let has_digit = any_in_class(password, 3);
    let has_special = any_in_class(password, 4);
    let mut combination_count: u8 = 0;
    if has_uppercase {
        combination_count = combination_count + 1;
    }
    if has_lowercase {
        combination_count = combination_count + 1;
    }
    if has_digit {
        combination_count = combination_count + 1;
    }
    if has_special {
        combination_count = combination_count + 1;
    }
    if combination_count < 3 {
        return Err(ValidationError::new("password_combination"));
    }
    Ok(())
}

/// The name rule: 1 to 50 characters once leading and trailing white space
/// is removed.
pub open spec fn account_name_rule(s: Seq<char>) -> bool {
    1 <= trimmed(s).len() && trimmed(s).len() <= 50
}

/// Checks the name rule.
pub fn validate_name(name: &str) -> (r: Result<(), ValidationError>)
    ensures
        r is Ok <==> account_name_rule(name@),
        r matches Err(e) ==> e.code_view() == "name_length"@,
{
    let t = trim(name);
    let len = char_count(t.as_str());
    if !(1 <= len && len <= 50) {
        return Err(ValidationError::new("name_length"));
    }
    Ok(())
}

/// The sign-up role rule: a known role other than admin.
pub open spec fn signup_role_rule(s: Seq<char>) -> bool {
    match role_named(unicode_lowercase(s)) {
        Some(role) => role != AccountRole::Admin,
        None => false,
    }
}

/// Checks the sign-up role rule: admins cannot be created by a request.
pub fn validate_role(role: &str) -> (r: Result<(), ValidationError>)
    ensures
        r is Ok <==> signup_role_rule(role@),
        r matches Err(e) ==> e.code_view() == "invalid_role"@,
{
    let parsed = AccountRole::try_from(role);
    match parsed {
        Ok(AccountRole::Admin) => Err(ValidationError::new("invalid_role")),
        Ok(_) => Ok(()),
        Err(_) => Err(ValidationError::new("invalid_role")),
    }
}

/// Sign-up request.
#[derive(Debug)]
pub struct CreateAccountDto {
    pub email: String,
    pub password: String,
    pub name: String,
    pub role: String,
}

/// The sign-up password: 8 to 100 characters and the password rule.
pub open spec fn signup_password_ok(s: Seq<char>) -> bool {
    length_within(s, 8, 100) && password_rule(s)
}

/// The fields of a sign-up request that break their rules, in declaration order.
pub open spec fn create_account_failures(dto: CreateAccountDto) -> Seq<Seq<char>> {
    let a = Seq::<Seq<char>>::empty();
    let a = if is_valid_email(dto.email@) { a } else { a.push("email"@) };
    let a = if signup_password_ok(dto.password@) { a } else { a.push("password"@) };
    let a = if account_name_rule(dto.name@) { a } else { a.push("name"@) };
    if signup_role_rule(dto.role@) { a } else { a.push("role"@) }
}

impl CreateAccountDto {
    /// Checks every field; fails with the names of the fields that break their
    /// rules.
    pub fn validate(&self) -> (r: Result<(), ValidationErrors>)
        ensures
            r is Ok <==> create_account_failures(*self).len() == 0,
            r matches Err(e) ==> e.names() == create_account_failures(*self),
    {
        let mut c = FieldCollector::new();
        c.check(validate_email(self.email.as_str()), "email");
        let len = char_count(self.password.as_str());
        let pw_ok = 8 <= len && len <= 100 && validate_password(self.password.as_str()).is_ok();
        c.check(pw_ok, "password");
        c.check(validate_name(self.name.as_str()).is_ok(), "name");
        c.check(validate_role(self.role.as_str()).is_ok(), "role");
        c.finish()
    }
}

/// Login request.
#[derive(Debug)]
pub struct LoginAccountDto {
    pub email: String,
    pub password: String,
}

/// The fields of a login request that break their rules, in declaration order.
pub open spec fn login_failures(dto: LoginAccountDto) -> Seq<Seq<char>> {
    let a = Seq::<Seq<char>>::empty();
    let a = if is_valid_email(dto.email@) { a } else { a.push("email"@) };
    if dto.password@.len() >= 1 { a } else { a.push("password"@) }
}

impl LoginAccountDto {
    /// Checks every field: a valid e-mail and a non-empty password.
    pub fn validate(&self) -> (r: Result<(), ValidationErrors>)
        ensures
            r is Ok <==> login_failures(*self).len() == 0,
            r matches Err(e) ==> e.names() == login_failures(*self),
    {
        let mut c = FieldCollector::new();
        c.check(validate_email(self.email.as_str()), "email");
        c.check(char_count(self.password.as_str()) >= 1, "password");
        c.finish()
    }
}

/// Login response body: the access token only; the refresh token travels in a
/// cookie.
#[derive(Debug)]
pub struct TokenResponseDto {
    pub access_token: String,
}

} // verus!

verus! {

/// Account response body: the account without its password hash.
#[derive(Debug)]
pub struct AccountResponseDto {
    pub id: i64,
    pub email: String,
    pub name: String,
}

impl From<crate::domains::account::entity::AccountEntity> for AccountResponseDto {
    fn from(entity: crate::domains::account::entity::AccountEntity) -> (r: Self) {
        AccountResponseDto { id: entity.id, email: entity.email, name: entity.name }
    }
}

impl vstd::std_specs::convert::FromSpecImpl<crate::domains::account::entity::AccountEntity> for AccountResponseDto {
    open spec fn obeys_from_spec() -> bool {
        true
    }

    open spec fn from_spec(entity: crate::domains::account::entity::AccountEntity) -> Self {
        AccountResponseDto { id: entity.id, email: entity.email, name: entity.name }
    }
}

} // verus!
