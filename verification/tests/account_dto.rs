use rust_axum_layered_rest_api::domains::account::dto::{
    validate_name, validate_password, validate_role, AccountResponseDto, CreateAccountDto,
    LoginAccountDto,
};
use rust_axum_layered_rest_api::domains::account::entity::AccountEntity;

#[test]
fn password_with_3_or_more_combinations_passes() {
    assert!(validate_password("Abcdefg1").is_ok());
    assert!(validate_password("ABCDefg!").is_ok());
    assert!(validate_password("ABCDEFG1!").is_ok());
    assert!(validate_password("abcdefg1!").is_ok());
    assert!(validate_password("Abcdefg1!").is_ok());
}

#[test]
fn password_with_non_ascii_as_special_passes() {
    assert!(validate_password("ABCDEFG1가").is_ok());
    assert!(validate_password("abcdefg1가").is_ok());
    assert!(validate_password("ABCDefg가").is_ok());
    assert!(validate_password("abcdefg1🙂").is_ok());
}

#[test]
fn password_with_1_combination_fails() {
    assert!(validate_password("abcdefgh").is_err());
    assert!(validate_password("ABCDEFGH").is_err());
    assert!(validate_password("12345678").is_err());
    assert!(validate_password("!!!!!!!!").is_err());
}

#[test]
fn password_with_2_combinations_fails() {
    assert!(validate_password("abcdefg1").is_err());
    assert!(validate_password("ABCDEFG1").is_err());
    assert!(validate_password("ABCDefgh").is_err());
    assert!(validate_password("abcdefg!").is_err());
    assert!(validate_password("ABCDEFG!").is_err());
    assert!(validate_password("1234567!").is_err());
}

#[test]
fn password_with_whitespace_fails() {
    assert!(validate_password("Abcdefg 1").is_err());
    assert!(validate_password("Abcdefg1 ").is_err());
    assert!(validate_password(" Abcdefg1").is_err());
}

#[test]
fn password_error_codes_name_the_broken_rule() {
    assert_eq!(validate_password("Abc defg1!").unwrap_err().code(), "password_whitespace");
    assert_eq!(validate_password("abcdefgh").unwrap_err().code(), "password_combination");
    assert_eq!(validate_password("Abcdefg1\u{3000}").unwrap_err().code(), "password_whitespace");
}

#[test]
fn name_rule_counts_trimmed_characters() {
    assert!(validate_name("홍길동").is_ok());
    assert!(validate_name("   ").is_err());
    assert!(validate_name("").is_err());
    assert!(validate_name(&"a".repeat(50)).is_ok());
    assert!(validate_name(&format!("  {}  ", "a".repeat(50))).is_ok());
    assert!(validate_name(&"a".repeat(51)).is_err());
    assert_eq!(validate_name(&"가".repeat(51)).unwrap_err().code(), "name_length");
}

#[test]
fn role_rule_refuses_admin_and_unknown() {
    assert!(validate_role("customer").is_ok());
    assert!(validate_role("Employee").is_ok());
    assert_eq!(validate_role("admin").unwrap_err().code(), "invalid_role");
    assert_eq!(validate_role("ADMIN").unwrap_err().code(), "invalid_role");
    assert!(validate_role("root").is_err());
}

fn create_dto(email: &str, password: String, name: &str, role: &str) -> CreateAccountDto {
    CreateAccountDto {
        email: email.into(),
        password,
        name: name.into(),
        role: role.into(),
    }
}

#[test]
fn create_account_dto_valid() {
    let dto = CreateAccountDto {
        email: "test@example.com".into(),
        password: "Password1!".into(),
        name: "홍길동".into(),
        role: "customer".into(),
    };
    assert!(dto.validate().is_ok());
}

#[test]
fn create_account_dto_invalid_email_fails() {
    let dto = CreateAccountDto {
        email: "not-an-email".into(),
        password: "Password1!".into(),
        name: "홍길동".into(),
        role: "customer".into(),
    };
    let result = dto.validate();
    assert!(result.is_err());
    assert!(result.unwrap_err().field_errors().contains_key("email"));
}

#[test]
fn create_account_dto_invalid_password() {
    let dto = CreateAccountDto {
        email: "test@example.com".into(),
        password: "password".into(),
        name: "홍길동".into(),
        role: "customer".into(),
    };
    assert!(dto.validate().is_err());
}

#[test]
fn create_account_dto_password_too_short() {
    let dto = CreateAccountDto {
        email: "test@example.com".into(),
        password: "Aa1!".into(),
        name: "홍길동".into(),
        role: "customer".into(),
    };
    let result = dto.validate();
    assert!(result.is_err());
    assert!(result.unwrap_err().field_errors().contains_key("password"));
}

#[test]
fn create_account_dto_password_too_long() {
    let long_password = format!("Aa1!{}", "a".repeat(100));
    let dto = CreateAccountDto {
        email: "test@example.com".into(),
        password: long_password,
        name: "홍길동".into(),
        role: "customer".into(),
    };
    assert!(dto.validate().is_err());
}

#[test]
fn create_account_customer_role_passes() {
    let dto = CreateAccountDto {
        email: "test@example.com".into(),
        password: "Password1!".into(),
        name: "홍길동".into(),
        role: "customer".into(),
    };
    assert!(dto.validate().is_ok());
}

#[test]
fn create_account_employee_role_passes() {
    let dto = CreateAccountDto {
        email: "test@example.com".into(),
        password: "Password1!".into(),
        name: "홍길동".into(),
        role: "employee".into(),
    };
    assert!(dto.validate().is_ok());
}

#[test]
fn create_account_admin_role_fails() {
    let dto = CreateAccountDto {
        email: "test@example.com".into(),
        password: "Password1!".into(),
        name: "홍길동".into(),
        role: "admin".into(),
    };
    let result = dto.validate();
    assert!(result.is_err());
    assert!(result.unwrap_err().field_errors().contains_key("role"));
}

#[test]
fn create_account_unknown_role_fails() {
    let dto = CreateAccountDto {
        email: "test@example.com".into(),
        password: "Password1!".into(),
        name: "홍길동".into(),
        role: "unknown".into(),
    };
    let result = dto.validate();
    assert!(result.is_err());
    assert!(result.unwrap_err().field_errors().contains_key("role"));
}

#[test]
fn create_account_every_broken_field_is_reported() {
    let dto = create_dto("nope", "short".into(), "  ", "admin");
    let errors = dto.validate().unwrap_err();
    let fields = errors.field_errors();
    assert_eq!(fields.len(), 4);
    assert!(fields.contains_key("email"));
    assert!(fields.contains_key("password"));
    assert!(fields.contains_key("name"));
    assert!(fields.contains_key("role"));
    assert!(!fields.contains_key("id"));
}

#[test]
fn create_account_boundary_lengths() {
    let eight = "Passwd1!".to_string();
    assert!(create_dto("a@b.co", eight, "n", "customer").validate().is_ok());
    let hundred = format!("Aa1!{}", "a".repeat(96));
    assert!(create_dto("a@b.co", hundred, "n", "customer").validate().is_ok());
    let seven = "Pass1!a".to_string();
    assert!(create_dto("a@b.co", seven, "n", "customer").validate().is_err());
}

#[test]
fn login_account_dto_valid() {
    let dto = LoginAccountDto {
        email: "test@example.com".into(),
        password: "anything".into(),
    };
    assert!(dto.validate().is_ok());
}

#[test]
fn login_account_dto_invalid_email_fails() {
    let dto = LoginAccountDto {
        email: "not-an-email".into(),
        password: "anything".into(),
    };
    assert!(dto.validate().is_err());
}

#[test]
fn login_account_dto_empty_password_fails() {
    let dto = LoginAccountDto {
        email: "test@example.com".into(),
        password: "".into(),
    };
    assert!(dto.validate().is_err());
}

#[test]
fn account_response_hides_password_hash() {
    let entity = AccountEntity {
        id: 3,
        email: "me@example.com".into(),
        password_hash: "$argon2id$...".into(),
        name: "Me".into(),
    };
    let dto = AccountResponseDto::from(entity);
    assert_eq!(dto.id, 3);
    assert_eq!(dto.email, "me@example.com");
    assert_eq!(dto.name, "Me");
}
