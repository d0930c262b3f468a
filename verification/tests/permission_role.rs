use rust_axum_layered_rest_api::common::auth::permission::{
    AccountPermission, Permission, ProductPermission,
};
use rust_axum_layered_rest_api::common::auth::role::AccountRole;
use rust_axum_layered_rest_api::common::error::AppError;

#[test]
fn account_permission_to_string() {
    assert_eq!(Permission::Account(AccountPermission::GetMe).as_str(), "account:get_me");
}

#[test]
fn product_permissions_to_string() {
    assert_eq!(
        Permission::Product(ProductPermission::CreateProduct).as_str(),
        "product:create_product"
    );
    assert_eq!(Permission::Product(ProductPermission::GetProduct).as_str(), "product:get_product");
    assert_eq!(
        Permission::Product(ProductPermission::GetProducts).as_str(),
        "product:get_products"
    );
    assert_eq!(Permission::Product(ProductPermission::PutProduct).as_str(), "product:put_product");
    assert_eq!(
        Permission::Product(ProductPermission::PatchProduct).as_str(),
        "product:patch_product"
    );
    assert_eq!(
        Permission::Product(ProductPermission::DeleteProduct).as_str(),
        "product:delete_product"
    );
}

#[test]
fn role_to_string() {
    assert_eq!(AccountRole::Admin.as_str(), "admin");
    assert_eq!(AccountRole::Customer.as_str(), "customer");
    assert_eq!(AccountRole::Employee.as_str(), "employee");
}

#[test]
fn string_to_role() {
    assert_eq!(AccountRole::try_from("admin").unwrap(), AccountRole::Admin);
    assert_eq!(AccountRole::try_from("CUSTOMER").unwrap(), AccountRole::Customer);
    assert_eq!(AccountRole::try_from("employee").unwrap(), AccountRole::Employee);
}

#[test]
fn invalid_role_fails() {
    assert!(AccountRole::try_from("unknown").is_err());
}

#[test]
fn invalid_role_is_a_bad_request() {
    match AccountRole::try_from("manager") {
        Err(AppError::BadRequest(message)) => assert_eq!(message, "올바르지 않은 요청 형식입니다."),
        other => panic!("unexpected {:?}", other),
    }
    assert_eq!(AccountRole::try_from("EmPlOyEe").unwrap(), AccountRole::Employee);
    assert!(AccountRole::try_from(" admin").is_err());
}

#[test]
fn error_status_and_code() {
    assert_eq!(AppError::Unauthorized.status_code(), 401);
    assert_eq!(AppError::Unauthorized.code(), "UNAUTHORIZED");
    assert_eq!(AppError::InvalidCredentials.status_code(), 401);
    assert_eq!(AppError::InvalidCredentials.code(), "INVALID_CREDENTIALS");
    assert_eq!(AppError::Forbidden.status_code(), 403);
    assert_eq!(AppError::NotFound(String::new()).code(), "NOT_FOUND");
    assert_eq!(AppError::BadRequest(String::new()).status_code(), 400);
    assert_eq!(AppError::Internal(String::new()).status_code(), 500);
    assert_eq!(AppError::Internal(String::new()).code(), "INTERNAL_SERVER_ERROR");
}
