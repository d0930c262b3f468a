use rust_axum_layered_rest_api::common::auth::authorization::{authorize, has_permission};
use rust_axum_layered_rest_api::common::auth::permission::{
    AccountPermission, Permission, ProductPermission,
};
use rust_axum_layered_rest_api::common::auth::role::AccountRole;
use rust_axum_layered_rest_api::common::error::AppError;

#[test]
fn test_admin_permissions_all_cases() {
    let admin = &[AccountRole::Admin];

    assert!(has_permission(admin, Permission::Account(AccountPermission::GetMe)));
    assert!(has_permission(admin, Permission::Product(ProductPermission::CreateProduct)));
    assert!(has_permission(admin, Permission::Product(ProductPermission::GetProduct)));
    assert!(has_permission(admin, Permission::Product(ProductPermission::GetProducts)));
    assert!(has_permission(admin, Permission::Product(ProductPermission::PutProduct)));
    assert!(has_permission(admin, Permission::Product(ProductPermission::PatchProduct)));
    assert!(has_permission(admin, Permission::Product(ProductPermission::DeleteProduct)));
}

#[test]
fn test_employee_permissions_all_cases() {
    let employee = &[AccountRole::Employee];

    assert!(has_permission(employee, Permission::Account(AccountPermission::GetMe)));
    assert!(has_permission(employee, Permission::Product(ProductPermission::CreateProduct)));
    assert!(has_permission(employee, Permission::Product(ProductPermission::GetProduct)));
    assert!(has_permission(employee, Permission::Product(ProductPermission::GetProducts)));
    assert!(has_permission(employee, Permission::Product(ProductPermission::PutProduct)));
    assert!(has_permission(employee, Permission::Product(ProductPermission::PatchProduct)));
    assert!(!has_permission(employee, Permission::Product(ProductPermission::DeleteProduct)));
}

#[test]
fn test_customer_permissions_all_cases() {
    let customer = &[AccountRole::Customer];

    assert!(has_permission(customer, Permission::Account(AccountPermission::GetMe)));
    assert!(has_permission(customer, Permission::Product(ProductPermission::GetProduct)));
    assert!(has_permission(customer, Permission::Product(ProductPermission::GetProducts)));

    assert!(!has_permission(customer, Permission::Product(ProductPermission::CreateProduct)));
    assert!(!has_permission(customer, Permission::Product(ProductPermission::PutProduct)));
    assert!(!has_permission(customer, Permission::Product(ProductPermission::PatchProduct)));
    assert!(!has_permission(customer, Permission::Product(ProductPermission::DeleteProduct)));
}

#[test]
fn test_multiple_roles_union_matrix() {
    let mixed_roles = [AccountRole::Customer, AccountRole::Employee];

    assert!(has_permission(&mixed_roles, Permission::Product(ProductPermission::CreateProduct)));
    assert!(has_permission(&mixed_roles, Permission::Product(ProductPermission::GetProduct)));
    assert!(has_permission(&mixed_roles, Permission::Product(ProductPermission::PatchProduct)));
    assert!(!has_permission(&mixed_roles, Permission::Product(ProductPermission::DeleteProduct)));

    let super_roles = [AccountRole::Customer, AccountRole::Employee, AccountRole::Admin];
    assert!(has_permission(&super_roles, Permission::Product(ProductPermission::DeleteProduct)));
}

#[test]
fn test_empty_roles_have_no_permission() {
    let roles: [AccountRole; 0] = [];

    assert!(!has_permission(&roles, Permission::Product(ProductPermission::GetProduct)));
}

#[test]
fn authorize_forbids_missing_permission() {
    let result = authorize(&[AccountRole::Customer], Permission::Product(ProductPermission::PutProduct));
    assert!(matches!(result, Err(AppError::Forbidden)));
    assert!(authorize(&[AccountRole::Employee], Permission::Product(ProductPermission::PutProduct)).is_ok());
}

#[test]
fn repeated_roles_keep_the_same_permissions() {
    let roles = [AccountRole::Customer, AccountRole::Customer];
    assert!(has_permission(&roles, Permission::Account(AccountPermission::GetMe)));
    assert!(!has_permission(&roles, Permission::Product(ProductPermission::CreateProduct)));
}
