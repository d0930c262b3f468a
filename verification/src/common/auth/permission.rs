//! The permissions that guard each route.
use vstd::prelude::*;

verus! {

/// A permission required by a secured route.
#[derive(Debug, Clone, Copy, PartialEq, Eq, Hash, Structural)]
pub enum Permission {
    Account(AccountPermission),
    Product(ProductPermission),
}

/// Permissions of the account routes. Signing up needs no permission.
#[derive(Debug, Clone, Copy, PartialEq, Eq, Hash, Structural)]
pub enum AccountPermission {
    GetMe,
}

/// Permissions of the product routes.
#[derive(Debug, Clone, Copy, PartialEq, Eq, Hash, Structural)]
pub enum ProductPermission {
    CreateProduct,
    GetProduct,
    GetProducts,
    PutProduct,
    PatchProduct,
    DeleteProduct,
}

impl AccountPermission {
    /// The permission's name, `account:<action>`.
    pub open spec fn name(self) -> Seq<char> {
        match self {
            AccountPermission::GetMe => "account:get_me"@,
        }
    }

    pub fn as_str(&self) -> (r: &'static str)
        ensures
            r@ == self.name(),
    {
        match self {
            AccountPermission::GetMe => "account:get_me",
        }
    }
}

impl ProductPermission {
    /// The permission's name, `product:<action>`.
    pub open spec fn name(self) -> Seq<char> {
        match self {
            ProductPermission::CreateProduct => "product:create_product"@,
            ProductPermission::GetProduct => "product:get_product"@,
            ProductPermission::GetProducts => "product:get_products"@,
            ProductPermission::PutProduct => "product:put_product"@,
            ProductPermission::PatchProduct => "product:patch_product"@,
            ProductPermission::DeleteProduct => "product:delete_product"@,
        }
    }

    pub fn as_str(&self) -> (r: &'static str)
        ensures
            r@ == self.name(),
    {
        match self {
            ProductPermission::CreateProduct => "product:create_product",
            ProductPermission::GetProduct => "product:get_product",
            ProductPermission::GetProducts => "product:get_products",
            ProductPermission::PutProduct => "product:put_product",
            ProductPermission::PatchProduct => "product:patch_product",
            ProductPermission::DeleteProduct => "product:delete_product",
        }
    }
}

impl Permission {
    /// The permission's name: that of the account or product permission it wraps.
    pub open spec fn name(self) -> Seq<char> {
        match self {
            Permission::Account(p) => p.name(),
            Permission::Product(p) => p.name(),
        }
    }

    pub fn as_str(&self) -> (r: &'static str)
        ensures
            r@ == self.name(),
    {
        match self {
            Permission::Account(permission) => permission.as_str(),
            Permission::Product(permission) => permission.as_str(),
        }
    }
}

/// Distinct permissions have distinct names.
pub proof fn lemma_permission_names_distinct(a: Permission, b: Permission)
    requires
        a != b,
    ensures
        a.name() != b.name(),
{
    reveal_strlit("account:get_me");
    reveal_strlit("product:create_product");
    reveal_strlit("product:get_product");
    reveal_strlit("product:get_products");
    reveal_strlit("product:put_product");
    reveal_strlit("product:patch_product");
    reveal_strlit("product:delete_product");
    let x = a.name();
    let y = b.name();
    if x == y {
        assert(x.len() == y.len());
        assert(x[8] == y[8]);
        assert(x[10] == y[10]);
        assert(x[13] == y[13]);
        assert(x[12] == y[12]);
    }
}

} // verus!
