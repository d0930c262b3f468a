//! Which roles hold which permissions.
use vstd::prelude::*;
use crate::common::auth::permission::{AccountPermission, Permission, ProductPermission};
use crate::common::auth::role::AccountRole;

verus! {

/// Whether `role` holds `p`: an admin holds every permission, an employee every
/// permission but deleting products, a customer only reading its own account
/// and reading products.
pub open spec fn grants(role: AccountRole, p: Permission) -> bool {
    match role {
        AccountRole::Admin => true,
        AccountRole::Employee => p != Permission::Product(ProductPermission::DeleteProduct),
        AccountRole::Customer => {
            ||| p == Permission::Account(AccountPermission::GetMe)
            ||| p == Permission::Product(ProductPermission::GetProduct)
            ||| p == Permission::Product(ProductPermission::GetProducts)
        },
    }
}

/// The permissions held by any of `roles`: the union of each role's.
pub open spec fn permissions_of(roles: Seq<AccountRole>) -> Set<Permission> {
    Set::new(|p: Permission| exists|i: int| 0 <= i < roles.len() && grants(#[trigger] roles[i], p))
}

/// The permissions of a single role, without repetition.
pub fn permissions_for_role(role: AccountRole) -> (r: Vec<Permission>)
    ensures
        forall|p: Permission| r@.contains(p) <==> grants(role, p),
        r@.no_duplicates(),
{
    let v = match role {
        AccountRole::Admin => vec![
            Permission::Account(AccountPermission::GetMe),
            Permission::Product(ProductPermission::CreateProduct),
            Permission::Product(ProductPermission::GetProduct),
            Permission::Product(ProductPermission::GetProducts),
            Permission::Product(ProductPermission::PutProduct),
            Permission::Product(ProductPermission::PatchProduct),
            Permission::Product(ProductPermission::DeleteProduct),
        ],
        AccountRole::Employee => vec![
            Permission::Account(AccountPermission::GetMe),
            Permission::Product(ProductPermission::GetProduct),
            Permission::Product(ProductPermission::GetProducts),
            Permission::Product(ProductPermission::CreateProduct),
            Permission::Product(ProductPermission::PutProduct),
            Permission::Product(ProductPermission::PatchProduct),
        ],
        AccountRole::Customer => vec![
            Permission::Account(AccountPermission::GetMe),
            Permission::Product(ProductPermission::GetProduct),
            Permission::Product(ProductPermission::GetProducts),
        ],
    };
    proof {
        assert forall|p: Permission| v@.contains(p) <==> grants(role, p) by {
            if grants(role, p) {
                match p {
                    Permission::Account(AccountPermission::GetMe) => assert(v@[0] == p),
                    Permission::Product(ProductPermission::CreateProduct) => {
                        if role == AccountRole::Admin { assert(v@[1] == p) } else { assert(v@[3] == p) }
                    },
                    Permission::Product(ProductPermission::GetProduct) => {
                        if role == AccountRole::Admin { assert(v@[2] == p) } else { assert(v@[1] == p) }
                    },
                    Permission::Product(ProductPermission::GetProducts) => {
                        if role == AccountRole::Admin { assert(v@[3] == p) } else { assert(v@[2] == p) }
                    },
                    Permission::Product(ProductPermission::PutProduct) => assert(v@[4] == p),
                    Permission::Product(ProductPermission::PatchProduct) => assert(v@[5] == p),
                    Permission::Product(ProductPermission::DeleteProduct) => assert(v@[6] == p),
                }
            }
        }
    }
    v
}

/// Whether `v` holds `p`.
fn contains_permission(v: &Vec<Permission>, p: Permission) -> (r: bool)
    ensures
        r == v@.contains(p),
{
    let mut i: usize = 0;
    while i < v.len()
        invariant
            i <= v@.len(),
            forall|k: int| 0 <= k < i ==> v@[k] != p,
        decreases v@.len() - i,
    {
        if v[i] == p {
            return true;
        }
        i = i + 1;
    }
    false
}

/// The union of the permissions of `roles`, without repetition.
pub fn permissions_for_roles(roles: &[AccountRole]) -> (r: Vec<Permission>)
    ensures
        r@.to_set() == permissions_of(roles@),
        r@.no_duplicates(),
{
    let mut out: Vec<Permission> = Vec::new();
    let mut i: usize = 0;
    while i < roles.len()
        invariant
            i <= roles@.len(),
            out@.no_duplicates(),
            forall|p: Permission| out@.contains(p) <==> permissions_of(roles@.subrange(0, i as int)).contains(p),
        decreases roles@.len() - i,
    {
        let perms = permissions_for_role(roles[i]);
        let mut j: usize = 0;
        let ghost before = out@;
        assert(forall|p: Permission| before.contains(p) <==> permissions_of(roles@.subrange(0, i as int)).contains(p));
        while j < perms.len()
            invariant
                i < roles@.len(),
                j <= perms@.len(),
                out@.no_duplicates(),
                forall|p: Permission| out@.contains(p) <==> (before.contains(p) || exists|k: int| 0 <= k < j && #[trigger] perms@[k] == p),
            decreases perms@.len() - j,
        {
            let p = perms[j];
            let ghost prev = out@;
            let ghost jj = j as int;
            assert(forall|q: Permission| prev.contains(q) <==> (before.contains(q) || exists|k: int| 0 <= k < jj && #[trigger] perms@[k] == q));
            if !contains_permission(&out, p) {
                out.push(p);
                proof {
                    assert forall|a: int, b: int| 0 <= a < b < out@.len() implies out@[a] != out@[b] by {
                        if b == prev.len() {
                            assert(prev[a] == out@[a]);
                        }
                    }
                }
            }
            j = j + 1;
            proof {
                assert forall|q: Permission| out@.contains(q) <==> (prev.contains(q) || q == p) by {
                    if out@.len() != prev.len() {
                        assert(out@ == prev.push(p));
                        if q == p {
                            assert(out@[prev.len() as int] == p);
                        }
                        if prev.contains(q) {
                            let k = choose|k: int| 0 <= k < prev.len() && prev[k] == q;
                            assert(out@[k] == q);
                        }
                        if out@.contains(q) {
                            let k = choose|k: int| 0 <= k < out@.len() && out@[k] == q;
                            if k < prev.len() {
                                assert(prev[k] == q);
                            }
                        }
                    }
                }
                assert forall|q: Permission| out@.contains(q) <==> (before.contains(q) || exists|k: int| 0 <= k < j && #[trigger] perms@[k] == q) by {
                    assert(prev.contains(q) <==> (before.contains(q) || exists|k: int| 0 <= k < jj && #[trigger] perms@[k] == q));
                    if exists|k: int| 0 <= k < j && #[trigger] perms@[k] == q {
                        let k = choose|k: int| 0 <= k < j && #[trigger] perms@[k] == q;
                        if k < jj {
                            assert(perms@[k] == q);
                        } else {
                            assert(q == p);
                        }
                    }
                    if q == p {
                        assert(perms@[jj] == q);
                    }
                    if exists|k: int| 0 <= k < jj && #[trigger] perms@[k] == q {
                        let k = choose|k: int| 0 <= k < jj && #[trigger] perms@[k] == q;
                        assert(0 <= k < j && perms@[k] == q);
                    }
                }
            }
        }
        proof {
            let pre = roles@.subrange(0, i as int);
            let post = roles@.subrange(0, i + 1);
            assert forall|p: Permission| out@.contains(p) <==> permissions_of(post).contains(p) by {
                assert(out@.contains(p) <==> (before.contains(p) || exists|k: int| 0 <= k < j && #[trigger] perms@[k] == p));
                assert(before.contains(p) <==> permissions_of(pre).contains(p));
                if grants(roles@[i as int], p) {
                    assert(perms@.contains(p));
                    let k = choose|k: int| 0 <= k < perms@.len() && perms@[k] == p;
                    assert(post[i as int] == roles@[i as int]);
                    assert(grants(post[i as int], p));
                }
                if exists|k: int| 0 <= k < j && #[trigger] perms@[k] == p {
                    let k = choose|k: int| 0 <= k < j && #[trigger] perms@[k] == p;
                    assert(perms@.contains(p));
                    assert(grants(roles@[i as int], p));
                    assert(post[i as int] == roles@[i as int]);
                    assert(grants(post[i as int], p));
                }
                if permissions_of(post).contains(p) {
                    let k = choose|k: int| 0 <= k < post.len() && grants(#[trigger] post[k], p);
                    if k < i {
                        assert(pre[k] == post[k]);
                        assert(permissions_of(pre).contains(p));
                    } else {
                        assert(post[k] == roles@[i as int]);
                        assert(perms@.contains(p));
                        let k2 = choose|k2: int| 0 <= k2 < perms@.len() && perms@[k2] == p;
                        assert(0 <= k2 < j && perms@[k2] == p);
                    }
                }
                if permissions_of(pre).contains(p) {
                    let k = choose|k: int| 0 <= k < pre.len() && grants(#[trigger] pre[k], p);
                    assert(post[k] == pre[k]);
                    assert(grants(post[k], p));
                }
            }
        }
        i = i + 1;
    }
    proof {
        assert(roles@.subrange(0, roles@.len() as int) =~= roles@);
        assert(out@.to_set() =~= permissions_of(roles@));
    }
    out
}

/// Whether any of `roles` holds `required`.
pub fn has_permission(roles: &[AccountRole], required: Permission) -> (r: bool)
    ensures
        r == permissions_of(roles@).contains(required),
        r <==> exists|i: int| 0 <= i < roles@.len() && grants(#[trigger] roles@[i], required),
{
    let perms = permissions_for_roles(roles);
    let r = contains_permission(&perms, required);
    proof {
        assert(perms@.contains(required) == perms@.to_set().contains(required));
    }
    r
}

/// The decision of the authorization middleware for an authenticated user with
/// `roles`: pass, or forbidden when no role holds `required`.
pub fn authorize(roles: &[AccountRole], required: Permission) -> (r: Result<(), crate::common::error::AppError>)
    ensures
        r is Ok <==> permissions_of(roles@).contains(required),
        r is Err ==> r matches Err(crate::common::error::AppError::Forbidden),
{
    if !has_permission(roles, required) {
        return Err(crate::common::error::AppError::Forbidden);
    }
    Ok(())
}

/// A customer's permissions are an employee's, and an employee's an admin's.
pub proof fn lemma_role_hierarchy(p: Permission)
    ensures
        grants(AccountRole::Customer, p) ==> grants(AccountRole::Employee, p),
        grants(AccountRole::Employee, p) ==> grants(AccountRole::Admin, p),
{
}

/// Only an admin may delete products.
pub proof fn lemma_only_admin_deletes(role: AccountRole)
    ensures
        grants(role, Permission::Product(ProductPermission::DeleteProduct)) <==> role
            == AccountRole::Admin,
{
}

/// A customer may only read: it holds no product create, replace, update or
/// delete permission.
pub proof fn lemma_customer_read_only(p: Permission)
    requires
        grants(AccountRole::Customer, p),
    ensures
        p == Permission::Account(AccountPermission::GetMe) || p == Permission::Product(
            ProductPermission::GetProduct,
        ) || p == Permission::Product(ProductPermission::GetProducts),
{
}

/// Every role may read its own account and read products.
pub proof fn lemma_every_role_reads(role: AccountRole)
    ensures
        grants(role, Permission::Account(AccountPermission::GetMe)),
        grants(role, Permission::Product(ProductPermission::GetProduct)),
        grants(role, Permission::Product(ProductPermission::GetProducts)),
{
}

/// Holding more roles never loses a permission: the permissions of several
/// roles are the union of each role's.
pub proof fn lemma_permissions_monotone(roles: Seq<AccountRole>, more: Seq<AccountRole>, p: Permission)
    requires
        forall|i: int| 0 <= i < roles.len() ==> more.contains(#[trigger] roles[i]),
        permissions_of(roles).contains(p),
    ensures
        permissions_of(more).contains(p),
{
    let i = choose|i: int| 0 <= i < roles.len() && grants(#[trigger] roles[i], p);
    assert(more.contains(roles[i]));
    let j = choose|j: int| 0 <= j < more.len() && more[j] == roles[i];
    assert(grants(more[j], p));
}

/// With no role, no permission is held.
pub proof fn lemma_no_roles_no_permission(p: Permission)
    ensures
        !permissions_of(Seq::<AccountRole>::empty()).contains(p),
{
}

/// The permission check of a request that passed authentication: without an
/// authenticated user (authentication did not run) it is an internal error;
/// otherwise the user's roles must grant the permission.
pub fn authorize_user(user: Option<&crate::common::auth::extractor::AuthenticatedUser>, required: Permission) -> (r: Result<
    (),
    crate::common::error::AppError,
>)
    ensures
        match user {
            None => crate::common::error::internal_message(r) == Some("인증된 사용자 정보가 없습니다."@),
            Some(u) => (r is Ok <==> permissions_of(u.roles@).contains(required)) && (r is Err ==> r matches Err(
                crate::common::error::AppError::Forbidden,
            )),
        },
{
    match user {
        None => Err(crate::common::error::AppError::Internal(String::from_str("인증된 사용자 정보가 없습니다."))),
        Some(u) => authorize(u.roles.as_slice(), required),
    }
}

} // verus!
