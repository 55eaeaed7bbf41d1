//! Category rows: admin-gated CRUD with unique names.
//!
//! Deleting a category releases the products that referenced it, as
//! the storage layer's delete rule would.

use vstd::prelude::*;

use crate::claims::{claims_admin, Claims};
use crate::data::{string_eq, Category, Product};
use crate::errors::ApiError;
use crate::store::{has_category, Store};

verus! {

/// Some stored category carries this name.
pub open spec fn category_name_taken(categories: Seq<Category>, name: Seq<char>) -> bool {
    exists|j: int|
        0 <= j < categories.len() && (#[trigger] categories[j]).name is Some
            && categories[j].name->0@ == name
}

/// The index of the stored category with this id; meaningful only
/// when `has_category` holds and ids are unique.
pub open spec fn category_index(categories: Seq<Category>, cid: i32) -> int {
    choose|j: int| 0 <= j < categories.len() && (#[trigger] categories[j]).id == Some(cid)
}

/// True when no stored category carries the name; the scan behind the
/// uniqueness checks.
fn name_free(store: &Store, name: &String, except: Option<i32>) -> (r: bool)
    ensures
        r == !exists|j: int|
            0 <= j < store.categories@.len() && (#[trigger] store.categories@[j]).name is Some
                && store.categories@[j].name->0@ == name@ && (except matches Some(e)
                ==> store.categories@[j].id != Some(e)),
{
    let mut i: usize = 0;
    while i < store.categories.len()
        invariant
            i <= store.categories@.len(),
            forall|j: int|
                0 <= j < i ==> !((#[trigger] store.categories@[j]).name is Some
                    && store.categories@[j].name->0@ == name@ && (except matches Some(e)
                    ==> store.categories@[j].id != Some(e))),
        decreases store.categories@.len() - i,
    {
        let row = &store.categories[i];
        let skipped = match (except, row.id) {
            (Some(e), Some(rid)) => e == rid,
            _ => false,
        };
        if !skipped {
            if let Some(n) = &row.name {
                if string_eq(n, name) {
                    return false;
                }
            }
        }
        i += 1;
    }
    true
}

/// Creates a category; only an administrator may. The name is
/// required and must be unique, as the storage layer's constraints
/// demand.
pub fn create_category(
    store: &mut Store,
    claims: Claims,
    admin_role: &str,
    category: Category,
) -> (r: Result<(), ApiError>)
    requires
        old(store).wf(),
    ensures
        final(store).wf(),
        r is Ok <==> {
            &&& claims_admin(old(store).users@, claims.sub, admin_role@)
            &&& category.name is Some
            &&& !category_name_taken(old(store).categories@, category.name->0@)
            &&& old(store).next_category_id < i32::MAX
        },
        match r {
            Ok(_) => {
                &&& final(store).categories@ == old(store).categories@.push(
                    (Category {
                        id: Some(old(store).next_category_id),
                        name: category.name,
                    }),
                )
                &&& final(store).next_category_id == old(store).next_category_id + 1
                &&& final(store).products@ == old(store).products@
                &&& final(store).images@ == old(store).images@
                &&& final(store).sizes@ == old(store).sizes@
                &&& final(store).next_product_id == old(store).next_product_id
                &&& final(store).next_image_id == old(store).next_image_id
                &&& final(store).next_size_id == old(store).next_size_id
                &&& final(store).orders_unchanged(*old(store))
                &&& final(store).users_unchanged(*old(store))
            },
            Err(e) => {
                &&& *final(store) == *old(store)
                &&& (!claims_admin(old(store).users@, claims.sub, admin_role@) ==> e
                    == ApiError::Unauthorized)
                &&& (claims_admin(old(store).users@, claims.sub, admin_role@) ==> e
                    == ApiError::DatabaseError)
            },
        },
{
    if let Err(e) = Claims::check_admin(store, claims, admin_role) {
        return Err(e);
    }
    let name = match category.name {
        Some(n) => n,
        None => {
            return Err(ApiError::DatabaseError);
        },
    };
    if !name_free(store, &name, None) {
        return Err(ApiError::DatabaseError);
    }
    if store.next_category_id == i32::MAX {
        return Err(ApiError::DatabaseError);
    }
    let id = store.next_category_id;
    store.categories.push(Category { id: Some(id), name: Some(name) });
    store.next_category_id = id + 1;
    Ok(())
}

/// Lists all categories, in insertion order.
pub fn get_categories(store: &Store) -> (r: Vec<Category>)
    ensures
        r@ == store.categories@,
{
    let mut out: Vec<Category> = Vec::new();
    let mut i: usize = 0;
    while i < store.categories.len()
        invariant
            i <= store.categories@.len(),
            out@ == store.categories@.take(i as int),
        decreases store.categories@.len() - i,
    {
        out.push(store.categories[i].clone());
        proof {
            assert(out@ =~= store.categories@.take(i as int + 1));
        }
        i += 1;
    }
    proof {
        assert(store.categories@.take(store.categories@.len() as int) =~= store.categories@);
    }
    out
}

/// Reads one category. A missing row is a storage failure, as the
/// single-row read would report it.
pub fn get_category(store: &Store, id: i32) -> (r: Result<Category, ApiError>)
    requires
        store.wf(),
    ensures
        r is Ok <==> has_category(store.categories@, id),
        match r {
            Ok(c) => c == store.categories@[category_index(store.categories@, id)],
            Err(e) => e == ApiError::DatabaseError,
        },
{
    let j = match store.find_category(id) {
        Some(j) => j,
        None => {
            return Err(ApiError::DatabaseError);
        },
    };
    proof {
        let t = category_index(store.categories@, id);
        if t != j as int {
            assert(store.categories@[t].id == store.categories@[j as int].id);
        }
    }
    Ok(store.categories[j].clone())
}

/// A category other than `cid` already carries this name.
pub open spec fn name_taken_by_other(categories: Seq<Category>, name: Seq<char>, cid: i32) -> bool {
    exists|j: int|
        0 <= j < categories.len() && (#[trigger] categories[j]).id != Some(cid) && categories[j].name
            is Some && categories[j].name->0@ == name
}

/// The category table after category `cid` takes name `name`.
pub open spec fn with_category_name(categories: Seq<Category>, cid: i32, name: String) -> Seq<
    Category,
> {
    categories.map(
        |k: int, c: Category|
            if c.id == Some(cid) {
                Category { id: c.id, name: Some(name) }
            } else {
                c
            },
    )
}

/// Renames a category; only an administrator may. A missing name in
/// the body is a bad request; a name another category carries is a
/// storage failure; a missing row leaves the table unchanged.
pub fn update_category_name(
    store: &mut Store,
    claims: Claims,
    admin_role: &str,
    id: i32,
    name: Option<String>,
) -> (r: Result<(), ApiError>)
    requires
        old(store).wf(),
    ensures
        final(store).wf(),
        r is Ok <==> {
            &&& claims_admin(old(store).users@, claims.sub, admin_role@)
            &&& name is Some
            &&& !name_taken_by_other(old(store).categories@, name->0@, id)
        },
        match r {
            Ok(_) => {
                &&& final(store).categories@ == with_category_name(
                    old(store).categories@,
                    id,
                    name->0,
                )
                &&& final(store).next_category_id == old(store).next_category_id
                &&& final(store).products@ == old(store).products@
                &&& final(store).images@ == old(store).images@
                &&& final(store).sizes@ == old(store).sizes@
                &&& final(store).next_product_id == old(store).next_product_id
                &&& final(store).next_image_id == old(store).next_image_id
                &&& final(store).next_size_id == old(store).next_size_id
                &&& final(store).orders_unchanged(*old(store))
                &&& final(store).users_unchanged(*old(store))
            },
            Err(e) => {
                &&& *final(store) == *old(store)
                &&& (!claims_admin(old(store).users@, claims.sub, admin_role@) ==> e
                    == ApiError::Unauthorized)
                &&& (claims_admin(old(store).users@, claims.sub, admin_role@) && name is None ==> e
                    == ApiError::BadRequest)
                &&& (e == ApiError::DatabaseError <==> claims_admin(
                    old(store).users@,
                    claims.sub,
                    admin_role@,
                ) && name is Some && name_taken_by_other(old(store).categories@, name->0@, id))
            },
        },
{
    if let Err(e) = Claims::check_admin(store, claims, admin_role) {
        return Err(e);
    }
    let new_name = match name {
        Some(n) => n,
        None => {
            return Err(ApiError::BadRequest);
        },
    };
    // Another category may not already carry the name.
    if !name_free(store, &new_name, Some(id)) {
        return Err(ApiError::DatabaseError);
    }
    match store.find_category(id) {
        Some(j) => {
            store.categories[j].name = Some(new_name);
            proof {
                let pre = old(store).categories@;
                assert forall|k: int| 0 <= k < store.categories@.len() implies store.categories@[k]
                    == with_category_name(pre, id, name->0)[k] by {
                    if k != j as int && pre[k].id == Some(id) {
                        assert(pre[k].id != pre[j as int].id);
                    }
                }
                assert(store.categories@ =~= with_category_name(pre, id, name->0));
            }
        },
        None => {
            proof {
                let pre = old(store).categories@;
                assert forall|k: int| 0 <= k < store.categories@.len() implies store.categories@[k]
                    == with_category_name(pre, id, name->0)[k] by {}
                assert(store.categories@ =~= with_category_name(pre, id, name->0));
            }
        },
    }
    proof {
        let pre = old(store).categories@;
        assert forall|a: int, b: int| 0 <= a < b < store.categories@.len() implies (
        #[trigger] store.categories@[a]).id != (#[trigger] store.categories@[b]).id
            && store.categories@[a].name->0@ != store.categories@[b].name->0@ by {
            assert(store.categories@[a] == with_category_name(pre, id, name->0)[a]);
            assert(store.categories@[b] == with_category_name(pre, id, name->0)[b]);
        }
        assert(crate::store::categories_wf(store.categories@, store.next_category_id));
    }
    Ok(())
}

/// The product table after the references to category `cid` are
/// cleared, as the storage layer's delete rule would clear them.
pub open spec fn products_without_category(products: Seq<Product>, cid: i32) -> Seq<Product> {
    products.map(
        |k: int, p: Product|
            if p.category_id == Some(cid) {
                Product {
                    id: p.id,
                    name: p.name,
                    description: p.description,
                    primary_image_id: p.primary_image_id,
                    price: p.price,
                    size_id: p.size_id,
                    category_id: None,
                }
            } else {
                p
            },
    )
}

/// Deletes a category; only an administrator may. Products that
/// referenced it lose the reference. A missing row leaves the tables
/// unchanged.
pub fn delete_category_by_id(
    store: &mut Store,
    claims: Claims,
    admin_role: &str,
    id: i32,
) -> (r: Result<(), ApiError>)
    requires
        old(store).wf(),
    ensures
        final(store).wf(),
        r is Ok <==> claims_admin(old(store).users@, claims.sub, admin_role@),
        match r {
            Ok(_) => {
                &&& final(store).categories@ == if has_category(old(store).categories@, id) {
                    old(store).categories@.remove(category_index(old(store).categories@, id))
                } else {
                    old(store).categories@
                }
                &&& final(store).products@ == products_without_category(
                    old(store).products@,
                    id,
                )
                &&& final(store).next_category_id == old(store).next_category_id
                &&& final(store).images@ == old(store).images@
                &&& final(store).sizes@ == old(store).sizes@
                &&& final(store).next_product_id == old(store).next_product_id
                &&& final(store).next_image_id == old(store).next_image_id
                &&& final(store).next_size_id == old(store).next_size_id
                &&& final(store).orders_unchanged(*old(store))
                &&& final(store).users_unchanged(*old(store))
            },
            Err(e) => {
                &&& *final(store) == *old(store)
                &&& e == ApiError::Unauthorized
            },
        },
{
    if let Err(e) = Claims::check_admin(store, claims, admin_role) {
        return Err(e);
    }
    match store.find_category(id) {
        Some(j) => {
            proof {
                let t = category_index(old(store).categories@, id);
                if t != j as int {
                    assert(old(store).categories@[t].id == old(store).categories@[j as int].id);
                }
            }
            store.categories.remove(j);
        },
        None => {},
    }
    // Release the products of the deleted category.
    let ghost mid_products = store.products@;
    let mut k: usize = 0;
    while k < store.products.len()
        invariant
            store.products@.len() == mid_products.len(),
            forall|j2: int|
                0 <= j2 < k ==> store.products@[j2] == products_without_category(
                    mid_products,
                    id,
                )[j2],
            forall|j2: int| k <= j2 < mid_products.len() ==> store.products@[j2]
                == mid_products[j2],
            mid_products == old(store).products@,
            store.categories@ == if has_category(old(store).categories@, id) {
                old(store).categories@.remove(category_index(old(store).categories@, id))
            } else {
                old(store).categories@
            },
            store.images@ == old(store).images@,
            store.sizes@ == old(store).sizes@,
            store.next_product_id == old(store).next_product_id,
            store.next_image_id == old(store).next_image_id,
            store.next_category_id == old(store).next_category_id,
            store.next_size_id == old(store).next_size_id,
            store.orders_unchanged(*old(store)),
            store.users_unchanged(*old(store)),
        decreases mid_products.len() - k,
    {
        let clear = match store.products[k].category_id {
            Some(c) => c == id,
            None => false,
        };
        if clear {
            store.products[k].category_id = None;
        }
        k += 1;
    }
    proof {
        assert(store.products@ =~= products_without_category(old(store).products@, id));
        let pre = *old(store);
        assert(forall|p: int|
            0 <= p < store.products@.len() ==> (#[trigger] store.products@[p]).id
                == pre.products@[p].id && store.products@[p].primary_image_id == pre.products@[
            p].primary_image_id);
        assert(crate::store::products_wf(store.products@, store.next_product_id));
        assert(crate::store::primaries_linked(store.products@, store.images@));
        if has_category(pre.categories@, id) {
            let t = category_index(pre.categories@, id);
            assert forall|a: int, b: int|
                0 <= a < b < store.categories@.len() implies (#[trigger] store.categories@[a]).id
                != (#[trigger] store.categories@[b]).id && store.categories@[a].name->0@
                != store.categories@[b].name->0@ by {
                let a0 = if a < t {
                    a
                } else {
                    a + 1
                };
                let b0 = if b < t {
                    b
                } else {
                    b + 1
                };
                assert(store.categories@[a] == pre.categories@[a0]);
                assert(store.categories@[b] == pre.categories@[b0]);
            }
            assert(crate::store::categories_wf(store.categories@, store.next_category_id));
        }
    }
    Ok(())
}

} // verus!
