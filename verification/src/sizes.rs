//! Size rows: per-product stock buckets.
//!
//! Creating a size row back-links the owning product's `size_id` in
//! the same step, so a product never points at a size row that was
//! not stored.

use vstd::prelude::*;

use crate::claims::{claims_admin, Claims};
use crate::data::{Product, Size, SizeRow};
use crate::errors::ApiError;
use crate::store::Store;

verus! {

/// The product table after product `pid` starts pointing at size row
/// `sid`.
pub open spec fn with_size_link(products: Seq<Product>, pid: i32, sid: i32) -> Seq<Product> {
    products.map(
        |k: int, p: Product|
            if p.id == Some(pid) {
                Product {
                    id: p.id,
                    name: p.name,
                    description: p.description,
                    primary_image_id: p.primary_image_id,
                    price: p.price,
                    size_id: Some(sid),
                    category_id: p.category_id,
                }
            } else {
                p
            },
    )
}

/// Creates a size row; only an administrator may. When the owning
/// product exists, its `size_id` is back-linked to the new row in the
/// same step; a request naming no stored product only stores the row.
pub fn create_size(store: &mut Store, claims: Claims, admin_role: &str, size: Size) -> (r: Result<
    (),
    ApiError,
>)
    requires
        old(store).wf(),
    ensures
        final(store).wf(),
        r is Ok <==> claims_admin(old(store).users@, claims.sub, admin_role@) && old(
            store,
        ).next_size_id < i32::MAX,
        match r {
            Ok(_) => {
                &&& final(store).sizes@ == old(store).sizes@.push(
                    (SizeRow { id: old(store).next_size_id, size }),
                )
                &&& final(store).next_size_id == old(store).next_size_id + 1
                &&& final(store).products@ == if crate::store::has_product(
                    old(store).products@,
                    size.product_id,
                ) {
                    with_size_link(
                        old(store).products@,
                        size.product_id,
                        old(store).next_size_id,
                    )
                } else {
                    old(store).products@
                }
                &&& final(store).images@ == old(store).images@
                &&& final(store).categories@ == old(store).categories@
                &&& final(store).next_product_id == old(store).next_product_id
                &&& final(store).next_image_id == old(store).next_image_id
                &&& final(store).next_category_id == old(store).next_category_id
                &&& final(store).orders_unchanged(*old(store))
                &&& final(store).users_unchanged(*old(store))
            },
            Err(e) => {
                &&& *final(store) == *old(store)
                &&& (!claims_admin(old(store).users@, claims.sub, admin_role@) ==> e
                    == ApiError::Unauthorized)
                &&& (claims_admin(old(store).users@, claims.sub, admin_role@) ==> e
                    == ApiError::DatabaseError)
            },
        },
{
    if let Err(e) = Claims::check_admin(store, claims, admin_role) {
        return Err(e);
    }
    if store.next_size_id == i32::MAX {
        return Err(ApiError::DatabaseError);
    }
    let id = store.next_size_id;
    store.sizes.push(SizeRow { id, size });
    // Back-link the owning product to the new size row.
    match store.find_product(size.product_id) {
        Some(j) => {
            store.products[j].size_id = Some(id);
            proof {
                let pre = old(store).products@;
                assert forall|k: int| 0 <= k < store.products@.len() implies store.products@[k]
                    == with_size_link(pre, size.product_id, id)[k] by {
                    if k != j as int && pre[k].id == Some(size.product_id) {
                        assert(pre[k].id != pre[j as int].id);
                    }
                }
                assert(store.products@ =~= with_size_link(pre, size.product_id, id));
            }
        },
        None => {},
    }
    store.next_size_id = id + 1;
    proof {
        let pre = *old(store);
        assert(forall|p: int|
            0 <= p < store.products@.len() ==> (#[trigger] store.products@[p]).id
                == pre.products@[p].id && store.products@[p].primary_image_id == pre.products@[
            p].primary_image_id);
        assert(crate::store::products_wf(store.products@, store.next_product_id));
        assert(crate::store::primaries_linked(store.products@, store.images@));
        assert(crate::store::sizes_wf(store.sizes@, store.next_size_id));
    }
    Ok(())
}

/// Reads the first stored size row of a product.
pub fn get_size(store: &Store, product_id: i32) -> (r: Result<Size, ApiError>)
    ensures
        match r {
            Ok(sz) => exists|j: int|
                #![auto]
                0 <= j < store.sizes@.len() && store.sizes@[j].size == sz
                    && store.sizes@[j].size.product_id == product_id && forall|k: int|
                    0 <= k < j ==> store.sizes@[k].size.product_id != product_id,
            Err(e) => e == ApiError::NotFound && forall|k: int|
                0 <= k < store.sizes@.len() ==> (#[trigger] store.sizes@[k]).size.product_id
                    != product_id,
        },
{
    match store.find_size_by_product(product_id) {
        Some(j) => Ok(store.sizes[j].size),
        None => Err(ApiError::NotFound),
    }
}

/// The size table after every row of product `pid` takes the
/// requested buckets.
pub open spec fn with_sizes_updated(sizes: Seq<SizeRow>, size: Size) -> Seq<SizeRow> {
    sizes.map(
        |k: int, row: SizeRow|
            if row.size.product_id == size.product_id {
                SizeRow { id: row.id, size }
            } else {
                row
            },
    )
}

/// Updates the stock buckets of every size row of a product; only an
/// administrator may. A product without size rows is left unchanged,
/// as the underlying update would leave it.
pub fn update_size(store: &mut Store, claims: Claims, admin_role: &str, size: Size) -> (r: Result<
    (),
    ApiError,
>)
    requires
        old(store).wf(),
    ensures
        final(store).wf(),
        r is Ok <==> claims_admin(old(store).users@, claims.sub, admin_role@),
        match r {
            Ok(_) => {
                &&& final(store).sizes@ == with_sizes_updated(old(store).sizes@, size)
                &&& final(store).next_size_id == old(store).next_size_id
                &&& final(store).products@ == old(store).products@
                &&& final(store).images@ == old(store).images@
                &&& final(store).categories@ == old(store).categories@
                &&& final(store).next_product_id == old(store).next_product_id
                &&& final(store).next_image_id == old(store).next_image_id
                &&& final(store).next_category_id == old(store).next_category_id
                &&& final(store).orders_unchanged(*old(store))
                &&& final(store).users_unchanged(*old(store))
            },
            Err(e) => {
                &&& *final(store) == *old(store)
                &&& e == ApiError::Unauthorized
            },
        },
{
    if let Err(e) = Claims::check_admin(store, claims, admin_role) {
        return Err(e);
    }
    let ghost pre_sizes = store.sizes@;
    let mut k: usize = 0;
    while k < store.sizes.len()
        invariant
            store.sizes@.len() == pre_sizes.len(),
            forall|j: int| 0 <= j < k ==> store.sizes@[j] == with_sizes_updated(pre_sizes, size)[j],
            forall|j: int| k <= j < pre_sizes.len() ==> store.sizes@[j] == pre_sizes[j],
            pre_sizes == old(store).sizes@,
            store.products@ == old(store).products@,
            store.images@ == old(store).images@,
            store.categories@ == old(store).categories@,
            store.next_product_id == old(store).next_product_id,
            store.next_image_id == old(store).next_image_id,
            store.next_category_id == old(store).next_category_id,
            store.next_size_id == old(store).next_size_id,
            store.orders_unchanged(*old(store)),
            store.users_unchanged(*old(store)),
        decreases pre_sizes.len() - k,
    {
        if store.sizes[k].size.product_id == size.product_id {
            let id = store.sizes[k].id;
            store.sizes[k] = SizeRow { id, size };
        }
        k += 1;
    }
    proof {
        assert(store.sizes@ =~= with_sizes_updated(old(store).sizes@, size));
        assert(forall|j: int|
            0 <= j < store.sizes@.len() ==> (#[trigger] store.sizes@[j]).id
                == old(store).sizes@[j].id);
        assert(crate::store::sizes_wf(store.sizes@, store.next_size_id));
    }
    Ok(())
}

} // verus!
