//! Product rows of the catalog.
//!
//! Creating a product may adopt an already uploaded image as its
//! primary image; updating one may not break the primary-position
//! invariant; deleting one clears the references order lines hold to
//! it, as the storage layer's rules would.

use vstd::prelude::*;

use crate::claims::{claims_admin, Claims};
use crate::data::{OrderItemRow, Product};
use crate::errors::ApiError;
use crate::store::{has_image, has_product, product_index, Store};

verus! {

/// The image table after image `iid` is assigned to product `pid`.
pub open spec fn linked_image(
    images: Seq<crate::data::ProductImage>,
    iid: i32,
    pid: i32,
) -> Seq<crate::data::ProductImage> {
    images.map(
        |k: int, img: crate::data::ProductImage|
            if img.id == iid {
                crate::data::ProductImage {
                    id: img.id,
                    image_url: img.image_url,
                    product_id: Some(pid),
                    position: img.position,
                }
            } else {
                img
            },
    )
}

/// Creates a product; only an administrator may. A named primary
/// image must exist (the storage layer's reference rule) and is
/// assigned to the new product in the same step, as are existing
/// category and size references checked.
pub fn create_product(
    store: &mut Store,
    claims: Claims,
    admin_role: &str,
    product: Product,
) -> (r: Result<i32, ApiError>)
    requires
        old(store).wf(),
    ensures
        final(store).wf(),
        r is Ok <==> {
            &&& claims_admin(old(store).users@, claims.sub, admin_role@)
            &&& old(store).next_product_id < i32::MAX
            &&& (product.primary_image_id matches Some(img) ==> has_image(
                old(store).images@,
                img,
            ))
            &&& (product.category_id matches Some(c) ==> crate::store::has_category(
                old(store).categories@,
                c,
            ))
            &&& (product.size_id matches Some(s) ==> crate::store::has_size(
                old(store).sizes@,
                s,
            ))
        },
        match r {
            Ok(id) => {
                &&& id == old(store).next_product_id
                &&& final(store).next_product_id == id + 1
                &&& final(store).products@ == old(store).products@.push(
                    (Product {
                        id: Some(id),
                        name: product.name,
                        description: product.description,
                        primary_image_id: product.primary_image_id,
                        price: product.price,
                        size_id: product.size_id,
                        category_id: product.category_id,
                    }),
                )
                &&& final(store).images@ == if product.primary_image_id is Some {
                    linked_image(old(store).images@, product.primary_image_id->0, id)
                } else {
                    old(store).images@
                }
                &&& final(store).next_image_id == old(store).next_image_id
                &&& final(store).categories@ == old(store).categories@
                &&& final(store).sizes@ == old(store).sizes@
                &&& final(store).next_category_id == old(store).next_category_id
                &&& final(store).next_size_id == old(store).next_size_id
                &&& final(store).orders_unchanged(*old(store))
                &&& final(store).users_unchanged(*old(store))
            },
            Err(e) => {
                &&& *final(store) == *old(store)
                &&& (!claims_admin(old(store).users@, claims.sub, admin_role@) ==> e
                    == ApiError::Unauthorized)
                &&& (claims_admin(old(store).users@, claims.sub, admin_role@) ==> e
                    == ApiError::DatabaseError)
            },
        },
{
    if let Err(e) = Claims::check_admin(store, claims, admin_role) {
        return Err(e);
    }
    if store.next_product_id == i32::MAX {
        return Err(ApiError::DatabaseError);
    }
    // The named primary image, category and size must exist.
    let image_index: Option<usize> = match product.primary_image_id {
        Some(img) => {
            match store.find_image(img) {
                Some(j) => Some(j),
                None => {
                    return Err(ApiError::DatabaseError);
                },
            }
        },
        None => None,
    };
    if let Some(c) = product.category_id {
        if store.find_category(c).is_none() {
            return Err(ApiError::DatabaseError);
        }
    }
    if let Some(s) = product.size_id {
        if find_size_row(store, s).is_none() {
            return Err(ApiError::DatabaseError);
        }
    }
    let id = store.next_product_id;
    store.products.push(
        Product {
            id: Some(id),
            name: product.name,
            description: product.description,
            primary_image_id: product.primary_image_id,
            price: product.price,
            size_id: product.size_id,
            category_id: product.category_id,
        },
    );
    if let Some(j) = image_index {
        store.images[j].product_id = Some(id);
        proof {
            let pre_images = old(store).images@;
            let iid = product.primary_image_id->0;
            assert forall|k: int|
                0 <= k < store.images@.len() implies store.images@[k] == linked_image(
                pre_images,
                iid,
                id,
            )[k] by {
                if k != j as int && pre_images[k].id == iid {
                    assert(pre_images[k].id != pre_images[j as int].id);
                }
            }
            assert(store.images@ =~= linked_image(pre_images, iid, id));
        }
    }
    store.next_product_id = id + 1;
    proof {
        let pre = *old(store);
        let n = pre.products@.len() as int;
        assert(forall|k: int| 0 <= k < n ==> #[trigger] store.products@[k] == pre.products@[k]);
        // No pre-existing image is assigned to the fresh product id.
        assert(forall|k: int|
            0 <= k < pre.images@.len() ==> ((#[trigger] pre.images@[k]).product_id is Some
                ==> pre.images@[k].product_id->0 < id));
        assert(crate::store::products_wf(store.products@, store.next_product_id));
        assert(crate::store::images_wf(store.images@, store.next_image_id, store.next_product_id));
        assert forall|i: int, j: int| 0 <= i < j < store.images@.len() implies !(
        crate::store::is_primary(#[trigger] store.images@[i]) && crate::store::is_primary(
            #[trigger] store.images@[j],
        ) && store.images@[i].product_id == store.images@[j].product_id) by {
            if product.primary_image_id is Some {
                let iid = product.primary_image_id->0;
                assert(store.images@[i] == linked_image(pre.images@, iid, id)[i]);
                assert(store.images@[j] == linked_image(pre.images@, iid, id)[j]);
            }
        }
        assert(crate::store::primary_unique(store.images@));
        assert forall|p: int, i: int|
            0 <= p < store.products@.len() && 0 <= i < store.images@.len() && (
            #[trigger] store.images@[i]).product_id == (#[trigger] store.products@[p]).id
                && store.images@[i].position == Some(1i32) implies store.products@[
        p].primary_image_id == Some(store.images@[i].id) by {
            if product.primary_image_id is Some {
                let iid = product.primary_image_id->0;
                assert(store.images@[i] == linked_image(pre.images@, iid, id)[i]);
            }
            if p < n {
                assert(store.products@[p].id == pre.products@[p].id);
                assert(store.products@[p].id->0 < id);
            }
        }
        assert(crate::store::primaries_linked(store.products@, store.images@));
    }
    Ok(id)
}

/// Index of the size row with the given serial id, if any.
fn find_size_row(store: &Store, sid: i32) -> (r: Option<usize>)
    ensures
        match r {
            Some(j) => j < store.sizes@.len() && store.sizes@[j as int].id == sid,
            None => forall|k: int|
                0 <= k < store.sizes@.len() ==> (#[trigger] store.sizes@[k]).id != sid,
        },
        r is Some <==> crate::store::has_size(store.sizes@, sid),
{
    let mut i: usize = 0;
    while i < store.sizes.len()
        invariant
            i <= store.sizes@.len(),
            forall|k: int| 0 <= k < i ==> (#[trigger] store.sizes@[k]).id != sid,
        decreases store.sizes@.len() - i,
    {
        if store.sizes[i].id == sid {
            return Some(i);
        }
        i += 1;
    }
    None
}

/// One product passes the three-part filter, mirroring the fixed set
/// of parameterized query variants: a product id alone selects that
/// product; a category alone selects the category; a category with a
/// selected id excludes that id; any other combination selects all.
pub open spec fn product_matches(
    p: Product,
    category_id: Option<i32>,
    selected_id: Option<i32>,
    product_id: Option<i32>,
) -> bool {
    match (category_id, selected_id, product_id) {
        (None, None, Some(id)) => p.id == Some(id),
        (Some(cid), None, None) => p.category_id == Some(cid),
        (Some(cid), Some(sel), None) => p.category_id == Some(cid) && p.id != Some(sel),
        _ => true,
    }
}

/// The products passing the filter, in insertion order.
pub open spec fn filtered_products(
    products: Seq<Product>,
    category_id: Option<i32>,
    selected_id: Option<i32>,
    product_id: Option<i32>,
) -> Seq<Product>
    decreases products.len(),
{
    if products.len() == 0 {
        Seq::empty()
    } else {
        filtered_products(products.drop_last(), category_id, selected_id, product_id) + (
        if product_matches(products.last(), category_id, selected_id, product_id) {
            seq![products.last()]
        } else {
            Seq::empty()
        })
    }
}

/// Lists products by the fixed filter variants; a pure read in
/// insertion order.
pub fn get_products(
    store: &Store,
    category_id: Option<i32>,
    selected_id: Option<i32>,
    product_id: Option<i32>,
) -> (r: Vec<Product>)
    ensures
        r@ == filtered_products(store.products@, category_id, selected_id, product_id),
{
    let mut out: Vec<Product> = Vec::new();
    let mut i: usize = 0;
    while i < store.products.len()
        invariant
            i <= store.products@.len(),
            out@ == filtered_products(
                store.products@.take(i as int),
                category_id,
                selected_id,
                product_id,
            ),
        decreases store.products@.len() - i,
    {
        let row = &store.products[i];
        let keep = match (category_id, selected_id, product_id) {
            (None, None, Some(id)) => {
                match row.id {
                    Some(v) => v == id,
                    None => false,
                }
            },
            (Some(cid), None, None) => {
                match row.category_id {
                    Some(v) => v == cid,
                    None => false,
                }
            },
            (Some(cid), Some(sel), None) => {
                (match row.category_id {
                    Some(v) => v == cid,
                    None => false,
                }) && (match row.id {
                    Some(v) => v != sel,
                    None => true,
                })
            },
            _ => true,
        };
        proof {
            assert(store.products@.take(i as int + 1).drop_last() =~= store.products@.take(
                i as int,
            ));
            assert(store.products@.take(i as int + 1).last() == store.products@[i as int]);
        }
        if keep {
            out.push(row.clone());
        }
        i += 1;
    }
    proof {
        assert(store.products@.take(store.products@.len() as int) =~= store.products@);
    }
    out
}

/// A product row with an update request applied: name, description,
/// primary image, price and category are overwritten; the size link
/// is kept.
pub open spec fn product_updated(row: Product, req: Product) -> Product {
    Product {
        id: row.id,
        name: req.name,
        description: req.description,
        primary_image_id: req.primary_image_id,
        price: req.price,
        size_id: row.size_id,
        category_id: req.category_id,
    }
}

/// Index of the image row at the primary position of this product, if
/// any.
fn find_primary_image(store: &Store, pid: i32) -> (r: Option<usize>)
    ensures
        match r {
            Some(j) => j < store.images@.len() && crate::store::is_primary(store.images@[j as int])
                && store.images@[j as int].product_id == Some(pid),
            None => forall|k: int|
                0 <= k < store.images@.len() ==> !(crate::store::is_primary(
                    #[trigger] store.images@[k],
                ) && store.images@[k].product_id == Some(pid)),
        },
{
    let mut i: usize = 0;
    while i < store.images.len()
        invariant
            i <= store.images@.len(),
            forall|k: int|
                0 <= k < i ==> !(crate::store::is_primary(#[trigger] store.images@[k])
                    && store.images@[k].product_id == Some(pid)),
        decreases store.images@.len() - i,
    {
        let hit = match (store.images[i].product_id, store.images[i].position) {
            (Some(q), Some(p)) => q == pid && p == 1,
            _ => false,
        };
        if hit {
            return Some(i);
        }
        i += 1;
    }
    None
}

/// A row at the primary position of `pid` exists that the requested
/// primary reference does not name.
pub open spec fn primary_conflict(
    images: Seq<crate::data::ProductImage>,
    pid: i32,
    requested: Option<i32>,
) -> bool {
    exists|j: int|
        0 <= j < images.len() && crate::store::is_primary(#[trigger] images[j]) && images[
        j].product_id == Some(pid) && requested != Some(images[j].id)
}

/// Updates a product row; only an administrator may. The request must
/// carry the product id; a named primary image or category must
/// exist; and when the product has an image at the primary position,
/// the request may not point the primary reference elsewhere, so the
/// primary-position invariant survives. A missing product row leaves
/// the table unchanged.
pub fn product_update(
    store: &mut Store,
    claims: Claims,
    admin_role: &str,
    product: Product,
) -> (r: Result<(), ApiError>)
    requires
        old(store).wf(),
    ensures
        final(store).wf(),
        r is Ok <==> {
            &&& claims_admin(old(store).users@, claims.sub, admin_role@)
            &&& product.id is Some
            &&& (has_product(old(store).products@, product.id->0) ==> {
                &&& (product.primary_image_id matches Some(img) ==> crate::store::has_image(
                    old(store).images@,
                    img,
                ))
                &&& (product.category_id matches Some(c) ==> crate::store::has_category(
                    old(store).categories@,
                    c,
                ))
                &&& !primary_conflict(
                    old(store).images@,
                    product.id->0,
                    product.primary_image_id,
                )
            })
        },
        match r {
            Ok(_) => {
                &&& claims_admin(old(store).users@, claims.sub, admin_role@)
                &&& product.id is Some
                &&& final(store).products@ == if has_product(
                    old(store).products@,
                    product.id->0,
                ) {
                    old(store).products@.update(
                        product_index(old(store).products@, product.id->0),
                        product_updated(
                            old(store).products@[product_index(
                                old(store).products@,
                                product.id->0,
                            )],
                            product,
                        ),
                    )
                } else {
                    old(store).products@
                }
                &&& final(store).images@ == old(store).images@
                &&& final(store).next_product_id == old(store).next_product_id
                &&& final(store).next_image_id == old(store).next_image_id
                &&& final(store).categories@ == old(store).categories@
                &&& final(store).sizes@ == old(store).sizes@
                &&& final(store).next_category_id == old(store).next_category_id
                &&& final(store).next_size_id == old(store).next_size_id
                &&& final(store).orders_unchanged(*old(store))
                &&& final(store).users_unchanged(*old(store))
            },
            Err(e) => {
                &&& *final(store) == *old(store)
                &&& (!claims_admin(old(store).users@, claims.sub, admin_role@) ==> e
                    == ApiError::Unauthorized)
                &&& (claims_admin(old(store).users@, claims.sub, admin_role@) && product.id
                    is None ==> e == ApiError::BadRequest)
                &&& (e == ApiError::DatabaseError ==> (product.primary_image_id matches Some(img)
                    && !crate::store::has_image(old(store).images@, img)) || (
                product.category_id matches Some(c) && !crate::store::has_category(
                    old(store).categories@,
                    c,
                )))
                &&& (e == ApiError::BadRequest && product.id is Some ==> primary_conflict(
                    old(store).images@,
                    product.id->0,
                    product.primary_image_id,
                ))
            },
        },
{
    if let Err(e) = Claims::check_admin(store, claims, admin_role) {
        return Err(e);
    }
    let pid = match product.id {
        Some(p) => p,
        None => {
            return Err(ApiError::BadRequest);
        },
    };
    let j = match store.find_product(pid) {
        Some(j) => j,
        None => {
            return Ok(());
        },
    };
    // The named primary image and category must exist.
    if let Some(img) = product.primary_image_id {
        if store.find_image(img).is_none() {
            return Err(ApiError::DatabaseError);
        }
    }
    if let Some(c) = product.category_id {
        if store.find_category(c).is_none() {
            return Err(ApiError::DatabaseError);
        }
    }
    // The primary reference must keep naming the row at the primary
    // position while one exists.
    match find_primary_image(store, pid) {
        Some(pj) => {
            let keeps = match product.primary_image_id {
                Some(img) => img == store.images[pj].id,
                None => false,
            };
            if !keeps {
                return Err(ApiError::BadRequest);
            }
        },
        None => {},
    }
    proof {
        let t = product_index(old(store).products@, pid);
        if t != j as int {
            assert(old(store).products@[t].id == old(store).products@[j as int].id);
        }
    }
    let row = Product {
        id: Some(pid),
        name: product.name,
        description: product.description,
        primary_image_id: product.primary_image_id,
        price: product.price,
        size_id: store.products[j].size_id,
        category_id: product.category_id,
    };
    store.products[j] = row;
    proof {
        let pre = *old(store);
        assert(store.products@ =~= pre.products@.update(
            product_index(pre.products@, pid),
            product_updated(pre.products@[product_index(pre.products@, pid)], product),
        ));
        assert(forall|k: int|
            0 <= k < store.products@.len() ==> (#[trigger] store.products@[k]).id
                == pre.products@[k].id);
        assert(crate::store::products_wf(store.products@, store.next_product_id));
        assert forall|p: int, i: int|
            0 <= p < store.products@.len() && 0 <= i < store.images@.len() && (
            #[trigger] store.images@[i]).product_id == (#[trigger] store.products@[p]).id
                && store.images@[i].position == Some(1i32) implies store.products@[
        p].primary_image_id == Some(store.images@[i].id) by {
            if p == j as int {
                assert(crate::store::is_primary(store.images@[i]));
            } else {
                assert(store.products@[p] == pre.products@[p]);
            }
        }
        assert(crate::store::primaries_linked(store.products@, store.images@));
    }
    Ok(())
}

/// The order-line table after the references to product `pid` are
/// cleared, as the storage layer's delete rule would clear them.
pub open spec fn items_unlinked(items: Seq<OrderItemRow>, pid: i32) -> Seq<OrderItemRow> {
    items.map(
        |k: int, it: OrderItemRow|
            if it.product_id == Some(pid) {
                OrderItemRow {
                    id: it.id,
                    order_id: it.order_id,
                    product_id: None,
                    quantity: it.quantity,
                    price: it.price,
                    size: it.size,
                    total_price: it.total_price,
                }
            } else {
                it
            },
    )
}

/// Deletes a product; only an administrator may. Order lines that
/// referenced it lose the reference; its image rows merely become
/// unassigned. A missing row leaves the tables unchanged.
pub fn delete_product(store: &mut Store, claims: Claims, admin_role: &str, id: i32) -> (r: Result<
    (),
    ApiError,
>)
    requires
        old(store).wf(),
    ensures
        final(store).wf(),
        r is Ok <==> claims_admin(old(store).users@, claims.sub, admin_role@),
        match r {
            Ok(_) => {
                &&& final(store).products@ == if has_product(old(store).products@, id) {
                    old(store).products@.remove(product_index(old(store).products@, id))
                } else {
                    old(store).products@
                }
                &&& final(store).order_items@ == items_unlinked(old(store).order_items@, id)
                &&& final(store).images@ == old(store).images@
                &&& final(store).next_product_id == old(store).next_product_id
                &&& final(store).next_image_id == old(store).next_image_id
                &&& final(store).categories@ == old(store).categories@
                &&& final(store).sizes@ == old(store).sizes@
                &&& final(store).next_category_id == old(store).next_category_id
                &&& final(store).next_size_id == old(store).next_size_id
                &&& final(store).orders@ == old(store).orders@
                &&& final(store).shippings@ == old(store).shippings@
                &&& final(store).next_order_id == old(store).next_order_id
                &&& final(store).next_order_item_id == old(store).next_order_item_id
                &&& final(store).users_unchanged(*old(store))
            },
            Err(e) => {
                &&& *final(store) == *old(store)
                &&& e == ApiError::Unauthorized
            },
        },
{
    if let Err(e) = Claims::check_admin(store, claims, admin_role) {
        return Err(e);
    }
    match store.find_product(id) {
        Some(j) => {
            proof {
                let t = product_index(old(store).products@, id);
                if t != j as int {
                    assert(old(store).products@[t].id == old(store).products@[j as int].id);
                }
            }
            store.products.remove(j);
        },
        None => {},
    }
    // Clear the references order lines hold to the product.
    let ghost mid_items = store.order_items@;
    let mut k: usize = 0;
    while k < store.order_items.len()
        invariant
            store.order_items@.len() == mid_items.len(),
            forall|j2: int|
                0 <= j2 < k ==> store.order_items@[j2] == items_unlinked(mid_items, id)[j2],
            forall|j2: int| k <= j2 < mid_items.len() ==> store.order_items@[j2] == mid_items[j2],
            mid_items == old(store).order_items@,
            store.products@ == if has_product(old(store).products@, id) {
                old(store).products@.remove(product_index(old(store).products@, id))
            } else {
                old(store).products@
            },
            store.images@ == old(store).images@,
            store.orders@ == old(store).orders@,
            store.shippings@ == old(store).shippings@,
            store.users@ == old(store).users@,
            store.categories@ == old(store).categories@,
            store.sizes@ == old(store).sizes@,
            store.next_product_id == old(store).next_product_id,
            store.next_image_id == old(store).next_image_id,
            store.next_category_id == old(store).next_category_id,
            store.next_size_id == old(store).next_size_id,
            store.next_order_id == old(store).next_order_id,
            store.next_order_item_id == old(store).next_order_item_id,
            store.next_user_id == old(store).next_user_id,
        decreases mid_items.len() - k,
    {
        let clear = match store.order_items[k].product_id {
            Some(p) => p == id,
            None => false,
        };
        if clear {
            store.order_items[k].product_id = None;
        }
        k += 1;
    }
    proof {
        assert(store.order_items@ =~= items_unlinked(old(store).order_items@, id));
        let pre = *old(store);
        if has_product(pre.products@, id) {
            let t = product_index(pre.products@, id);
            assert forall|a: int, b: int|
                0 <= a < b < store.products@.len() implies (#[trigger] store.products@[a]).id != (
            #[trigger] store.products@[b]).id by {
                let a0 = if a < t {
                    a
                } else {
                    a + 1
                };
                let b0 = if b < t {
                    b
                } else {
                    b + 1
                };
                assert(store.products@[a] == pre.products@[a0]);
                assert(store.products@[b] == pre.products@[b0]);
            }
            assert(crate::store::products_wf(store.products@, store.next_product_id));
            assert forall|p: int, i: int|
                0 <= p < store.products@.len() && 0 <= i < store.images@.len() && (
                #[trigger] store.images@[i]).product_id == (#[trigger] store.products@[p]).id
                    && store.images@[i].position == Some(1i32) implies store.products@[
            p].primary_image_id == Some(store.images@[i].id) by {
                let p0 = if p < t {
                    p
                } else {
                    p + 1
                };
                assert(store.products@[p] == pre.products@[p0]);
            }
            assert(crate::store::primaries_linked(store.products@, store.images@));
        }
        assert forall|i: int| 0 <= i < store.order_items@.len() implies {
            let it = #[trigger] store.order_items@[i];
            0 < it.id < store.next_order_item_id && crate::store::has_order(
                store.orders@,
                it.order_id,
            ) && it.total_price == it.quantity as int * it.price as int
        } by {
            assert(store.order_items@[i] == items_unlinked(pre.order_items@, id)[i]);
        }
        assert(forall|i: int, j2: int|
            0 <= i < j2 < store.order_items@.len() ==> (#[trigger] store.order_items@[i]).id != (
            #[trigger] store.order_items@[j2]).id);
        assert(crate::store::order_items_wf(
            store.order_items@,
            store.next_order_item_id,
            store.orders@,
        ));
    }
    Ok(())
}

} // verus!
