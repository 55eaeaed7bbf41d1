//! The image position manager.
//!
//! Position 1 of a product is the primary position. These operations
//! keep the store invariant that at most one image row of a product
//! holds position 1 and that the product's `primary_image_id` mirrors
//! it, across create, update and delete. The underlying image file is
//! the blob store's business: callers hand in a stored file reference
//! and receive back the reference of a deleted row.

use vstd::prelude::*;
use vstd::string::StringExecFns;

use crate::claims::{claims_admin, Claims};
use crate::config::EnvConfiguration;
use crate::data::ProductImage;
use crate::errors::ApiError;
use crate::store::{has_product, Store};

verus! {

/// One image row after a demote pass for product `pid`: a row at the
/// primary position of `pid` loses its position, except the row
/// `keep`.
pub open spec fn demote_one(img: ProductImage, pid: i32, keep: i32) -> ProductImage {
    if img.product_id == Some(pid) && img.position == Some(1i32) && img.id != keep {
        ProductImage {
            id: img.id,
            image_url: img.image_url,
            product_id: img.product_id,
            position: None,
        }
    } else {
        img
    }
}

/// The image table after a demote pass for product `pid`.
pub open spec fn demoted(images: Seq<ProductImage>, pid: i32, keep: i32) -> Seq<ProductImage> {
    images.map(|k: int, img: ProductImage| demote_one(img, pid, keep))
}

/// The product table after product `pid` starts pointing at image
/// `iid` as its primary image.
pub open spec fn with_primary(products: Seq<crate::data::Product>, pid: i32, iid: i32) -> Seq<
    crate::data::Product,
> {
    products.map(
        |k: int, p: crate::data::Product|
            if p.id == Some(pid) {
                crate::data::Product {
                    id: p.id,
                    name: p.name,
                    description: p.description,
                    primary_image_id: Some(iid),
                    price: p.price,
                    size_id: p.size_id,
                    category_id: p.category_id,
                }
            } else {
                p
            },
    )
}

/// Creates an image row; any verified principal may upload, so no
/// admin gate stands here. When the requested position is 1 and a
/// product is named, the new row becomes that product's primary image
/// within the same step: the product's `primary_image_id` is set to
/// the new row and any other row of the product at position 1 is
/// cleared, so the primary-position invariant holds afterwards.
pub fn create_product_image(
    store: &mut Store,
    claims: Claims,
    image_url: String,
    product_id: Option<i32>,
    position: Option<i32>,
) -> (r: Result<i32, ApiError>)
    requires
        old(store).wf(),
    ensures
        final(store).wf(),
        r is Ok <==> {
            &&& (product_id matches Some(pid) ==> has_product(old(store).products@, pid))
            &&& old(store).next_image_id < i32::MAX
        },
        match r {
            Ok(id) => {
                &&& id == old(store).next_image_id
                &&& final(store).next_image_id == id + 1
                &&& if position == Some(1i32) && product_id is Some {
                    final(store).images@ == demoted(old(store).images@, product_id->0, id).push(
                        (ProductImage { id, image_url, product_id, position }),
                    ) && final(store).products@ == with_primary(
                        old(store).products@,
                        product_id->0,
                        id,
                    )
                } else {
                    final(store).images@ == old(store).images@.push(
                        (ProductImage { id, image_url, product_id, position }),
                    ) && final(store).products@ == old(store).products@
                }
                &&& final(store).non_catalog_unchanged(*old(store))
                &&& final(store).next_product_id == old(store).next_product_id
            },
            Err(e) => {
                &&& *final(store) == *old(store)
                &&& (e == ApiError::NotFound <==> (product_id matches Some(pid) && !has_product(
                    old(store).products@,
                    pid,
                )))
                &&& ((product_id matches Some(pid) ==> has_product(old(store).products@, pid))
                    ==> e == ApiError::DatabaseError)
            },
        },
{
    let _ = claims;  // the verified principal; this endpoint needs no admin gate
    // The product a row is assigned to must exist; unassigned uploads
    // pass no product id and are linked when the product is created.
    let product_index: Option<usize> = match product_id {
        Some(pid) => {
            match store.find_product(pid) {
                Some(j) => Some(j),
                None => {
                    return Err(ApiError::NotFound);
                },
            }
        },
        None => None,
    };
    if store.next_image_id == i32::MAX {
        return Err(ApiError::DatabaseError);
    }
    let id = store.next_image_id;
    let make_primary = match (position, product_id) {
        (Some(p), Some(_)) => p == 1,
        _ => false,
    };
    if make_primary {
        let pid = match product_id {
            Some(p) => p,
            None => 0,  // unreachable: make_primary implies a product id
        };
        let ghost old_images = store.images@;
        // Demote any other row of this product at the primary position.
        let mut k: usize = 0;
        while k < store.images.len()
            invariant
                store.images@.len() == old_images.len(),
                forall|j: int| 0 <= j < k ==> store.images@[j] == demote_one(old_images[j], pid, id),
                forall|j: int| k <= j < old_images.len() ==> store.images@[j] == old_images[j],
                forall|j: int|
                    0 <= j < old_images.len() ==> (#[trigger] old_images[j]).id < id,
                store.products@ == old(store).products@,
                store.next_image_id == old(store).next_image_id,
                store.next_product_id == old(store).next_product_id,
                store.non_catalog_unchanged(*old(store)),
            decreases old_images.len() - k,
        {
            let clear = match (store.images[k].product_id, store.images[k].position) {
                (Some(q), Some(p)) => q == pid && p == 1,
                _ => false,
            };
            if clear {
                store.images[k].position = None;
            }
            k += 1;
        }
        proof {
            assert(store.images@ =~= demoted(old_images, pid, id));
        }
        store.images.push(ProductImage { id, image_url, product_id, position });
        let j = match product_index {
            Some(j) => j,
            None => 0,  // unreachable: a product id was resolved above
        };
        store.products[j].primary_image_id = Some(id);
        proof {
            let pre_products = old(store).products@;
            assert forall|k2: int|
                0 <= k2 < store.products@.len() implies store.products@[k2] == with_primary(
                pre_products,
                pid,
                id,
            )[k2] by {
                if k2 != j as int && pre_products[k2].id == Some(pid) {
                    assert(pre_products[k2].id != pre_products[j as int].id);
                }
            }
            assert(store.products@ =~= with_primary(pre_products, pid, id));
        }
    } else {
        store.images.push(ProductImage { id, image_url, product_id, position });
    }
    store.next_image_id = id + 1;
    proof {
        lemma_create_preserves_wf(
            *old(store),
            *store,
            product_id,
            position,
            id,
            store.images@.last(),
        );
    }
    Ok(id)
}

/// The store stays well-formed across `create_product_image`, where
/// `row` is the image row that was appended.
proof fn lemma_create_preserves_wf(
    pre: Store,
    post: Store,
    product_id: Option<i32>,
    position: Option<i32>,
    id: i32,
    row: ProductImage,
)
    requires
        pre.wf(),
        id == pre.next_image_id,
        id < i32::MAX,
        post.next_image_id == id + 1,
        product_id matches Some(pid) ==> has_product(pre.products@, pid),
        row.id == id && row.product_id == product_id && row.position == position,
        if position == Some(1i32) && product_id is Some {
            post.images@ == demoted(pre.images@, product_id->0, id).push(row) && post.products@
                == with_primary(pre.products@, product_id->0, id)
        } else {
            post.images@ == pre.images@.push(row) && post.products@ == pre.products@
        },
        post.categories@ == pre.categories@,
        post.sizes@ == pre.sizes@,
        post.orders@ == pre.orders@,
        post.order_items@ == pre.order_items@,
        post.shippings@ == pre.shippings@,
        post.users@ == pre.users@,
        post.next_product_id == pre.next_product_id,
        post.next_category_id == pre.next_category_id,
        post.next_size_id == pre.next_size_id,
        post.next_order_id == pre.next_order_id,
        post.next_order_item_id == pre.next_order_item_id,
        post.next_user_id == pre.next_user_id,
    ensures
        post.wf(),
{
    let n = pre.images@.len() as int;
    if position == Some(1i32) && product_id is Some {
        let pid = product_id->0;
        assert forall|j: int| 0 <= j < n implies #[trigger] post.images@[j] == demote_one(
            pre.images@[j],
            pid,
            id,
        ) by {
            assert(demoted(pre.images@, pid, id)[j] == demote_one(pre.images@[j], pid, id));
        }
        // No surviving old row keeps the primary position of `pid`.
        assert forall|j: int| 0 <= j < n implies !(crate::store::is_primary(
            #[trigger] post.images@[j],
        ) && post.images@[j].product_id == Some(pid)) by {
            assert(pre.images@[j].id < id);
        }
        assert forall|p: int| 0 <= p < post.products@.len() implies (#[trigger] post.products@[p]).id
            == pre.products@[p].id && post.products@[p].primary_image_id == (if pre.products@[p].id
            == Some(pid) {
            Some(id)
        } else {
            pre.products@[p].primary_image_id
        }) by {
            assert(with_primary(pre.products@, pid, id)[p] == post.products@[p]);
        }
        let w = choose|j: int|
            0 <= j < pre.products@.len() && (#[trigger] pre.products@[j]).id == Some(pid);
        assert(pre.products@[w].id->0 == pid && pid < pre.next_product_id);
        assert(crate::store::images_wf(post.images@, post.next_image_id, post.next_product_id));
        assert forall|i: int, j: int| 0 <= i < j < post.images@.len() implies !(
        crate::store::is_primary(#[trigger] post.images@[i]) && crate::store::is_primary(
            #[trigger] post.images@[j],
        ) && post.images@[i].product_id == post.images@[j].product_id) by {
            if j < n {
                assert(post.images@[i] == demote_one(pre.images@[i], pid, id));
                assert(post.images@[j] == demote_one(pre.images@[j], pid, id));
            }
        }
        assert(crate::store::primary_unique(post.images@));
        assert forall|p: int, i: int|
            0 <= p < post.products@.len() && 0 <= i < post.images@.len() && (
            #[trigger] post.images@[i]).product_id == (#[trigger] post.products@[p]).id
                && post.images@[i].position == Some(1i32) implies post.products@[p].primary_image_id
            == Some(post.images@[i].id) by {
            if i < n {
                assert(post.images@[i] == demote_one(pre.images@[i], pid, id));
                assert(pre.products@[p].id != Some(pid));
            }
        }
        assert(crate::store::primaries_linked(post.products@, post.images@));
        assert(crate::store::products_wf(post.products@, post.next_product_id));
    } else {
        assert(forall|j: int| 0 <= j < n ==> #[trigger] post.images@[j] == pre.images@[j]);
        if product_id is Some {
            let pid = product_id->0;
            let w = choose|j: int|
                0 <= j < pre.products@.len() && (#[trigger] pre.products@[j]).id == Some(pid);
            assert(pre.products@[w].id->0 == pid && pid < pre.next_product_id);
        }
        assert(!crate::store::is_primary(post.images@[n]));
        assert(crate::store::images_wf(post.images@, post.next_image_id, post.next_product_id));
        assert(crate::store::primary_unique(post.images@));
        assert(crate::store::primaries_linked(post.products@, post.images@));
    }
}

/// The stored row with this image id and the update request applied:
/// `product_id` and `position` are overwritten, everything else kept.
pub open spec fn applied_update(img: ProductImage, pi: ProductImage) -> ProductImage {
    if img.id == pi.id {
        ProductImage {
            id: img.id,
            image_url: img.image_url,
            product_id: pi.product_id,
            position: pi.position,
        }
    } else {
        img
    }
}

/// One image row after the whole update step for request `pi`: the
/// target row takes the requested fields, and when the request claims
/// the primary position of a product, every other row of that product
/// at position 1 is cleared.
pub open spec fn update_pass(img: ProductImage, pi: ProductImage) -> ProductImage {
    if pi.position == Some(1i32) && pi.product_id is Some {
        demote_one(applied_update(img, pi), pi.product_id->0, pi.id)
    } else {
        applied_update(img, pi)
    }
}

/// The image table after the whole update step for request `pi`.
pub open spec fn updated_images(images: Seq<ProductImage>, pi: ProductImage) -> Seq<ProductImage> {
    images.map(|k: int, img: ProductImage| update_pass(img, pi))
}

/// Updates an image row's product assignment and position. When the
/// new position is 1 and a product is named, the owning product's
/// `primary_image_id` is set to this row and every other row of that
/// product at position 1 is cleared in the same step, so exactly this
/// row ends up primary.
pub fn update_product_image(
    store: &mut Store,
    claims: Claims,
    admin_role: &str,
    product_image: ProductImage,
) -> (r: Result<(), ApiError>)
    requires
        old(store).wf(),
    ensures
        final(store).wf(),
        r is Ok <==> {
            &&& claims_admin(old(store).users@, claims.sub, admin_role@)
            &&& crate::store::has_image(old(store).images@, product_image.id)
            &&& (product_image.product_id matches Some(pid) ==> has_product(
                old(store).products@,
                pid,
            ))
        },
        match r {
            Ok(_) => {
                &&& final(store).images@ == updated_images(old(store).images@, product_image)
                &&& final(store).products@ == if product_image.position == Some(1i32)
                    && product_image.product_id is Some {
                    with_primary(
                        old(store).products@,
                        product_image.product_id->0,
                        product_image.id,
                    )
                } else {
                    old(store).products@
                }
                &&& final(store).non_catalog_unchanged(*old(store))
                &&& final(store).next_product_id == old(store).next_product_id
                &&& final(store).next_image_id == old(store).next_image_id
            },
            Err(e) => {
                &&& *final(store) == *old(store)
                &&& (!claims_admin(old(store).users@, claims.sub, admin_role@) ==> e
                    == ApiError::Unauthorized)
                &&& (claims_admin(old(store).users@, claims.sub, admin_role@) ==> e
                    == ApiError::NotFound)
            },
        },
{
    if let Err(e) = Claims::check_admin(store, claims, admin_role) {
        return Err(e);
    }
    let img_idx = match store.find_image(product_image.id) {
        Some(j) => j,
        None => {
            return Err(ApiError::NotFound);
        },
    };
    // The product a row is assigned to must exist.
    let product_index: Option<usize> = match product_image.product_id {
        Some(pid) => {
            match store.find_product(pid) {
                Some(j) => Some(j),
                None => {
                    return Err(ApiError::NotFound);
                },
            }
        },
        None => None,
    };
    let ghost old_images = store.images@;
    store.images[img_idx].product_id = product_image.product_id;
    store.images[img_idx].position = product_image.position;
    let make_primary = match (product_image.position, product_image.product_id) {
        (Some(p), Some(_)) => p == 1,
        _ => false,
    };
    if make_primary {
        let pid = match product_image.product_id {
            Some(p) => p,
            None => 0,  // unreachable: make_primary implies a product id
        };
        let j = match product_index {
            Some(j) => j,
            None => 0,  // unreachable: a product id was resolved above
        };
        store.products[j].primary_image_id = Some(product_image.id);
        proof {
            let pre_products = old(store).products@;
            assert forall|k2: int|
                0 <= k2 < store.products@.len() implies store.products@[k2] == with_primary(
                pre_products,
                pid,
                product_image.id,
            )[k2] by {
                if k2 != j as int && pre_products[k2].id == Some(pid) {
                    assert(pre_products[k2].id != pre_products[j as int].id);
                }
            }
            assert(store.products@ =~= with_primary(pre_products, pid, product_image.id));
        }
        let ghost mid_images = store.images@;
        // Demote any other row of this product at the primary position.
        let mut k: usize = 0;
        while k < store.images.len()
            invariant
                store.images@.len() == mid_images.len(),
                mid_images == old_images.update(
                    img_idx as int,
                    applied_update(old_images[img_idx as int], product_image),
                ),
                img_idx < old_images.len(),
                old_images[img_idx as int].id == product_image.id,
                forall|j2: int|
                    0 <= j2 < k ==> store.images@[j2] == demote_one(
                        mid_images[j2],
                        pid,
                        product_image.id,
                    ),
                forall|j2: int| k <= j2 < mid_images.len() ==> store.images@[j2] == mid_images[j2],
                pid == product_image.product_id->0,
                make_primary,
                product_image.position == Some(1i32) && product_image.product_id is Some,
                store.products@ == with_primary(
                    old(store).products@,
                    pid,
                    product_image.id,
                ),
                store.next_image_id == old(store).next_image_id,
                store.next_product_id == old(store).next_product_id,
                store.non_catalog_unchanged(*old(store)),
            decreases mid_images.len() - k,
        {
            let keep = store.images[k].id == product_image.id;
            let clear = match (store.images[k].product_id, store.images[k].position) {
                (Some(q), Some(p)) => q == pid && p == 1 && !keep,
                _ => false,
            };
            if clear {
                store.images[k].position = None;
            }
            k += 1;
        }
        proof {
            assert forall|j2: int|
                0 <= j2 < old_images.len() implies store.images@[j2] == update_pass(
                old_images[j2],
                product_image,
            ) by {
                if j2 == img_idx as int {
                    assert(mid_images[j2] == applied_update(old_images[j2], product_image));
                } else {
                    assert(mid_images[j2] == old_images[j2]);
                }
            }
            assert(store.images@ =~= updated_images(old_images, product_image));
        }
    } else {
        proof {
            assert forall|j2: int|
                0 <= j2 < old_images.len() implies store.images@[j2] == update_pass(
                old_images[j2],
                product_image,
            ) by {
                if j2 != img_idx as int {
                    assert(old_images[j2].id != old_images[img_idx as int].id);
                }
            }
            assert(store.images@ =~= updated_images(old_images, product_image));
        }
    }
    proof {
        lemma_update_preserves_wf(*old(store), *store, product_image);
    }
    Ok(())
}

/// The store stays well-formed across `update_product_image`.
proof fn lemma_update_preserves_wf(pre: Store, post: Store, pi: ProductImage)
    requires
        pre.wf(),
        crate::store::has_image(pre.images@, pi.id),
        pi.product_id matches Some(pid) ==> has_product(pre.products@, pid),
        post.images@ == updated_images(pre.images@, pi),
        post.products@ == if pi.position == Some(1i32) && pi.product_id is Some {
            with_primary(pre.products@, pi.product_id->0, pi.id)
        } else {
            pre.products@
        },
        post.non_catalog_unchanged(pre),
        post.next_product_id == pre.next_product_id,
        post.next_image_id == pre.next_image_id,
    ensures
        post.wf(),
{
    let n = pre.images@.len() as int;
    assert forall|j: int| 0 <= j < n implies #[trigger] post.images@[j] == update_pass(
        pre.images@[j],
        pi,
    ) by {
        assert(updated_images(pre.images@, pi)[j] == update_pass(pre.images@[j], pi));
    }
    assert(forall|j: int| 0 <= j < n ==> (#[trigger] post.images@[j]).id == pre.images@[j].id);
    if pi.product_id is Some {
        let pid = pi.product_id->0;
        let w = choose|j: int|
            0 <= j < pre.products@.len() && (#[trigger] pre.products@[j]).id == Some(pid);
        assert(pre.products@[w].id->0 == pid && pid < pre.next_product_id);
    }
    assert(crate::store::images_wf(post.images@, post.next_image_id, post.next_product_id));
    if pi.position == Some(1i32) && pi.product_id is Some {
        let pid = pi.product_id->0;
        assert forall|p: int| 0 <= p < post.products@.len() implies (#[trigger] post.products@[p]).id
            == pre.products@[p].id && post.products@[p].primary_image_id == (if pre.products@[p].id
            == Some(pid) {
            Some(pi.id)
        } else {
            pre.products@[p].primary_image_id
        }) by {
            assert(with_primary(pre.products@, pid, pi.id)[p] == post.products@[p]);
        }
        // The only row at the primary position of `pid` is the target.
        assert forall|j: int|
            0 <= j < n && crate::store::is_primary(#[trigger] post.images@[j])
                && post.images@[j].product_id == Some(pid) implies post.images@[j].id == pi.id by {
            assert(post.images@[j] == update_pass(pre.images@[j], pi));
        }
        assert forall|i: int, j: int| 0 <= i < j < n implies !(crate::store::is_primary(
            #[trigger] post.images@[i],
        ) && crate::store::is_primary(#[trigger] post.images@[j]) && post.images@[i].product_id
            == post.images@[j].product_id) by {
            if crate::store::is_primary(post.images@[i]) && crate::store::is_primary(
                post.images@[j],
            ) && post.images@[i].product_id == post.images@[j].product_id {
                let q = post.images@[i].product_id->0;
                if q == pid {
                    assert(post.images@[i].id == pi.id && post.images@[j].id == pi.id);
                    assert(pre.images@[i].id != pre.images@[j].id);
                } else {
                    assert(post.images@[i] == pre.images@[i] && post.images@[j] == pre.images@[j]);
                }
            }
        }
        assert(crate::store::primary_unique(post.images@));
        assert forall|p: int, i: int|
            0 <= p < post.products@.len() && 0 <= i < n && (#[trigger] post.images@[i]).product_id
                == (#[trigger] post.products@[p]).id && post.images@[i].position == Some(1i32)
            implies post.products@[p].primary_image_id == Some(post.images@[i].id) by {
            if pre.products@[p].id == Some(pid) {
                assert(post.images@[i].id == pi.id);
            } else {
                assert(post.images@[i] == pre.images@[i]);
                assert(post.products@[p] == pre.products@[p]);
            }
        }
        assert(crate::store::primaries_linked(post.products@, post.images@));
        assert(crate::store::products_wf(post.products@, post.next_product_id));
    } else {
        let t = choose|j: int| 0 <= j < n && (#[trigger] pre.images@[j]).id == pi.id;
        assert forall|j: int| 0 <= j < n && j != t implies #[trigger] post.images@[j]
            == pre.images@[j] by {
            assert(pre.images@[j].id != pre.images@[t].id);
        }
        assert(!crate::store::is_primary(post.images@[t]));
        assert forall|i: int, j: int| 0 <= i < j < n implies !(crate::store::is_primary(
            #[trigger] post.images@[i],
        ) && crate::store::is_primary(#[trigger] post.images@[j]) && post.images@[i].product_id
            == post.images@[j].product_id) by {
            if i != t && j != t {
                assert(post.images@[i] == pre.images@[i] && post.images@[j] == pre.images@[j]);
            }
        }
        assert(crate::store::primary_unique(post.images@));
        assert forall|p: int, i: int|
            0 <= p < post.products@.len() && 0 <= i < n && (#[trigger] post.images@[i]).product_id
                == (#[trigger] post.products@[p]).id && post.images@[i].position == Some(1i32)
            implies post.products@[p].primary_image_id == Some(post.images@[i].id) by {
            assert(i != t);
            assert(post.images@[i] == pre.images@[i]);
        }
        assert(crate::store::primaries_linked(post.products@, post.images@));
    }
}

/// The index of the stored image with this id; meaningful only when
/// `has_image` holds and ids are unique.
pub open spec fn image_index(images: Seq<ProductImage>, iid: i32) -> int {
    choose|j: int| 0 <= j < images.len() && (#[trigger] images[j]).id == iid
}

/// The product table after every reference to image `iid` as a primary
/// image is cleared.
pub open spec fn cleared_primary(products: Seq<crate::data::Product>, iid: i32) -> Seq<
    crate::data::Product,
> {
    products.map(
        |k: int, p: crate::data::Product|
            if p.primary_image_id == Some(iid) {
                crate::data::Product {
                    id: p.id,
                    name: p.name,
                    description: p.description,
                    primary_image_id: None,
                    price: p.price,
                    size_id: p.size_id,
                    category_id: p.category_id,
                }
            } else {
                p
            },
    )
}

/// Deletes an image row and returns its stored file reference so the
/// caller can drop the underlying file. A missing row is a storage
/// failure, as reading the row to delete would report it. A product
/// that referenced the row as its primary image has the reference
/// cleared in the same step, as the storage schema's delete rule
/// would.
pub fn delete_product_image_by_id(
    store: &mut Store,
    claims: Claims,
    admin_role: &str,
    id: i32,
) -> (r: Result<String, ApiError>)
    requires
        old(store).wf(),
    ensures
        final(store).wf(),
        r is Ok <==> claims_admin(old(store).users@, claims.sub, admin_role@)
            && crate::store::has_image(old(store).images@, id),
        match r {
            Ok(url) => {
                &&& url@ == old(store).images@[image_index(old(store).images@, id)].image_url@
                &&& final(store).images@ == old(store).images@.remove(
                    image_index(old(store).images@, id),
                )
                &&& final(store).products@ == cleared_primary(old(store).products@, id)
                &&& final(store).non_catalog_unchanged(*old(store))
                &&& final(store).next_product_id == old(store).next_product_id
                &&& final(store).next_image_id == old(store).next_image_id
            },
            Err(e) => {
                &&& *final(store) == *old(store)
                &&& (!claims_admin(old(store).users@, claims.sub, admin_role@) ==> e
                    == ApiError::Unauthorized)
                &&& (claims_admin(old(store).users@, claims.sub, admin_role@) ==> e
                    == ApiError::DatabaseError)
            },
        },
{
    if let Err(e) = Claims::check_admin(store, claims, admin_role) {
        return Err(e);
    }
    let j = match store.find_image(id) {
        Some(j) => j,
        None => {
            return Err(ApiError::DatabaseError);
        },
    };
    proof {
        let t = image_index(old(store).images@, id);
        if t != j as int {
            assert(old(store).images@[t].id == old(store).images@[j as int].id);
        }
    }
    let url = store.images[j].image_url.clone();
    store.images.remove(j);
    let ghost mid_products = store.products@;
    // Clear dangling primary references to the removed row.
    let mut k: usize = 0;
    while k < store.products.len()
        invariant
            store.products@.len() == mid_products.len(),
            forall|j2: int|
                0 <= j2 < k ==> store.products@[j2] == cleared_primary(mid_products, id)[j2],
            forall|j2: int| k <= j2 < mid_products.len() ==> store.products@[j2]
                == mid_products[j2],
            store.images@ == old(store).images@.remove(image_index(old(store).images@, id)),
            store.next_image_id == old(store).next_image_id,
            store.next_product_id == old(store).next_product_id,
            store.non_catalog_unchanged(*old(store)),
            mid_products == old(store).products@,
        decreases mid_products.len() - k,
    {
        let dangling = match store.products[k].primary_image_id {
            Some(p) => p == id,
            None => false,
        };
        if dangling {
            store.products[k].primary_image_id = None;
        }
        k += 1;
    }
    proof {
        assert(store.products@ =~= cleared_primary(old(store).products@, id));
        lemma_delete_preserves_wf(*old(store), *store, id);
    }
    Ok(url)
}

/// The store stays well-formed across `delete_product_image_by_id`.
proof fn lemma_delete_preserves_wf(pre: Store, post: Store, id: i32)
    requires
        pre.wf(),
        crate::store::has_image(pre.images@, id),
        post.images@ == pre.images@.remove(image_index(pre.images@, id)),
        post.products@ == cleared_primary(pre.products@, id),
        post.non_catalog_unchanged(pre),
        post.next_product_id == pre.next_product_id,
        post.next_image_id == pre.next_image_id,
    ensures
        post.wf(),
{
    let t = image_index(pre.images@, id);
    assert(0 <= t < pre.images@.len() && pre.images@[t].id == id);
    let n = post.images@.len() as int;
    assert forall|j: int| 0 <= j < n implies #[trigger] post.images@[j] == (if j < t {
        pre.images@[j]
    } else {
        pre.images@[j + 1]
    }) by {}
    assert forall|p: int| 0 <= p < post.products@.len() implies (#[trigger] post.products@[p]).id
        == pre.products@[p].id && post.products@[p].primary_image_id == (if pre.products@[
    p].primary_image_id == Some(id) {
        None
    } else {
        pre.products@[p].primary_image_id
    }) by {
        assert(cleared_primary(pre.products@, id)[p] == post.products@[p]);
    }
    assert(crate::store::images_wf(post.images@, post.next_image_id, post.next_product_id));
    assert(crate::store::products_wf(post.products@, post.next_product_id));
    assert(crate::store::primary_unique(post.images@));
    assert forall|p: int, i: int|
        0 <= p < post.products@.len() && 0 <= i < n && (#[trigger] post.images@[i]).product_id == (
        #[trigger] post.products@[p]).id && post.images@[i].position == Some(1i32)
        implies post.products@[p].primary_image_id == Some(post.images@[i].id) by {
        let i0 = if i < t {
            i
        } else {
            i + 1
        };
        assert(post.images@[i] == pre.images@[i0]);
        assert(pre.products@[p].primary_image_id == Some(pre.images@[i0].id));
        if pre.images@[i0].id == id {
            if i0 != t {
                assert(pre.images@[i0].id != pre.images@[t].id);
            }
            assert(false);
        }
    }
    assert(crate::store::primaries_linked(post.products@, post.images@));
}

/// The externally visible URL of a stored image file.
pub open spec fn image_path_spec(config: EnvConfiguration, url: Seq<char>) -> Seq<char> {
    if config.local {
        "http://"@ + config.server_address@ + ":"@ + config.server_port@ + "/"@
            + config.dir_product_images@ + "/"@ + url
    } else {
        "/"@ + config.dir_product_images@ + "/"@ + url
    }
}

/// Builds the externally visible URL of a stored image file.
pub fn get_image_path(config: &EnvConfiguration, image_url: &str) -> (r: String)
    ensures
        r@ == image_path_spec(*config, image_url@),
{
    if config.local {
        let s = String::from_str("http://");
        let s = s.concat(config.server_address.as_str());
        let s = s.concat(":");
        let s = s.concat(config.server_port.as_str());
        let s = s.concat("/");
        let s = s.concat(config.dir_product_images.as_str());
        let s = s.concat("/");
        let s = s.concat(image_url);
        proof {
            assert(s@ =~= image_path_spec(*config, image_url@));
        }
        s
    } else {
        let s = String::from_str("/");
        let s = s.concat(config.dir_product_images.as_str());
        let s = s.concat("/");
        let s = s.concat(image_url);
        proof {
            assert(s@ =~= image_path_spec(*config, image_url@));
        }
        s
    }
}

/// Reads one image row; its URL is presented through the configured
/// public path. A missing row is a storage failure, as the
/// single-row read would report it.
pub fn get_one_product_image(store: &Store, config: &EnvConfiguration, id: i32) -> (r: Result<
    ProductImage,
    ApiError,
>)
    requires
        store.wf(),
    ensures
        r is Ok <==> crate::store::has_image(store.images@, id),
        match r {
            Ok(img) => {
                &&& img.id == id
                &&& img.product_id == store.images@[image_index(store.images@, id)].product_id
                &&& img.position == store.images@[image_index(store.images@, id)].position
                &&& img.image_url@ == image_path_spec(
                    *config,
                    store.images@[image_index(store.images@, id)].image_url@,
                )
            },
            Err(e) => e == ApiError::DatabaseError,
        },
{
    let j = match store.find_image(id) {
        Some(j) => j,
        None => {
            return Err(ApiError::DatabaseError);
        },
    };
    proof {
        let t = image_index(store.images@, id);
        if t != j as int {
            assert(store.images@[t].id == store.images@[j as int].id);
        }
    }
    let row = &store.images[j];
    Ok(
        ProductImage {
            id: row.id,
            image_url: get_image_path(config, row.image_url.as_str()),
            product_id: row.product_id,
            position: row.position,
        },
    )
}

/// The image rows passing an optional product filter, in storage
/// order.
pub open spec fn filtered_images(images: Seq<ProductImage>, product_id: Option<i32>) -> Seq<
    ProductImage,
>
    decreases images.len(),
{
    if images.len() == 0 {
        Seq::empty()
    } else {
        filtered_images(images.drop_last(), product_id) + (if match product_id {
            Some(p) => images.last().product_id == Some(p),
            None => true,
        } {
            seq![images.last()]
        } else {
            Seq::empty()
        })
    }
}

/// Lists image rows, optionally only those of one product. As in the
/// interface this mirrors, the returned rows carry the filter's
/// product id (absent when no filter was given), and each URL is
/// presented through the configured public path.
pub fn get_all_product_images(
    store: &Store,
    config: &EnvConfiguration,
    product_id: Option<i32>,
) -> (r: Vec<ProductImage>)
    ensures
        r@.len() == filtered_images(store.images@, product_id).len(),
        forall|k: int|
            0 <= k < r@.len() ==> {
                let src = filtered_images(store.images@, product_id)[k];
                (#[trigger] r@[k]).id == src.id && r@[k].position == src.position
                    && r@[k].product_id == product_id && r@[k].image_url@ == image_path_spec(
                    *config,
                    src.image_url@,
                )
            },
{
    let mut out: Vec<ProductImage> = Vec::new();
    let mut i: usize = 0;
    while i < store.images.len()
        invariant
            i <= store.images@.len(),
            out@.len() == filtered_images(store.images@.take(i as int), product_id).len(),
            forall|k: int|
                0 <= k < out@.len() ==> {
                    let src = filtered_images(store.images@.take(i as int), product_id)[k];
                    (#[trigger] out@[k]).id == src.id && out@[k].position == src.position
                        && out@[k].product_id == product_id && out@[k].image_url@
                        == image_path_spec(*config, src.image_url@)
                },
        decreases store.images@.len() - i,
    {
        let row = &store.images[i];
        let keep = match product_id {
            Some(p) => {
                match row.product_id {
                    Some(q) => q == p,
                    None => false,
                }
            },
            None => true,
        };
        proof {
            assert(store.images@.take(i as int + 1).drop_last() =~= store.images@.take(i as int));
            assert(store.images@.take(i as int + 1).last() == store.images@[i as int]);
        }
        if keep {
            out.push(
                ProductImage {
                    id: row.id,
                    image_url: get_image_path(config, row.image_url.as_str()),
                    product_id,
                    position: row.position,
                },
            );
        }
        i += 1;
    }
    proof {
        assert(store.images@.take(store.images@.len() as int) =~= store.images@);
    }
    out
}

} // verus!
