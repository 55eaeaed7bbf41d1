//! The modeled state of the storage layer.
//!
//! `Store` holds the rows of every table the transaction core touches,
//! in insertion order, together with the serial counters the storage
//! layer would use. Every operation of the core requires and preserves
//! `Store::wf()`, which carries the two central invariants:
//!
//! * for each product at most one image row holds position 1, and when
//!   one exists the product's `primary_image_id` equals its id;
//! * every stored order line satisfies
//!   `total_price == quantity * price` exactly.
//!
//! The fields are public so that embedding code and tests can build and
//! inspect the modeled tables directly.

use vstd::prelude::*;

use crate::data::{Category, Order, OrderItemRow, Product, ProductImage, Shipping, SizeRow, User};

verus! {

/// True when the image row claims the primary position of a product.
pub open spec fn is_primary(img: ProductImage) -> bool {
    img.product_id is Some && img.position == Some(1i32)
}

/// Product rows: ids present, unique, and below the serial counter.
pub open spec fn products_wf(products: Seq<Product>, next: i32) -> bool {
    &&& forall|i: int|
        0 <= i < products.len() ==> (#[trigger] products[i]).id is Some && 0 < products[i].id->0
            < next
    &&& forall|i: int, j: int|
        0 <= i < j < products.len() ==> (#[trigger] products[i]).id != (#[trigger] products[j]).id
}

/// Image rows: ids unique and below the counter; an assigned image
/// only references a product id the store has ever allocated.
pub open spec fn images_wf(images: Seq<ProductImage>, next: i32, next_product: i32) -> bool {
    &&& forall|i: int|
        0 <= i < images.len() ==> 0 < (#[trigger] images[i]).id < next && (images[i].product_id
            is Some ==> 0 < images[i].product_id->0 < next_product)
    &&& forall|i: int, j: int|
        0 <= i < j < images.len() ==> (#[trigger] images[i]).id != (#[trigger] images[j]).id
}

/// At most one image row holds position 1 for any product id.
pub open spec fn primary_unique(images: Seq<ProductImage>) -> bool {
    forall|i: int, j: int|
        0 <= i < j < images.len() ==> !(is_primary(#[trigger] images[i]) && is_primary(
            #[trigger] images[j],
        ) && images[i].product_id == images[j].product_id)
}

/// When a product has an image at position 1, the product's
/// `primary_image_id` names exactly that image.
pub open spec fn primaries_linked(products: Seq<Product>, images: Seq<ProductImage>) -> bool {
    forall|p: int, i: int|
        0 <= p < products.len() && 0 <= i < images.len() && (#[trigger] images[i]).product_id == (
        #[trigger] products[p]).id && images[i].position == Some(1i32)
            ==> products[p].primary_image_id == Some(images[i].id)
}

/// Category rows: ids and names present, both unique.
pub open spec fn categories_wf(categories: Seq<Category>, next: i32) -> bool {
    &&& forall|i: int|
        0 <= i < categories.len() ==> (#[trigger] categories[i]).id is Some && 0
            < categories[i].id->0 < next && categories[i].name is Some
    &&& forall|i: int, j: int|
        0 <= i < j < categories.len() ==> (#[trigger] categories[i]).id != (
        #[trigger] categories[j]).id && categories[i].name->0@ != categories[j].name->0@
}

/// Size rows: ids unique and below the counter.
pub open spec fn sizes_wf(sizes: Seq<SizeRow>, next: i32) -> bool {
    &&& forall|i: int| 0 <= i < sizes.len() ==> 0 < (#[trigger] sizes[i]).id < next
    &&& forall|i: int, j: int|
        0 <= i < j < sizes.len() ==> (#[trigger] sizes[i]).id != (#[trigger] sizes[j]).id
}

/// User rows: ids unique; username, email and (present) phone numbers
/// unique; every stored account carries a role.
pub open spec fn users_wf(users: Seq<User>, next: i32) -> bool {
    &&& forall|i: int|
        0 <= i < users.len() ==> 0 < (#[trigger] users[i]).id < next && users[i].role is Some
    &&& forall|i: int, j: int|
        0 <= i < j < users.len() ==> (#[trigger] users[i]).id != (#[trigger] users[j]).id
            && users[i].username@ != users[j].username@ && users[i].email@ != users[j].email@ && !(
        users[i].phone_number is Some && users[j].phone_number is Some
            && users[i].phone_number->0@ == users[j].phone_number->0@)
}

/// Order rows: ids present, unique, below the counter.
pub open spec fn orders_wf(orders: Seq<Order>, next: i32) -> bool {
    &&& forall|i: int|
        0 <= i < orders.len() ==> (#[trigger] orders[i]).id is Some && 0 < orders[i].id->0 < next
    &&& forall|i: int, j: int|
        0 <= i < j < orders.len() ==> (#[trigger] orders[i]).id != (#[trigger] orders[j]).id
}

/// Some stored order has this id.
pub open spec fn has_order(orders: Seq<Order>, oid: i32) -> bool {
    exists|j: int| 0 <= j < orders.len() && (#[trigger] orders[j]).id == Some(oid)
}

/// Some stored product has this id.
pub open spec fn has_product(products: Seq<Product>, pid: i32) -> bool {
    exists|j: int| 0 <= j < products.len() && (#[trigger] products[j]).id == Some(pid)
}

/// The index of the stored product with this id; meaningful only when
/// `has_product` holds and ids are unique.
pub open spec fn product_index(products: Seq<Product>, pid: i32) -> int {
    choose|j: int| 0 <= j < products.len() && (#[trigger] products[j]).id == Some(pid)
}

/// The index of the stored order with this id; meaningful only when
/// `has_order` holds and ids are unique.
pub open spec fn order_index(orders: Seq<Order>, oid: i32) -> int {
    choose|j: int| 0 <= j < orders.len() && (#[trigger] orders[j]).id == Some(oid)
}

/// Some stored image has this id.
pub open spec fn has_image(images: Seq<ProductImage>, iid: i32) -> bool {
    exists|j: int| 0 <= j < images.len() && (#[trigger] images[j]).id == iid
}

/// Some stored category has this id.
pub open spec fn has_category(categories: Seq<Category>, cid: i32) -> bool {
    exists|j: int| 0 <= j < categories.len() && (#[trigger] categories[j]).id == Some(cid)
}

/// Some stored size row has this serial id.
pub open spec fn has_size(sizes: Seq<SizeRow>, sid: i32) -> bool {
    exists|j: int| 0 <= j < sizes.len() && (#[trigger] sizes[j]).id == sid
}

/// Order lines: ids unique; each line belongs to a stored order; and
/// the stored total is exactly `quantity * price`.
pub open spec fn order_items_wf(items: Seq<OrderItemRow>, next: i32, orders: Seq<Order>) -> bool {
    &&& forall|i: int|
        0 <= i < items.len() ==> 0 < (#[trigger] items[i]).id < next && has_order(
            orders,
            items[i].order_id,
        ) && items[i].total_price == items[i].quantity as int * items[i].price as int
    &&& forall|i: int, j: int|
        0 <= i < j < items.len() ==> (#[trigger] items[i]).id != (#[trigger] items[j]).id
}

/// Shipping records: one per order, and only for stored orders.
pub open spec fn shippings_wf(shippings: Seq<Shipping>, orders: Seq<Order>) -> bool {
    &&& forall|i: int|
        0 <= i < shippings.len() ==> has_order(orders, (#[trigger] shippings[i]).order_id)
    &&& forall|i: int, j: int|
        0 <= i < j < shippings.len() ==> (#[trigger] shippings[i]).order_id != (
        #[trigger] shippings[j]).order_id
}

/// The modeled database of record.
pub struct Store {
    pub products: Vec<Product>,
    pub images: Vec<ProductImage>,
    pub categories: Vec<Category>,
    pub sizes: Vec<SizeRow>,
    pub orders: Vec<Order>,
    pub order_items: Vec<OrderItemRow>,
    pub shippings: Vec<Shipping>,
    pub users: Vec<User>,
    pub next_product_id: i32,
    pub next_image_id: i32,
    pub next_category_id: i32,
    pub next_size_id: i32,
    pub next_order_id: i32,
    pub next_order_item_id: i32,
    pub next_user_id: i32,
}

impl Store {
    /// Well-formedness of the whole store; required and preserved by
    /// every operation of the core.
    pub open spec fn wf(self) -> bool {
        &&& 0 < self.next_product_id
        &&& 0 < self.next_image_id
        &&& 0 < self.next_category_id
        &&& 0 < self.next_size_id
        &&& 0 < self.next_order_id
        &&& 0 < self.next_order_item_id
        &&& 0 < self.next_user_id
        &&& products_wf(self.products@, self.next_product_id)
        &&& images_wf(self.images@, self.next_image_id, self.next_product_id)
        &&& primary_unique(self.images@)
        &&& primaries_linked(self.products@, self.images@)
        &&& categories_wf(self.categories@, self.next_category_id)
        &&& sizes_wf(self.sizes@, self.next_size_id)
        &&& users_wf(self.users@, self.next_user_id)
        &&& orders_wf(self.orders@, self.next_order_id)
        &&& order_items_wf(self.order_items@, self.next_order_item_id, self.orders@)
        &&& shippings_wf(self.shippings@, self.orders@)
    }

    /// Everything outside the catalog tables (products and images) is
    /// the same in both stores.
    pub open spec fn non_catalog_unchanged(self, pre: Store) -> bool {
        &&& self.categories@ == pre.categories@
        &&& self.sizes@ == pre.sizes@
        &&& self.orders@ == pre.orders@
        &&& self.order_items@ == pre.order_items@
        &&& self.shippings@ == pre.shippings@
        &&& self.users@ == pre.users@
        &&& self.next_category_id == pre.next_category_id
        &&& self.next_size_id == pre.next_size_id
        &&& self.next_order_id == pre.next_order_id
        &&& self.next_order_item_id == pre.next_order_item_id
        &&& self.next_user_id == pre.next_user_id
    }

    /// The catalog tables (products, images, categories, sizes) and
    /// their counters are the same in both stores.
    pub open spec fn catalog_unchanged(self, pre: Store) -> bool {
        &&& self.products@ == pre.products@
        &&& self.images@ == pre.images@
        &&& self.categories@ == pre.categories@
        &&& self.sizes@ == pre.sizes@
        &&& self.next_product_id == pre.next_product_id
        &&& self.next_image_id == pre.next_image_id
        &&& self.next_category_id == pre.next_category_id
        &&& self.next_size_id == pre.next_size_id
    }

    /// The user table and its counter are the same in both stores.
    pub open spec fn users_unchanged(self, pre: Store) -> bool {
        &&& self.users@ == pre.users@
        &&& self.next_user_id == pre.next_user_id
    }

    /// The order tables (orders, order lines, shipping) and their
    /// counters are the same in both stores.
    pub open spec fn orders_unchanged(self, pre: Store) -> bool {
        &&& self.orders@ == pre.orders@
        &&& self.order_items@ == pre.order_items@
        &&& self.shippings@ == pre.shippings@
        &&& self.next_order_id == pre.next_order_id
        &&& self.next_order_item_id == pre.next_order_item_id
    }

    /// The primary-position invariant, stated on its own: in a
    /// well-formed store — and every operation of the core hands one
    /// back — at most one image row of any product holds position 1,
    /// and while such a row exists, the product's `primary_image_id`
    /// is exactly its id.
    pub proof fn lemma_primary_position_invariant(self)
        requires
            self.wf(),
        ensures
            forall|i: int, j: int|
                0 <= i < j < self.images@.len() ==> !(is_primary(#[trigger] self.images@[i])
                    && is_primary(#[trigger] self.images@[j]) && self.images@[i].product_id
                    == self.images@[j].product_id),
            forall|p: int, i: int|
                0 <= p < self.products@.len() && 0 <= i < self.images@.len() && (
                #[trigger] self.images@[i]).product_id == (#[trigger] self.products@[p]).id
                    && self.images@[i].position == Some(1i32) ==> self.products@[
                p].primary_image_id == Some(self.images@[i].id),
    {
    }

    /// The line-total invariant, stated on its own: in a well-formed
    /// store every stored order line satisfies
    /// `total_price == quantity * price` exactly.
    pub proof fn lemma_line_total_invariant(self)
        requires
            self.wf(),
        ensures
            forall|i: int|
                0 <= i < self.order_items@.len() ==> (#[trigger] self.order_items@[i]).total_price
                    == self.order_items@[i].quantity as int * self.order_items@[i].price as int,
    {
    }

    /// An empty store, as a fresh database would be.
    pub fn new() -> (s: Store)
        ensures
            s.wf(),
            s.products@.len() == 0,
            s.images@.len() == 0,
            s.categories@.len() == 0,
            s.sizes@.len() == 0,
            s.orders@.len() == 0,
            s.order_items@.len() == 0,
            s.shippings@.len() == 0,
            s.users@.len() == 0,
    {
        Store {
            products: Vec::new(),
            images: Vec::new(),
            categories: Vec::new(),
            sizes: Vec::new(),
            orders: Vec::new(),
            order_items: Vec::new(),
            shippings: Vec::new(),
            users: Vec::new(),
            next_product_id: 1,
            next_image_id: 1,
            next_category_id: 1,
            next_size_id: 1,
            next_order_id: 1,
            next_order_item_id: 1,
            next_user_id: 1,
        }
    }

    /// Index of the product with the given id, if any.
    pub fn find_product(&self, pid: i32) -> (r: Option<usize>)
        ensures
            match r {
                Some(j) => j < self.products@.len() && self.products@[j as int].id == Some(pid),
                None => forall|k: int|
                    0 <= k < self.products@.len() ==> (#[trigger] self.products@[k]).id != Some(
                        pid,
                    ),
            },
            r is Some <==> has_product(self.products@, pid),
    {
        let mut i: usize = 0;
        while i < self.products.len()
            invariant
                i <= self.products@.len(),
                forall|k: int| 0 <= k < i ==> (#[trigger] self.products@[k]).id != Some(pid),
            decreases self.products@.len() - i,
        {
            if let Some(id) = self.products[i].id {
                if id == pid {
                    return Some(i);
                }
            }
            i += 1;
        }
        None
    }

    /// Index of the image with the given id, if any.
    pub fn find_image(&self, iid: i32) -> (r: Option<usize>)
        ensures
            match r {
                Some(j) => j < self.images@.len() && self.images@[j as int].id == iid,
                None => forall|k: int|
                    0 <= k < self.images@.len() ==> (#[trigger] self.images@[k]).id != iid,
            },
            r is Some <==> has_image(self.images@, iid),
    {
        let mut i: usize = 0;
        while i < self.images.len()
            invariant
                i <= self.images@.len(),
                forall|k: int| 0 <= k < i ==> (#[trigger] self.images@[k]).id != iid,
            decreases self.images@.len() - i,
        {
            if self.images[i].id == iid {
                return Some(i);
            }
            i += 1;
        }
        None
    }

    /// Index of the category with the given id, if any.
    pub fn find_category(&self, cid: i32) -> (r: Option<usize>)
        ensures
            match r {
                Some(j) => j < self.categories@.len() && self.categories@[j as int].id == Some(
                    cid,
                ),
                None => forall|k: int|
                    0 <= k < self.categories@.len() ==> (#[trigger] self.categories@[k]).id
                        != Some(cid),
            },
    {
        let mut i: usize = 0;
        while i < self.categories.len()
            invariant
                i <= self.categories@.len(),
                forall|k: int| 0 <= k < i ==> (#[trigger] self.categories@[k]).id != Some(cid),
            decreases self.categories@.len() - i,
        {
            if let Some(id) = self.categories[i].id {
                if id == cid {
                    return Some(i);
                }
            }
            i += 1;
        }
        None
    }

    /// Index of the order with the given id, if any.
    pub fn find_order(&self, oid: i32) -> (r: Option<usize>)
        ensures
            match r {
                Some(j) => j < self.orders@.len() && self.orders@[j as int].id == Some(oid),
                None => forall|k: int|
                    0 <= k < self.orders@.len() ==> (#[trigger] self.orders@[k]).id != Some(oid),
            },
            r is Some <==> has_order(self.orders@, oid),
    {
        let mut i: usize = 0;
        while i < self.orders.len()
            invariant
                i <= self.orders@.len(),
                forall|k: int| 0 <= k < i ==> (#[trigger] self.orders@[k]).id != Some(oid),
            decreases self.orders@.len() - i,
        {
            if let Some(id) = self.orders[i].id {
                if id == oid {
                    return Some(i);
                }
            }
            i += 1;
        }
        None
    }

    /// Index of the user with the given id, if any.
    pub fn find_user(&self, uid: i32) -> (r: Option<usize>)
        ensures
            match r {
                Some(j) => j < self.users@.len() && self.users@[j as int].id == uid,
                None => forall|k: int|
                    0 <= k < self.users@.len() ==> (#[trigger] self.users@[k]).id != uid,
            },
    {
        let mut i: usize = 0;
        while i < self.users.len()
            invariant
                i <= self.users@.len(),
                forall|k: int| 0 <= k < i ==> (#[trigger] self.users@[k]).id != uid,
            decreases self.users@.len() - i,
        {
            if self.users[i].id == uid {
                return Some(i);
            }
            i += 1;
        }
        None
    }

    /// Index of the user with the given email, if any.
    pub fn find_user_by_email(&self, email: &String) -> (r: Option<usize>)
        ensures
            match r {
                Some(j) => j < self.users@.len() && self.users@[j as int].email@ == email@,
                None => forall|k: int|
                    0 <= k < self.users@.len() ==> (#[trigger] self.users@[k]).email@ != email@,
            },
    {
        let mut i: usize = 0;
        while i < self.users.len()
            invariant
                i <= self.users@.len(),
                forall|k: int| 0 <= k < i ==> (#[trigger] self.users@[k]).email@ != email@,
            decreases self.users@.len() - i,
        {
            if crate::data::string_eq(&self.users[i].email, email) {
                return Some(i);
            }
            i += 1;
        }
        None
    }

    /// Index of the shipping record of the given order, if any.
    pub fn find_shipping(&self, oid: i32) -> (r: Option<usize>)
        ensures
            match r {
                Some(j) => j < self.shippings@.len() && self.shippings@[j as int].order_id == oid,
                None => forall|k: int|
                    0 <= k < self.shippings@.len() ==> (#[trigger] self.shippings@[k]).order_id
                        != oid,
            },
    {
        let mut i: usize = 0;
        while i < self.shippings.len()
            invariant
                i <= self.shippings@.len(),
                forall|k: int| 0 <= k < i ==> (#[trigger] self.shippings@[k]).order_id != oid,
            decreases self.shippings@.len() - i,
        {
            if self.shippings[i].order_id == oid {
                return Some(i);
            }
            i += 1;
        }
        None
    }

    /// Index of the first size row of the given product, if any.
    pub fn find_size_by_product(&self, pid: i32) -> (r: Option<usize>)
        ensures
            match r {
                Some(j) => j < self.sizes@.len() && self.sizes@[j as int].size.product_id == pid
                    && forall|k: int|
                    0 <= k < j ==> (#[trigger] self.sizes@[k]).size.product_id != pid,
                None => forall|k: int|
                    0 <= k < self.sizes@.len() ==> (#[trigger] self.sizes@[k]).size.product_id
                        != pid,
            },
    {
        let mut i: usize = 0;
        while i < self.sizes.len()
            invariant
                i <= self.sizes@.len(),
                forall|k: int| 0 <= k < i ==> (#[trigger] self.sizes@[k]).size.product_id != pid,
            decreases self.sizes@.len() - i,
        {
            if self.sizes[i].size.product_id == pid {
                return Some(i);
            }
            i += 1;
        }
        None
    }
}

} // verus!
