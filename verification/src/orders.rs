//! The order transaction manager.
//!
//! Placing an order is all-or-nothing: the order header and every
//! line are inserted in one step, each stored line total is exactly
//! `quantity * price`, and any failure — an exhausted id range, a
//! line total that cannot be represented, a line naming a product
//! that does not exist — leaves the store exactly as it was.

use vstd::prelude::*;

use crate::claims::{claims_admin, Claims};
use crate::data::{
    clone_opt_string, string_eq, DataOrder, Order, OrderDetails, OrderItem, OrderItemDetails,
    OrderItemRow, Shipping,
};
use crate::errors::ApiError;
use crate::store::{has_order, has_product, Store};

verus! {

/// A line total fits the stored integer range.
pub open spec fn item_total_ok(it: OrderItem) -> bool {
    it.quantity as int * it.price as int <= u64::MAX
}

/// The order id, the line ids and every line of the request can be
/// stored: ids are available, totals representable, products present.
pub open spec fn can_place(pre: Store, items: Seq<OrderItem>) -> bool {
    &&& pre.next_order_id < i32::MAX
    &&& items.len() <= i32::MAX - pre.next_order_item_id
    &&& forall|k: int|
        0 <= k < items.len() ==> item_total_ok(#[trigger] items[k]) && has_product(
            pre.products@,
            items[k].product_id,
        )
}

/// The stored order lines a request produces: bound to order `oid`,
/// with serial ids from `base` on, each total recomputed from
/// quantity and price.
pub open spec fn placed_items(items: Seq<OrderItem>, oid: i32, base: i32) -> Seq<OrderItemRow> {
    Seq::new(
        items.len(),
        |k: int|
            OrderItemRow {
                id: (base + k) as i32,
                order_id: oid,
                product_id: Some(items[k].product_id),
                quantity: items[k].quantity,
                price: items[k].price,
                size: items[k].size,
                total_price: (items[k].quantity as int * items[k].price as int) as u64,
            },
    )
}

/// Places an order with its lines atomically; `now` is the caller's
/// clock reading, stamped on the stored header. On success the new
/// order id is returned; on any failure the store is unchanged — no
/// order row and no line row of the failed request persists.
pub fn place_new_order(store: &mut Store, data_order: DataOrder, now: u64) -> (r: Result<
    i32,
    ApiError,
>)
    requires
        old(store).wf(),
    ensures
        final(store).wf(),
        r is Ok <==> can_place(*old(store), data_order.order_items@),
        match r {
            Ok(oid) => {
                &&& oid == old(store).next_order_id
                &&& final(store).orders@ == old(store).orders@.push(
                    (Order {
                        id: Some(oid),
                        user_id: data_order.order.user_id,
                        total_price: data_order.order.total_price,
                        status: data_order.order.status,
                        online_payment: data_order.order.online_payment,
                        date: Some(now),
                        updated_at: Some(now),
                    }),
                )
                &&& final(store).order_items@ == old(store).order_items@ + placed_items(
                    data_order.order_items@,
                    oid,
                    old(store).next_order_item_id,
                )
                &&& final(store).shippings@ == old(store).shippings@
                &&& final(store).next_order_id == oid + 1
                &&& final(store).next_order_item_id == old(store).next_order_item_id
                    + data_order.order_items@.len()
                &&& final(store).catalog_unchanged(*old(store))
                &&& final(store).users_unchanged(*old(store))
            },
            Err(e) => {
                &&& *final(store) == *old(store)
                &&& e == ApiError::DatabaseError
            },
        },
{
    if store.next_order_id == i32::MAX {
        return Err(ApiError::DatabaseError);
    }
    let base = store.next_order_item_id;
    let n_items = data_order.order_items.len();
    if n_items > (i32::MAX - base) as usize {
        return Err(ApiError::DatabaseError);
    }
    let oid = store.next_order_id;
    // Build every line first; a failing line aborts with nothing
    // written.
    let mut rows: Vec<OrderItemRow> = Vec::new();
    let mut k: usize = 0;
    while k < n_items
        invariant
            old(store).wf(),
            k <= n_items,
            n_items == data_order.order_items@.len(),
            n_items <= i32::MAX - base,
            rows@.len() == k,
            forall|j: int|
                0 <= j < k ==> rows@[j] == placed_items(data_order.order_items@, oid, base)[j],
            forall|j: int|
                0 <= j < k ==> item_total_ok(#[trigger] data_order.order_items@[j]) && has_product(
                    store.products@,
                    data_order.order_items@[j].product_id,
                ),
            *store == *old(store),
            oid == store.next_order_id,
            base == store.next_order_item_id,
        decreases n_items - k,
    {
        let it = &data_order.order_items[k];
        let total = match (it.quantity as u64).checked_mul(it.price) {
            Some(t) => t,
            None => {
                return Err(ApiError::DatabaseError);
            },
        };
        // A line must reference a stored product.
        if store.find_product(it.product_id).is_none() {
            return Err(ApiError::DatabaseError);
        }
        rows.push(
            OrderItemRow {
                id: base + (k as i32),
                order_id: oid,
                product_id: Some(it.product_id),
                quantity: it.quantity,
                price: it.price,
                size: clone_opt_string(&it.size),
                total_price: total,
            },
        );
        k += 1;
    }
    store.orders.push(
        Order {
            id: Some(oid),
            user_id: data_order.order.user_id,
            total_price: data_order.order.total_price,
            status: data_order.order.status,
            online_payment: data_order.order.online_payment,
            date: Some(now),
            updated_at: Some(now),
        },
    );
    store.order_items.append(&mut rows);
    store.next_order_id = oid + 1;
    store.next_order_item_id = base + (n_items as i32);
    proof {
        let pre = *old(store);
        let items = data_order.order_items@;
        assert(store.order_items@ =~= pre.order_items@ + placed_items(items, oid, base));
        let n_old = pre.order_items@.len() as int;
        assert forall|i: int| 0 <= i < store.order_items@.len() implies {
            let it = #[trigger] store.order_items@[i];
            &&& 0 < it.id < store.next_order_item_id
            &&& has_order(store.orders@, it.order_id)
            &&& it.total_price == it.quantity as int * it.price as int
        } by {
            if i < n_old {
                let w = choose|j: int|
                    0 <= j < pre.orders@.len() && (#[trigger] pre.orders@[j]).id == Some(
                        pre.order_items@[i].order_id,
                    );
                assert(store.orders@[w].id == Some(store.order_items@[i].order_id));
            } else {
                assert(store.order_items@[i] == placed_items(items, oid, base)[i - n_old]);
                assert(store.orders@[store.orders@.len() - 1].id == Some(oid));
            }
        }
        assert forall|i: int, j: int|
            0 <= i < j < store.order_items@.len() implies (#[trigger] store.order_items@[i]).id != (
        #[trigger] store.order_items@[j]).id by {}
        assert(crate::store::order_items_wf(
            store.order_items@,
            store.next_order_item_id,
            store.orders@,
        ));
        assert forall|i: int| 0 <= i < store.shippings@.len() implies has_order(
            store.orders@,
            (#[trigger] store.shippings@[i]).order_id,
        ) by {
            let w = choose|j: int|
                0 <= j < pre.orders@.len() && (#[trigger] pre.orders@[j]).id == Some(
                    pre.shippings@[i].order_id,
                );
            assert(store.orders@[w].id == Some(store.shippings@[i].order_id));
        }
        assert(crate::store::shippings_wf(store.shippings@, store.orders@));
        assert(crate::store::orders_wf(store.orders@, store.next_order_id));
    }
    Ok(oid)
}

/// One order passes the optional status and user filters; both must
/// hold when both are given.
pub open spec fn order_matches(o: Order, status: Option<String>, user_id: Option<i32>) -> bool {
    &&& match status {
        Some(st) => o.status@ == st@,
        None => true,
    }
    &&& match user_id {
        Some(u) => o.user_id == Some(u),
        None => true,
    }
}

/// The orders passing the filters, in insertion order.
pub open spec fn filtered_orders(
    orders: Seq<Order>,
    status: Option<String>,
    user_id: Option<i32>,
) -> Seq<Order>
    decreases orders.len(),
{
    if orders.len() == 0 {
        Seq::empty()
    } else {
        filtered_orders(orders.drop_last(), status, user_id) + (if order_matches(
            orders.last(),
            status,
            user_id,
        ) {
            seq![orders.last()]
        } else {
            Seq::empty()
        })
    }
}

/// Lists orders, optionally filtered by status and user; a pure read
/// in insertion order.
pub fn get_orders(store: &Store, status: Option<String>, user_id: Option<i32>) -> (r: Vec<Order>)
    ensures
        r@ == filtered_orders(store.orders@, status, user_id),
{
    let mut out: Vec<Order> = Vec::new();
    let mut i: usize = 0;
    while i < store.orders.len()
        invariant
            i <= store.orders@.len(),
            out@ == filtered_orders(store.orders@.take(i as int), status, user_id),
        decreases store.orders@.len() - i,
    {
        let row = &store.orders[i];
        let keep = (match &status {
            Some(st) => string_eq(&row.status, st),
            None => true,
        }) && (match user_id {
            Some(u) => {
                match row.user_id {
                    Some(v) => v == u,
                    None => false,
                }
            },
            None => true,
        });
        proof {
            assert(store.orders@.take(i as int + 1).drop_last() =~= store.orders@.take(i as int));
            assert(store.orders@.take(i as int + 1).last() == store.orders@[i as int]);
        }
        if keep {
            out.push(row.clone());
        }
        i += 1;
    }
    proof {
        assert(store.orders@.take(store.orders@.len() as int) =~= store.orders@);
    }
    out
}

/// The index of the shipping record of this order; meaningful only
/// when one exists and order ids are unique.
pub open spec fn shipping_index(shippings: Seq<Shipping>, oid: i32) -> int {
    choose|j: int| 0 <= j < shippings.len() && (#[trigger] shippings[j]).order_id == oid
}

/// A shipping record exists for this order.
pub open spec fn has_shipping(shippings: Seq<Shipping>, oid: i32) -> bool {
    exists|j: int| 0 <= j < shippings.len() && (#[trigger] shippings[j]).order_id == oid
}

/// Stores the shipping record of an order. The order must exist and
/// may carry only one record; either violation is a storage failure.
pub fn add_shipping(store: &mut Store, shipping_data: Shipping) -> (r: Result<(), ApiError>)
    requires
        old(store).wf(),
    ensures
        final(store).wf(),
        r is Ok <==> has_order(old(store).orders@, shipping_data.order_id) && !has_shipping(
            old(store).shippings@,
            shipping_data.order_id,
        ),
        match r {
            Ok(_) => {
                &&& final(store).shippings@ == old(store).shippings@.push(shipping_data)
                &&& final(store).orders@ == old(store).orders@
                &&& final(store).order_items@ == old(store).order_items@
                &&& final(store).next_order_id == old(store).next_order_id
                &&& final(store).next_order_item_id == old(store).next_order_item_id
                &&& final(store).catalog_unchanged(*old(store))
                &&& final(store).users_unchanged(*old(store))
            },
            Err(e) => {
                &&& *final(store) == *old(store)
                &&& e == ApiError::DatabaseError
            },
        },
{
    if store.find_order(shipping_data.order_id).is_none() {
        return Err(ApiError::DatabaseError);
    }
    if store.find_shipping(shipping_data.order_id).is_some() {
        return Err(ApiError::DatabaseError);
    }
    store.shippings.push(shipping_data);
    Ok(())
}

/// Reads the shipping record of an order. A missing record is a
/// storage failure, as the single-row read would report it.
pub fn get_shipping_by_id(store: &Store, order_id: i32) -> (r: Result<Shipping, ApiError>)
    requires
        store.wf(),
    ensures
        r is Ok <==> has_shipping(store.shippings@, order_id),
        match r {
            Ok(s) => s == store.shippings@[shipping_index(store.shippings@, order_id)],
            Err(e) => e == ApiError::DatabaseError,
        },
{
    let j = match store.find_shipping(order_id) {
        Some(j) => j,
        None => {
            return Err(ApiError::DatabaseError);
        },
    };
    proof {
        let t = shipping_index(store.shippings@, order_id);
        if t != j as int {
            assert(store.shippings@[t].order_id == store.shippings@[j as int].order_id);
        }
    }
    Ok(store.shippings[j].clone())
}

/// An order line that appears in the details of order `oid`: it
/// belongs to the order and its product still exists (the join drops
/// lines whose product is gone).
pub open spec fn item_included(
    it: OrderItemRow,
    oid: i32,
    products: Seq<crate::data::Product>,
) -> bool {
    &&& it.order_id == oid
    &&& it.product_id matches Some(p) && has_product(products, p)
}

/// The detail lines of order `oid`: its stored lines joined with the
/// product name, in storage order.
pub open spec fn details_of(
    items: Seq<OrderItemRow>,
    products: Seq<crate::data::Product>,
    oid: i32,
) -> Seq<OrderItemDetails>
    decreases items.len(),
{
    if items.len() == 0 {
        Seq::empty()
    } else {
        details_of(items.drop_last(), products, oid) + (if item_included(
            items.last(),
            oid,
            products,
        ) {
            seq![
                (OrderItemDetails {
                    id: items.last().id,
                    product_name: products[crate::store::product_index(
                        products,
                        items.last().product_id->0,
                    )].name,
                    quantity: items.last().quantity,
                    size: items.last().size,
                    total_price: items.last().total_price,
                }),
            ]
        } else {
            Seq::empty()
        })
    }
}

/// Reads the shipping record of an order joined with its detail
/// lines. An order without a shipping record is a storage failure,
/// as the shipping read reports it.
pub fn get_order_details(store: &Store, order_id: i32) -> (r: Result<OrderDetails, ApiError>)
    requires
        store.wf(),
    ensures
        r is Ok <==> has_shipping(store.shippings@, order_id),
        match r {
            Ok(d) => {
                &&& d.shipping == store.shippings@[shipping_index(store.shippings@, order_id)]
                &&& d.items@ == details_of(store.order_items@, store.products@, order_id)
            },
            Err(e) => e == ApiError::DatabaseError,
        },
{
    let shipping = match get_shipping_by_id(store, order_id) {
        Ok(s) => s,
        Err(e) => {
            return Err(e);
        },
    };
    let mut items: Vec<OrderItemDetails> = Vec::new();
    let mut i: usize = 0;
    while i < store.order_items.len()
        invariant
            store.wf(),
            i <= store.order_items@.len(),
            items@ == details_of(store.order_items@.take(i as int), store.products@, order_id),
        decreases store.order_items@.len() - i,
    {
        let it = &store.order_items[i];
        proof {
            assert(store.order_items@.take(i as int + 1).drop_last() =~= store.order_items@.take(
                i as int,
            ));
            assert(store.order_items@.take(i as int + 1).last() == store.order_items@[i as int]);
        }
        if it.order_id == order_id {
            if let Some(p) = it.product_id {
                match store.find_product(p) {
                    Some(pj) => {
                        proof {
                            let t = crate::store::product_index(store.products@, p);
                            if t != pj as int {
                                assert(store.products@[t].id == store.products@[pj as int].id);
                            }
                        }
                        items.push(
                            OrderItemDetails {
                                id: it.id,
                                product_name: store.products[pj].name.clone(),
                                quantity: it.quantity,
                                size: clone_opt_string(&it.size),
                                total_price: it.total_price,
                            },
                        );
                    },
                    None => {},
                }
            }
        }
        i += 1;
    }
    proof {
        assert(store.order_items@.take(store.order_items@.len() as int) =~= store.order_items@);
    }
    Ok(OrderDetails { shipping, items })
}

/// The order table after order `oid` takes status `st` at instant
/// `now`.
pub open spec fn with_status(orders: Seq<Order>, oid: i32, st: String, now: u64) -> Seq<Order> {
    orders.map(
        |k: int, o: Order|
            if o.id == Some(oid) {
                Order {
                    id: o.id,
                    user_id: o.user_id,
                    total_price: o.total_price,
                    status: st,
                    online_payment: o.online_payment,
                    date: o.date,
                    updated_at: Some(now),
                }
            } else {
                o
            },
    )
}

/// Sets the status of an order and refreshes its update instant to
/// `now`, the caller's clock reading; only an administrator may. A
/// missing status in the request body is a bad request; a missing
/// order row leaves the table unchanged, as the underlying update
/// would.
pub fn update_order_status(
    store: &mut Store,
    claims: Claims,
    admin_role: &str,
    id: i32,
    status: Option<String>,
    now: u64,
) -> (r: Result<(), ApiError>)
    requires
        old(store).wf(),
    ensures
        final(store).wf(),
        r is Ok <==> claims_admin(old(store).users@, claims.sub, admin_role@) && status is Some,
        match r {
            Ok(_) => {
                &&& final(store).orders@ == with_status(old(store).orders@, id, status->0, now)
                &&& final(store).order_items@ == old(store).order_items@
                &&& final(store).shippings@ == old(store).shippings@
                &&& final(store).next_order_id == old(store).next_order_id
                &&& final(store).next_order_item_id == old(store).next_order_item_id
                &&& final(store).catalog_unchanged(*old(store))
                &&& final(store).users_unchanged(*old(store))
            },
            Err(e) => {
                &&& *final(store) == *old(store)
                &&& (!claims_admin(old(store).users@, claims.sub, admin_role@) ==> e
                    == ApiError::Unauthorized)
                &&& (claims_admin(old(store).users@, claims.sub, admin_role@) ==> e
                    == ApiError::BadRequest)
            },
        },
{
    if let Err(e) = Claims::check_admin(store, claims, admin_role) {
        return Err(e);
    }
    let st = match status {
        Some(s) => s,
        None => {
            return Err(ApiError::BadRequest);
        },
    };
    match store.find_order(id) {
        Some(j) => {
            store.orders[j].status = st;
            store.orders[j].updated_at = Some(now);
            proof {
                let pre = old(store).orders@;
                assert forall|k: int| 0 <= k < store.orders@.len() implies store.orders@[k]
                    == with_status(pre, id, status->0, now)[k] by {
                    if k != j as int && pre[k].id == Some(id) {
                        assert(pre[k].id != pre[j as int].id);
                    }
                }
                assert(store.orders@ =~= with_status(pre, id, status->0, now));
            }
        },
        None => {
            proof {
                let pre = old(store).orders@;
                assert forall|k: int| 0 <= k < store.orders@.len() implies store.orders@[k]
                    == with_status(pre, id, status->0, now)[k] by {}
                assert(store.orders@ =~= with_status(pre, id, status->0, now));
            }
        },
    }
    proof {
        let pre = *old(store);
        assert(forall|k: int|
            0 <= k < store.orders@.len() ==> (#[trigger] store.orders@[k]).id == pre.orders@[k].id
                && store.orders@[k].id is Some);
        assert(crate::store::orders_wf(store.orders@, store.next_order_id));
        assert forall|i: int| 0 <= i < store.order_items@.len() implies has_order(
            store.orders@,
            (#[trigger] store.order_items@[i]).order_id,
        ) by {
            let w = choose|j2: int|
                0 <= j2 < pre.orders@.len() && (#[trigger] pre.orders@[j2]).id == Some(
                    pre.order_items@[i].order_id,
                );
            assert(store.orders@[w].id == Some(store.order_items@[i].order_id));
        }
        assert(crate::store::order_items_wf(
            store.order_items@,
            store.next_order_item_id,
            store.orders@,
        ));
        assert forall|i: int| 0 <= i < store.shippings@.len() implies has_order(
            store.orders@,
            (#[trigger] store.shippings@[i]).order_id,
        ) by {
            let w = choose|j2: int|
                0 <= j2 < pre.orders@.len() && (#[trigger] pre.orders@[j2]).id == Some(
                    pre.shippings@[i].order_id,
                );
            assert(store.orders@[w].id == Some(store.shippings@[i].order_id));
        }
        assert(crate::store::shippings_wf(store.shippings@, store.orders@));
    }
    Ok(())
}

/// The order lines that survive deleting order `oid`, in storage
/// order.
pub open spec fn items_without_order(items: Seq<OrderItemRow>, oid: i32) -> Seq<OrderItemRow>
    decreases items.len(),
{
    if items.len() == 0 {
        Seq::empty()
    } else {
        items_without_order(items.drop_last(), oid) + (if items.last().order_id != oid {
            seq![items.last()]
        } else {
            Seq::empty()
        })
    }
}

/// The shipping records that survive deleting order `oid`.
pub open spec fn shippings_without_order(shippings: Seq<Shipping>, oid: i32) -> Seq<Shipping>
    decreases shippings.len(),
{
    if shippings.len() == 0 {
        Seq::empty()
    } else {
        shippings_without_order(shippings.drop_last(), oid) + (if shippings.last().order_id != oid {
            seq![shippings.last()]
        } else {
            Seq::empty()
        })
    }
}

/// Every surviving order line is one of the original lines, none
/// belongs to the deleted order, and distinct line ids stay distinct.
proof fn lemma_items_without_order(items: Seq<OrderItemRow>, oid: i32)
    requires
        forall|i: int, j: int|
            0 <= i < j < items.len() ==> (#[trigger] items[i]).id != (#[trigger] items[j]).id,
    ensures
        forall|k: int|
            0 <= k < items_without_order(items, oid).len() ==> exists|k0: int|
                0 <= k0 < items.len() && #[trigger] items_without_order(items, oid)[k]
                    == items[k0],
        forall|k: int|
            0 <= k < items_without_order(items, oid).len() ==> (#[trigger] items_without_order(
                items,
                oid,
            )[k]).order_id != oid,
        forall|i: int, j: int|
            0 <= i < j < items_without_order(items, oid).len() ==> (#[trigger] items_without_order(
                items,
                oid,
            )[i]).id != (#[trigger] items_without_order(items, oid)[j]).id,
    decreases items.len(),
{
    if items.len() > 0 {
        lemma_items_without_order(items.drop_last(), oid);
        let f = items_without_order(items, oid);
        let fd = items_without_order(items.drop_last(), oid);
        assert forall|k: int| 0 <= k < f.len() implies exists|k0: int|
            0 <= k0 < items.len() && #[trigger] f[k] == items[k0] by {
            if k < fd.len() {
                let k0 = choose|k0: int|
                    0 <= k0 < items.drop_last().len() && #[trigger] fd[k] == items.drop_last()[k0];
                assert(f[k] == items[k0]);
            } else {
                assert(f[k] == items[items.len() - 1]);
            }
        }
        assert forall|i: int, j: int| 0 <= i < j < f.len() implies (#[trigger] f[i]).id != (
        #[trigger] f[j]).id by {
            if j < fd.len() {
            } else if j == fd.len() && f.len() > fd.len() {
                let k0 = choose|k0: int|
                    0 <= k0 < items.drop_last().len() && #[trigger] fd[i] == items.drop_last()[k0];
                assert(items[k0].id != items[items.len() - 1].id);
            }
        }
    }
}

/// Every surviving shipping record is one of the originals, none
/// belongs to the deleted order, and distinct order ids stay
/// distinct.
proof fn lemma_shippings_without_order(shippings: Seq<Shipping>, oid: i32)
    requires
        forall|i: int, j: int|
            0 <= i < j < shippings.len() ==> (#[trigger] shippings[i]).order_id != (
            #[trigger] shippings[j]).order_id,
    ensures
        forall|k: int|
            0 <= k < shippings_without_order(shippings, oid).len() ==> exists|k0: int|
                0 <= k0 < shippings.len() && #[trigger] shippings_without_order(shippings, oid)[k]
                    == shippings[k0],
        forall|k: int|
            0 <= k < shippings_without_order(shippings, oid).len() ==> (
            #[trigger] shippings_without_order(shippings, oid)[k]).order_id != oid,
        forall|i: int, j: int|
            0 <= i < j < shippings_without_order(shippings, oid).len() ==> (
            #[trigger] shippings_without_order(shippings, oid)[i]).order_id != (
            #[trigger] shippings_without_order(shippings, oid)[j]).order_id,
    decreases shippings.len(),
{
    if shippings.len() > 0 {
        lemma_shippings_without_order(shippings.drop_last(), oid);
        let f = shippings_without_order(shippings, oid);
        let fd = shippings_without_order(shippings.drop_last(), oid);
        assert forall|k: int| 0 <= k < f.len() implies exists|k0: int|
            0 <= k0 < shippings.len() && #[trigger] f[k] == shippings[k0] by {
            if k < fd.len() {
                let k0 = choose|k0: int|
                    0 <= k0 < shippings.drop_last().len() && #[trigger] fd[k]
                        == shippings.drop_last()[k0];
                assert(f[k] == shippings[k0]);
            } else {
                assert(f[k] == shippings[shippings.len() - 1]);
            }
        }
        assert forall|i: int, j: int| 0 <= i < j < f.len() implies (#[trigger] f[i]).order_id != (
        #[trigger] f[j]).order_id by {
            if j < fd.len() {
            } else if j == fd.len() && f.len() > fd.len() {
                let k0 = choose|k0: int|
                    0 <= k0 < shippings.drop_last().len() && #[trigger] fd[i]
                        == shippings.drop_last()[k0];
                assert(shippings[k0].order_id != shippings[shippings.len() - 1].order_id);
            }
        }
    }
}

/// Deletes an order; only an administrator may. Its lines and its
/// shipping record go with it, as the storage layer's cascade rules
/// would take them. A missing order row leaves the tables unchanged.
pub fn delete_order(store: &mut Store, claims: Claims, admin_role: &str, id: i32) -> (r: Result<
    (),
    ApiError,
>)
    requires
        old(store).wf(),
    ensures
        final(store).wf(),
        r is Ok <==> claims_admin(old(store).users@, claims.sub, admin_role@),
        match r {
            Ok(_) => {
                &&& final(store).orders@ == if has_order(old(store).orders@, id) {
                    old(store).orders@.remove(crate::store::order_index(old(store).orders@, id))
                } else {
                    old(store).orders@
                }
                &&& final(store).order_items@ == items_without_order(old(store).order_items@, id)
                &&& final(store).shippings@ == shippings_without_order(old(store).shippings@, id)
                &&& final(store).next_order_id == old(store).next_order_id
                &&& final(store).next_order_item_id == old(store).next_order_item_id
                &&& final(store).catalog_unchanged(*old(store))
                &&& final(store).users_unchanged(*old(store))
            },
            Err(e) => {
                &&& *final(store) == *old(store)
                &&& e == ApiError::Unauthorized
            },
        },
{
    if let Err(e) = Claims::check_admin(store, claims, admin_role) {
        return Err(e);
    }
    match store.find_order(id) {
        Some(j) => {
            proof {
                let t = crate::store::order_index(old(store).orders@, id);
                if t != j as int {
                    assert(old(store).orders@[t].id == old(store).orders@[j as int].id);
                }
            }
            store.orders.remove(j);
        },
        None => {},
    }
    // Cascade: drop the order's lines.
    let mut kept_items: Vec<OrderItemRow> = Vec::new();
    let mut i: usize = 0;
    while i < store.order_items.len()
        invariant
            i <= store.order_items@.len(),
            store.order_items@ == old(store).order_items@,
            kept_items@ == items_without_order(store.order_items@.take(i as int), id),
        decreases store.order_items@.len() - i,
    {
        let it = &store.order_items[i];
        proof {
            assert(store.order_items@.take(i as int + 1).drop_last() =~= store.order_items@.take(
                i as int,
            ));
            assert(store.order_items@.take(i as int + 1).last() == store.order_items@[i as int]);
        }
        if it.order_id != id {
            kept_items.push(it.clone());
        }
        i += 1;
    }
    proof {
        assert(store.order_items@.take(store.order_items@.len() as int) =~= store.order_items@);
    }
    store.order_items = kept_items;
    // Cascade: drop the order's shipping record.
    let mut kept_shippings: Vec<Shipping> = Vec::new();
    let mut s: usize = 0;
    while s < store.shippings.len()
        invariant
            s <= store.shippings@.len(),
            store.shippings@ == old(store).shippings@,
            kept_shippings@ == shippings_without_order(store.shippings@.take(s as int), id),
        decreases store.shippings@.len() - s,
    {
        let sh = &store.shippings[s];
        proof {
            assert(store.shippings@.take(s as int + 1).drop_last() =~= store.shippings@.take(
                s as int,
            ));
            assert(store.shippings@.take(s as int + 1).last() == store.shippings@[s as int]);
        }
        if sh.order_id != id {
            kept_shippings.push(sh.clone());
        }
        s += 1;
    }
    proof {
        assert(store.shippings@.take(store.shippings@.len() as int) =~= store.shippings@);
    }
    store.shippings = kept_shippings;
    proof {
        let pre = *old(store);
        lemma_items_without_order(pre.order_items@, id);
        lemma_shippings_without_order(pre.shippings@, id);
        let t = crate::store::order_index(pre.orders@, id);
        assert forall|k: int| 0 <= k < store.orders@.len() implies (#[trigger] store.orders@[k]).id
            is Some && 0 < store.orders@[k].id->0 < store.next_order_id && store.orders@[k].id
            != Some(id) by {
            if has_order(pre.orders@, id) {
                let k0 = if k < t {
                    k
                } else {
                    k + 1
                };
                assert(store.orders@[k] == pre.orders@[k0]);
                if k0 != t && pre.orders@[k0].id == Some(id) {
                    assert(pre.orders@[t].id == pre.orders@[k0].id);
                    assert(false);
                }
            }
        }
        assert(crate::store::orders_wf(store.orders@, store.next_order_id));
        assert forall|k: int| 0 <= k < store.order_items@.len() implies {
            let it = #[trigger] store.order_items@[k];
            0 < it.id < store.next_order_item_id && has_order(store.orders@, it.order_id)
                && it.total_price == it.quantity as int * it.price as int
        } by {
            let k0 = choose|k0: int|
                0 <= k0 < pre.order_items@.len() && #[trigger] store.order_items@[k]
                    == pre.order_items@[k0];
            let w = choose|j2: int|
                0 <= j2 < pre.orders@.len() && (#[trigger] pre.orders@[j2]).id == Some(
                    pre.order_items@[k0].order_id,
                );
            if has_order(pre.orders@, id) {
                assert(w != t);
                if w < t {
                    assert(store.orders@[w].id == Some(store.order_items@[k].order_id));
                } else {
                    assert(store.orders@[w - 1] == pre.orders@[w]);
                    assert(store.orders@[w - 1].id == Some(store.order_items@[k].order_id));
                }
            } else {
                assert(store.orders@[w].id == Some(store.order_items@[k].order_id));
            }
        }
        assert(crate::store::order_items_wf(
            store.order_items@,
            store.next_order_item_id,
            store.orders@,
        ));
        assert forall|k: int| 0 <= k < store.shippings@.len() implies has_order(
            store.orders@,
            (#[trigger] store.shippings@[k]).order_id,
        ) by {
            let k0 = choose|k0: int|
                0 <= k0 < pre.shippings@.len() && #[trigger] store.shippings@[k]
                    == pre.shippings@[k0];
            let w = choose|j2: int|
                0 <= j2 < pre.orders@.len() && (#[trigger] pre.orders@[j2]).id == Some(
                    pre.shippings@[k0].order_id,
                );
            if has_order(pre.orders@, id) {
                assert(w != t);
                if w < t {
                    assert(store.orders@[w].id == Some(store.shippings@[k].order_id));
                } else {
                    assert(store.orders@[w - 1] == pre.orders@[w]);
                    assert(store.orders@[w - 1].id == Some(store.shippings@[k].order_id));
                }
            } else {
                assert(store.orders@[w].id == Some(store.shippings@[k].order_id));
            }
        }
        assert(crate::store::shippings_wf(store.shippings@, store.orders@));
    }
    Ok(())
}

} // verus!
