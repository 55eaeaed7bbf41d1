//! Atomic order placement, line totals, reads and admin-gated
//! lifecycle.

use shop_core::claims::Claims;
use shop_core::data::{DataOrder, Order, OrderItem, Product, Shipping, User};
use shop_core::errors::ApiError;
use shop_core::orders::{
    add_shipping, delete_order, get_order_details, get_orders, get_shipping_by_id,
    place_new_order, update_order_status,
};
use shop_core::store::Store;

const ADMIN: &str = "ADMIN";

fn admin_claims() -> Claims {
    Claims { exp: u64::MAX, sub: 1, role: Some(ADMIN.to_string()) }
}

fn base_store() -> Store {
    let mut s = Store::new();
    s.users.push(User {
        id: 1,
        username: "boss".to_string(),
        email: "boss@example.com".to_string(),
        password_hash: "unused".to_string(),
        first_name: None,
        last_name: None,
        phone_number: None,
        address: None,
        role: Some(ADMIN.to_string()),
    });
    s.next_user_id = 2;
    s.products.push(Product {
        id: Some(10),
        name: "cap".to_string(),
        description: None,
        primary_image_id: None,
        price: 100,
        size_id: None,
        category_id: None,
    });
    s.products.push(Product {
        id: Some(11),
        name: "shirt".to_string(),
        description: None,
        primary_image_id: None,
        price: 50,
        size_id: None,
        category_id: None,
    });
    s.next_product_id = 12;
    s
}

fn order_header(user: Option<i32>, total: u64, status: &str) -> Order {
    Order {
        id: None,
        user_id: user,
        total_price: total,
        status: status.to_string(),
        online_payment: false,
        date: None,
        updated_at: None,
    }
}

fn item(product: i32, quantity: u32, price: u64) -> OrderItem {
    OrderItem {
        order_id: None,
        product_id: product,
        quantity,
        price,
        size: None,
        total_price: 0,
    }
}

fn shipping_for(order_id: i32) -> Shipping {
    Shipping {
        order_id,
        city: "Kyiv".to_string(),
        branch: "12".to_string(),
        first_name: "Ann".to_string(),
        last_name: "Lee".to_string(),
        phone_number: "+380000000000".to_string(),
        email: "ann@example.com".to_string(),
    }
}

#[test]
fn line_totals_are_quantity_times_price() {
    let mut s = base_store();
    let order = DataOrder {
        order: order_header(Some(1), 250, "pending"),
        order_items: vec![item(10, 2, 100), item(11, 1, 50)],
    };
    let oid = place_new_order(&mut s, order, 700).expect("order should be stored");
    assert_eq!(s.orders[0].date, Some(700));
    let totals: Vec<u64> = s
        .order_items
        .iter()
        .filter(|it| it.order_id == oid)
        .map(|it| it.total_price)
        .collect();
    assert_eq!(totals, vec![200, 50]);
    for it in &s.order_items {
        assert_eq!(it.total_price, it.quantity as u64 * it.price);
    }
}

#[test]
fn failing_middle_line_leaves_no_rows() {
    let mut s = base_store();
    // The second of four lines names a product that does not exist,
    // so its insert is forced to fail.
    let order = DataOrder {
        order: order_header(Some(1), 400, "pending"),
        order_items: vec![item(10, 1, 100), item(999, 1, 100), item(11, 1, 100), item(
            10, 1, 100,
        )],
    };
    let r = place_new_order(&mut s, order, 700);
    assert!(matches!(r, Err(ApiError::DatabaseError)));
    assert!(s.orders.is_empty());
    assert!(s.order_items.is_empty());
}

#[test]
fn unrepresentable_total_leaves_no_rows() {
    let mut s = base_store();
    let order = DataOrder {
        order: order_header(None, 0, "pending"),
        order_items: vec![item(10, 1, 1), item(11, 2, u64::MAX)],
    };
    let r = place_new_order(&mut s, order, 700);
    assert!(matches!(r, Err(ApiError::DatabaseError)));
    assert!(s.orders.is_empty());
    assert!(s.order_items.is_empty());
}

#[test]
fn placed_order_is_retrievable_with_details() {
    let mut s = base_store();
    let order = DataOrder {
        order: order_header(Some(1), 250, "pending"),
        order_items: vec![item(10, 2, 100), item(11, 1, 50)],
    };
    let oid = place_new_order(&mut s, order, 700).unwrap();
    add_shipping(&mut s, shipping_for(oid)).unwrap();
    let details = get_order_details(&s, oid).expect("details should be readable");
    assert_eq!(details.shipping.city, "Kyiv");
    assert_eq!(details.items.len(), 2);
    assert_eq!(details.items[0].product_name, "cap");
    assert_eq!(details.items[0].total_price, 200);
    assert_eq!(details.items[1].product_name, "shirt");
    assert_eq!(details.items[1].total_price, 50);
}

#[test]
fn details_without_shipping_are_a_storage_failure() {
    let mut s = base_store();
    let order = DataOrder {
        order: order_header(None, 100, "pending"),
        order_items: vec![item(10, 1, 100)],
    };
    let oid = place_new_order(&mut s, order, 700).unwrap();
    assert!(matches!(get_order_details(&s, oid), Err(ApiError::DatabaseError)));
}

#[test]
fn list_filters_combine_with_and() {
    let mut s = base_store();
    for (user, status) in [
        (Some(1), "pending"),
        (Some(1), "sent"),
        (Some(2), "pending"),
        (None, "pending"),
    ] {
        let order = DataOrder {
            order: order_header(user, 10, status),
            order_items: vec![item(10, 1, 10)],
        };
        place_new_order(&mut s, order, 700).unwrap();
    }
    assert_eq!(get_orders(&s, None, None).len(), 4);
    assert_eq!(get_orders(&s, Some("pending".to_string()), None).len(), 3);
    assert_eq!(get_orders(&s, None, Some(1)).len(), 2);
    let both = get_orders(&s, Some("pending".to_string()), Some(1));
    assert_eq!(both.len(), 1);
    assert_eq!(both[0].user_id, Some(1));
    assert_eq!(both[0].status, "pending");
    // Insertion order is kept.
    let all = get_orders(&s, None, None);
    let ids: Vec<i32> = all.iter().map(|o| o.id.unwrap()).collect();
    assert_eq!(ids, vec![1, 2, 3, 4]);
}

#[test]
fn status_update_is_admin_gated_and_needs_a_body() {
    let mut s = base_store();
    let order = DataOrder {
        order: order_header(Some(1), 10, "pending"),
        order_items: vec![item(10, 1, 10)],
    };
    let oid = place_new_order(&mut s, order, 700).unwrap();
    let outsider = Claims { exp: u64::MAX, sub: 50, role: Some(ADMIN.to_string()) };
    let r = update_order_status(&mut s, outsider, ADMIN, oid, Some("sent".to_string()), 900);
    assert!(matches!(r, Err(ApiError::Unauthorized)));
    let r = update_order_status(&mut s, admin_claims(), ADMIN, oid, None, 900);
    assert!(matches!(r, Err(ApiError::BadRequest)));
    update_order_status(&mut s, admin_claims(), ADMIN, oid, Some("sent".to_string()), 900)
        .unwrap();
    assert_eq!(s.orders[0].status, "sent");
    // The creation instant stays; the update instant is refreshed.
    assert_eq!(s.orders[0].date, Some(700));
    assert_eq!(s.orders[0].updated_at, Some(900));
}

#[test]
fn delete_order_cascades_to_lines_and_shipping() {
    let mut s = base_store();
    let first = DataOrder {
        order: order_header(Some(1), 10, "pending"),
        order_items: vec![item(10, 1, 10)],
    };
    let kept = DataOrder {
        order: order_header(Some(1), 20, "pending"),
        order_items: vec![item(11, 2, 10)],
    };
    let first_id = place_new_order(&mut s, first, 700).unwrap();
    let kept_id = place_new_order(&mut s, kept, 700).unwrap();
    add_shipping(&mut s, shipping_for(first_id)).unwrap();
    add_shipping(&mut s, shipping_for(kept_id)).unwrap();
    delete_order(&mut s, admin_claims(), ADMIN, first_id).unwrap();
    assert!(s.orders.iter().all(|o| o.id != Some(first_id)));
    assert!(s.order_items.iter().all(|it| it.order_id != first_id));
    assert!(s.shippings.iter().all(|sh| sh.order_id != first_id));
    assert!(get_shipping_by_id(&s, kept_id).is_ok());
}

#[test]
fn an_order_without_lines_is_stored() {
    let mut s = base_store();
    let order = DataOrder {
        order: order_header(Some(1), 0, "pending"),
        order_items: vec![],
    };
    let oid = place_new_order(&mut s, order, 700).unwrap();
    assert_eq!(s.orders.len(), 1);
    assert_eq!(s.orders[0].id, Some(oid));
    assert!(s.order_items.is_empty());
}

#[test]
fn shipping_needs_a_stored_order_and_stays_unique() {
    let mut s = base_store();
    assert!(matches!(add_shipping(&mut s, shipping_for(9)), Err(ApiError::DatabaseError)));
    let order = DataOrder {
        order: order_header(Some(1), 10, "pending"),
        order_items: vec![item(10, 1, 10)],
    };
    let oid = place_new_order(&mut s, order, 700).unwrap();
    add_shipping(&mut s, shipping_for(oid)).unwrap();
    assert!(matches!(add_shipping(&mut s, shipping_for(oid)), Err(ApiError::DatabaseError)));
}
