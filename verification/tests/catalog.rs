//! Category, size and product maintenance, registration screening,
//! profiles, and the error taxonomy.

use shop_core::categories::{
    create_category, delete_category_by_id, get_categories, get_category, update_category_name,
};
use shop_core::claims::Claims;
use shop_core::config::{generate_registration_link, EnvConfiguration};
use shop_core::data::{Category, Product, Size, TempUser, User};
use shop_core::errors::ApiError;
use shop_core::products::{create_product, delete_product, get_products, product_update};
use shop_core::sizes::{create_size, get_size, update_size};
use shop_core::store::Store;
use shop_core::users::{
    get_profile, get_user_role, registration, registration_by_token, try_registration,
    update_profile,
};

const ADMIN: &str = "ADMIN";

fn admin_claims() -> Claims {
    Claims { exp: u64::MAX, sub: 1, role: Some(ADMIN.to_string()) }
}

fn store_with_admin() -> Store {
    let mut s = Store::new();
    s.users.push(User {
        id: 1,
        username: "boss".to_string(),
        email: "boss@example.com".to_string(),
        password_hash: "unused".to_string(),
        first_name: None,
        last_name: None,
        phone_number: Some("+1".to_string()),
        address: None,
        role: Some(ADMIN.to_string()),
    });
    s.next_user_id = 2;
    s
}

fn category(name: &str) -> Category {
    Category { id: None, name: Some(name.to_string()) }
}

fn product(name: &str, price: u64, category_id: Option<i32>) -> Product {
    Product {
        id: None,
        name: name.to_string(),
        description: None,
        primary_image_id: None,
        price,
        size_id: None,
        category_id,
    }
}

fn size_for(product_id: i32) -> Size {
    Size {
        product_id,
        single_size: None,
        s: Some(3),
        m: Some(4),
        l: Some(5),
        xl: None,
        xxl: None,
    }
}

#[test]
fn category_lifecycle() {
    let mut s = store_with_admin();
    create_category(&mut s, admin_claims(), ADMIN, category("Caps")).unwrap();
    create_category(&mut s, admin_claims(), ADMIN, category("Shirts")).unwrap();
    let listed = get_categories(&s);
    assert_eq!(listed.len(), 2);
    assert_eq!(listed[0].name.as_deref(), Some("Caps"));
    let first = get_category(&s, 1).unwrap();
    assert_eq!(first.name.as_deref(), Some("Caps"));
    update_category_name(&mut s, admin_claims(), ADMIN, 1, Some("Hats".to_string())).unwrap();
    assert_eq!(get_category(&s, 1).unwrap().name.as_deref(), Some("Hats"));
    delete_category_by_id(&mut s, admin_claims(), ADMIN, 1).unwrap();
    assert!(matches!(get_category(&s, 1), Err(ApiError::DatabaseError)));
}

#[test]
fn category_names_stay_unique() {
    let mut s = store_with_admin();
    create_category(&mut s, admin_claims(), ADMIN, category("Caps")).unwrap();
    let r = create_category(&mut s, admin_claims(), ADMIN, category("Caps"));
    assert!(matches!(r, Err(ApiError::DatabaseError)));
    create_category(&mut s, admin_claims(), ADMIN, category("Shirts")).unwrap();
    let r = update_category_name(&mut s, admin_claims(), ADMIN, 2, Some("Caps".to_string()));
    assert!(matches!(r, Err(ApiError::DatabaseError)));
}

#[test]
fn category_mutation_is_admin_gated() {
    let mut s = store_with_admin();
    let outsider = Claims { exp: u64::MAX, sub: 9, role: Some(ADMIN.to_string()) };
    assert!(matches!(
        create_category(&mut s, outsider, ADMIN, category("Caps")),
        Err(ApiError::Unauthorized)
    ));
    let r = update_category_name(&mut s, admin_claims(), ADMIN, 1, None);
    assert!(matches!(r, Err(ApiError::BadRequest)));
}

#[test]
fn deleting_a_category_releases_its_products() {
    let mut s = store_with_admin();
    create_category(&mut s, admin_claims(), ADMIN, category("Caps")).unwrap();
    let pid = create_product(&mut s, admin_claims(), ADMIN, product("cap", 100, Some(1)))
        .unwrap();
    delete_category_by_id(&mut s, admin_claims(), ADMIN, 1).unwrap();
    let rows = get_products(&s, None, None, Some(pid));
    assert_eq!(rows.len(), 1);
    assert_eq!(rows[0].category_id, None);
}

#[test]
fn size_creation_back_links_the_product() {
    let mut s = store_with_admin();
    let pid = create_product(&mut s, admin_claims(), ADMIN, product("cap", 100, None)).unwrap();
    create_size(&mut s, admin_claims(), ADMIN, size_for(pid)).unwrap();
    let rows = get_products(&s, None, None, Some(pid));
    assert_eq!(rows[0].size_id, Some(1));
    let sz = get_size(&s, pid).unwrap();
    assert_eq!(sz.m, Some(4));
}

#[test]
fn size_reads_and_updates() {
    let mut s = store_with_admin();
    assert!(matches!(get_size(&s, 5), Err(ApiError::NotFound)));
    let pid = create_product(&mut s, admin_claims(), ADMIN, product("cap", 100, None)).unwrap();
    create_size(&mut s, admin_claims(), ADMIN, size_for(pid)).unwrap();
    let mut updated = size_for(pid);
    updated.m = Some(9);
    updated.single_size = Some(2);
    update_size(&mut s, admin_claims(), ADMIN, updated).unwrap();
    let sz = get_size(&s, pid).unwrap();
    assert_eq!(sz.m, Some(9));
    assert_eq!(sz.single_size, Some(2));
}

#[test]
fn product_filters_select_the_fixed_variants() {
    let mut s = store_with_admin();
    create_category(&mut s, admin_claims(), ADMIN, category("Caps")).unwrap();
    create_category(&mut s, admin_claims(), ADMIN, category("Shirts")).unwrap();
    let a = create_product(&mut s, admin_claims(), ADMIN, product("a", 1, Some(1))).unwrap();
    let b = create_product(&mut s, admin_claims(), ADMIN, product("b", 2, Some(1))).unwrap();
    let c = create_product(&mut s, admin_claims(), ADMIN, product("c", 3, Some(2))).unwrap();
    assert_eq!(get_products(&s, None, None, None).len(), 3);
    let by_id = get_products(&s, None, None, Some(b));
    assert_eq!(by_id.len(), 1);
    assert_eq!(by_id[0].name, "b");
    let caps = get_products(&s, Some(1), None, None);
    assert_eq!(caps.len(), 2);
    let caps_except_a = get_products(&s, Some(1), Some(a), None);
    assert_eq!(caps_except_a.len(), 1);
    assert_eq!(caps_except_a[0].id, Some(b));
    let _ = c;
}

#[test]
fn product_update_changes_fields_but_not_size_link() {
    let mut s = store_with_admin();
    let pid = create_product(&mut s, admin_claims(), ADMIN, product("cap", 100, None)).unwrap();
    create_size(&mut s, admin_claims(), ADMIN, size_for(pid)).unwrap();
    let mut request = product("renamed", 150, None);
    request.id = Some(pid);
    product_update(&mut s, admin_claims(), ADMIN, request).unwrap();
    let rows = get_products(&s, None, None, Some(pid));
    assert_eq!(rows[0].name, "renamed");
    assert_eq!(rows[0].price, 150);
    assert_eq!(rows[0].size_id, Some(1));
}

#[test]
fn product_create_adopts_the_named_primary_image() {
    let mut s = store_with_admin();
    let img = shop_core::images::create_product_image(
        &mut s,
        admin_claims(),
        "a.png".to_string(),
        None,
        Some(1),
    )
    .unwrap();
    let mut request = product("cap", 100, None);
    request.primary_image_id = Some(img);
    let pid = create_product(&mut s, admin_claims(), ADMIN, request).unwrap();
    let row = s.images.iter().find(|i| i.id == img).unwrap();
    assert_eq!(row.product_id, Some(pid));
    let rows = get_products(&s, None, None, Some(pid));
    assert_eq!(rows[0].primary_image_id, Some(img));
    // A primary image that does not exist is a storage failure.
    let mut bad = product("x", 1, None);
    bad.primary_image_id = Some(99);
    assert!(matches!(
        create_product(&mut s, admin_claims(), ADMIN, bad),
        Err(ApiError::DatabaseError)
    ));
}

#[test]
fn deleting_a_product_releases_order_lines() {
    let mut s = store_with_admin();
    let pid = create_product(&mut s, admin_claims(), ADMIN, product("cap", 100, None)).unwrap();
    let order = shop_core::data::DataOrder {
        order: shop_core::data::Order {
            id: None,
            user_id: Some(1),
            total_price: 100,
            status: "pending".to_string(),
            online_payment: false,
            date: None,
            updated_at: None,
        },
        order_items: vec![shop_core::data::OrderItem {
            order_id: None,
            product_id: pid,
            quantity: 1,
            price: 100,
            size: None,
            total_price: 0,
        }],
    };
    shop_core::orders::place_new_order(&mut s, order, 700).unwrap();
    delete_product(&mut s, admin_claims(), ADMIN, pid).unwrap();
    assert_eq!(s.order_items.len(), 1);
    assert_eq!(s.order_items[0].product_id, None);
    assert_eq!(s.order_items[0].total_price, 100);
}

#[test]
fn registration_screening_reports_the_first_conflict() {
    let mut s = store_with_admin();
    s.users.push(User {
        id: 2,
        username: "ann".to_string(),
        email: "ann@example.com".to_string(),
        password_hash: "h".to_string(),
        first_name: None,
        last_name: None,
        phone_number: Some("+2".to_string()),
        address: None,
        role: Some("USER".to_string()),
    });
    s.next_user_id = 3;
    let fresh = |username: &str, email: &str, phone: Option<&str>| TempUser {
        username: username.to_string(),
        email: email.to_string(),
        password: Some("pw".to_string()),
        first_name: None,
        last_name: None,
        phone_number: phone.map(|p| p.to_string()),
        role: None,
        address: None,
    };
    let r = try_registration(&s, fresh("new", "ann@example.com", None), 1000);
    assert!(matches!(r, Err(ApiError::EmailError)));
    let r = try_registration(&s, fresh("new", "new@example.com", Some("+2")), 1000);
    assert!(matches!(r, Err(ApiError::PhoneError)));
    let r = try_registration(&s, fresh("ann", "new@example.com", None), 1000);
    assert!(matches!(r, Err(ApiError::UsernameError)));
    // Email outranks the username when one row carries both.
    let r = try_registration(&s, fresh("ann", "ann@example.com", None), 1000);
    assert!(matches!(r, Err(ApiError::EmailError)));
    let ju = try_registration(&s, fresh("new", "new@example.com", None), 1000).unwrap();
    assert_eq!(ju.exp, 1300);
    assert_eq!(ju.role.as_deref(), Some("USER"));
}

#[test]
fn token_registration_honours_expiry() {
    let mut s = store_with_admin();
    let ju = try_registration(
        &s,
        TempUser {
            username: "ann".to_string(),
            email: "ann@example.com".to_string(),
            password: Some("pw".to_string()),
            first_name: None,
            last_name: None,
            phone_number: None,
            role: None,
            address: None,
        },
        1000,
    )
    .unwrap();
    let expired = registration_by_token(&mut s, ju, 2000);
    assert!(matches!(expired, Err(ApiError::Unauthorized)));
    assert_eq!(s.users.len(), 1);
    let ju = try_registration(
        &s,
        TempUser {
            username: "ann".to_string(),
            email: "ann@example.com".to_string(),
            password: Some("pw".to_string()),
            first_name: None,
            last_name: None,
            phone_number: None,
            role: None,
            address: None,
        },
        1000,
    )
    .unwrap();
    registration_by_token(&mut s, ju, 1100).expect("live token should register");
    assert_eq!(s.users.len(), 2);
    assert_eq!(s.users[1].username, "ann");
}

#[test]
fn duplicate_registration_is_a_storage_failure() {
    let mut s = store_with_admin();
    let ann = TempUser {
        username: "ann".to_string(),
        email: "ann@example.com".to_string(),
        password: Some("pw".to_string()),
        first_name: None,
        last_name: None,
        phone_number: None,
        role: None,
        address: None,
    };
    registration(&mut s, ann).unwrap();
    let again = TempUser {
        username: "ann".to_string(),
        email: "other@example.com".to_string(),
        password: Some("pw".to_string()),
        first_name: None,
        last_name: None,
        phone_number: None,
        role: None,
        address: None,
    };
    assert!(matches!(registration(&mut s, again), Err(ApiError::DatabaseError)));
}

#[test]
fn profile_update_demotes_foreign_roles() {
    let mut s = store_with_admin();
    let update = |role: Option<&str>| TempUser {
        username: "boss".to_string(),
        email: "boss@example.com".to_string(),
        password: None,
        first_name: Some("B".to_string()),
        last_name: None,
        phone_number: Some("+1".to_string()),
        role: role.map(|r| r.to_string()),
        address: Some("Main st".to_string()),
    };
    // A claimed role that is not the admin role becomes "USER".
    let claims = Claims { exp: u64::MAX, sub: 1, role: Some("ROOT".to_string()) };
    update_profile(&mut s, claims, ADMIN, update(None)).unwrap();
    assert_eq!(s.users[0].role.as_deref(), Some("USER"));
    assert_eq!(s.users[0].address.as_deref(), Some("Main st"));
    // The admin role itself is kept.
    s.users[0].role = Some(ADMIN.to_string());
    let claims = Claims { exp: u64::MAX, sub: 1, role: Some(ADMIN.to_string()) };
    update_profile(&mut s, claims, ADMIN, update(None)).unwrap();
    assert_eq!(s.users[0].role.as_deref(), Some(ADMIN));
    // An unknown subject is refused.
    let claims = Claims { exp: u64::MAX, sub: 9, role: None };
    assert!(matches!(
        update_profile(&mut s, claims, ADMIN, update(None)),
        Err(ApiError::Unauthorized)
    ));
}

#[test]
fn profile_read_fills_absent_fields_with_empty_strings() {
    let s = store_with_admin();
    let profile = get_profile(&s, admin_claims()).unwrap();
    assert_eq!(profile.username, "boss");
    assert_eq!(profile.first_name, "");
    assert_eq!(profile.address, "");
    let role = get_user_role(&s, admin_claims()).unwrap();
    assert_eq!(role.role, ADMIN);
}

#[test]
fn registration_links_follow_the_configuration() {
    let mut config = EnvConfiguration {
        database_name: String::new(),
        database_host: String::new(),
        database_port: String::new(),
        database_user: String::new(),
        database_password: String::new(),
        server_port: "8181".to_string(),
        server_address: "127.0.0.1".to_string(),
        smtp_address: String::new(),
        smtp_port: String::new(),
        mail_username: String::new(),
        mail_password: String::new(),
        jwt_secret: String::new(),
        admin_role: ADMIN.to_string(),
        admin_password: String::new(),
        dir_product_images: "product_images".to_string(),
        local: true,
    };
    assert_eq!(
        generate_registration_link(&config, "tok123"),
        "http://127.0.0.1:8181/api/registration?token=tok123"
    );
    config.local = false;
    assert_eq!(
        generate_registration_link(&config, "tok123"),
        "https://tyutyun.shop/api/registration?token=tok123"
    );
}

#[test]
fn error_categories_map_to_statuses_and_messages() {
    assert_eq!(ApiError::DatabaseError.status_code(), 500);
    assert_eq!(ApiError::NotFound.status_code(), 404);
    assert_eq!(ApiError::Unauthorized.status_code(), 401);
    assert_eq!(ApiError::BadRequest.status_code(), 400);
    assert_eq!(ApiError::PaymentError.status_code(), 402);
    assert_eq!(ApiError::EmailError.status_code(), 409);
    assert_eq!(ApiError::PhoneError.status_code(), 409);
    assert_eq!(ApiError::UsernameError.status_code(), 409);
    assert_eq!(ApiError::InternalServerError.status_code(), 500);
    assert_eq!(ApiError::HttpError.status_code(), 500);
    assert_eq!(ApiError::Unauthorized.message(), "Unauthorized access");
    assert_eq!(ApiError::DatabaseError.message(), "Database error occurred");
}
