//! The primary-position invariant across image operations.

use shop_core::claims::Claims;
use shop_core::config::EnvConfiguration;
use shop_core::data::{Product, ProductImage, User};
use shop_core::errors::ApiError;
use shop_core::images::{
    create_product_image, delete_product_image_by_id, get_all_product_images,
    get_one_product_image, update_product_image,
};
use shop_core::store::Store;

const ADMIN: &str = "ADMIN";

fn admin_user() -> User {
    User {
        id: 1,
        username: "boss".to_string(),
        email: "boss@example.com".to_string(),
        password_hash: "unused".to_string(),
        first_name: None,
        last_name: None,
        phone_number: None,
        address: None,
        role: Some(ADMIN.to_string()),
    }
}

fn admin_claims() -> Claims {
    Claims { exp: u64::MAX, sub: 1, role: Some(ADMIN.to_string()) }
}

fn store_with_product_42() -> Store {
    let mut s = Store::new();
    s.users.push(admin_user());
    s.next_user_id = 2;
    s.products.push(Product {
        id: Some(42),
        name: "cap".to_string(),
        description: None,
        primary_image_id: None,
        price: 1000,
        size_id: None,
        category_id: None,
    });
    s.next_product_id = 43;
    s
}

fn local_config() -> EnvConfiguration {
    EnvConfiguration {
        database_name: String::new(),
        database_host: String::new(),
        database_port: String::new(),
        database_user: String::new(),
        database_password: String::new(),
        server_port: "8181".to_string(),
        server_address: "127.0.0.1".to_string(),
        smtp_address: String::new(),
        smtp_port: String::new(),
        mail_username: String::new(),
        mail_password: String::new(),
        jwt_secret: "s".to_string(),
        admin_role: ADMIN.to_string(),
        admin_password: String::new(),
        dir_product_images: "product_images".to_string(),
        local: true,
    }
}

/// Every product has at most one image at position 1, and the
/// product's reference names it.
fn assert_primary_invariant(s: &Store) {
    for p in &s.products {
        let pid = p.id.expect("stored products carry ids");
        let primaries: Vec<&ProductImage> = s
            .images
            .iter()
            .filter(|img| img.product_id == Some(pid) && img.position == Some(1))
            .collect();
        assert!(primaries.len() <= 1);
        if let Some(first) = primaries.first() {
            assert_eq!(p.primary_image_id, Some(first.id));
        }
    }
}

#[test]
fn upload_primary_sets_reference() {
    let mut s = store_with_product_42();
    let a = create_product_image(
        &mut s,
        admin_claims(),
        "a.png".to_string(),
        Some(42),
        Some(1),
    )
    .expect("upload should succeed");
    assert_eq!(s.products[0].primary_image_id, Some(a));
    assert_primary_invariant(&s);
}

#[test]
fn second_primary_displaces_first() {
    let mut s = store_with_product_42();
    let a = create_product_image(
        &mut s,
        admin_claims(),
        "a.png".to_string(),
        Some(42),
        Some(1),
    )
    .unwrap();
    let b = create_product_image(
        &mut s,
        admin_claims(),
        "b.png".to_string(),
        Some(42),
        Some(1),
    )
    .unwrap();
    assert_eq!(s.products[0].primary_image_id, Some(b));
    let row_a = s.images.iter().find(|img| img.id == a).unwrap();
    assert_eq!(row_a.position, None);
    let row_b = s.images.iter().find(|img| img.id == b).unwrap();
    assert_eq!(row_b.position, Some(1));
    assert_primary_invariant(&s);
}

#[test]
fn non_primary_upload_keeps_reference() {
    let mut s = store_with_product_42();
    let a = create_product_image(
        &mut s,
        admin_claims(),
        "a.png".to_string(),
        Some(42),
        Some(1),
    )
    .unwrap();
    create_product_image(&mut s, admin_claims(), "b.png".to_string(), Some(42), Some(3))
        .unwrap();
    assert_eq!(s.products[0].primary_image_id, Some(a));
    assert_primary_invariant(&s);
}

#[test]
fn update_makes_row_primary_and_demotes() {
    let mut s = store_with_product_42();
    let a = create_product_image(
        &mut s,
        admin_claims(),
        "a.png".to_string(),
        Some(42),
        Some(1),
    )
    .unwrap();
    let b = create_product_image(&mut s, admin_claims(), "b.png".to_string(), None, None)
        .unwrap();
    let request = ProductImage {
        id: b,
        image_url: String::new(),
        product_id: Some(42),
        position: Some(1),
    };
    update_product_image(&mut s, admin_claims(), ADMIN, request).unwrap();
    assert_eq!(s.products[0].primary_image_id, Some(b));
    let row_a = s.images.iter().find(|img| img.id == a).unwrap();
    assert_eq!(row_a.position, None);
    assert_primary_invariant(&s);
}

#[test]
fn delete_primary_clears_reference() {
    let mut s = store_with_product_42();
    let a = create_product_image(
        &mut s,
        admin_claims(),
        "a.png".to_string(),
        Some(42),
        Some(1),
    )
    .unwrap();
    let url = delete_product_image_by_id(&mut s, admin_claims(), ADMIN, a).unwrap();
    assert_eq!(url, "a.png");
    assert_eq!(s.products[0].primary_image_id, None);
    assert!(s.images.is_empty());
    assert_primary_invariant(&s);
}

#[test]
fn any_verified_user_may_upload() {
    let mut s = store_with_product_42();
    // A verified principal who is no administrator (and holds no
    // account row at all) may still upload an image.
    let claims = Claims { exp: u64::MAX, sub: 99, role: Some("USER".to_string()) };
    let a = create_product_image(&mut s, claims, "a.png".to_string(), Some(42), Some(1))
        .expect("user-level upload should succeed");
    assert_eq!(s.products[0].primary_image_id, Some(a));
    assert_primary_invariant(&s);
}

#[test]
fn create_image_for_unknown_product_is_not_found() {
    let mut s = store_with_product_42();
    let r = create_product_image(&mut s, admin_claims(), "a.png".to_string(), Some(7), None);
    assert!(matches!(r, Err(ApiError::NotFound)));
    assert!(s.images.is_empty());
}

#[test]
fn image_read_builds_public_path() {
    let mut s = store_with_product_42();
    let a = create_product_image(&mut s, admin_claims(), "a.png".to_string(), None, None)
        .unwrap();
    let img = get_one_product_image(&s, &local_config(), a).unwrap();
    assert_eq!(img.image_url, "http://127.0.0.1:8181/product_images/a.png");
    let mut remote = local_config();
    remote.local = false;
    let img = get_one_product_image(&s, &remote, a).unwrap();
    assert_eq!(img.image_url, "/product_images/a.png");
}

#[test]
fn image_listing_carries_the_filter_product() {
    let mut s = store_with_product_42();
    create_product_image(&mut s, admin_claims(), "a.png".to_string(), Some(42), None)
        .unwrap();
    create_product_image(&mut s, admin_claims(), "b.png".to_string(), None, None).unwrap();
    let all = get_all_product_images(&s, &local_config(), None);
    assert_eq!(all.len(), 2);
    assert!(all.iter().all(|img| img.product_id.is_none()));
    let of_42 = get_all_product_images(&s, &local_config(), Some(42));
    assert_eq!(of_42.len(), 1);
    assert_eq!(of_42[0].product_id, Some(42));
}

#[test]
fn update_of_missing_rows_is_not_found() {
    let mut s = store_with_product_42();
    let request = ProductImage {
        id: 9,
        image_url: String::new(),
        product_id: Some(42),
        position: Some(1),
    };
    let r = update_product_image(&mut s, admin_claims(), ADMIN, request);
    assert!(matches!(r, Err(ApiError::NotFound)));
    let a = create_product_image(&mut s, admin_claims(), "a.png".to_string(), None, None)
        .unwrap();
    let request = ProductImage {
        id: a,
        image_url: String::new(),
        product_id: Some(77),
        position: Some(1),
    };
    let r = update_product_image(&mut s, admin_claims(), ADMIN, request);
    assert!(matches!(r, Err(ApiError::NotFound)));
    assert!(matches!(
        get_one_product_image(&s, &local_config(), 9),
        Err(ApiError::DatabaseError)
    ));
    assert!(matches!(
        delete_product_image_by_id(&mut s, admin_claims(), ADMIN, 9),
        Err(ApiError::DatabaseError)
    ));
}

#[test]
fn invariant_survives_a_mixed_sequence() {
    let mut s = store_with_product_42();
    s.products.push(Product {
        id: Some(7),
        name: "shirt".to_string(),
        description: None,
        primary_image_id: None,
        price: 500,
        size_id: None,
        category_id: None,
    });
    let a = create_product_image(
        &mut s,
        admin_claims(),
        "a.png".to_string(),
        Some(42),
        Some(1),
    )
    .unwrap();
    let b = create_product_image(
        &mut s,
        admin_claims(),
        "b.png".to_string(),
        Some(7),
        Some(1),
    )
    .unwrap();
    let c = create_product_image(&mut s, admin_claims(), "c.png".to_string(), None, None)
        .unwrap();
    assert_primary_invariant(&s);
    // Move the unassigned image onto product 42's primary position.
    let request = ProductImage {
        id: c,
        image_url: String::new(),
        product_id: Some(42),
        position: Some(1),
    };
    update_product_image(&mut s, admin_claims(), ADMIN, request).unwrap();
    assert_primary_invariant(&s);
    // Move product 7's primary over to product 42.
    let request = ProductImage {
        id: b,
        image_url: String::new(),
        product_id: Some(42),
        position: Some(1),
    };
    update_product_image(&mut s, admin_claims(), ADMIN, request).unwrap();
    assert_primary_invariant(&s);
    delete_product_image_by_id(&mut s, admin_claims(), ADMIN, b).unwrap();
    assert_primary_invariant(&s);
    let _ = a;
}
