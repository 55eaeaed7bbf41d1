//! Plain data carried between the storage model and its callers.
//!
//! Monetary amounts are integers in minor currency units, so the
//! order-item arithmetic of the core is exact. Row identifiers are the
//! storage layer's serial integers.

use vstd::prelude::*;

verus! {

/// A product category.
pub struct Category {
    pub id: Option<i32>,
    pub name: Option<String>,
}

/// A product of the catalog.
pub struct Product {
    pub id: Option<i32>,
    pub name: String,
    pub description: Option<String>,
    /// Weak reference to the product image at the primary position.
    pub primary_image_id: Option<i32>,
    /// Price in minor currency units.
    pub price: u64,
    pub size_id: Option<i32>,
    pub category_id: Option<i32>,
}

/// A stored product image. `product_id` is absent while the image is
/// not yet assigned to a product; `position` 1 marks the primary image.
pub struct ProductImage {
    pub id: i32,
    pub image_url: String,
    pub product_id: Option<i32>,
    pub position: Option<i32>,
}

/// Per-size stock of one product.
#[derive(Clone, Copy, PartialEq, Eq, Structural, Debug)]
pub struct Size {
    pub product_id: i32,
    pub single_size: Option<i32>,
    pub s: Option<i32>,
    pub m: Option<i32>,
    pub l: Option<i32>,
    pub xl: Option<i32>,
    pub xxl: Option<i32>,
}

/// A stored size row together with its serial id.
#[derive(Clone, Copy, PartialEq, Eq, Structural, Debug)]
pub struct SizeRow {
    pub id: i32,
    pub size: Size,
}

/// An order header. The two instants are unix seconds handed in by
/// the caller's clock when the row is written; values a client sends
/// for them are ignored.
pub struct Order {
    pub id: Option<i32>,
    pub user_id: Option<i32>,
    /// Caller-supplied order total in minor currency units.
    pub total_price: u64,
    pub status: String,
    pub online_payment: bool,
    /// Creation instant of the stored row.
    pub date: Option<u64>,
    /// Instant of the last status change.
    pub updated_at: Option<u64>,
}

/// One order line as supplied by the caller. The stored total is always
/// recomputed from `quantity` and `price`; the incoming `total_price`
/// field is carried for interface parity and ignored.
pub struct OrderItem {
    pub order_id: Option<i32>,
    pub product_id: i32,
    pub quantity: u32,
    /// Unit price snapshot in minor currency units.
    pub price: u64,
    pub size: Option<String>,
    pub total_price: u64,
}

/// A stored order line. `product_id` becomes absent when the referenced
/// product is deleted.
pub struct OrderItemRow {
    pub id: i32,
    pub order_id: i32,
    pub product_id: Option<i32>,
    pub quantity: u32,
    /// Unit price snapshot in minor currency units.
    pub price: u64,
    pub size: Option<String>,
    pub total_price: u64,
}

/// One order line joined with its product's name.
pub struct OrderItemDetails {
    pub id: i32,
    pub product_name: String,
    pub quantity: u32,
    pub size: Option<String>,
    pub total_price: u64,
}

/// An order together with its lines, as posted by a client.
pub struct DataOrder {
    pub order: Order,
    pub order_items: Vec<OrderItem>,
}

/// Shipping record and line details of one order.
pub struct OrderDetails {
    pub shipping: Shipping,
    pub items: Vec<OrderItemDetails>,
}

/// Contact and delivery record, one per order.
pub struct Shipping {
    pub order_id: i32,
    pub city: String,
    pub branch: String,
    pub first_name: String,
    pub last_name: String,
    pub phone_number: String,
    pub email: String,
}

/// A stored user account.
pub struct User {
    pub id: i32,
    pub username: String,
    pub email: String,
    pub password_hash: String,
    pub first_name: Option<String>,
    pub last_name: Option<String>,
    pub phone_number: Option<String>,
    pub address: Option<String>,
    pub role: Option<String>,
}

/// Registration input before any account exists.
pub struct NewUser {
    pub username: String,
    pub email: String,
    pub password: String,
    pub first_name: Option<String>,
    pub last_name: Option<String>,
    pub phone_number: Option<String>,
}

/// Profile data as posted by a client.
pub struct TempUser {
    pub username: String,
    pub email: String,
    pub password: Option<String>,
    pub first_name: Option<String>,
    pub last_name: Option<String>,
    pub phone_number: Option<String>,
    pub role: Option<String>,
    pub address: Option<String>,
}

/// Payload of a registration activation token.
pub struct JwtUser {
    pub username: String,
    pub email: String,
    pub password: Option<String>,
    pub first_name: Option<String>,
    pub last_name: Option<String>,
    pub phone_number: Option<String>,
    pub role: Option<String>,
    pub address: Option<String>,
    /// Expiry instant in unix seconds.
    pub exp: u64,
}

/// Profile as returned to the client; absent fields become empty.
pub struct UserProfile {
    pub id: Option<i32>,
    pub username: String,
    pub email: String,
    pub first_name: String,
    pub last_name: String,
    pub phone_number: String,
    pub address: String,
}

/// Login credentials.
pub struct LoginRequest {
    pub email: String,
    pub password: String,
}

/// Successful login answer.
pub struct LoginResponse {
    pub id: i32,
    pub username: String,
    pub email: String,
    pub token: String,
}

/// The live role of a user.
pub struct RoleResponse {
    pub role: String,
}

/// A principal whose token signature was checked.
#[derive(Clone, Copy, PartialEq, Eq, Structural, Debug)]
pub struct AuthenticatedUser {
    pub user_id: i32,
}

/// The view of an optional string: the character sequence it holds.
pub open spec fn opt_view(o: Option<String>) -> Option<Seq<char>> {
    match o {
        Some(s) => Some(s@),
        None => None,
    }
}

/// Equality of strings, usable wherever contracts compare views.
pub fn string_eq(a: &String, b: &String) -> (r: bool)
    ensures
        r == (a@ == b@),
{
    a.eq(b)
}

/// Equality of string slices through owned copies.
pub fn str_eq(a: &str, b: &str) -> (r: bool)
    ensures
        r == (a@ == b@),
{
    let ao = a.to_owned();
    let bo = b.to_owned();
    string_eq(&ao, &bo)
}

/// Equality of optional strings, compared by contents.
pub fn opt_string_eq(a: &Option<String>, b: &Option<String>) -> (r: bool)
    ensures
        r == match (a, b) {
            (Some(x), Some(y)) => x@ == y@,
            (None, None) => true,
            _ => false,
        },
{
    match (a, b) {
        (Some(x), Some(y)) => string_eq(x, y),
        (None, None) => true,
        _ => false,
    }
}

/// A copy of an optional string, equal to its source.
pub fn clone_opt_string(x: &Option<String>) -> (r: Option<String>)
    ensures
        r == *x,
{
    match x {
        Some(s) => Some(s.clone()),
        None => None,
    }
}

impl Clone for Category {
    fn clone(&self) -> (res: Self)
        ensures
            res == *self,
    {
        Category { id: self.id, name: clone_opt_string(&self.name) }
    }
}

impl Clone for Product {
    fn clone(&self) -> (res: Self)
        ensures
            res == *self,
    {
        Product {
            id: self.id,
            name: self.name.clone(),
            description: clone_opt_string(&self.description),
            primary_image_id: self.primary_image_id,
            price: self.price,
            size_id: self.size_id,
            category_id: self.category_id,
        }
    }
}

impl Clone for ProductImage {
    fn clone(&self) -> (res: Self)
        ensures
            res == *self,
    {
        ProductImage {
            id: self.id,
            image_url: self.image_url.clone(),
            product_id: self.product_id,
            position: self.position,
        }
    }
}

impl Clone for Order {
    fn clone(&self) -> (res: Self)
        ensures
            res == *self,
    {
        Order {
            id: self.id,
            user_id: self.user_id,
            total_price: self.total_price,
            status: self.status.clone(),
            online_payment: self.online_payment,
            date: self.date,
            updated_at: self.updated_at,
        }
    }
}

impl Clone for OrderItemRow {
    fn clone(&self) -> (res: Self)
        ensures
            res == *self,
    {
        OrderItemRow {
            id: self.id,
            order_id: self.order_id,
            product_id: self.product_id,
            quantity: self.quantity,
            price: self.price,
            size: clone_opt_string(&self.size),
            total_price: self.total_price,
        }
    }
}

impl Clone for Shipping {
    fn clone(&self) -> (res: Self)
        ensures
            res == *self,
    {
        Shipping {
            order_id: self.order_id,
            city: self.city.clone(),
            branch: self.branch.clone(),
            first_name: self.first_name.clone(),
            last_name: self.last_name.clone(),
            phone_number: self.phone_number.clone(),
            email: self.email.clone(),
        }
    }
}

impl Clone for User {
    fn clone(&self) -> (res: Self)
        ensures
            res == *self,
    {
        User {
            id: self.id,
            username: self.username.clone(),
            email: self.email.clone(),
            password_hash: self.password_hash.clone(),
            first_name: clone_opt_string(&self.first_name),
            last_name: clone_opt_string(&self.last_name),
            phone_number: clone_opt_string(&self.phone_number),
            address: clone_opt_string(&self.address),
            role: clone_opt_string(&self.role),
        }
    }
}

} // verus!
