//! Catalog and order transaction core of a small storefront backend.
//!
//! The verified model covers the product-image "primary position"
//! invariant, atomic order placement, and the authentication and
//! authorization gate that privileged mutations depend on. Database
//! access, HTTP routing, file storage and mail delivery live outside
//! the library and hand it plain values.

pub mod categories;
pub mod claims;
pub mod config;
pub mod data;
pub mod images;
pub mod orders;
pub mod products;
pub mod sizes;
pub mod users;
pub mod errors;
pub mod store;
