//! The persisted entities of the checkout engine and its error taxonomy.
//!
//! Money is carried as a fixed-point decimal in minor currency units
//! (cents), so `price = 999` stands for 9.99. All arithmetic on money is
//! exact integer arithmetic; nothing is ever rounded.
//!
//! Rows are identified by plain `u64` ids drawn from one store-wide
//! sequence, and instants are unix timestamps (`i64` seconds).

use vstd::prelude::*;

verus! {

/// Status of a persisted order: the closed enumeration
/// `pending -> confirmed -> shipped`.
#[derive(Clone, Copy, Debug, PartialEq, Eq, Structural)]
pub enum OrderStatus {
    Pending,
    Confirmed,
    Shipped,
}

/// Errors surfaced by the store.
///
/// `NotFound`: a referenced cart, order or product does not exist.
/// `EmptyCart`: checkout was attempted against a cart with zero items.
/// `InvalidQuantity`: a cart mutation was asked to add a quantity of zero.
/// `StorageFailure`: a stored numeric value would leave its representable
/// range (the in-memory analogue of a storage constraint violation).
#[derive(Clone, Copy, Debug, PartialEq, Eq, Structural)]
pub enum StoreError {
    NotFound,
    EmptyCart,
    InvalidQuantity,
    StorageFailure,
}

/// A per-user mutable container of desired purchase line items.
///
/// At most one cart exists per user; the cart row survives checkout and is
/// reused, only its items are deleted.
#[derive(Clone, Copy, Debug, PartialEq, Eq, Structural)]
pub struct Cart {
    pub cart_id: u64,
    pub user_id: u64,
    pub created_at: i64,
    pub updated_at: i64,
}

/// One product inside one cart. Unique per `(cart_id, product_id)`; a
/// repeated add merges by summing quantities. `quantity` is always >= 1.
#[derive(Clone, Copy, Debug, PartialEq, Eq, Structural)]
pub struct CartItem {
    pub cart_item_id: u64,
    pub cart_id: u64,
    pub product_id: u64,
    pub quantity: u32,
    pub added_at: i64,
}

/// A line item of a finished order. `price_per_unit` is the permanent
/// snapshot of the catalog price at checkout time, decoupled from any
/// later catalog change.
#[derive(Clone, Copy, Debug, PartialEq, Eq, Structural)]
pub struct OrderDetail {
    pub order_id: u64,
    pub product_id: u64,
    pub quantity: u32,
    pub price_per_unit: u64,
}

/// A catalog product. Read-only to the checkout path; the catalog is
/// maintained through the store's product operations.
#[derive(Debug)]
pub struct Product {
    pub product_id: u64,
    pub name: String,
    pub description: Option<String>,
    pub price: u64,
    pub stock_quantity: u32,
    pub created_at: i64,
}

impl Clone for Product {
    fn clone(&self) -> (res: Self)
        ensures
            res == *self,
    {
        Product {
            product_id: self.product_id,
            name: self.name.clone(),
            description: (match &self.description {
                Some(d) => Some(d.clone()),
                None => None,
            }),
            price: self.price,
            stock_quantity: self.stock_quantity,
            created_at: self.created_at,
        }
    }
}

/// An immutable record of a completed purchase. Only `status` ever changes
/// after creation; `total_amount` is fixed at creation as the exact sum of
/// the order's line totals.
#[derive(Debug)]
pub struct Order {
    pub order_id: u64,
    pub user_id: u64,
    pub order_date: i64,
    pub status: OrderStatus,
    pub shipping_address: String,
    pub created_at: i64,
    pub total_amount: u64,
}

impl Clone for Order {
    fn clone(&self) -> (res: Self)
        ensures
            res == *self,
    {
        Order {
            order_id: self.order_id,
            user_id: self.user_id,
            order_date: self.order_date,
            status: self.status,
            shipping_address: self.shipping_address.clone(),
            created_at: self.created_at,
            total_amount: self.total_amount,
        }
    }
}

/// One cart item joined with the current catalog data of its product, as
/// shown to the user while the cart is still open. `product_price` is the
/// live catalog price, not the snapshot a checkout would take later.
#[derive(Debug)]
pub struct CartItemWithProduct {
    pub cart_item_id: u64,
    pub cart_id: u64,
    pub product_id: u64,
    pub quantity: u32,
    pub added_at: i64,
    pub product_name: String,
    pub product_price: u64,
}

impl Clone for CartItemWithProduct {
    fn clone(&self) -> (res: Self)
        ensures
            res == *self,
    {
        CartItemWithProduct {
            cart_item_id: self.cart_item_id,
            cart_id: self.cart_id,
            product_id: self.product_id,
            quantity: self.quantity,
            added_at: self.added_at,
            product_name: self.product_name.clone(),
            product_price: self.product_price,
        }
    }
}

} // verus!
