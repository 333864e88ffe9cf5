//! Cart-to-order checkout engine.
//!
//! The crate owns the cart lifecycle, item aggregation, price snapshotting,
//! atomic order creation and cart clearing for a small e-commerce backend.
//! All state lives in an in-memory [`store::Store`]; callers that keep the
//! state elsewhere feed plain values (integer ids, prices in minor currency
//! units, unix timestamps) in and out of it.

pub mod auth;
pub mod domain;
pub mod laws;
pub mod lookup;
pub mod model;
pub mod store;
