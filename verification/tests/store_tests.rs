//! Unit tests of the cart store, the catalog and the identity claims.

use checkout_core::auth::TokenClaims;
use checkout_core::auth::UserRole;
use checkout_core::domain::StoreError;
use checkout_core::store::Store;

#[test]
fn get_or_create_cart_is_reused() {
    let mut s = Store::new();
    let first = s.get_or_create_cart(7, 10);
    let again = s.get_or_create_cart(7, 99);
    assert_eq!(again.cart_id, first.cart_id);
    assert_eq!(again.created_at, 10);

    let other = s.get_or_create_cart(8, 11);
    assert_ne!(other.cart_id, first.cart_id);
}

#[test]
fn add_item_rejects_zero_quantity() {
    let mut s = Store::new();
    let x = s.create_product("Widget".to_string(), None, 999, 10, 1);
    let cart = s.get_or_create_cart(7, 2);
    let r = s.add_cart_item(cart.cart_id, x.product_id, 0, 3);
    assert!(matches!(r, Err(StoreError::InvalidQuantity)));
    assert_eq!(s.get_cart_with_items(cart.cart_id).len(), 0);
}

#[test]
fn add_item_rejects_unknown_cart_and_product() {
    let mut s = Store::new();
    let x = s.create_product("Widget".to_string(), None, 999, 10, 1);
    let cart = s.get_or_create_cart(7, 2);

    let no_cart = s.add_cart_item(cart.cart_id + 50, x.product_id, 1, 3);
    assert!(matches!(no_cart, Err(StoreError::NotFound)));

    let no_product = s.add_cart_item(cart.cart_id, x.product_id + 50, 1, 4);
    assert!(matches!(no_product, Err(StoreError::NotFound)));
}

#[test]
fn add_item_rejects_quantity_overflow() {
    let mut s = Store::new();
    let x = s.create_product("Widget".to_string(), None, 1, 10, 1);
    let cart = s.get_or_create_cart(7, 2);
    s.add_cart_item(cart.cart_id, x.product_id, u32::MAX, 3).unwrap();
    let r = s.add_cart_item(cart.cart_id, x.product_id, 1, 4);
    assert!(matches!(r, Err(StoreError::StorageFailure)));
    let lines = s.get_cart_with_items(cart.cart_id);
    assert_eq!(lines.len(), 1);
    assert_eq!(lines[0].quantity, u32::MAX);
}

#[test]
fn cart_view_joins_live_catalog_data() {
    let mut s = Store::new();
    let x = s.create_product("Widget".to_string(), Some("round".to_string()), 999, 10, 1);
    let y = s.create_product("Yarn".to_string(), None, 2000, 5, 2);
    let cart = s.get_or_create_cart(7, 3);
    s.add_cart_item(cart.cart_id, x.product_id, 2, 4).unwrap();
    s.add_cart_item(cart.cart_id, y.product_id, 1, 5).unwrap();

    let lines = s.get_cart_with_items(cart.cart_id);
    assert_eq!(lines.len(), 2);
    assert_eq!(lines[0].product_name, "Widget");
    assert_eq!(lines[1].product_name, "Yarn");

    // The view shows the live price, not a snapshot.
    s.update_product_by_id(x.product_id, "Widget".to_string(), None, 1050, 10)
        .unwrap();
    let lines = s.get_cart_with_items(cart.cart_id);
    assert_eq!(lines[0].product_price, 1050);

    // An unknown cart has the empty view.
    assert_eq!(s.get_cart_with_items(9999).len(), 0);
}

#[test]
fn catalog_lookup_and_price() {
    let mut s = Store::new();
    let x = s.create_product("Widget".to_string(), None, 999, 10, 1);
    assert_eq!(s.get_price(x.product_id).unwrap(), 999);
    assert!(matches!(s.get_price(x.product_id + 1), Err(StoreError::NotFound)));

    let found = s.get_product_by_id(x.product_id).unwrap();
    assert_eq!(found.name, "Widget");
    assert_eq!(found.price, 999);
    assert!(s.get_product_by_id(x.product_id + 1).is_none());

    let all = s.get_products();
    assert_eq!(all.len(), 1);
    assert_eq!(all[0].product_id, x.product_id);
}

#[test]
fn product_update_and_missing_id() {
    let mut s = Store::new();
    let x = s.create_product("Widget".to_string(), None, 999, 10, 1);
    let updated = s
        .update_product_by_id(x.product_id, "Gadget".to_string(), Some("new".to_string()), 500, 3)
        .unwrap();
    assert_eq!(updated.name, "Gadget");
    assert_eq!(updated.stock_quantity, 3);
    assert_eq!(updated.created_at, 1);
    assert!(s.update_product_by_id(x.product_id + 9, "Nix".to_string(), None, 1, 1).is_none());
}

#[test]
fn product_delete_respects_references() {
    let mut s = Store::new();
    let x = s.create_product("Widget".to_string(), None, 999, 10, 1);
    let y = s.create_product("Yarn".to_string(), None, 2000, 5, 2);

    assert!(matches!(s.delete_product(777), Err(StoreError::NotFound)));

    // Referenced by a cart item: the delete is restricted.
    let cart = s.get_or_create_cart(7, 3);
    s.add_cart_item(cart.cart_id, x.product_id, 1, 4).unwrap();
    assert!(matches!(s.delete_product(x.product_id), Err(StoreError::StorageFailure)));

    // Referenced by an order detail: still restricted after checkout.
    s.create_order("12 Keep St".to_string(), 7, 5).unwrap();
    assert!(matches!(s.delete_product(x.product_id), Err(StoreError::StorageFailure)));

    // Unreferenced: deleted.
    assert!(s.delete_product(y.product_id).is_ok());
    assert_eq!(s.get_products().len(), 1);
    assert_eq!(s.get_products()[0].product_id, x.product_id);
}

#[test]
fn claims_role_checks() {
    let admin = TokenClaims { user_id: 1, role: UserRole::Admin };
    assert!(admin.is_admin());
    assert!(!admin.is_customer());

    let customer = TokenClaims { user_id: 2, role: UserRole::Customer };
    assert!(customer.is_customer());
    assert!(!customer.is_admin());
}

#[test]
fn ids_left_shrinks_with_inserts() {
    let mut s = Store::new();
    let before = s.ids_left();
    s.create_product("Widget".to_string(), None, 1, 1, 1);
    s.get_or_create_cart(7, 2);
    assert_eq!(s.ids_left(), before - 2);
}
