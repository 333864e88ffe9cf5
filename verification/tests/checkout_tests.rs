//! Scenario tests of the checkout engine.

use checkout_core::domain::OrderStatus;
use checkout_core::domain::StoreError;
use checkout_core::store::Store;

#[test]
fn scenario_merge_then_checkout() {
    // Empty cart; add product X (9.99) qty 2, then qty 3: one line, qty 5.
    let mut s = Store::new();
    let x = s.create_product("Widget".to_string(), None, 999, 10, 100);
    let cart = s.get_or_create_cart(7, 110);
    let first = s.add_cart_item(cart.cart_id, x.product_id, 2, 120).unwrap();
    assert_eq!(first.quantity, 2);
    let merged = s.add_cart_item(cart.cart_id, x.product_id, 3, 130).unwrap();
    assert_eq!(merged.quantity, 5);
    assert_eq!(merged.cart_item_id, first.cart_item_id);

    let lines = s.get_cart_with_items(cart.cart_id);
    assert_eq!(lines.len(), 1);
    assert_eq!(lines[0].quantity, 5);
    assert_eq!(lines[0].product_price, 999);
    assert_eq!(lines[0].product_name, "Widget");

    // Checkout: total 49.95, one detail row, cart emptied.
    let order = s.create_order("1 Main St".to_string(), 7, 140).unwrap();
    assert_eq!(order.total_amount, 4995);
    assert_eq!(order.user_id, 7);
    assert_eq!(order.shipping_address, "1 Main St");
    assert!(matches!(order.status, OrderStatus::Pending));

    let details = s.get_order_details(order.order_id);
    assert_eq!(details.len(), 1);
    assert_eq!(details[0].product_id, x.product_id);
    assert_eq!(details[0].quantity, 5);
    assert_eq!(details[0].price_per_unit, 999);

    assert_eq!(s.get_cart_with_items(cart.cart_id).len(), 0);
}

#[test]
fn scenario_two_products() {
    // Product Y (20.00) qty 1 and Z (5.00) qty 1: total 25.00, two rows.
    let mut s = Store::new();
    let y = s.create_product("Yarn".to_string(), None, 2000, 5, 10);
    let z = s.create_product("Zipper".to_string(), None, 500, 5, 11);
    let cart = s.get_or_create_cart(3, 20);
    s.add_cart_item(cart.cart_id, y.product_id, 1, 21).unwrap();
    s.add_cart_item(cart.cart_id, z.product_id, 1, 22).unwrap();

    let order = s.create_order("2 Side St".to_string(), 3, 30).unwrap();
    assert_eq!(order.total_amount, 2500);
    let details = s.get_order_details(order.order_id);
    assert_eq!(details.len(), 2);
    assert_eq!(details[0].product_id, y.product_id);
    assert_eq!(details[0].price_per_unit, 2000);
    assert_eq!(details[1].product_id, z.product_id);
    assert_eq!(details[1].price_per_unit, 500);
    assert_eq!(s.get_cart_with_items(cart.cart_id).len(), 0);
}

#[test]
fn scenario_empty_cart_rejected() {
    // Checkout on a cart with no items: EmptyCart, ledger untouched.
    let mut s = Store::new();
    s.create_product("Widget".to_string(), None, 999, 10, 1);
    s.get_or_create_cart(9, 2);
    let r = s.create_order("3 Empty Rd".to_string(), 9, 3);
    assert!(matches!(r, Err(StoreError::EmptyCart)));
    assert_eq!(s.get_all_orders().len(), 0);
    assert_eq!(s.get_order_details(1).len(), 0);
}

#[test]
fn scenario_second_checkout_rejected() {
    // Two checkouts of one cart's worth of goods: exactly one order.
    let mut s = Store::new();
    let x = s.create_product("Widget".to_string(), None, 999, 10, 1);
    let cart = s.get_or_create_cart(5, 2);
    s.add_cart_item(cart.cart_id, x.product_id, 1, 3).unwrap();

    let first = s.create_order("4 Twice Ln".to_string(), 5, 4);
    assert!(first.is_ok());
    let second = s.create_order("4 Twice Ln".to_string(), 5, 5);
    assert!(matches!(second, Err(StoreError::EmptyCart)));
    assert_eq!(s.get_all_orders().len(), 1);
}

#[test]
fn checkout_without_cart_is_not_found() {
    let mut s = Store::new();
    let r = s.create_order("5 Nowhere".to_string(), 42, 1);
    assert!(matches!(r, Err(StoreError::NotFound)));
}

#[test]
fn price_change_leaves_order_untouched() {
    // The snapshot in an order's details outlives catalog price changes.
    let mut s = Store::new();
    let x = s.create_product("Widget".to_string(), None, 999, 10, 1);
    let cart = s.get_or_create_cart(7, 2);
    s.add_cart_item(cart.cart_id, x.product_id, 5, 3).unwrap();
    let order = s.create_order("6 Stable St".to_string(), 7, 4).unwrap();
    assert_eq!(order.total_amount, 4995);

    let updated = s
        .update_product_by_id(x.product_id, "Widget".to_string(), None, 1234, 10)
        .unwrap();
    assert_eq!(updated.price, 1234);
    assert_eq!(s.get_price(x.product_id).unwrap(), 1234);

    let details = s.get_order_details(order.order_id);
    assert_eq!(details.len(), 1);
    assert_eq!(details[0].price_per_unit, 999);
    let listed = s.get_all_user_orders(7);
    assert_eq!(listed.len(), 1);
    assert_eq!(listed[0].total_amount, 4995);
}

#[test]
fn checkout_total_beyond_money_range_is_rejected_whole() {
    // A cart whose exact total cannot be stored is rejected; nothing
    // changes.
    let mut s = Store::new();
    let x = s.create_product("Ingot".to_string(), None, u64::MAX, 1, 1);
    let cart = s.get_or_create_cart(8, 2);
    s.add_cart_item(cart.cart_id, x.product_id, 2, 3).unwrap();
    let r = s.create_order("7 Vault".to_string(), 8, 4);
    assert!(matches!(r, Err(StoreError::StorageFailure)));
    assert_eq!(s.get_cart_with_items(cart.cart_id).len(), 1);
    assert_eq!(s.get_all_orders().len(), 0);
}

#[test]
fn checkout_uses_price_at_checkout_time() {
    // The price read at checkout is the authoritative one, not what the
    // client saw when the item was added.
    let mut s = Store::new();
    let x = s.create_product("Widget".to_string(), None, 999, 10, 1);
    let cart = s.get_or_create_cart(7, 2);
    s.add_cart_item(cart.cart_id, x.product_id, 2, 3).unwrap();
    s.update_product_by_id(x.product_id, "Widget".to_string(), None, 1100, 10)
        .unwrap();
    let order = s.create_order("8 Live Rd".to_string(), 7, 4).unwrap();
    assert_eq!(order.total_amount, 2200);
    let details = s.get_order_details(order.order_id);
    assert_eq!(details[0].price_per_unit, 1100);
}

#[test]
fn ledger_lists_newest_first() {
    let mut s = Store::new();
    let x = s.create_product("Widget".to_string(), None, 100, 10, 1);
    for (user, now) in [(1u64, 10i64), (2, 20), (1, 30)] {
        let cart = s.get_or_create_cart(user, now);
        s.add_cart_item(cart.cart_id, x.product_id, 1, now).unwrap();
        s.create_order("9 List Ave".to_string(), user, now).unwrap();
    }
    let all = s.get_all_orders();
    assert_eq!(all.len(), 3);
    assert_eq!(all[0].created_at, 30);
    assert_eq!(all[1].created_at, 20);
    assert_eq!(all[2].created_at, 10);

    let mine = s.get_all_user_orders(1);
    assert_eq!(mine.len(), 2);
    assert_eq!(mine[0].created_at, 30);
    assert_eq!(mine[1].created_at, 10);
    assert!(mine.iter().all(|o| o.user_id == 1));
}

#[test]
fn order_instants_stay_monotone() {
    // A clock reading earlier than the ledger's latest instant is pushed
    // forward so ledger order and creation order agree.
    let mut s = Store::new();
    let x = s.create_product("Widget".to_string(), None, 100, 10, 1);
    let cart = s.get_or_create_cart(1, 1);
    s.add_cart_item(cart.cart_id, x.product_id, 1, 1).unwrap();
    let first = s.create_order("10 Clock St".to_string(), 1, 50).unwrap();
    assert_eq!(first.created_at, 50);

    s.add_cart_item(cart.cart_id, x.product_id, 1, 2).unwrap();
    let second = s.create_order("10 Clock St".to_string(), 1, 40).unwrap();
    assert_eq!(second.created_at, 50);
    let all = s.get_all_orders();
    assert_eq!(all[0].order_id, second.order_id);
}

#[test]
fn update_order_status_transitions() {
    let mut s = Store::new();
    let x = s.create_product("Widget".to_string(), None, 100, 10, 1);
    let cart = s.get_or_create_cart(1, 2);
    s.add_cart_item(cart.cart_id, x.product_id, 1, 3).unwrap();
    let order = s.create_order("11 Status Bv".to_string(), 1, 4).unwrap();

    assert!(s.update_order_status(order.order_id, OrderStatus::Confirmed).is_ok());
    let listed = s.get_all_user_orders(1);
    assert!(matches!(listed[0].status, OrderStatus::Confirmed));

    assert!(s.update_order_status(order.order_id, OrderStatus::Shipped).is_ok());
    let listed = s.get_all_user_orders(1);
    assert!(matches!(listed[0].status, OrderStatus::Shipped));
    assert_eq!(listed[0].total_amount, 100);

    let missing = s.update_order_status(order.order_id + 1000, OrderStatus::Pending);
    assert!(matches!(missing, Err(StoreError::NotFound)));
}
