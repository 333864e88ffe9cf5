//! The laws of the checkout engine, proved over the model of
//! [`crate::model`]. Each is stated for every input its premises allow,
//! not for chosen values; the executable store methods are pinned to the
//! same model functions by their contracts.

use vstd::prelude::*;

use crate::domain::Cart;
use crate::domain::CartItem;
use crate::domain::Product;
use crate::domain::StoreError;
use crate::model::cart_item_count;
use crate::model::cart_total;
use crate::model::checkout_error;
use crate::model::details_of;
use crate::model::details_total;
use crate::model::item_ix;
use crate::model::lemma_cart_total_nonneg;
use crate::model::lemma_item_ix_props;
use crate::model::lemma_pair_count_zero;
use crate::model::lemma_remove_cart_items_props;
use crate::model::lemma_snapshot_total;
use crate::model::merge_or_insert;
use crate::model::new_order;
use crate::model::pair_count;
use crate::model::remove_cart_items;
use crate::model::snapshot_details;
use crate::model::user_cart_ix;
use crate::store::Store;

verus! {

/// Idempotent merge: adding the same product twice, with quantities `a`
/// then `b`, to a cart that held nothing, yields exactly one cart item
/// for the pair, carrying quantity `a + b` (whatever ids and instants the
/// two adds drew).
pub proof fn lemma_repeated_add_merges(
    items: Seq<CartItem>,
    cart_id: u64,
    product_id: u64,
    a: u32,
    b: u32,
    id1: u64,
    id2: u64,
    t1: i64,
    t2: i64,
)
    requires
        forall|i: int| 0 <= i < items.len() ==> (#[trigger] items[i]).cart_id != cart_id,
        a >= 1,
        b >= 1,
        a + b <= u32::MAX,
    ensures
        ({
            let s1 = merge_or_insert(items, cart_id, product_id, a, id1, t1);
            let s2 = merge_or_insert(s1, cart_id, product_id, b, id2, t2);
            &&& s2 == items.push(
                CartItem {
                    cart_item_id: id1,
                    cart_id: cart_id,
                    product_id: product_id,
                    quantity: (a + b) as u32,
                    added_at: t1,
                },
            )
            &&& pair_count(s2, cart_id, product_id) == 1
        }),
{
    lemma_item_ix_props(items, cart_id, product_id);
    assert(item_ix(items, cart_id, product_id) == -1);
    let row_a = CartItem {
        cart_item_id: id1,
        cart_id: cart_id,
        product_id: product_id,
        quantity: a,
        added_at: t1,
    };
    let s1 = merge_or_insert(items, cart_id, product_id, a, id1, t1);
    assert(s1 == items.push(row_a));
    lemma_item_ix_props(s1, cart_id, product_id);
    let ix1 = item_ix(s1, cart_id, product_id);
    assert(s1[s1.len() - 1] == row_a);
    assert(ix1 == s1.len() - 1) by {
        if ix1 == -1 {
            assert(!(s1[s1.len() - 1].cart_id == cart_id && s1[s1.len() - 1].product_id
                == product_id));
            assert(false);
        } else if ix1 < s1.len() - 1 {
            assert(s1[ix1] == items[ix1]);
            assert(false);
        }
    }
    let row_ab = CartItem {
        cart_item_id: id1,
        cart_id: cart_id,
        product_id: product_id,
        quantity: (a + b) as u32,
        added_at: t1,
    };
    let s2 = merge_or_insert(s1, cart_id, product_id, b, id2, t2);
    assert(s2 =~= items.push(row_ab));
    lemma_pair_count_zero(items, cart_id, product_id);
    assert(items.push(row_ab).drop_last() =~= items);
    assert(pair_count(s2, cart_id, product_id) == 1);
}

/// Empty-cart rejection: a checkout of a user whose cart holds zero items
/// always fails with `EmptyCart`, whatever the catalog holds.
pub proof fn lemma_empty_cart_rejected(
    carts: Seq<Cart>,
    items: Seq<CartItem>,
    products: Seq<Product>,
    user_id: u64,
)
    requires
        user_cart_ix(carts, user_id) >= 0,
        cart_item_count(items, carts[user_cart_ix(carts, user_id)].cart_id) == 0,
    ensures
        checkout_error(carts, items, products, user_id) == Some(StoreError::EmptyCart),
{
}

/// Total invariant: when a cart checks out, the created order's
/// `total_amount` equals the exact decimal sum of
/// `quantity * price_per_unit` over the detail rows the checkout writes.
pub proof fn lemma_checkout_total(
    carts: Seq<Cart>,
    items: Seq<CartItem>,
    products: Seq<Product>,
    user_id: u64,
    order_id: u64,
    ts: i64,
    shipping_address: String,
)
    requires
        checkout_error(carts, items, products, user_id) is None,
    ensures
        ({
            let cart_id = carts[user_cart_ix(carts, user_id)].cart_id;
            new_order(
                order_id,
                user_id,
                ts,
                shipping_address,
                cart_total(items, products, cart_id),
            ).total_amount == details_total(
                snapshot_details(items, products, cart_id, order_id),
            )
        }),
{
    let cart_id = carts[user_cart_ix(carts, user_id)].cart_id;
    lemma_cart_total_nonneg(items, products, cart_id);
    lemma_snapshot_total(items, products, cart_id, order_id);
}

/// Cart clearing: a successful checkout leaves the originating cart with
/// zero items, and a second checkout of the same cart then fails with
/// `EmptyCart` — whatever the catalog holds by then.
pub proof fn lemma_second_checkout_rejected(
    carts: Seq<Cart>,
    items: Seq<CartItem>,
    products: Seq<Product>,
    later_products: Seq<Product>,
    user_id: u64,
)
    requires
        forall|i: int, j: int|
            #![trigger items[i].cart_item_id, items[j].cart_item_id]
            0 <= i < j < items.len() ==> items[i].cart_item_id != items[j].cart_item_id,
        forall|i: int, j: int|
            #![trigger items[i], items[j]]
            0 <= i < j < items.len() ==> !(items[i].cart_id == items[j].cart_id
                && items[i].product_id == items[j].product_id),
        checkout_error(carts, items, products, user_id) is None,
    ensures
        ({
            let cart_id = carts[user_cart_ix(carts, user_id)].cart_id;
            &&& cart_item_count(remove_cart_items(items, cart_id), cart_id) == 0
            &&& checkout_error(carts, remove_cart_items(items, cart_id), later_products, user_id)
                == Some(StoreError::EmptyCart)
        }),
{
    let cart_id = carts[user_cart_ix(carts, user_id)].cart_id;
    lemma_remove_cart_items_props(items, cart_id);
}

/// Price snapshot stability: any operation that leaves the ledger and the
/// detail table unchanged — as every catalog operation does — leaves every
/// existing order's rows, snapshotted unit prices and total exactly as
/// they were.
pub proof fn lemma_price_snapshot_stability(pre: &Store, post: &Store, i: int)
    requires
        pre.wf(),
        post.orders() == pre.orders(),
        post.order_details() == pre.order_details(),
        0 <= i < pre.orders().len(),
    ensures
        post.orders()[i] == pre.orders()[i],
        details_of(post.order_details(), post.orders()[i].order_id) == details_of(
            pre.order_details(),
            pre.orders()[i].order_id,
        ),
        post.orders()[i].total_amount == details_total(
            details_of(post.order_details(), post.orders()[i].order_id),
        ),
{
    crate::store::lemma_order_total_invariant(pre, i);
}

} // verus!
