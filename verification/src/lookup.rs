//! Executable lookups over the store's tables, each pinned to the spec
//! indexes of [`crate::model`].

use vstd::prelude::*;

use crate::domain::Cart;
use crate::domain::CartItem;
use crate::domain::Order;
use crate::domain::OrderDetail;
use crate::domain::Product;
use crate::model::has_cart;
use crate::model::has_product;
use crate::model::item_ix;
use crate::model::lemma_item_ix_props;
use crate::model::lemma_order_ix_props;
use crate::model::lemma_product_ix_props;
use crate::model::lemma_user_cart_ix_props;
use crate::model::order_ix;
use crate::model::product_ix;
use crate::model::user_cart_ix;

verus! {

/// Position of the product with this id, if the catalog holds one.
pub(crate) fn find_product(products: &Vec<Product>, product_id: u64) -> (r: Option<usize>)
    ensures
        match r {
            Some(ix) => ix < products@.len() && products@[ix as int].product_id == product_id
                && product_ix(products@, product_id) == ix as int,
            None => product_ix(products@, product_id) == -1 && !has_product(
                products@,
                product_id,
            ),
        },
{
    let n: usize = products.len();
    let mut i: usize = 0;
    while i < n
        invariant
            i <= n,
            n == products@.len(),
            forall|j: int| 0 <= j < i ==> #[trigger] products@[j].product_id != product_id,
        decreases n - i,
    {
        if products[i].product_id == product_id {
            proof {
                lemma_product_ix_props(products@, product_id);
            }
            return Some(i);
        }
        i = i + 1;
    }
    proof {
        lemma_product_ix_props(products@, product_id);
    }
    None
}

/// Position of the cart item for `(cart_id, product_id)`, if one exists.
pub(crate) fn find_item(items: &Vec<CartItem>, cart_id: u64, product_id: u64) -> (r: Option<
    usize,
>)
    ensures
        match r {
            Some(ix) => ix < items@.len() && items@[ix as int].cart_id == cart_id
                && items@[ix as int].product_id == product_id && item_ix(
                items@,
                cart_id,
                product_id,
            ) == ix as int,
            None => item_ix(items@, cart_id, product_id) == -1,
        },
{
    let n: usize = items.len();
    let mut i: usize = 0;
    while i < n
        invariant
            i <= n,
            n == items@.len(),
            forall|j: int|
                0 <= j < i ==> !(#[trigger] (items@[j].cart_id) == cart_id
                    && items@[j].product_id == product_id),
        decreases n - i,
    {
        if items[i].cart_id == cart_id && items[i].product_id == product_id {
            proof {
                lemma_item_ix_props(items@, cart_id, product_id);
            }
            return Some(i);
        }
        i = i + 1;
    }
    proof {
        lemma_item_ix_props(items@, cart_id, product_id);
    }
    None
}

/// Position of the order with this id, if the ledger holds one.
pub(crate) fn find_order(orders: &Vec<Order>, order_id: u64) -> (r: Option<usize>)
    ensures
        match r {
            Some(ix) => ix < orders@.len() && orders@[ix as int].order_id == order_id
                && order_ix(orders@, order_id) == ix as int,
            None => order_ix(orders@, order_id) == -1,
        },
{
    let n: usize = orders.len();
    let mut i: usize = 0;
    while i < n
        invariant
            i <= n,
            n == orders@.len(),
            forall|j: int| 0 <= j < i ==> #[trigger] orders@[j].order_id != order_id,
        decreases n - i,
    {
        if orders[i].order_id == order_id {
            proof {
                lemma_order_ix_props(orders@, order_id);
            }
            return Some(i);
        }
        i = i + 1;
    }
    proof {
        lemma_order_ix_props(orders@, order_id);
    }
    None
}

/// Position of the first cart owned by this user, if one exists.
pub(crate) fn find_user_cart(carts: &Vec<Cart>, user_id: u64) -> (r: Option<usize>)
    ensures
        match r {
            Some(ix) => ix < carts@.len() && carts@[ix as int].user_id == user_id
                && user_cart_ix(carts@, user_id) == ix as int,
            None => user_cart_ix(carts@, user_id) == -1,
        },
{
    let n: usize = carts.len();
    let mut i: usize = 0;
    while i < n
        invariant
            i <= n,
            n == carts@.len(),
            forall|j: int| 0 <= j < i ==> #[trigger] carts@[j].user_id != user_id,
        decreases n - i,
    {
        if carts[i].user_id == user_id {
            proof {
                lemma_user_cart_ix_props(carts@, user_id);
            }
            return Some(i);
        }
        i = i + 1;
    }
    proof {
        lemma_user_cart_ix_props(carts@, user_id);
    }
    None
}

/// Whether a cart row with this id exists.
pub(crate) fn cart_row_exists(carts: &Vec<Cart>, cart_id: u64) -> (r: bool)
    ensures
        r == has_cart(carts@, cart_id),
{
    let n: usize = carts.len();
    let mut i: usize = 0;
    while i < n
        invariant
            i <= n,
            n == carts@.len(),
            forall|j: int| 0 <= j < i ==> #[trigger] carts@[j].cart_id != cart_id,
        decreases n - i,
    {
        if carts[i].cart_id == cart_id {
            return true;
        }
        i = i + 1;
    }
    false
}

/// Whether any cart item references this product.
pub(crate) fn item_references_product(items: &Vec<CartItem>, product_id: u64) -> (r: bool)
    ensures
        r == exists|i: int| 0 <= i < items@.len() && #[trigger] items@[i].product_id
            == product_id,
{
    let n: usize = items.len();
    let mut i: usize = 0;
    while i < n
        invariant
            i <= n,
            n == items@.len(),
            forall|j: int| 0 <= j < i ==> #[trigger] items@[j].product_id != product_id,
        decreases n - i,
    {
        if items[i].product_id == product_id {
            return true;
        }
        i = i + 1;
    }
    false
}

/// Whether any order detail references this product.
pub(crate) fn detail_references_product(ds: &Vec<OrderDetail>, product_id: u64) -> (r: bool)
    ensures
        r == exists|i: int| 0 <= i < ds@.len() && #[trigger] ds@[i].product_id == product_id,
{
    let n: usize = ds.len();
    let mut i: usize = 0;
    while i < n
        invariant
            i <= n,
            n == ds@.len(),
            forall|j: int| 0 <= j < i ==> #[trigger] ds@[j].product_id != product_id,
        decreases n - i,
    {
        if ds[i].product_id == product_id {
            return true;
        }
        i = i + 1;
    }
    false
}

} // verus!
