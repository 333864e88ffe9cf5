//! The mathematical model of the store: lookup indexes, money sums,
//! snapshots and state transitions, all as spec functions over sequences.
//!
//! The executable store methods pin their behaviour to these functions in
//! their contracts, and the laws in [`crate::laws`] are proved about them.

use vstd::prelude::*;

use crate::domain::CartItem;
use crate::domain::CartItemWithProduct;
use crate::domain::Order;
use crate::domain::OrderDetail;
use crate::domain::OrderStatus;
use crate::domain::Product;
use crate::domain::StoreError;

verus! {

// ---------------------------------------------------------------- lookups

/// Index of the first product with the given id, or -1 if there is none.
pub open spec fn product_ix(products: Seq<Product>, product_id: u64) -> int
    decreases products.len(),
{
    if products.len() == 0 {
        -1
    } else if products[0].product_id == product_id {
        0
    } else {
        let r = product_ix(products.drop_first(), product_id);
        if r < 0 {
            -1
        } else {
            r + 1
        }
    }
}

/// Index of the first cart item for `(cart_id, product_id)`, or -1.
pub open spec fn item_ix(items: Seq<CartItem>, cart_id: u64, product_id: u64) -> int
    decreases items.len(),
{
    if items.len() == 0 {
        -1
    } else if items[0].cart_id == cart_id && items[0].product_id == product_id {
        0
    } else {
        let r = item_ix(items.drop_first(), cart_id, product_id);
        if r < 0 {
            -1
        } else {
            r + 1
        }
    }
}

/// Index of the first order with the given id, or -1.
pub open spec fn order_ix(orders: Seq<Order>, order_id: u64) -> int
    decreases orders.len(),
{
    if orders.len() == 0 {
        -1
    } else if orders[0].order_id == order_id {
        0
    } else {
        let r = order_ix(orders.drop_first(), order_id);
        if r < 0 {
            -1
        } else {
            r + 1
        }
    }
}

/// Index of the first cart owned by the given user, or -1.
pub open spec fn user_cart_ix(carts: Seq<crate::domain::Cart>, user_id: u64) -> int
    decreases carts.len(),
{
    if carts.len() == 0 {
        -1
    } else if carts[0].user_id == user_id {
        0
    } else {
        let r = user_cart_ix(carts.drop_first(), user_id);
        if r < 0 {
            -1
        } else {
            r + 1
        }
    }
}

/// Some cart row carries this id.
pub open spec fn has_cart(carts: Seq<crate::domain::Cart>, cart_id: u64) -> bool {
    exists|i: int| 0 <= i < carts.len() && carts[i].cart_id == cart_id
}

/// Some product row carries this id.
pub open spec fn has_product(products: Seq<Product>, product_id: u64) -> bool {
    exists|i: int| 0 <= i < products.len() && products[i].product_id == product_id
}

/// Some order row carries this id.
pub open spec fn has_order(orders: Seq<Order>, order_id: u64) -> bool {
    exists|i: int| 0 <= i < orders.len() && orders[i].order_id == order_id
}

/// The current catalog price of a product; meaningful only when the
/// product exists.
pub open spec fn price_of(products: Seq<Product>, product_id: u64) -> u64 {
    if product_ix(products, product_id) >= 0 {
        products[product_ix(products, product_id)].price
    } else {
        0
    }
}

// ------------------------------------------------------------ money sums

/// Exact value of one line: quantity times unit price, as an unbounded
/// integer (minor currency units).
pub open spec fn line_total(quantity: u32, price: u64) -> int {
    quantity * price
}

/// Exact sum of the line totals of a sequence of order details.
pub open spec fn details_total(ds: Seq<OrderDetail>) -> int
    decreases ds.len(),
{
    if ds.len() == 0 {
        0
    } else {
        details_total(ds.drop_last()) + line_total(ds.last().quantity, ds.last().price_per_unit)
    }
}

/// The detail rows belonging to one order, in table order.
pub open spec fn details_of(ds: Seq<OrderDetail>, order_id: u64) -> Seq<OrderDetail>
    decreases ds.len(),
{
    if ds.len() == 0 {
        Seq::empty()
    } else {
        let rest = details_of(ds.drop_last(), order_id);
        if ds.last().order_id == order_id {
            rest.push(ds.last())
        } else {
            rest
        }
    }
}

/// The detail row a cart item turns into at checkout: quantity copied,
/// unit price snapshotted from the current catalog.
pub open spec fn detail_of(it: CartItem, products: Seq<Product>, order_id: u64) -> OrderDetail {
    OrderDetail {
        order_id: order_id,
        product_id: it.product_id,
        quantity: it.quantity,
        price_per_unit: price_of(products, it.product_id),
    }
}

/// The detail rows a checkout of `cart_id` writes: one per cart item of the
/// cart, in table order, each with the price the catalog holds now.
pub open spec fn snapshot_details(
    items: Seq<CartItem>,
    products: Seq<Product>,
    cart_id: u64,
    order_id: u64,
) -> Seq<OrderDetail>
    decreases items.len(),
{
    if items.len() == 0 {
        Seq::empty()
    } else {
        let rest = snapshot_details(items.drop_last(), products, cart_id, order_id);
        if items.last().cart_id == cart_id {
            rest.push(detail_of(items.last(), products, order_id))
        } else {
            rest
        }
    }
}

/// Exact total a checkout of `cart_id` would charge now: the sum of
/// quantity times current catalog price over the cart's items.
pub open spec fn cart_total(items: Seq<CartItem>, products: Seq<Product>, cart_id: u64) -> int
    decreases items.len(),
{
    if items.len() == 0 {
        0
    } else {
        cart_total(items.drop_last(), products, cart_id) + if items.last().cart_id == cart_id {
            line_total(items.last().quantity, price_of(products, items.last().product_id))
        } else {
            0
        }
    }
}

/// How many cart items a cart holds.
pub open spec fn cart_item_count(items: Seq<CartItem>, cart_id: u64) -> int
    decreases items.len(),
{
    if items.len() == 0 {
        0
    } else {
        cart_item_count(items.drop_last(), cart_id) + if items.last().cart_id == cart_id {
            1int
        } else {
            0int
        }
    }
}

/// How many cart items carry this exact `(cart_id, product_id)` pair.
pub open spec fn pair_count(items: Seq<CartItem>, cart_id: u64, product_id: u64) -> int
    decreases items.len(),
{
    if items.len() == 0 {
        0
    } else {
        pair_count(items.drop_last(), cart_id, product_id) + if items.last().cart_id == cart_id
            && items.last().product_id == product_id {
            1int
        } else {
            0int
        }
    }
}

// ------------------------------------------------------------ transitions

/// The cart items after the items of `cart_id` were deleted.
pub open spec fn remove_cart_items(items: Seq<CartItem>, cart_id: u64) -> Seq<CartItem>
    decreases items.len(),
{
    if items.len() == 0 {
        Seq::empty()
    } else {
        let rest = remove_cart_items(items.drop_last(), cart_id);
        if items.last().cart_id == cart_id {
            rest
        } else {
            rest.push(items.last())
        }
    }
}

/// The cart items after an add of `quantity` of `product_id` to `cart_id`:
/// an existing row for the pair has its quantity raised, otherwise a new
/// row with a fresh id is appended. Exact only when a raised quantity
/// still fits in `u32`.
pub open spec fn merge_or_insert(
    items: Seq<CartItem>,
    cart_id: u64,
    product_id: u64,
    quantity: u32,
    fresh_id: u64,
    now: i64,
) -> Seq<CartItem> {
    let ix = item_ix(items, cart_id, product_id);
    if ix >= 0 {
        items.update(
            ix,
            CartItem {
                cart_item_id: items[ix].cart_item_id,
                cart_id: items[ix].cart_id,
                product_id: items[ix].product_id,
                quantity: (items[ix].quantity + quantity) as u32,
                added_at: items[ix].added_at,
            },
        )
    } else {
        items.push(
            CartItem {
                cart_item_id: fresh_id,
                cart_id: cart_id,
                product_id: product_id,
                quantity: quantity,
                added_at: now,
            },
        )
    }
}

/// The creation instant an order persisted now receives: the caller's
/// clock reading, pushed forward if the ledger already holds a later
/// instant, so that ledger order and creation order agree.
pub open spec fn order_ts(orders: Seq<Order>, now: i64) -> i64 {
    if orders.len() == 0 || orders.last().created_at <= now {
        now
    } else {
        orders.last().created_at
    }
}

/// The order row a successful checkout writes.
pub open spec fn new_order(
    order_id: u64,
    user_id: u64,
    ts: i64,
    shipping_address: String,
    total: int,
) -> Order {
    Order {
        order_id: order_id,
        user_id: user_id,
        order_date: ts,
        status: OrderStatus::Pending,
        shipping_address: shipping_address,
        created_at: ts,
        total_amount: total as u64,
    }
}

/// Why a checkout for `user_id` fails, or `None` when it succeeds:
/// `NotFound` when the user has no cart, `EmptyCart` when the cart holds
/// no items, `StorageFailure` when the exact total would not fit the money
/// column.
pub open spec fn checkout_error(
    carts: Seq<crate::domain::Cart>,
    items: Seq<CartItem>,
    products: Seq<Product>,
    user_id: u64,
) -> Option<StoreError> {
    let cix = user_cart_ix(carts, user_id);
    if cix < 0 {
        Some(StoreError::NotFound)
    } else {
        let cart_id = carts[cix].cart_id;
        if cart_item_count(items, cart_id) == 0 {
            Some(StoreError::EmptyCart)
        } else if cart_total(items, products, cart_id) > u64::MAX {
            Some(StoreError::StorageFailure)
        } else {
            None
        }
    }
}

// --------------------------------------------------------------- listings

/// The orders of one user, newest creation first.
pub open spec fn rev_user_orders(orders: Seq<Order>, user_id: u64) -> Seq<Order>
    decreases orders.len(),
{
    if orders.len() == 0 {
        Seq::empty()
    } else {
        let rest = rev_user_orders(orders.drop_first(), user_id);
        if orders[0].user_id == user_id {
            rest.push(orders[0])
        } else {
            rest
        }
    }
}

/// All orders, newest creation first.
pub open spec fn rev_all_orders(orders: Seq<Order>) -> Seq<Order>
    decreases orders.len(),
{
    if orders.len() == 0 {
        Seq::empty()
    } else {
        rev_all_orders(orders.drop_first()).push(orders[0])
    }
}

/// The display join of a cart: its items, each with the product's name and
/// live catalog price.
pub open spec fn cart_lines(
    items: Seq<CartItem>,
    products: Seq<Product>,
    cart_id: u64,
) -> Seq<CartItemWithProduct>
    decreases items.len(),
{
    if items.len() == 0 {
        Seq::empty()
    } else {
        let rest = cart_lines(items.drop_last(), products, cart_id);
        if items.last().cart_id == cart_id {
            rest.push(line_of(items.last(), products))
        } else {
            rest
        }
    }
}

/// The display row of one cart item.
pub open spec fn line_of(it: CartItem, products: Seq<Product>) -> CartItemWithProduct {
    CartItemWithProduct {
        cart_item_id: it.cart_item_id,
        cart_id: it.cart_id,
        product_id: it.product_id,
        quantity: it.quantity,
        added_at: it.added_at,
        product_name: if product_ix(products, it.product_id) >= 0 {
            products[product_ix(products, it.product_id)].name
        } else {
            arbitrary()
        },
        product_price: price_of(products, it.product_id),
    }
}

// ----------------------------------------------------------------- lemmas

/// What `product_ix` finds: a match, the first one, or certainty that no
/// row matches.
pub proof fn lemma_product_ix_props(products: Seq<Product>, product_id: u64)
    ensures
        product_ix(products, product_id) >= 0 ==> product_ix(products, product_id)
            < products.len() && products[product_ix(products, product_id)].product_id
            == product_id,
        product_ix(products, product_id) < 0 ==> product_ix(products, product_id) == -1 && (
        forall|i: int|
            0 <= i < products.len() ==> #[trigger] products[i].product_id != product_id),
        forall|i: int|
            0 <= i < product_ix(products, product_id) ==> #[trigger] products[i].product_id
                != product_id,
    decreases products.len(),
{
    if products.len() > 0 && !(products[0].product_id == product_id) {
        let rest = products.drop_first();
        lemma_product_ix_props(rest, product_id);
        let r = product_ix(products, product_id);
        if product_ix(rest, product_id) < 0 {
            assert forall|i: int| 0 <= i < products.len() implies !(#[trigger] products[i].product_id == product_id) by {
                if i > 0 {
                    assert(products[i] == rest[i - 1]);
                }
            }
        } else {
            assert forall|i: int| 0 <= i < r implies !(#[trigger] products[i].product_id == product_id) by {
                if i > 0 {
                    assert(products[i] == rest[i - 1]);
                }
            }
            assert(products[r] == rest[r - 1]);
        }
    }
}

/// What `item_ix` finds, in the same three ways.
pub proof fn lemma_item_ix_props(items: Seq<CartItem>, cart_id: u64, product_id: u64)
    ensures
        item_ix(items, cart_id, product_id) >= 0 ==> item_ix(items, cart_id, product_id)
            < items.len() && items[item_ix(items, cart_id, product_id)].cart_id == cart_id
            && items[item_ix(items, cart_id, product_id)].product_id == product_id,
        item_ix(items, cart_id, product_id) < 0 ==> item_ix(items, cart_id, product_id) == -1
            && (forall|i: int|
            0 <= i < items.len() ==> !(#[trigger] (items[i].cart_id) == cart_id
                && items[i].product_id == product_id)),
        forall|i: int|
            0 <= i < item_ix(items, cart_id, product_id) ==> !(#[trigger] (items[i].cart_id)
                == cart_id && items[i].product_id == product_id),
    decreases items.len(),
{
    if items.len() > 0 && !(items[0].cart_id == cart_id && items[0].product_id == product_id) {
        let rest = items.drop_first();
        lemma_item_ix_props(rest, cart_id, product_id);
        let r = item_ix(items, cart_id, product_id);
        if item_ix(rest, cart_id, product_id) < 0 {
            assert forall|i: int| 0 <= i < items.len() implies !(#[trigger] (items[i].cart_id) == cart_id && items[i].product_id == product_id) by {
                if i > 0 {
                    assert(items[i] == rest[i - 1]);
                }
            }
        } else {
            assert forall|i: int| 0 <= i < r implies !(#[trigger] (items[i].cart_id) == cart_id && items[i].product_id == product_id) by {
                if i > 0 {
                    assert(items[i] == rest[i - 1]);
                }
            }
            assert(items[r] == rest[r - 1]);
        }
    }
}

/// What `order_ix` finds, in the same three ways.
pub proof fn lemma_order_ix_props(orders: Seq<Order>, order_id: u64)
    ensures
        order_ix(orders, order_id) >= 0 ==> order_ix(orders, order_id) < orders.len()
            && orders[order_ix(orders, order_id)].order_id == order_id,
        order_ix(orders, order_id) < 0 ==> order_ix(orders, order_id) == -1 && (forall|i: int|
            0 <= i < orders.len() ==> #[trigger] orders[i].order_id != order_id),
        forall|i: int|
            0 <= i < order_ix(orders, order_id) ==> #[trigger] orders[i].order_id != order_id,
    decreases orders.len(),
{
    if orders.len() > 0 && !(orders[0].order_id == order_id) {
        let rest = orders.drop_first();
        lemma_order_ix_props(rest, order_id);
        let r = order_ix(orders, order_id);
        if order_ix(rest, order_id) < 0 {
            assert forall|i: int| 0 <= i < orders.len() implies !(#[trigger] orders[i].order_id == order_id) by {
                if i > 0 {
                    assert(orders[i] == rest[i - 1]);
                }
            }
        } else {
            assert forall|i: int| 0 <= i < r implies !(#[trigger] orders[i].order_id == order_id) by {
                if i > 0 {
                    assert(orders[i] == rest[i - 1]);
                }
            }
            assert(orders[r] == rest[r - 1]);
        }
    }
}

/// What `user_cart_ix` finds, in the same three ways.
pub proof fn lemma_user_cart_ix_props(carts: Seq<crate::domain::Cart>, user_id: u64)
    ensures
        user_cart_ix(carts, user_id) >= 0 ==> user_cart_ix(carts, user_id) < carts.len()
            && carts[user_cart_ix(carts, user_id)].user_id == user_id,
        user_cart_ix(carts, user_id) < 0 ==> user_cart_ix(carts, user_id) == -1 && (
        forall|i: int| 0 <= i < carts.len() ==> #[trigger] carts[i].user_id != user_id),
        forall|i: int|
            0 <= i < user_cart_ix(carts, user_id) ==> #[trigger] carts[i].user_id != user_id,
    decreases carts.len(),
{
    if carts.len() > 0 && !(carts[0].user_id == user_id) {
        let rest = carts.drop_first();
        lemma_user_cart_ix_props(rest, user_id);
        let r = user_cart_ix(carts, user_id);
        if user_cart_ix(rest, user_id) < 0 {
            assert forall|i: int| 0 <= i < carts.len() implies !(#[trigger] carts[i].user_id == user_id) by {
                if i > 0 {
                    assert(carts[i] == rest[i - 1]);
                }
            }
        } else {
            assert forall|i: int| 0 <= i < r implies !(#[trigger] carts[i].user_id == user_id) by {
                if i > 0 {
                    assert(carts[i] == rest[i - 1]);
                }
            }
            assert(carts[r] == rest[r - 1]);
        }
    }
}

/// A cart's total over a prefix of the item table never exceeds its total
/// over the whole table: every line contributes a non-negative amount.
pub proof fn lemma_cart_total_take_le(
    items: Seq<CartItem>,
    products: Seq<Product>,
    cart_id: u64,
    j: int,
)
    requires
        0 <= j <= items.len(),
    ensures
        cart_total(items.take(j), products, cart_id) <= cart_total(items, products, cart_id),
    decreases items.len() - j,
{
    if j == items.len() {
        assert(items.take(j) =~= items);
    } else {
        assert(items.take(j + 1).drop_last() =~= items.take(j));
        assert(items.take(j + 1).last() == items[j]);
        assert(line_total(items[j].quantity, price_of(products, items[j].product_id)) >= 0);
        lemma_cart_total_take_le(items, products, cart_id, j + 1);
    }
}

/// A checkout snapshot holds exactly one detail row per cart item of the
/// cart.
pub proof fn lemma_snapshot_len(
    items: Seq<CartItem>,
    products: Seq<Product>,
    cart_id: u64,
    order_id: u64,
)
    ensures
        snapshot_details(items, products, cart_id, order_id).len() == cart_item_count(
            items,
            cart_id,
        ),
    decreases items.len(),
{
    if items.len() > 0 {
        lemma_snapshot_len(items.drop_last(), products, cart_id, order_id);
    }
}

/// A cart holds no items exactly when no row of the item table carries its
/// id; the count is never negative.
pub proof fn lemma_cart_item_count_zero(items: Seq<CartItem>, cart_id: u64)
    ensures
        cart_item_count(items, cart_id) >= 0,
        (cart_item_count(items, cart_id) == 0) <==> (forall|i: int|
            0 <= i < items.len() ==> (#[trigger] items[i]).cart_id != cart_id),
    decreases items.len(),
{
    if items.len() > 0 {
        lemma_cart_item_count_zero(items.drop_last(), cart_id);
        assert(forall|i: int|
            0 <= i < items.len() - 1 ==> items.drop_last()[i] == #[trigger] items[i]);
        assert(items.last() == items[items.len() - 1]);
    }
}

/// The sum over a checkout snapshot is the cart's total.
pub proof fn lemma_snapshot_total(
    items: Seq<CartItem>,
    products: Seq<Product>,
    cart_id: u64,
    order_id: u64,
)
    ensures
        details_total(snapshot_details(items, products, cart_id, order_id)) == cart_total(
            items,
            products,
            cart_id,
        ),
    decreases items.len(),
{
    if items.len() > 0 {
        lemma_snapshot_total(items.drop_last(), products, cart_id, order_id);
        if items.last().cart_id == cart_id {
            let rest = snapshot_details(items.drop_last(), products, cart_id, order_id);
            assert(rest.push(detail_of(items.last(), products, order_id)).drop_last() =~= rest);
        }
    }
}

/// The detail row `d` is the snapshot of some item of the cart.
pub open spec fn snapshot_row_src(
    items: Seq<CartItem>,
    products: Seq<Product>,
    cart_id: u64,
    order_id: u64,
    d: OrderDetail,
) -> bool {
    exists|j: int|
        0 <= j < items.len() && (#[trigger] items[j]).cart_id == cart_id && d == detail_of(
            items[j],
            products,
            order_id,
        )
}

/// Every row of a checkout snapshot carries the new order's id and copies
/// quantity and current price from some item of the cart.
pub proof fn lemma_snapshot_rows(
    items: Seq<CartItem>,
    products: Seq<Product>,
    cart_id: u64,
    order_id: u64,
)
    ensures
        forall|k: int|
            0 <= k < snapshot_details(items, products, cart_id, order_id).len()
                ==> (#[trigger] snapshot_details(items, products, cart_id, order_id)[k]).order_id
                == order_id,
        forall|k: int|
            0 <= k < snapshot_details(items, products, cart_id, order_id).len()
                ==> snapshot_row_src(
                items,
                products,
                cart_id,
                order_id,
                #[trigger] snapshot_details(items, products, cart_id, order_id)[k],
            ),
    decreases items.len(),
{
    if items.len() > 0 {
        lemma_snapshot_rows(items.drop_last(), products, cart_id, order_id);
    }
    if items.len() > 0 {
        let whole = snapshot_details(items, products, cart_id, order_id);
        let rest = snapshot_details(items.drop_last(), products, cart_id, order_id);
        assert forall|k: int|
            0 <= k < snapshot_details(items, products, cart_id, order_id).len() implies snapshot_row_src(
            items,
            products,
            cart_id,
            order_id,
            #[trigger] snapshot_details(items, products, cart_id, order_id)[k],
        ) by {
            assert(0 <= k < whole.len());
            if items.last().cart_id == cart_id && k == whole.len() - 1 {
                let w = items.len() - 1;
                assert(items[w].cart_id == cart_id && whole[k] == detail_of(
                    items[w],
                    products,
                    order_id,
                ));
            } else {
                let dl = items.drop_last();
                if items.last().cart_id == cart_id {
                    assert(whole[k] == rest[k]);
                } else {
                    assert(whole == rest);
                }
                assert(snapshot_row_src(dl, products, cart_id, order_id, rest[k]));
                let j = choose|j: int|
                    0 <= j < dl.len() && (#[trigger] dl[j]).cart_id == cart_id && rest[k]
                        == detail_of(dl[j], products, order_id);
                assert(dl[j] == items[j]);
                assert(items[j].cart_id == cart_id && whole[k] == detail_of(
                    items[j],
                    products,
                    order_id,
                ));
            }
        }
    } else {
        assert(snapshot_details(items, products, cart_id, order_id).len() == 0);
    }
}

/// Splitting `details_of` over a concatenation.
pub proof fn lemma_details_of_append(ds: Seq<OrderDetail>, extra: Seq<OrderDetail>, order_id: u64)
    ensures
        details_of(ds + extra, order_id) == details_of(ds, order_id) + details_of(
            extra,
            order_id,
        ),
    decreases extra.len(),
{
    if extra.len() == 0 {
        assert(ds + extra =~= ds);
        assert(details_of(ds, order_id) + details_of(extra, order_id) =~= details_of(
            ds,
            order_id,
        ));
    } else {
        lemma_details_of_append(ds, extra.drop_last(), order_id);
        assert((ds + extra).drop_last() =~= ds + extra.drop_last());
        assert((ds + extra).last() == extra.last());
        if extra.last().order_id == order_id {
            assert(details_of(ds + extra, order_id) =~= details_of(ds, order_id) + details_of(
                extra,
                order_id,
            ));
        } else {
            assert(details_of(extra, order_id) == details_of(extra.drop_last(), order_id));
        }
    }
}

/// A table none of whose rows carry the id contributes nothing.
pub proof fn lemma_details_of_none(ds: Seq<OrderDetail>, order_id: u64)
    requires
        forall|i: int| 0 <= i < ds.len() ==> (#[trigger] ds[i]).order_id != order_id,
    ensures
        details_of(ds, order_id) == Seq::<OrderDetail>::empty(),
    decreases ds.len(),
{
    if ds.len() > 0 {
        assert(forall|i: int| 0 <= i < ds.len() - 1 ==> ds.drop_last()[i] == #[trigger] ds[i]);
        assert(ds.last() == ds[ds.len() - 1]);
        lemma_details_of_none(ds.drop_last(), order_id);
    }
}

/// A table all of whose rows carry the id is returned whole.
pub proof fn lemma_details_of_all(ds: Seq<OrderDetail>, order_id: u64)
    requires
        forall|i: int| 0 <= i < ds.len() ==> (#[trigger] ds[i]).order_id == order_id,
    ensures
        details_of(ds, order_id) == ds,
    decreases ds.len(),
{
    if ds.len() == 0 {
        assert(details_of(ds, order_id) =~= ds);
    } else {
        assert(forall|i: int| 0 <= i < ds.len() - 1 ==> ds.drop_last()[i] == #[trigger] ds[i]);
        assert(ds.last() == ds[ds.len() - 1]);
        lemma_details_of_all(ds.drop_last(), order_id);
        assert(details_of(ds, order_id) =~= ds);
    }
}

/// What clearing a cart leaves behind: the other carts' items, unchanged,
/// still pairwise distinct, and not one row of the cleared cart.
pub proof fn lemma_remove_cart_items_props(items: Seq<CartItem>, cart_id: u64)
    requires
        forall|i: int, j: int|
            #![trigger items[i].cart_item_id, items[j].cart_item_id]
            0 <= i < j < items.len() ==> items[i].cart_item_id != items[j].cart_item_id,
        forall|i: int, j: int|
            #![trigger items[i], items[j]]
            0 <= i < j < items.len() ==> !(items[i].cart_id == items[j].cart_id
                && items[i].product_id == items[j].product_id),
    ensures
        remove_cart_items(items, cart_id).len() <= items.len(),
        forall|k: int|
            0 <= k < remove_cart_items(items, cart_id).len()
                ==> (#[trigger] remove_cart_items(items, cart_id)[k]).cart_id != cart_id,
        forall|k: int|
            0 <= k < remove_cart_items(items, cart_id).len() ==> exists|j: int|
                0 <= j < items.len() && #[trigger] remove_cart_items(items, cart_id)[k]
                    == items[j],
        cart_item_count(remove_cart_items(items, cart_id), cart_id) == 0,
        forall|i: int, j: int|
            #![trigger remove_cart_items(items, cart_id)[i].cart_item_id, remove_cart_items(items, cart_id)[j].cart_item_id]
            0 <= i < j < remove_cart_items(items, cart_id).len() ==> remove_cart_items(
                items,
                cart_id,
            )[i].cart_item_id != remove_cart_items(items, cart_id)[j].cart_item_id,
        forall|i: int, j: int|
            #![trigger remove_cart_items(items, cart_id)[i], remove_cart_items(items, cart_id)[j]]
            0 <= i < j < remove_cart_items(items, cart_id).len() ==> !(remove_cart_items(
                items,
                cart_id,
            )[i].cart_id == remove_cart_items(items, cart_id)[j].cart_id && remove_cart_items(
                items,
                cart_id,
            )[i].product_id == remove_cart_items(items, cart_id)[j].product_id),
    decreases items.len(),
{
    let res = remove_cart_items(items, cart_id);
    if items.len() > 0 {
        let dl = items.drop_last();
        assert(forall|i: int| 0 <= i < dl.len() ==> dl[i] == #[trigger] items[i]);
        lemma_remove_cart_items_props(dl, cart_id);
        let rest = remove_cart_items(dl, cart_id);
        lemma_cart_item_count_zero(rest, cart_id);
        if items.last().cart_id != cart_id {
            assert(res == rest.push(items.last()));
            assert(res.drop_last() =~= rest);
            lemma_cart_item_count_zero(res, cart_id);
            assert forall|k: int| 0 <= k < res.len() implies exists|j: int|
                0 <= j < items.len() && #[trigger] res[k] == items[j] by {
                if k == res.len() - 1 {
                    assert(res[k] == items[items.len() - 1]);
                } else {
                    let j = choose|j: int| 0 <= j < dl.len() && #[trigger] rest[k] == dl[j];
                    assert(res[k] == items[j]);
                }
            }
            assert forall|i: int, j: int|
                0 <= i < j < res.len() implies (#[trigger] res[i].cart_item_id)
                != #[trigger] res[j].cart_item_id by {
                if j == res.len() - 1 {
                    let w = choose|w: int| 0 <= w < dl.len() && #[trigger] rest[i] == dl[w];
                    assert(items[w].cart_item_id != items[items.len() - 1].cart_item_id);
                }
            }
            assert forall|i: int, j: int|
                0 <= i < j < res.len() implies !((#[trigger] res[i]).cart_id
                == (#[trigger] res[j]).cart_id && res[i].product_id == res[j].product_id) by {
                if j == res.len() - 1 {
                    let w = choose|w: int| 0 <= w < dl.len() && #[trigger] rest[i] == dl[w];
                    assert(!(items[w].cart_id == items[items.len() - 1].cart_id
                        && items[w].product_id == items[items.len() - 1].product_id));
                }
            }
        }
    }
}

/// A user's order listing: every row is one of the user's orders, and the
/// listing runs from newest creation instant to oldest when the ledger is
/// ordered by creation.
pub proof fn lemma_rev_user_orders_props(orders: Seq<Order>, user_id: u64)
    requires
        forall|i: int, j: int|
            #![trigger orders[i].created_at, orders[j].created_at]
            0 <= i < j < orders.len() ==> orders[i].created_at <= orders[j].created_at,
    ensures
        forall|k: int|
            0 <= k < rev_user_orders(orders, user_id).len() ==> (#[trigger] rev_user_orders(
                orders,
                user_id,
            )[k]).user_id == user_id && exists|j: int|
                0 <= j < orders.len() && rev_user_orders(orders, user_id)[k] == orders[j],
        forall|a: int, b: int|
            #![trigger rev_user_orders(orders, user_id)[a], rev_user_orders(orders, user_id)[b]]
            0 <= a < b < rev_user_orders(orders, user_id).len() ==> rev_user_orders(
                orders,
                user_id,
            )[a].created_at >= rev_user_orders(orders, user_id)[b].created_at,
    decreases orders.len(),
{
    if orders.len() > 0 {
        let df = orders.drop_first();
        assert(forall|i: int| 0 <= i < df.len() ==> #[trigger] df[i] == orders[i + 1]);
        lemma_rev_user_orders_props(df, user_id);
        let rest = rev_user_orders(df, user_id);
        let whole = rev_user_orders(orders, user_id);
        assert forall|k: int| 0 <= k < whole.len() implies (#[trigger] whole[k]).user_id
            == user_id && exists|j: int| 0 <= j < orders.len() && whole[k] == orders[j] by {
            if orders[0].user_id == user_id && k == whole.len() - 1 {
                assert(whole[k] == orders[0]);
            } else {
                let j = choose|j: int| 0 <= j < df.len() && #[trigger] rest[k] == df[j];
                assert(whole[k] == orders[j + 1]);
            }
        }
        assert forall|a: int, b: int|
            0 <= a < b < whole.len() implies (#[trigger] whole[a]).created_at
            >= (#[trigger] whole[b]).created_at by {
            if orders[0].user_id == user_id && b == whole.len() - 1 {
                let j = choose|j: int| 0 <= j < df.len() && #[trigger] rest[a] == df[j];
                assert(orders[0].created_at <= orders[j + 1].created_at);
            }
        }
    }
}

/// The full ledger listing: the ledger reversed, so newest creation
/// instant first when the ledger is ordered by creation.
pub proof fn lemma_rev_all_orders_props(orders: Seq<Order>)
    ensures
        rev_all_orders(orders).len() == orders.len(),
        forall|k: int|
            0 <= k < orders.len() ==> #[trigger] rev_all_orders(orders)[k] == orders[orders.len()
                - 1 - k],
    decreases orders.len(),
{
    if orders.len() > 0 {
        let df = orders.drop_first();
        assert(forall|i: int| 0 <= i < df.len() ==> #[trigger] df[i] == orders[i + 1]);
        lemma_rev_all_orders_props(df);
    }
}


/// A `(cart, product)` pair has no row exactly when no row matches it.
pub proof fn lemma_pair_count_zero(items: Seq<CartItem>, cart_id: u64, product_id: u64)
    ensures
        pair_count(items, cart_id, product_id) >= 0,
        (pair_count(items, cart_id, product_id) == 0) <==> (forall|i: int|
            0 <= i < items.len() ==> !((#[trigger] items[i]).cart_id == cart_id
                && items[i].product_id == product_id)),
    decreases items.len(),
{
    if items.len() > 0 {
        lemma_pair_count_zero(items.drop_last(), cart_id, product_id);
        assert(forall|i: int|
            0 <= i < items.len() - 1 ==> items.drop_last()[i] == #[trigger] items[i]);
        assert(items.last() == items[items.len() - 1]);
    }
}

/// A cart's total is never negative.
pub proof fn lemma_cart_total_nonneg(items: Seq<CartItem>, products: Seq<Product>, cart_id: u64)
    ensures
        cart_total(items, products, cart_id) >= 0,
    decreases items.len(),
{
    if items.len() > 0 {
        lemma_cart_total_nonneg(items.drop_last(), products, cart_id);
        if items.last().cart_id == cart_id {
            assert(line_total(
                items.last().quantity,
                price_of(products, items.last().product_id),
            ) >= 0);
        }
    }
}

} // verus!
