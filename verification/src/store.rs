//! The in-memory store owning catalog, carts, cart items and the order
//! ledger, with the checkout engine that turns a cart into an order.
//!
//! Every mutation keeps the store well formed ([`Store::wf`]): row ids are
//! unique, cart items reference existing carts and products and carry a
//! positive quantity, the ledger is ordered by creation instant, and every
//! order's `total_amount` equals the exact sum of its detail lines —
//! forever, whatever happens to the catalog afterwards.

use vstd::prelude::*;

use crate::domain::Cart;
use crate::domain::CartItem;
use crate::domain::CartItemWithProduct;
use crate::domain::Order;
use crate::domain::OrderDetail;
use crate::domain::OrderStatus;
use crate::domain::Product;
use crate::domain::StoreError;
use crate::lookup::cart_row_exists;
use crate::lookup::detail_references_product;
use crate::lookup::find_item;
use crate::lookup::find_order;
use crate::lookup::find_product;
use crate::lookup::find_user_cart;
use crate::lookup::item_references_product;
use crate::model::cart_item_count;
use crate::model::cart_lines;
use crate::model::cart_total;
use crate::model::checkout_error;
use crate::model::detail_of;
use crate::model::details_of;
use crate::model::details_total;
use crate::model::has_cart;
use crate::model::has_order;
use crate::model::has_product;
use crate::model::item_ix;
use crate::model::lemma_cart_item_count_zero;
use crate::model::lemma_cart_total_take_le;
use crate::model::lemma_details_of_all;
use crate::model::lemma_details_of_append;
use crate::model::lemma_details_of_none;
use crate::model::lemma_item_ix_props;
use crate::model::lemma_order_ix_props;
use crate::model::lemma_remove_cart_items_props;
use crate::model::lemma_rev_all_orders_props;
use crate::model::lemma_rev_user_orders_props;
use crate::model::lemma_snapshot_len;
use crate::model::lemma_snapshot_rows;
use crate::model::lemma_snapshot_total;
use crate::model::snapshot_row_src;
use crate::model::lemma_product_ix_props;
use crate::model::lemma_user_cart_ix_props;
use crate::model::merge_or_insert;
use crate::model::new_order;
use crate::model::order_ix;
use crate::model::order_ts;
use crate::model::price_of;
use crate::model::product_ix;
use crate::model::remove_cart_items;
use crate::model::rev_all_orders;
use crate::model::rev_user_orders;
use crate::model::snapshot_details;
use crate::model::user_cart_ix;

verus! {

/// The storage state: one table per entity, plus the id sequence the next
/// inserted row will draw from.
pub struct Store {
    products: Vec<Product>,
    carts: Vec<Cart>,
    cart_items: Vec<CartItem>,
    orders: Vec<Order>,
    order_details: Vec<OrderDetail>,
    next_id: u64,
}

impl Store {
    /// The catalog table.
    pub closed spec fn products(&self) -> Seq<Product> {
        self.products@
    }

    /// The cart table.
    pub closed spec fn carts(&self) -> Seq<Cart> {
        self.carts@
    }

    /// The cart item table.
    pub closed spec fn cart_items(&self) -> Seq<CartItem> {
        self.cart_items@
    }

    /// The order ledger, in creation order.
    pub closed spec fn orders(&self) -> Seq<Order> {
        self.orders@
    }

    /// The order detail table.
    pub closed spec fn order_details(&self) -> Seq<OrderDetail> {
        self.order_details@
    }

    /// The id the next inserted row will receive.
    pub closed spec fn next_id(&self) -> u64 {
        self.next_id
    }

    /// Well-formedness of the whole state; established by [`Store::new`]
    /// and preserved by every operation.
    pub closed spec fn wf(&self) -> bool {
        &&& forall|i: int, j: int|
            #![trigger self.products@[i].product_id, self.products@[j].product_id]
            0 <= i < j < self.products@.len() ==> self.products@[i].product_id
                != self.products@[j].product_id
        &&& forall|i: int, j: int|
            #![trigger self.carts@[i].cart_id, self.carts@[j].cart_id]
            0 <= i < j < self.carts@.len() ==> self.carts@[i].cart_id != self.carts@[j].cart_id
        &&& forall|i: int, j: int|
            #![trigger self.carts@[i].user_id, self.carts@[j].user_id]
            0 <= i < j < self.carts@.len() ==> self.carts@[i].user_id != self.carts@[j].user_id
        &&& forall|i: int, j: int|
            #![trigger self.cart_items@[i].cart_item_id, self.cart_items@[j].cart_item_id]
            0 <= i < j < self.cart_items@.len() ==> self.cart_items@[i].cart_item_id
                != self.cart_items@[j].cart_item_id
        &&& forall|i: int, j: int|
            #![trigger self.cart_items@[i], self.cart_items@[j]]
            0 <= i < j < self.cart_items@.len() ==> !(self.cart_items@[i].cart_id
                == self.cart_items@[j].cart_id && self.cart_items@[i].product_id
                == self.cart_items@[j].product_id)
        &&& forall|i: int|
            0 <= i < self.cart_items@.len() ==> (#[trigger] self.cart_items@[i]).quantity >= 1
                && has_cart(self.carts@, self.cart_items@[i].cart_id) && has_product(
                self.products@,
                self.cart_items@[i].product_id,
            )
        &&& forall|i: int, j: int|
            #![trigger self.orders@[i].order_id, self.orders@[j].order_id]
            0 <= i < j < self.orders@.len() ==> self.orders@[i].order_id
                != self.orders@[j].order_id
        &&& forall|i: int, j: int|
            #![trigger self.orders@[i].created_at, self.orders@[j].created_at]
            0 <= i < j < self.orders@.len() ==> self.orders@[i].created_at
                <= self.orders@[j].created_at
        &&& forall|i: int|
            0 <= i < self.orders@.len() ==> (#[trigger] self.orders@[i]).total_amount
                == details_total(details_of(self.order_details@, self.orders@[i].order_id))
        &&& forall|i: int|
            0 <= i < self.orders@.len() ==> details_of(
                self.order_details@,
                (#[trigger] self.orders@[i]).order_id,
            ).len() >= 1
        &&& forall|i: int|
            0 <= i < self.order_details@.len() ==> has_order(
                self.orders@,
                (#[trigger] self.order_details@[i]).order_id,
            ) && has_product(self.products@, self.order_details@[i].product_id)
        &&& forall|i: int|
            0 <= i < self.products@.len() ==> (#[trigger] self.products@[i]).product_id
                < self.next_id
        &&& forall|i: int|
            0 <= i < self.carts@.len() ==> (#[trigger] self.carts@[i]).cart_id < self.next_id
        &&& forall|i: int|
            0 <= i < self.cart_items@.len() ==> (#[trigger] self.cart_items@[i]).cart_item_id
                < self.next_id
        &&& forall|i: int|
            0 <= i < self.orders@.len() ==> (#[trigger] self.orders@[i]).order_id < self.next_id
    }

    /// An empty store.
    pub fn new() -> (s: Store)
        ensures
            s.wf(),
            s.products() == Seq::<Product>::empty(),
            s.carts() == Seq::<Cart>::empty(),
            s.cart_items() == Seq::<CartItem>::empty(),
            s.orders() == Seq::<Order>::empty(),
            s.order_details() == Seq::<OrderDetail>::empty(),
            s.next_id() == 1,
    {
        let s = Store {
            products: Vec::new(),
            carts: Vec::new(),
            cart_items: Vec::new(),
            orders: Vec::new(),
            order_details: Vec::new(),
            next_id: 1,
        };
        proof {
            assert(s.products@ =~= Seq::<Product>::empty());
            assert(s.carts@ =~= Seq::<Cart>::empty());
            assert(s.cart_items@ =~= Seq::<CartItem>::empty());
            assert(s.orders@ =~= Seq::<Order>::empty());
            assert(s.order_details@ =~= Seq::<OrderDetail>::empty());
        }
        s
    }

    /// How many ids are still available. Callers that must never exhaust
    /// the id sequence can test this before an insert.
    pub fn ids_left(&self) -> (r: u64)
        ensures
            r == u64::MAX - self.next_id(),
    {
        u64::MAX - self.next_id
    }
}

/// The two states hold exactly the same tables and id counter.
pub open spec fn same_state(pre: &Store, post: &Store) -> bool {
    &&& post.products() == pre.products()
    &&& post.carts() == pre.carts()
    &&& post.cart_items() == pre.cart_items()
    &&& post.orders() == pre.orders()
    &&& post.order_details() == pre.order_details()
    &&& post.next_id() == pre.next_id()
}


impl Store {
    /// Insert a new catalog product and return the stored row.
    pub fn create_product(
        &mut self,
        name: String,
        description: Option<String>,
        price: u64,
        stock_quantity: u32,
        now: i64,
    ) -> (r: Product)
        requires
            old(self).wf(),
            old(self).next_id() < u64::MAX,
        ensures
            final(self).wf(),
            r == (Product {
                product_id: old(self).next_id(),
                name: name,
                description: description,
                price: price,
                stock_quantity: stock_quantity,
                created_at: now,
            }),
            final(self).products() == old(self).products().push(r),
            final(self).carts() == old(self).carts(),
            final(self).cart_items() == old(self).cart_items(),
            final(self).orders() == old(self).orders(),
            final(self).order_details() == old(self).order_details(),
            final(self).next_id() == old(self).next_id() + 1,
    {
        let p = Product {
            product_id: self.next_id,
            name: name,
            description: description,
            price: price,
            stock_quantity: stock_quantity,
            created_at: now,
        };
        let r = p.clone();
        self.products.push(p);
        self.next_id = self.next_id + 1;
        proof {
            assert forall|i: int|
                0 <= i < self.cart_items@.len() implies has_product(
                self.products@,
                (#[trigger] self.cart_items@[i]).product_id,
            ) by {
                let w = choose|j: int|
                    0 <= j < old(self).products@.len() && old(self).products@[j].product_id
                        == self.cart_items@[i].product_id;
                assert(self.products@[w].product_id == self.cart_items@[i].product_id);
            }
            assert forall|i: int|
                0 <= i < self.order_details@.len() implies has_product(
                self.products@,
                (#[trigger] self.order_details@[i]).product_id,
            ) by {
                let w = choose|j: int|
                    0 <= j < old(self).products@.len() && old(self).products@[j].product_id
                        == self.order_details@[i].product_id;
                assert(self.products@[w].product_id == self.order_details@[i].product_id);
            }
        }
        r
    }

    /// All catalog products, in table order.
    pub fn get_products(&self) -> (r: Vec<Product>)
        ensures
            r@ == self.products(),
    {
        let n: usize = self.products.len();
        let mut out: Vec<Product> = Vec::new();
        let mut i: usize = 0;
        while i < n
            invariant
                i <= n,
                n == self.products@.len(),
                out@ == self.products@.take(i as int),
            decreases n - i,
        {
            out.push(self.products[i].clone());
            proof {
                assert(out@ =~= self.products@.take(i + 1));
            }
            i = i + 1;
        }
        proof {
            assert(self.products@.take(n as int) =~= self.products@);
        }
        out
    }

    /// The product with this id, if the catalog holds one.
    pub fn get_product_by_id(&self, product_id: u64) -> (r: Option<Product>)
        ensures
            match r {
                Some(p) => product_ix(self.products(), product_id) >= 0 && p == self.products()[
                    product_ix(self.products(), product_id)
                ],
                None => !has_product(self.products(), product_id),
            },
            (r is Some) == has_product(self.products(), product_id),
    {
        match find_product(&self.products, product_id) {
            Some(ix) => {
                let p = self.products[ix].clone();
                Some(p)
            },
            None => None,
        }
    }

    /// The current catalog price of a product; `NotFound` if the product
    /// does not exist. Pure read, no side effects.
    pub fn get_price(&self, product_id: u64) -> (r: Result<u64, StoreError>)
        ensures
            match r {
                Ok(p) => has_product(self.products(), product_id) && p == price_of(
                    self.products(),
                    product_id,
                ),
                Err(e) => e == StoreError::NotFound && !has_product(self.products(), product_id),
            },
            (r is Ok) == has_product(self.products(), product_id),
    {
        match find_product(&self.products, product_id) {
            Some(ix) => Ok(self.products[ix].price),
            None => Err(StoreError::NotFound),
        }
    }

    /// Overwrite the mutable fields of a product, keeping its id and
    /// creation instant; `None` if no product carries the id. The ledger
    /// and its detail rows are untouched: an order keeps the prices it
    /// snapshotted whatever happens to the catalog afterwards.
    pub fn update_product_by_id(
        &mut self,
        product_id: u64,
        name: String,
        description: Option<String>,
        price: u64,
        stock_quantity: u32,
    ) -> (r: Option<Product>)
        requires
            old(self).wf(),
        ensures
            final(self).wf(),
            final(self).carts() == old(self).carts(),
            final(self).cart_items() == old(self).cart_items(),
            final(self).orders() == old(self).orders(),
            final(self).order_details() == old(self).order_details(),
            final(self).next_id() == old(self).next_id(),
            match r {
                Some(p) => {
                    let ix = product_ix(old(self).products(), product_id);
                    &&& ix >= 0
                    &&& p == (Product {
                        product_id: product_id,
                        name: name,
                        description: description,
                        price: price,
                        stock_quantity: stock_quantity,
                        created_at: old(self).products()[ix].created_at,
                    })
                    &&& final(self).products() == old(self).products().update(ix, p)
                },
                None => !has_product(old(self).products(), product_id) && final(self).products()
                    == old(self).products(),
            },
    {
        match find_product(&self.products, product_id) {
            Some(ix) => {
                let created_at = self.products[ix].created_at;
                let p = Product {
                    product_id: product_id,
                    name: name,
                    description: description,
                    price: price,
                    stock_quantity: stock_quantity,
                    created_at: created_at,
                };
                let r = p.clone();
                self.products[ix] = p;
                proof {
                    assert forall|i: int|
                        0 <= i < self.products@.len() implies (#[trigger] self.products@[
                    i]).product_id == old(self).products@[i].product_id by {}
                    assert forall|i: int|
                        0 <= i < self.cart_items@.len() implies has_product(
                        self.products@,
                        (#[trigger] self.cart_items@[i]).product_id,
                    ) by {
                        let w = choose|j: int|
                            0 <= j < old(self).products@.len() && old(
                                self,
                            ).products@[j].product_id == self.cart_items@[i].product_id;
                        assert(self.products@[w].product_id == self.cart_items@[i].product_id);
                    }
                    assert forall|i: int|
                        0 <= i < self.order_details@.len() implies has_product(
                        self.products@,
                        (#[trigger] self.order_details@[i]).product_id,
                    ) by {
                        let w = choose|j: int|
                            0 <= j < old(self).products@.len() && old(
                                self,
                            ).products@[j].product_id == self.order_details@[i].product_id;
                        assert(self.products@[w].product_id == self.order_details@[
                            i
                        ].product_id);
                    }
                }
                Some(r)
            },
            None => None,
        }
    }

    /// Delete a product: `NotFound` if it does not exist, `StorageFailure`
    /// if a cart item or an order detail still references it (the foreign
    /// keys restrict the delete).
    pub fn delete_product(&mut self, product_id: u64) -> (r: Result<(), StoreError>)
        requires
            old(self).wf(),
        ensures
            final(self).wf(),
            final(self).carts() == old(self).carts(),
            final(self).cart_items() == old(self).cart_items(),
            final(self).orders() == old(self).orders(),
            final(self).order_details() == old(self).order_details(),
            final(self).next_id() == old(self).next_id(),
            match r {
                Ok(_) => {
                    let ix = product_ix(old(self).products(), product_id);
                    &&& ix >= 0
                    &&& !(exists|i: int|
                        0 <= i < old(self).cart_items().len()
                            && (#[trigger] old(self).cart_items()[i]).product_id == product_id)
                    &&& !(exists|i: int|
                        0 <= i < old(self).order_details().len()
                            && (#[trigger] old(self).order_details()[i]).product_id
                            == product_id)
                    &&& final(self).products() == old(self).products().remove(ix)
                },
                Err(e) => {
                    &&& final(self).products() == old(self).products()
                    &&& (e == StoreError::NotFound && !has_product(
                        old(self).products(),
                        product_id,
                    )) || (e == StoreError::StorageFailure && has_product(
                        old(self).products(),
                        product_id,
                    ) && ((exists|i: int|
                        0 <= i < old(self).cart_items().len()
                            && (#[trigger] old(self).cart_items()[i]).product_id == product_id)
                        || (exists|i: int|
                        0 <= i < old(self).order_details().len()
                            && (#[trigger] old(self).order_details()[i]).product_id
                            == product_id)))
                },
            },
    {
        match find_product(&self.products, product_id) {
            Some(ix) => {
                if item_references_product(&self.cart_items, product_id) {
                    proof {
                        assert(self.products@[ix as int].product_id == product_id);
                        let w = choose|i: int|
                            0 <= i < self.cart_items@.len()
                                && #[trigger] self.cart_items@[i].product_id == product_id;
                        assert((old(self).cart_items()[w]).product_id == product_id);
                    }
                    return Err(StoreError::StorageFailure);
                }
                if detail_references_product(&self.order_details, product_id) {
                    proof {
                        assert(self.products@[ix as int].product_id == product_id);
                        let w = choose|i: int|
                            0 <= i < self.order_details@.len()
                                && #[trigger] self.order_details@[i].product_id == product_id;
                        assert((old(self).order_details()[w]).product_id == product_id);
                    }
                    return Err(StoreError::StorageFailure);
                }
                self.products.remove(ix);
                proof {
                    assert forall|i: int|
                        0 <= i < self.cart_items@.len() implies has_product(
                        self.products@,
                        (#[trigger] self.cart_items@[i]).product_id,
                    ) by {
                        let w = choose|j: int|
                            0 <= j < old(self).products@.len() && old(
                                self,
                            ).products@[j].product_id == self.cart_items@[i].product_id;
                        if w < ix {
                            assert(self.products@[w].product_id == self.cart_items@[
                                i
                            ].product_id);
                        } else {
                            assert(self.products@[w - 1].product_id == self.cart_items@[
                                i
                            ].product_id);
                        }
                    }
                    assert forall|i: int|
                        0 <= i < self.order_details@.len() implies has_product(
                        self.products@,
                        (#[trigger] self.order_details@[i]).product_id,
                    ) by {
                        let w = choose|j: int|
                            0 <= j < old(self).products@.len() && old(
                                self,
                            ).products@[j].product_id == self.order_details@[i].product_id;
                        if w < ix {
                            assert(self.products@[w].product_id == self.order_details@[
                                i
                            ].product_id);
                        } else {
                            assert(self.products@[w - 1].product_id == self.order_details@[
                                i
                            ].product_id);
                        }
                    }
                }
                Ok(())
            },
            None => Err(StoreError::NotFound),
        }
    }
}


impl Store {
    /// Fetch the user's cart, creating it on first access. The returned
    /// row is the existing cart when one exists, otherwise the newly
    /// inserted one; either way the user owns exactly one cart afterwards.
    pub fn get_or_create_cart(&mut self, user_id: u64, now: i64) -> (r: Cart)
        requires
            old(self).wf(),
            old(self).next_id() < u64::MAX,
        ensures
            final(self).wf(),
            r.user_id == user_id,
            user_cart_ix(final(self).carts(), user_id) >= 0,
            ({
                let cix = user_cart_ix(old(self).carts(), user_id);
                if cix >= 0 {
                    same_state(old(self), final(self)) && r == old(self).carts()[cix]
                } else {
                    &&& r == (Cart {
                        cart_id: old(self).next_id(),
                        user_id: user_id,
                        created_at: now,
                        updated_at: now,
                    })
                    &&& final(self).carts() == old(self).carts().push(r)
                    &&& final(self).products() == old(self).products()
                    &&& final(self).cart_items() == old(self).cart_items()
                    &&& final(self).orders() == old(self).orders()
                    &&& final(self).order_details() == old(self).order_details()
                    &&& final(self).next_id() == old(self).next_id() + 1
                }
            }),
    {
        match find_user_cart(&self.carts, user_id) {
            Some(ix) => {
                let r = self.carts[ix];
                r
            },
            None => {
                let cart = Cart {
                    cart_id: self.next_id,
                    user_id: user_id,
                    created_at: now,
                    updated_at: now,
                };
                self.carts.push(cart);
                self.next_id = self.next_id + 1;
                proof {
                    lemma_user_cart_ix_props(old(self).carts@, user_id);
                    lemma_user_cart_ix_props(self.carts@, user_id);
                    assert(self.carts@[self.carts@.len() - 1].user_id == user_id);
                    assert forall|i: int|
                        0 <= i < self.cart_items@.len() implies has_cart(
                        self.carts@,
                        (#[trigger] self.cart_items@[i]).cart_id,
                    ) by {
                        let w = choose|j: int|
                            0 <= j < old(self).carts@.len() && old(self).carts@[j].cart_id
                                == self.cart_items@[i].cart_id;
                        assert(self.carts@[w].cart_id == self.cart_items@[i].cart_id);
                    }
                }
                cart
            },
        }
    }

    /// Add `quantity` of a product to a cart. An existing row for the
    /// `(cart, product)` pair is merged by summing quantities, otherwise a
    /// new row is inserted. Rejects a zero quantity (`InvalidQuantity`), a
    /// missing cart or product (`NotFound`), and a merged quantity beyond
    /// the row's range (`StorageFailure`). Returns the stored row.
    pub fn add_cart_item(&mut self, cart_id: u64, product_id: u64, quantity: u32, now: i64) -> (r:
        Result<CartItem, StoreError>)
        requires
            old(self).wf(),
            old(self).next_id() < u64::MAX,
        ensures
            final(self).wf(),
            final(self).products() == old(self).products(),
            final(self).carts() == old(self).carts(),
            final(self).orders() == old(self).orders(),
            final(self).order_details() == old(self).order_details(),
            match r {
                Ok(item) => {
                    let ix = item_ix(old(self).cart_items(), cart_id, product_id);
                    &&& quantity >= 1
                    &&& has_cart(old(self).carts(), cart_id)
                    &&& has_product(old(self).products(), product_id)
                    &&& ix >= 0 ==> old(self).cart_items()[ix].quantity + quantity <= u32::MAX
                    &&& final(self).cart_items() == merge_or_insert(
                        old(self).cart_items(),
                        cart_id,
                        product_id,
                        quantity,
                        old(self).next_id(),
                        now,
                    )
                    &&& item == if ix >= 0 {
                        final(self).cart_items()[ix]
                    } else {
                        final(self).cart_items().last()
                    }
                    &&& (ix >= 0 ==> final(self).next_id() == old(self).next_id())
                    &&& (ix < 0 ==> final(self).next_id() == old(self).next_id() + 1)
                },
                Err(e) => {
                    &&& same_state(old(self), final(self))
                    &&& (e == StoreError::InvalidQuantity && quantity == 0) || (e
                        == StoreError::NotFound && quantity >= 1 && (!has_cart(
                        old(self).carts(),
                        cart_id,
                    ) || !has_product(old(self).products(), product_id))) || (e
                        == StoreError::StorageFailure && quantity >= 1 && has_cart(
                        old(self).carts(),
                        cart_id,
                    ) && has_product(old(self).products(), product_id) && item_ix(
                        old(self).cart_items(),
                        cart_id,
                        product_id,
                    ) >= 0 && old(self).cart_items()[item_ix(
                        old(self).cart_items(),
                        cart_id,
                        product_id,
                    )].quantity + quantity > u32::MAX)
                },
            },
    {
        if quantity == 0 {
            return Err(StoreError::InvalidQuantity);
        }
        if !cart_row_exists(&self.carts, cart_id) {
            return Err(StoreError::NotFound);
        }
        if find_product(&self.products, product_id).is_none() {
            return Err(StoreError::NotFound);
        }
        match find_item(&self.cart_items, cart_id, product_id) {
            Some(ix) => {
                let it = self.cart_items[ix];
                if it.quantity > u32::MAX - quantity {
                    return Err(StoreError::StorageFailure);
                }
                let updated = CartItem {
                    cart_item_id: it.cart_item_id,
                    cart_id: it.cart_id,
                    product_id: it.product_id,
                    quantity: it.quantity + quantity,
                    added_at: it.added_at,
                };
                self.cart_items[ix] = updated;
                Ok(updated)
            },
            None => {
                let item = CartItem {
                    cart_item_id: self.next_id,
                    cart_id: cart_id,
                    product_id: product_id,
                    quantity: quantity,
                    added_at: now,
                };
                self.cart_items.push(item);
                self.next_id = self.next_id + 1;
                proof {
                    lemma_item_ix_props(old(self).cart_items@, cart_id, product_id);
                }
                Ok(item)
            },
        }
    }

    /// The display view of a cart: its items joined with each product's
    /// name and live catalog price. An unknown cart id yields the empty
    /// view; prices here are not the snapshot a later checkout takes.
    pub fn get_cart_with_items(&self, cart_id: u64) -> (r: Vec<CartItemWithProduct>)
        requires
            self.wf(),
        ensures
            r@ == cart_lines(self.cart_items(), self.products(), cart_id),
    {
        let n: usize = self.cart_items.len();
        let mut out: Vec<CartItemWithProduct> = Vec::new();
        let mut i: usize = 0;
        while i < n
            invariant
                self.wf(),
                i <= n,
                n == self.cart_items@.len(),
                out@ == cart_lines(self.cart_items@.take(i as int), self.products@, cart_id),
            decreases n - i,
        {
            let it = self.cart_items[i];
            proof {
                assert(self.cart_items@.take(i + 1).drop_last() =~= self.cart_items@.take(
                    i as int,
                ));
                assert(self.cart_items@.take(i + 1).last() == it);
            }
            if it.cart_id == cart_id {
                match find_product(&self.products, it.product_id) {
                    Some(pix) => {
                        let line = CartItemWithProduct {
                            cart_item_id: it.cart_item_id,
                            cart_id: it.cart_id,
                            product_id: it.product_id,
                            quantity: it.quantity,
                            added_at: it.added_at,
                            product_name: self.products[pix].name.clone(),
                            product_price: self.products[pix].price,
                        };
                        out.push(line);
                    },
                    None => {
                        proof {
                            assert(has_product(self.products@, it.product_id));
                        }
                        vstd::pervasive::unreached::<()>()
                    },
                }
            }
            i = i + 1;
        }
        proof {
            assert(self.cart_items@.take(n as int) =~= self.cart_items@);
        }
        out
    }
}


impl Store {
    /// Checkout: convert the user's cart into an order, as one atomic unit.
    ///
    /// Resolves the cart (`NotFound` if the user has none), reads its items
    /// joined with the catalog prices authoritative right now, rejects an
    /// empty cart (`EmptyCart`), computes the exact fixed-point total,
    /// writes the order with status `Pending` and one detail row per cart
    /// item carrying the permanent price snapshot, deletes the cart's
    /// items, and returns the stored order. A total beyond the money
    /// column's range is rejected whole (`StorageFailure`). On any error
    /// the store is left exactly as it was: no order, no detail row, no
    /// cart item deletion takes effect.
    #[verifier::rlimit(50)]
    #[verifier::loop_isolation(false)]
    pub fn create_order(&mut self, shipping_address: String, user_id: u64, now: i64) -> (r:
        Result<Order, StoreError>)
        requires
            old(self).wf(),
            old(self).next_id() < u64::MAX,
        ensures
            final(self).wf(),
            match checkout_error(
                old(self).carts(),
                old(self).cart_items(),
                old(self).products(),
                user_id,
            ) {
                Some(e) => r == Err::<Order, StoreError>(e) && same_state(old(self), final(self)),
                None => ({
                    let cix = user_cart_ix(old(self).carts(), user_id);
                    let cart_id = old(self).carts()[cix].cart_id;
                    let oid = old(self).next_id();
                    let ts = order_ts(old(self).orders(), now);
                    let total = cart_total(old(self).cart_items(), old(self).products(), cart_id);
                    let o = new_order(oid, user_id, ts, shipping_address, total);
                    &&& r == Ok::<Order, StoreError>(o)
                    &&& final(self).orders() == old(self).orders().push(o)
                    &&& final(self).order_details() == old(self).order_details()
                        + snapshot_details(
                        old(self).cart_items(),
                        old(self).products(),
                        cart_id,
                        oid,
                    )
                    &&& final(self).cart_items() == remove_cart_items(
                        old(self).cart_items(),
                        cart_id,
                    )
                    &&& cart_item_count(final(self).cart_items(), cart_id) == 0
                    &&& final(self).carts() == old(self).carts()
                    &&& final(self).products() == old(self).products()
                    &&& final(self).next_id() == old(self).next_id() + 1
                }),
            },
    {
        let cix = match find_user_cart(&self.carts, user_id) {
            Some(ix) => ix,
            None => {
                return Err(StoreError::NotFound);
            },
        };
        let cart_id = self.carts[cix].cart_id;
        let order_id = self.next_id;

        // Read the cart's items joined with the current catalog prices,
        // accumulating the exact total and the detail rows to write.
        let n: usize = self.cart_items.len();
        let mut details: Vec<OrderDetail> = Vec::new();
        let mut total: u128 = 0;
        let mut i: usize = 0;
        while i < n
            invariant
                self.wf(),
                i <= n,
                n == self.cart_items@.len(),
                details@ == snapshot_details(
                    self.cart_items@.take(i as int),
                    self.products@,
                    cart_id,
                    order_id,
                ),
                total as int == cart_total(
                    self.cart_items@.take(i as int),
                    self.products@,
                    cart_id,
                ),
                total <= u64::MAX,
            decreases n - i,
        {
            let it = self.cart_items[i];
            proof {
                assert(self.cart_items@.take(i + 1).drop_last() =~= self.cart_items@.take(
                    i as int,
                ));
                assert(self.cart_items@.take(i + 1).last() == it);
            }
            if it.cart_id == cart_id {
                let pix = match find_product(&self.products, it.product_id) {
                    Some(pix) => pix,
                    None => {
                        proof {
                            assert(has_product(self.products@, it.product_id));
                        }
                        vstd::pervasive::unreached::<usize>()
                    },
                };
                let price = self.products[pix].price;
                proof {
                    assert((it.quantity as int) * (price as int) <= (u32::MAX as int) * (
                    u64::MAX as int)) by (nonlinear_arith)
                        requires
                            it.quantity as int <= u32::MAX as int,
                            price as int <= u64::MAX as int,
                            it.quantity as int >= 0,
                            price as int >= 0,
                    ;
                    assert(price == price_of(self.products@, it.product_id));
                }
                let line: u128 = (it.quantity as u128) * (price as u128);
                let new_total: u128 = total + line;
                if new_total > u64::MAX as u128 {
                    proof {
                        lemma_cart_total_take_le(self.cart_items@, self.products@, cart_id, i + 1);
                        lemma_cart_item_count_zero(self.cart_items@, cart_id);
                    }
                    return Err(StoreError::StorageFailure);
                }
                total = new_total;
                details.push(
                    OrderDetail {
                        order_id: order_id,
                        product_id: it.product_id,
                        quantity: it.quantity,
                        price_per_unit: price,
                    },
                );
            }
            i = i + 1;
        }
        proof {
            assert(self.cart_items@.take(n as int) =~= self.cart_items@);
            lemma_snapshot_len(self.cart_items@, self.products@, cart_id, order_id);
            lemma_cart_item_count_zero(self.cart_items@, cart_id);
        }
        if details.len() == 0 {
            return Err(StoreError::EmptyCart);
        }

        // The creation instant: the caller's clock, kept monotone against
        // the ledger.
        let olen: usize = self.orders.len();
        let ts: i64 = if olen > 0 {
            let last_ts = self.orders[olen - 1].created_at;
            if last_ts > now {
                last_ts
            } else {
                now
            }
        } else {
            now
        };

        let ghost dsnap = details@;
        let total64: u64 = total as u64;
        let order = Order {
            order_id: order_id,
            user_id: user_id,
            order_date: ts,
            status: OrderStatus::Pending,
            shipping_address: shipping_address,
            created_at: ts,
            total_amount: total64,
        };
        let r = order.clone();
        self.orders.push(order);
        self.order_details.append(&mut details);

        // Delete the cart's items; the cart row itself survives for reuse.
        let mut kept: Vec<CartItem> = Vec::new();
        let mut k: usize = 0;
        while k < n
            invariant
                k <= n,
                n == self.cart_items@.len(),
                kept@ == remove_cart_items(self.cart_items@.take(k as int), cart_id),
            decreases n - k,
        {
            let it = self.cart_items[k];
            proof {
                assert(self.cart_items@.take(k + 1).drop_last() =~= self.cart_items@.take(
                    k as int,
                ));
                assert(self.cart_items@.take(k + 1).last() == it);
            }
            if it.cart_id != cart_id {
                kept.push(it);
            }
            k = k + 1;
        }
        proof {
            assert(self.cart_items@.take(n as int) =~= self.cart_items@);
        }
        self.cart_items = kept;
        self.next_id = self.next_id + 1;

        proof {
            let opr = old(self).products@;
            let ocr = old(self).carts@;
            let oit = old(self).cart_items@;
            let oor = old(self).orders@;
            let ods = old(self).order_details@;
            let o = r;
            lemma_snapshot_rows(oit, opr, cart_id, order_id);
            lemma_snapshot_total(oit, opr, cart_id, order_id);
            lemma_remove_cart_items_props(oit, cart_id);
            assert(dsnap == snapshot_details(oit, opr, cart_id, order_id));
            assert(self.orders@ == oor.push(o));
            assert(self.order_details@ == ods + dsnap);
            assert(self.cart_items@ == remove_cart_items(oit, cart_id));

            // Ledger order: the new order's instant is no earlier than any
            // already persisted.
            assert forall|a: int, b: int|
                0 <= a < b < self.orders@.len() implies (#[trigger] self.orders@[a].created_at)
                <= (#[trigger] self.orders@[b].created_at) by {
                if b == self.orders@.len() - 1 && a < b {
                    assert(oor[a].created_at <= oor[oor.len() - 1].created_at);
                }
            }

            // No old detail row carries the fresh order id.
            assert forall|d: int|
                0 <= d < ods.len() implies (#[trigger] ods[d]).order_id != order_id by {
                let w = choose|w: int| 0 <= w < oor.len() && oor[w].order_id == ods[d].order_id;
                assert(oor[w].order_id < order_id);
            }
            lemma_details_of_none(ods, order_id);
            lemma_details_of_all(dsnap, order_id);
            lemma_details_of_append(ods, dsnap, order_id);
            assert(Seq::<OrderDetail>::empty() + dsnap =~= dsnap);
            assert(details_of(self.order_details@, order_id) == dsnap);

            // Every already persisted order keeps exactly its detail rows.
            assert forall|x: int|
                0 <= x < oor.len() implies details_of(
                self.order_details@,
                (#[trigger] oor[x]).order_id,
            ) == details_of(ods, oor[x].order_id) by {
                let oid_x = oor[x].order_id;
                lemma_details_of_append(ods, dsnap, oid_x);
                assert(forall|d: int|
                    0 <= d < dsnap.len() ==> (#[trigger] dsnap[d]).order_id == order_id);
                lemma_details_of_none(dsnap, oid_x);
                assert(details_of(ods, oid_x) + Seq::<OrderDetail>::empty() =~= details_of(
                    ods,
                    oid_x,
                ));
            }

            // Foreign keys of the grown detail table.
            assert forall|d: int|
                0 <= d < self.order_details@.len() implies has_order(
                self.orders@,
                (#[trigger] self.order_details@[d]).order_id,
            ) && has_product(self.products@, self.order_details@[d].product_id) by {
                if d < ods.len() {
                    assert(self.order_details@[d] == ods[d]);
                    let w = choose|w: int|
                        0 <= w < oor.len() && oor[w].order_id == ods[d].order_id;
                    assert(self.orders@[w].order_id == self.order_details@[d].order_id);
                } else {
                    assert(self.order_details@[d] == dsnap[d - ods.len()]);
                    assert(self.orders@[oor.len() as int].order_id == order_id);
                    assert(snapshot_row_src(oit, opr, cart_id, order_id, dsnap[d - ods.len()]));
                    let j = choose|j: int|
                        0 <= j < oit.len() && (#[trigger] oit[j]).cart_id == cart_id && dsnap[d
                            - ods.len()] == detail_of(oit[j], opr, order_id);
                    assert(has_product(opr, oit[j].product_id));
                }
            }

            // The kept cart items still reference live carts and products
            // and keep their positive quantities.
            assert forall|x: int|
                0 <= x < self.cart_items@.len() implies (#[trigger] self.cart_items@[
            x]).quantity >= 1 && has_cart(ocr, self.cart_items@[x].cart_id) && has_product(
                opr,
                self.cart_items@[x].product_id,
            ) && self.cart_items@[x].cart_item_id < self.next_id by {
                let j = choose|j: int|
                    0 <= j < oit.len() && #[trigger] remove_cart_items(oit, cart_id)[x]
                        == oit[j];
                assert(self.cart_items@[x] == oit[j]);
            }

            assert(self.wf());
        }
        Ok(r)
    }
}


impl Store {
    /// The orders of one user, newest first (by creation instant).
    pub fn get_all_user_orders(&self, user_id: u64) -> (r: Vec<Order>)
        requires
            self.wf(),
        ensures
            r@ == rev_user_orders(self.orders(), user_id),
            forall|a: int, b: int|
                #![trigger r@[a], r@[b]]
                0 <= a < b < r@.len() ==> r@[a].created_at >= r@[b].created_at,
    {
        let n: usize = self.orders.len();
        let mut out: Vec<Order> = Vec::new();
        let mut i: usize = n;
        while i > 0
            invariant
                i <= n,
                n == self.orders@.len(),
                out@ == rev_user_orders(self.orders@.skip(i as int), user_id),
            decreases i,
        {
            i = i - 1;
            proof {
                assert(self.orders@.skip(i as int).drop_first() =~= self.orders@.skip(
                    i as int + 1,
                ));
                assert(self.orders@.skip(i as int)[0] == self.orders@[i as int]);
            }
            if self.orders[i].user_id == user_id {
                out.push(self.orders[i].clone());
            }
        }
        proof {
            assert(self.orders@.skip(0) =~= self.orders@);
            lemma_rev_user_orders_props(self.orders@, user_id);
        }
        out
    }

    /// All orders of the ledger, newest first (by creation instant).
    /// Whether the caller may see them is the boundary layer's decision.
    pub fn get_all_orders(&self) -> (r: Vec<Order>)
        requires
            self.wf(),
        ensures
            r@ == rev_all_orders(self.orders()),
            r@.len() == self.orders().len(),
            forall|a: int, b: int|
                #![trigger r@[a], r@[b]]
                0 <= a < b < r@.len() ==> r@[a].created_at >= r@[b].created_at,
    {
        let n: usize = self.orders.len();
        let mut out: Vec<Order> = Vec::new();
        let mut i: usize = n;
        while i > 0
            invariant
                i <= n,
                n == self.orders@.len(),
                out@ == rev_all_orders(self.orders@.skip(i as int)),
            decreases i,
        {
            i = i - 1;
            proof {
                assert(self.orders@.skip(i as int).drop_first() =~= self.orders@.skip(
                    i as int + 1,
                ));
                assert(self.orders@.skip(i as int)[0] == self.orders@[i as int]);
            }
            out.push(self.orders[i].clone());
        }
        proof {
            assert(self.orders@.skip(0) =~= self.orders@);
            lemma_rev_all_orders_props(self.orders@);
        }
        out
    }

    /// Set the status of an order; `NotFound` if the id is unknown. Every
    /// other field of the ledger, and every other table, is untouched.
    /// Any of the three statuses is accepted unconditionally.
    pub fn update_order_status(&mut self, order_id: u64, new_status: OrderStatus) -> (r: Result<
        (),
        StoreError,
    >)
        requires
            old(self).wf(),
        ensures
            final(self).wf(),
            final(self).products() == old(self).products(),
            final(self).carts() == old(self).carts(),
            final(self).cart_items() == old(self).cart_items(),
            final(self).order_details() == old(self).order_details(),
            final(self).next_id() == old(self).next_id(),
            match r {
                Ok(_) => {
                    let ix = order_ix(old(self).orders(), order_id);
                    &&& ix >= 0
                    &&& final(self).orders() == old(self).orders().update(
                        ix,
                        Order {
                            order_id: old(self).orders()[ix].order_id,
                            user_id: old(self).orders()[ix].user_id,
                            order_date: old(self).orders()[ix].order_date,
                            status: new_status,
                            shipping_address: old(self).orders()[ix].shipping_address,
                            created_at: old(self).orders()[ix].created_at,
                            total_amount: old(self).orders()[ix].total_amount,
                        },
                    )
                },
                Err(e) => e == StoreError::NotFound && !has_order(old(self).orders(), order_id)
                    && final(self).orders() == old(self).orders(),
            },
    {
        match find_order(&self.orders, order_id) {
            Some(ix) => {
                let mut o = self.orders.remove(ix);
                o.status = new_status;
                self.orders.insert(ix, o);
                proof {
                    let upd = old(self).orders@.update(
                        ix as int,
                        Order {
                            order_id: old(self).orders@[ix as int].order_id,
                            user_id: old(self).orders@[ix as int].user_id,
                            order_date: old(self).orders@[ix as int].order_date,
                            status: new_status,
                            shipping_address: old(self).orders@[ix as int].shipping_address,
                            created_at: old(self).orders@[ix as int].created_at,
                            total_amount: old(self).orders@[ix as int].total_amount,
                        },
                    );
                    assert(self.orders@ =~= upd);
                    assert forall|d: int|
                        0 <= d < self.order_details@.len() implies has_order(
                        self.orders@,
                        (#[trigger] self.order_details@[d]).order_id,
                    ) by {
                        let w = choose|w: int|
                            0 <= w < old(self).orders@.len() && old(self).orders@[w].order_id
                                == self.order_details@[d].order_id;
                        assert(self.orders@[w].order_id == self.order_details@[d].order_id);
                    }
                }
                Ok(())
            },
            None => {
                proof {
                    lemma_order_ix_props(self.orders@, order_id);
                }
                Err(StoreError::NotFound)
            },
        }
    }
}

/// Invariant of the ledger: every persisted order's `total_amount` equals
/// the exact sum of `quantity * price_per_unit` over its detail rows, and
/// no order exists without at least one detail row. This holds of every
/// well-formed store, hence at creation and forever after.
pub proof fn lemma_order_total_invariant(s: &Store, i: int)
    requires
        s.wf(),
        0 <= i < s.orders().len(),
    ensures
        s.orders()[i].total_amount == details_total(
            details_of(s.order_details(), s.orders()[i].order_id),
        ),
        details_of(s.order_details(), s.orders()[i].order_id).len() >= 1,
{
}


impl Store {
    /// The detail rows of one order, in table order: its permanent
    /// quantity and unit-price snapshot.
    pub fn get_order_details(&self, order_id: u64) -> (r: Vec<OrderDetail>)
        ensures
            r@ == details_of(self.order_details(), order_id),
    {
        let n: usize = self.order_details.len();
        let mut out: Vec<OrderDetail> = Vec::new();
        let mut i: usize = 0;
        while i < n
            invariant
                i <= n,
                n == self.order_details@.len(),
                out@ == details_of(self.order_details@.take(i as int), order_id),
            decreases n - i,
        {
            let d = self.order_details[i];
            proof {
                assert(self.order_details@.take(i + 1).drop_last() =~= self.order_details@.take(
                    i as int,
                ));
                assert(self.order_details@.take(i + 1).last() == d);
            }
            if d.order_id == order_id {
                out.push(d);
            }
            i = i + 1;
        }
        proof {
            assert(self.order_details@.take(n as int) =~= self.order_details@);
        }
        out
    }
}

} // verus!
