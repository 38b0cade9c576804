//! Orders of one side, at most one per price value, kept in the order in
//! which their prices first came in.  It is viewed as a map from the price
//! value (see `Dec`'s view) to the order.
use crate::engine::common::{Order, Side};
use crate::utils::decimal::{dec_eq, Dec};
use vstd::prelude::*;

verus! {

/// No two orders share a price value.
pub open spec fn unique_prices(s: Seq<Order>) -> bool {
    forall|i: int, j: int|
        0 <= i < s.len() && 0 <= j < s.len() && i != j ==> (#[trigger] s[i]).price@ != (
        #[trigger] s[j]).price@
}

/// Some order of `s` stands at price value `k`.
pub open spec fn has_order_at(s: Seq<Order>, k: int) -> bool {
    exists|i: int| 0 <= i < s.len() && (#[trigger] s[i]).price@ == k
}

/// The order of `s` at price value `k`.
pub open spec fn order_at(s: Seq<Order>, k: int) -> Order {
    s[choose|i: int| 0 <= i < s.len() && (#[trigger] s[i]).price@ == k]
}

/// The map from price value to order.
pub open spec fn orders_map(s: Seq<Order>) -> Map<int, Order> {
    Map::new(|k: int| has_order_at(s, k), |k: int| order_at(s, k))
}

/// No two of the orders `s` stand on the same side at the same price.
pub open spec fn distinct_places(s: Seq<Order>) -> bool {
    forall|i: int, j: int|
        0 <= i < s.len() && 0 <= j < s.len() && i != j && s[i].side == s[j].side ==> (#[trigger] s[i]).price@
            != (#[trigger] s[j]).price@
}

/// Every order of `m` is on `side`.
pub open spec fn all_on_side(m: Map<int, Order>, side: Side) -> bool {
    forall|k: int| m.contains_key(k) ==> (#[trigger] m[k]).side == side
}

/// In a sequence of distinct prices the order at index `i` is the one the map
/// gives for its price.
pub proof fn lemma_orders_map_at(s: Seq<Order>, i: int)
    requires
        unique_prices(s),
        0 <= i < s.len(),
    ensures
        orders_map(s).contains_key(s[i].price@),
        orders_map(s)[s[i].price@] == s[i],
{
    let k = s[i].price@;
    let j = choose|j: int| 0 <= j < s.len() && (#[trigger] s[j]).price@ == k;
    if j != i {
    }
}

/// Replacing the order at index `i` by one at the same price value.
pub proof fn lemma_orders_update(s: Seq<Order>, i: int, o: Order)
    requires
        unique_prices(s),
        0 <= i < s.len(),
        o.price@ == s[i].price@,
    ensures
        unique_prices(s.update(i, o)),
        orders_map(s.update(i, o)) =~= orders_map(s).insert(o.price@, o),
{
    let t = s.update(i, o);
    assert(unique_prices(t));
    lemma_orders_map_at(t, i);
    assert forall|k: int| #[trigger] orders_map(t).contains_key(k) == orders_map(s).insert(
        o.price@,
        o,
    ).contains_key(k) by {
        if has_order_at(t, k) {
            let j = choose|j: int| 0 <= j < t.len() && (#[trigger] t[j]).price@ == k;
            if j != i {
            }
        }
        if has_order_at(s, k) {
            let j = choose|j: int| 0 <= j < s.len() && (#[trigger] s[j]).price@ == k;
            if j != i {
                assert(t[j].price@ == k);
            }
        }
    }
    assert forall|k: int| #[trigger] orders_map(t).contains_key(k) implies orders_map(t)[k]
        == orders_map(s).insert(o.price@, o)[k] by {
        if k != o.price@ {
            let j = choose|j: int| 0 <= j < t.len() && (#[trigger] t[j]).price@ == k;
            lemma_orders_map_at(t, j);
            lemma_orders_map_at(s, j);
        }
    }
}

/// Appending an order at a price value that no order holds.
pub proof fn lemma_orders_push(s: Seq<Order>, o: Order)
    requires
        unique_prices(s),
        !has_order_at(s, o.price@),
    ensures
        unique_prices(s.push(o)),
        orders_map(s.push(o)) =~= orders_map(s).insert(o.price@, o),
{
    let t = s.push(o);
    let n = s.len() as int;
    assert(unique_prices(t)) by {
        assert forall|a: int, b: int|
            0 <= a < t.len() && 0 <= b < t.len() && a != b implies (#[trigger] t[a]).price@ != (
            #[trigger] t[b]).price@ by {
            if a < n && b < n {
            } else if a < n {
            } else {
            }
        }
    }
    lemma_orders_map_at(t, n);
    assert forall|k: int| #[trigger] orders_map(t).contains_key(k) == orders_map(s).insert(
        o.price@,
        o,
    ).contains_key(k) by {
        if has_order_at(t, k) {
            let j = choose|j: int| 0 <= j < t.len() && (#[trigger] t[j]).price@ == k;
            if j < n {
            }
        }
        if has_order_at(s, k) {
            let j = choose|j: int| 0 <= j < s.len() && (#[trigger] s[j]).price@ == k;
            assert(t[j].price@ == k);
        }
    }
    assert forall|k: int| #[trigger] orders_map(t).contains_key(k) implies orders_map(t)[k]
        == orders_map(s).insert(o.price@, o)[k] by {
        if k != o.price@ {
            let j = choose|j: int| 0 <= j < t.len() && (#[trigger] t[j]).price@ == k;
            lemma_orders_map_at(t, j);
            lemma_orders_map_at(s, j);
        }
    }
}

/// Removing the order at index `i`.
pub proof fn lemma_orders_remove(s: Seq<Order>, i: int)
    requires
        unique_prices(s),
        0 <= i < s.len(),
    ensures
        unique_prices(s.remove(i)),
        orders_map(s.remove(i)) =~= orders_map(s).remove(s[i].price@),
{
    let t = s.remove(i);
    let k0 = s[i].price@;
    assert(unique_prices(t)) by {
        assert forall|a: int, b: int|
            0 <= a < t.len() && 0 <= b < t.len() && a != b implies (#[trigger] t[a]).price@ != (
            #[trigger] t[b]).price@ by {
            let a2 = if a < i {
                a
            } else {
                a + 1
            };
            let b2 = if b < i {
                b
            } else {
                b + 1
            };
        }
    }
    assert forall|k: int| #[trigger] orders_map(t).contains_key(k) == orders_map(s).remove(
        k0,
    ).contains_key(k) by {
        if has_order_at(t, k) {
            let j = choose|j: int| 0 <= j < t.len() && (#[trigger] t[j]).price@ == k;
            let j2 = if j < i {
                j
            } else {
                j + 1
            };
        }
        if has_order_at(s, k) && k != k0 {
            let j = choose|j: int| 0 <= j < s.len() && (#[trigger] s[j]).price@ == k;
            if j < i {
                assert(t[j].price@ == k);
            } else {
                assert(t[j - 1].price@ == k);
            }
        }
    }
    assert forall|k: int| #[trigger] orders_map(t).contains_key(k) implies orders_map(t)[k]
        == orders_map(s).remove(k0)[k] by {
        let j = choose|j: int| 0 <= j < t.len() && (#[trigger] t[j]).price@ == k;
        lemma_orders_map_at(t, j);
        if j < i {
            lemma_orders_map_at(s, j);
        } else {
            lemma_orders_map_at(s, j + 1);
        }
    }
}

/// A sequence of distinct prices has as many orders as its map has keys.
pub proof fn lemma_orders_map_len(s: Seq<Order>)
    requires
        unique_prices(s),
    ensures
        orders_map(s).dom().finite(),
        orders_map(s).dom().len() == s.len(),
    decreases s.len(),
{
    if s.len() == 0 {
        assert(orders_map(s).dom() =~= Set::<int>::empty());
    } else {
        let p = s.drop_last();
        let o = s.last();
        assert(unique_prices(p));
        lemma_orders_map_len(p);
        assert(!has_order_at(p, o.price@)) by {
            if has_order_at(p, o.price@) {
                let j = choose|j: int| 0 <= j < p.len() && (#[trigger] p[j]).price@ == o.price@;
            }
        }
        lemma_orders_push(p, o);
        assert(p.push(o) =~= s);
    }
}

/// Orders of one side of a book, one per price value.
pub struct OrderTable {
    orders: Vec<Order>,
}

impl OrderTable {
    #[verifier::type_invariant]
    spec fn inv(self) -> bool {
        unique_prices(self.orders@)
    }

    /// The orders in the order in which their prices came in.
    pub closed spec fn seq(self) -> Seq<Order> {
        self.orders@
    }

    /// An empty table.
    pub fn new() -> (r: OrderTable)
        ensures
            r@ == Map::<int, Order>::empty(),
            r.seq() == Seq::<Order>::empty(),
    {
        let r = OrderTable { orders: Vec::new() };
        r
    }

    /// The number of orders.
    pub fn len(&self) -> (r: usize)
        ensures
            r == self.seq().len(),
            r == self@.len(),
            self@.dom().finite(),
    {
        proof {
            use_type_invariant(self);
            lemma_orders_map_len(self.orders@);
        }
        self.orders.len()
    }

    /// Whether an order stands at the value of `price`.
    pub fn contains(&self, price: &Dec) -> (r: bool)
        ensures
            r == self@.contains_key(price@),
    {
        proof {
            use_type_invariant(self);
        }
        match index_of_price(&self.orders, price) {
            Some(i) => {
                proof {
                    lemma_orders_map_at(self.orders@, i as int);
                }
                true
            },
            None => false,
        }
    }

    /// A copy of the order at the value of `price`, if any.
    pub fn get(&self, price: &Dec) -> (r: Option<Order>)
        ensures
            r == (if self@.contains_key(price@) {
                Some(self@[price@])
            } else {
                None::<Order>
            }),
            self@.contains_key(price@) ==> self@[price@].price@ == price@,
    {
        proof {
            use_type_invariant(self);
        }
        match index_of_price(&self.orders, price) {
            Some(i) => {
                proof {
                    lemma_orders_map_at(self.orders@, i as int);
                }
                Some(self.orders[i].clone())
            },
            None => None,
        }
    }

    /// The order at index `i` of `seq()`.
    pub fn at(&self, i: usize) -> (r: &Order)
        requires
            i < self.seq().len(),
        ensures
            *r == self.seq()[i as int],
    {
        &self.orders[i]
    }

    /// Puts `order` at the value of its price: in the place of the order
    /// there, or after all orders.
    pub fn insert(&mut self, order: Order)
        ensures
            final(self)@ == old(self)@.insert(order.price@, order),
            old(self)@.contains_key(order.price@) ==> exists|i: int|
                0 <= i < old(self).seq().len() && old(self).seq()[i].price@ == order.price@
                    && final(self).seq() == old(self).seq().update(i, order),
            !old(self)@.contains_key(order.price@) ==> final(self).seq() == old(self).seq().push(
                order,
            ),
    {
        proof {
            use_type_invariant(&*self);
        }
        let mut orders = Vec::new();
        std::mem::swap(&mut orders, &mut self.orders);
        match index_of_price(&orders, &order.price) {
            Some(i) => {
                proof {
                    lemma_orders_update(orders@, i as int, order);
                    lemma_orders_map_at(orders@, i as int);
                }
                let ghost before = orders@;
                orders.set(i, order);
                assert(exists|j: int|
                    0 <= j < before.len() && before[j].price@ == order.price@ && orders@ == before.update(j, order));
            },
            None => {
                proof {
                    lemma_orders_push(orders@, order);
                    if orders_map(orders@).contains_key(order.price@) {
                    }
                }
                orders.push(order);
            },
        }
        self.orders = orders;
        proof {
            if old(self)@.contains_key(order.price@) {
            }
        }
    }

    /// Replaces the order at index `i` of `seq()` by one at the same price value.
    pub fn replace_at(&mut self, i: usize, order: Order)
        requires
            i < old(self).seq().len(),
            order.price@ == old(self).seq()[i as int].price@,
        ensures
            final(self).seq() == old(self).seq().update(i as int, order),
            final(self)@ == old(self)@.insert(order.price@, order),
    {
        proof {
            use_type_invariant(&*self);
            lemma_orders_update(self.orders@, i as int, order);
        }
        let mut orders = Vec::new();
        std::mem::swap(&mut orders, &mut self.orders);
        orders.set(i, order);
        self.orders = orders;
    }

    /// Removes the order at the value of `price`, if there is one.
    pub fn remove(&mut self, price: &Dec)
        ensures
            final(self)@ == old(self)@.remove(price@),
            old(self)@.contains_key(price@) ==> exists|i: int|
                0 <= i < old(self).seq().len() && old(self).seq()[i].price@ == price@
                    && final(self).seq() == old(self).seq().remove(i),
            !old(self)@.contains_key(price@) ==> final(self).seq() == old(self).seq(),
    {
        proof {
            use_type_invariant(&*self);
        }
        let mut orders = Vec::new();
        std::mem::swap(&mut orders, &mut self.orders);
        match index_of_price(&orders, price) {
            Some(i) => {
                proof {
                    lemma_orders_remove(orders@, i as int);
                    lemma_orders_map_at(orders@, i as int);
                }
                let ghost before = orders@;
                orders.remove(i);
                assert(exists|j: int|
                    0 <= j < before.len() && before[j].price@ == price@ && orders@ == before.remove(j));
            },
            None => {
                proof {
                    if orders_map(orders@).contains_key(price@) {
                    }
                }
            },
        }
        self.orders = orders;
        proof {
            if old(self)@.contains_key(price@) {
            }
        }
    }

    /// Copies of the orders, in the order of `seq()`.
    pub fn to_vec(&self) -> (r: Vec<Order>)
        ensures
            r@ == self.seq(),
            unique_prices(r@),
            self@ == orders_map(r@),
    {
        proof {
            use_type_invariant(self);
        }
        let mut r: Vec<Order> = Vec::new();
        let mut i: usize = 0;
        while i < self.orders.len()
            invariant
                i <= self.orders@.len(),
                r@ == self.orders@.take(i as int),
            decreases self.orders@.len() - i,
        {
            r.push(self.orders[i].clone());
            i = i + 1;
        }
        assert(r@ =~= self.orders@);
        r
    }
}

/// The index of the order at the value of `price` in `orders`, if any.
fn index_of_price(orders: &Vec<Order>, price: &Dec) -> (r: Option<usize>)
    ensures
        r matches Some(i) ==> i < orders@.len() && orders@[i as int].price@ == price@,
        r is None ==> !has_order_at(orders@, price@),
{
    let mut i: usize = 0;
    while i < orders.len()
        invariant
            i <= orders@.len(),
            forall|j: int| 0 <= j < i ==> (#[trigger] orders@[j]).price@ != price@,
        decreases orders@.len() - i,
    {
        if dec_eq(&orders[i].price, price) {
            return Some(i);
        }
        i = i + 1;
    }
    None
}

impl View for OrderTable {
    type V = Map<int, Order>;

    open spec fn view(&self) -> Map<int, Order> {
        orders_map(self.seq())
    }
}

} // verus!
