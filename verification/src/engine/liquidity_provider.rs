//! The liquidity provider simulates the data source that the system
//! subscribes to: it can make up orders of the market.
use crate::engine::common::{Action, Order, Side};
use crate::utils::decimal::Dec;
use crate::utils::random::{gen_range_i64, gen_range_usize, std_rng_from_seed};
use std::collections::VecDeque;
use vstd::prelude::*;

verus! {

/// The index of the first order of `orders` with the id `id`, if any.
pub open spec fn first_with_id(orders: Seq<Order>, id: usize) -> Option<int> {
    if exists|i: int| 0 <= i < orders.len() && orders[i].order_id == Some(id) {
        Some(
            choose|i: int|
                0 <= i < orders.len() && orders[i].order_id == Some(id) && forall|j: int|
                    0 <= j < i ==> orders[j].order_id != Some(id),
        )
    } else {
        None
    }
}

/// The provider: the orders it made up, the id of the next one, and the
/// queue to the gateway (none in simulation mode).
pub struct LiquidProvider {
    pub orders: Vec<Order>,
    pub order_id: usize,
    pub lp_2_gateway: Option<VecDeque<Order>>,
}

impl LiquidProvider {
    /// A provider with no order, sending to `lp_2_gateway`.
    pub fn new(lp_2_gateway: Option<VecDeque<Order>>) -> (r: LiquidProvider)
        ensures
            r.orders@.len() == 0,
            r.order_id == 0,
            r.lp_2_gateway == lp_2_gateway,
            ids_in_turn(r),
    {
        LiquidProvider { orders: Vec::new(), order_id: 0, lp_2_gateway }
    }

    /// The first order with the id `id` and its index.
    fn lookup_orders(&self, id: usize) -> (r: (Option<&Order>, Option<isize>))
        ensures
            match first_with_id(self.orders@, id) {
                Some(i) => r == (Some(&self.orders@[i]), Some(i as isize)),
                None => r == (None::<&Order>, None::<isize>),
            },
    {
        let mut i: usize = 0;
        while i < self.orders.len()
            invariant
                i <= self.orders@.len(),
                forall|j: int| 0 <= j < i ==> self.orders@[j].order_id != Some(id),
            decreases self.orders@.len() - i,
        {
            if self.orders[i].order_id == Some(id) {
                proof {
                    let k = choose|k: int|
                        0 <= k < self.orders@.len() && self.orders@[k].order_id == Some(id) && forall|j: int|
                            0 <= j < k ==> self.orders@[j].order_id != Some(id);
                    assert(k == i as int) by {
                        if k < i {
                        } else if k > i {
                        }
                    }
                }
                return (Some(&self.orders[i]), Some(i as isize));
            }
            i = i + 1;
        }
        (None, None)
    }

    /// Sends an order to the gateway queue, at its front; in simulation mode
    /// (no queue) gives it back.
    fn insert_manual_order(&mut self, order: Order) -> (r: Option<Order>)
        ensures
            final(self).orders == old(self).orders,
            final(self).order_id == old(self).order_id,
            old(self).lp_2_gateway is None ==> r == Some(order) && final(self).lp_2_gateway is None,
            old(self).lp_2_gateway is Some ==> r is None && final(self).lp_2_gateway is Some
                && final(self).lp_2_gateway.unwrap()@ == seq![order] + old(self).lp_2_gateway.unwrap()@,
    {
        match &mut self.lp_2_gateway {
            None => Some(order),
            Some(q) => {
                q.push_front(order);
                None
            },
        }
    }

    /// Makes up an order of the market from a generator seeded with zeros:
    /// a bid of 100 to 900 at a price of 8 to 11, with the next id.  It is
    /// new (and kept, and the next id moves on) where no kept order has the
    /// id drawn from `0..=order_id`; otherwise it is a modify.  It goes to
    /// the front of the gateway queue, or, in simulation mode, is given back.
    /// The draws, 64 bits each, are taken in this order: the price from
    /// `8..12`, the size in hundreds from `1..10`, the side from `0..1`, the
    /// id from `0..=order_id`, and, where an order has that id, the pick of
    /// modify or delete from `0..1`; `order_from_draws` makes the order.
    pub fn generate_random_order(&mut self) -> (r: Option<Order>)
        requires
            old(self).order_id < usize::MAX,
        ensures
            exists|o: Order, drawn: usize| #[trigger] made_up(*old(self), *final(self), r, o, drawn),
            exists|price: i64, hundreds: i64, drawn: usize|
                8 <= price < 12 && 1 <= hundreds < 10 && drawn <= old(self).order_id
                && #[trigger] from_draws(*old(self), *final(self), r, price, hundreds, 0, drawn, 0),
    {
        let seed: [u8; 32] = [0; 32];
        let mut rng = std_rng_from_seed(seed);
        let price = gen_range_i64(&mut rng, 8, 12);
        let hundreds = gen_range_i64(&mut rng, 1, 10);
        let side_draw = gen_range_usize(&mut rng, 0, 1);
        let drawn = gen_range_usize(&mut rng, 0, self.order_id + 1);
        let found = self.lookup_orders(drawn).0.is_some();
        let pick = if found {
            gen_range_usize(&mut rng, 0, 1)
        } else {
            0
        };
        let r = self.order_from_draws(price, hundreds, side_draw, drawn, pick);
        proof {
            let o = draws_order(*old(self), price, hundreds, side_draw, drawn, pick);
            Dec::lemma_spec_new_parts(price as int, 0);
            Dec::lemma_spec_new_parts(hundreds * 100, 0);
            assert(made_up(*old(self), *self, r, o, drawn));
        }
        r
    }

    /// Makes up the order that the draws give (see `draws_order`): it keeps
    /// it and moves the next id on where it is new, and sends it to the
    /// front of the gateway queue, or, in simulation mode, gives it back.
    pub fn order_from_draws(&mut self, price: i64, hundreds: i64, side_draw: usize, drawn: usize, pick: usize) -> (r: Option<Order>)
        requires
            old(self).order_id < usize::MAX,
            i64::MIN <= hundreds * 100 <= i64::MAX,
        ensures
            from_draws(*old(self), *final(self), r, price, hundreds, side_draw, drawn, pick),
    {
        let side = if side_draw == 0 {
            Side::Bid
        } else {
            Side::Ask
        };
        let found = self.lookup_orders(drawn).0.is_some();
        let action = if !found {
            Some(Action::New)
        } else if pick == 0 {
            Some(Action::Modify)
        } else {
            Some(Action::Delete)
        };
        let order = Order {
            order_id: Some(self.order_id),
            trade_id: None,
            client_oid: None,
            price: Dec::from_int(price),
            size: Dec::from_int(hundreds * 100),
            side: side,
            action: action,
            status: None,
            timstamp: None,
        };
        if !found {
            self.order_id = self.order_id + 1;
            self.orders.push(order.clone());
        }
        let r = self.insert_manual_order(order);
        r
    }
}

/// The order that the draws give: the price, the size in hundreds, a bid
/// for a side draw of zero (an ask otherwise), the next id, and an action:
/// new where no kept order has the id `drawn`, else modify for a pick of
/// zero and delete otherwise.
pub open spec fn draws_order(pre: LiquidProvider, price: i64, hundreds: i64, side_draw: usize, drawn: usize, pick: usize) -> Order {
    Order {
        order_id: Some(pre.order_id),
        trade_id: None,
        client_oid: None,
        price: Dec::spec_new(price as int, 0),
        size: Dec::spec_new(hundreds * 100, 0),
        side: if side_draw == 0 {
            Side::Bid
        } else {
            Side::Ask
        },
        action: if first_with_id(pre.orders@, drawn) is None {
            Some(Action::New)
        } else if pick == 0 {
            Some(Action::Modify)
        } else {
            Some(Action::Delete)
        },
        status: None,
        timstamp: None,
    }
}

/// What making up the order of the draws does to the provider, and the
/// result (see `order_from_draws`).
pub open spec fn from_draws(
    pre: LiquidProvider,
    post: LiquidProvider,
    r: Option<Order>,
    price: i64,
    hundreds: i64,
    side_draw: usize,
    drawn: usize,
    pick: usize,
) -> bool {
    let o = draws_order(pre, price, hundreds, side_draw, drawn, pick);
    &&& if first_with_id(pre.orders@, drawn) is None {
        post.order_id == pre.order_id + 1 && post.orders@ == pre.orders@.push(o)
    } else {
        post.order_id == pre.order_id && post.orders@ == pre.orders@
    }
    &&& pre.lp_2_gateway is None ==> r == Some(o) && post.lp_2_gateway is None
    &&& pre.lp_2_gateway is Some ==> r is None && post.lp_2_gateway is Some
        && post.lp_2_gateway.unwrap()@ == seq![o] + pre.lp_2_gateway.unwrap()@
}

/// What making up the order `o` from the id `drawn` does (see
/// `generate_random_order`).
pub open spec fn made_up(pre: LiquidProvider, post: LiquidProvider, r: Option<Order>, o: Order, drawn: usize) -> bool {
    &&& drawn <= pre.order_id
    &&& o.order_id == Some(pre.order_id)
    &&& o.side == Side::Bid
    &&& o.price.scale_spec() == 0 && 8 <= o.price.mantissa_spec() <= 11
    &&& o.size.scale_spec() == 0 && 100 <= o.size.mantissa_spec() <= 900 && o.size.mantissa_spec() % 100 == 0
    &&& o.trade_id is None && o.client_oid is None && o.status is None && o.timstamp is None
    &&& if first_with_id(pre.orders@, drawn) is None {
        o.action == Some(Action::New) && post.order_id == pre.order_id + 1 && post.orders@ == pre.orders@.push(o)
    } else {
        o.action == Some(Action::Modify) && post.order_id == pre.order_id && post.orders@ == pre.orders@
    }
    &&& pre.lp_2_gateway is None ==> r == Some(o) && post.lp_2_gateway is None
    &&& pre.lp_2_gateway is Some ==> r is None && post.lp_2_gateway is Some
        && post.lp_2_gateway.unwrap()@ == seq![o] + pre.lp_2_gateway.unwrap()@
}

/// The provider numbers its orders in turn: each kept order's id is its
/// index, and the next id is the number of orders kept.
pub open spec fn ids_in_turn(lp: LiquidProvider) -> bool {
    &&& lp.order_id == lp.orders@.len()
    &&& forall|i: int| 0 <= i < lp.orders@.len() ==> (#[trigger] lp.orders@[i]).order_id == Some(i as usize)
}

/// Making up an order keeps the provider's orders numbered in turn.
pub proof fn lemma_made_up_keeps_ids(pre: LiquidProvider, post: LiquidProvider, r: Option<Order>, o: Order, drawn: usize)
    requires
        ids_in_turn(pre),
        made_up(pre, post, r, o, drawn),
    ensures
        ids_in_turn(post),
{
    if first_with_id(pre.orders@, drawn) is None {
        assert forall|i: int| 0 <= i < post.orders@.len() implies (#[trigger] post.orders@[i]).order_id == Some(
            i as usize,
        ) by {
            if i < pre.orders@.len() {
                assert(post.orders@[i] == pre.orders@[i]);
            }
        }
    }
}

} // verus!
