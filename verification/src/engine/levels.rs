//! One side of a price book: price levels kept in ascending order of price,
//! at most one level per price value.  It is viewed as a map from the price
//! value (see `Dec`'s view) to the level.
use crate::engine::common::Depth;
use crate::utils::decimal::{dec_eq, dec_lt};
use vstd::prelude::*;

verus! {

/// Strictly ascending prices.
pub open spec fn sorted_by_price(s: Seq<Depth>) -> bool {
    forall|i: int, j: int| 0 <= i < j < s.len() ==> (#[trigger] s[i]).price@ < (#[trigger] s[j]).price@
}

/// Some level of `s` stands at price value `k`.
pub open spec fn has_price(s: Seq<Depth>, k: int) -> bool {
    exists|i: int| 0 <= i < s.len() && (#[trigger] s[i]).price@ == k
}

/// The level of `s` at price value `k`.
pub open spec fn level_at(s: Seq<Depth>, k: int) -> Depth {
    s[choose|i: int| 0 <= i < s.len() && (#[trigger] s[i]).price@ == k]
}

/// The map from price value to level.
pub open spec fn levels_map(s: Seq<Depth>) -> Map<int, Depth> {
    Map::new(|k: int| has_price(s, k), |k: int| level_at(s, k))
}

/// In a sorted sequence the level at index `i` is the one the map gives for its price.
pub proof fn lemma_levels_map_at(s: Seq<Depth>, i: int)
    requires
        sorted_by_price(s),
        0 <= i < s.len(),
    ensures
        levels_map(s).contains_key(s[i].price@),
        levels_map(s)[s[i].price@] == s[i],
{
    let k = s[i].price@;
    let j = choose|j: int| 0 <= j < s.len() && (#[trigger] s[j]).price@ == k;
    if j < i {
    } else if j > i {
    }
}

/// Replacing the level at index `i` by one at the same price value.
proof fn lemma_levels_update(s: Seq<Depth>, i: int, d: Depth)
    requires
        sorted_by_price(s),
        0 <= i < s.len(),
        d.price@ == s[i].price@,
    ensures
        sorted_by_price(s.update(i, d)),
        levels_map(s.update(i, d)) =~= levels_map(s).insert(d.price@, d),
{
    let t = s.update(i, d);
    assert(sorted_by_price(t));
    lemma_levels_map_at(t, i);
    assert forall|k: int| #[trigger] levels_map(t).contains_key(k) == levels_map(s).insert(
        d.price@,
        d,
    ).contains_key(k) by {
        if has_price(t, k) {
            let j = choose|j: int| 0 <= j < t.len() && (#[trigger] t[j]).price@ == k;
            if j != i {
            }
        }
        if has_price(s, k) {
            let j = choose|j: int| 0 <= j < s.len() && (#[trigger] s[j]).price@ == k;
            if j != i {
                assert(t[j].price@ == k);
            }
        }
    }
    assert forall|k: int| #[trigger] levels_map(t).contains_key(k) implies levels_map(t)[k]
        == levels_map(s).insert(d.price@, d)[k] by {
        if k != d.price@ {
            let j = choose|j: int| 0 <= j < t.len() && (#[trigger] t[j]).price@ == k;
            lemma_levels_map_at(t, j);
            lemma_levels_map_at(s, j);
        }
    }
}

/// Inserting a level at the index where its price value belongs.
proof fn lemma_levels_insert(s: Seq<Depth>, pos: int, d: Depth)
    requires
        sorted_by_price(s),
        0 <= pos <= s.len(),
        forall|j: int| 0 <= j < pos ==> (#[trigger] s[j]).price@ < d.price@,
        forall|j: int| pos <= j < s.len() ==> d.price@ < (#[trigger] s[j]).price@,
    ensures
        sorted_by_price(s.insert(pos, d)),
        levels_map(s.insert(pos, d)) =~= levels_map(s).insert(d.price@, d),
{
    let t = s.insert(pos, d);
    assert(sorted_by_price(t)) by {
        assert forall|a: int, b: int| 0 <= a < b < t.len() implies (#[trigger] t[a]).price@ < (
        #[trigger] t[b]).price@ by {
            if b < pos {
            } else if b == pos {
            } else if a < pos {
            } else if a == pos {
            } else {
            }
        }
    }
    lemma_levels_map_at(t, pos);
    assert forall|k: int| #[trigger] levels_map(t).contains_key(k) == levels_map(s).insert(
        d.price@,
        d,
    ).contains_key(k) by {
        if has_price(t, k) {
            let j = choose|j: int| 0 <= j < t.len() && (#[trigger] t[j]).price@ == k;
            if j < pos {
            } else if j > pos {
            }
        }
        if has_price(s, k) {
            let j = choose|j: int| 0 <= j < s.len() && (#[trigger] s[j]).price@ == k;
            if j < pos {
                assert(t[j].price@ == k);
            } else {
                assert(t[j + 1].price@ == k);
            }
        }
    }
    assert forall|k: int| #[trigger] levels_map(t).contains_key(k) implies levels_map(t)[k]
        == levels_map(s).insert(d.price@, d)[k] by {
        if k != d.price@ {
            let j = choose|j: int| 0 <= j < t.len() && (#[trigger] t[j]).price@ == k;
            lemma_levels_map_at(t, j);
            if j < pos {
                lemma_levels_map_at(s, j);
            } else {
                lemma_levels_map_at(s, j - 1);
            }
        }
    }
}

/// Removing the level at index `i`.
proof fn lemma_levels_remove(s: Seq<Depth>, i: int)
    requires
        sorted_by_price(s),
        0 <= i < s.len(),
    ensures
        sorted_by_price(s.remove(i)),
        levels_map(s.remove(i)) =~= levels_map(s).remove(s[i].price@),
{
    let t = s.remove(i);
    let k0 = s[i].price@;
    assert(sorted_by_price(t)) by {
        assert forall|a: int, b: int| 0 <= a < b < t.len() implies (#[trigger] t[a]).price@ < (
        #[trigger] t[b]).price@ by {
            if b < i {
            } else if a < i {
            } else {
            }
        }
    }
    assert forall|k: int| #[trigger] levels_map(t).contains_key(k) == levels_map(s).remove(
        k0,
    ).contains_key(k) by {
        if has_price(t, k) {
            let j = choose|j: int| 0 <= j < t.len() && (#[trigger] t[j]).price@ == k;
            if j < i {
            } else {
            }
        }
        if has_price(s, k) && k != k0 {
            let j = choose|j: int| 0 <= j < s.len() && (#[trigger] s[j]).price@ == k;
            if j < i {
                assert(t[j].price@ == k);
            } else {
                assert(t[j - 1].price@ == k);
            }
        }
    }
    assert forall|k: int| #[trigger] levels_map(t).contains_key(k) implies levels_map(t)[k]
        == levels_map(s).remove(k0)[k] by {
        let j = choose|j: int| 0 <= j < t.len() && (#[trigger] t[j]).price@ == k;
        lemma_levels_map_at(t, j);
        if j < i {
            lemma_levels_map_at(s, j);
        } else {
            lemma_levels_map_at(s, j + 1);
        }
    }
}

/// The empty sequence gives the empty map.
proof fn lemma_levels_empty(s: Seq<Depth>)
    requires
        s.len() == 0,
    ensures
        levels_map(s) =~= Map::<int, Depth>::empty(),
{
}

/// One side of a book: levels in ascending order of price, one per price value.
pub struct PriceLevels {
    levels: Vec<Depth>,
}

impl PriceLevels {
    #[verifier::type_invariant]
    spec fn inv(self) -> bool {
        sorted_by_price(self.levels@)
    }

    /// The levels in ascending order of price.
    pub closed spec fn seq(self) -> Seq<Depth> {
        self.levels@
    }

    /// An empty side.
    pub fn new() -> (r: PriceLevels)
        ensures
            r@ == Map::<int, Depth>::empty(),
            r.seq().len() == 0,
    {
        let r = PriceLevels { levels: Vec::new() };
        proof {
            lemma_levels_empty(r.levels@);
        }
        r
    }

    /// Removes every level.
    pub fn clear(&mut self)
        ensures
            final(self)@ == Map::<int, Depth>::empty(),
    {
        self.levels = Vec::new();
        proof {
            lemma_levels_empty(self.levels@);
        }
    }

    /// Whether there is no level.
    pub fn is_empty(&self) -> (r: bool)
        ensures
            r == (self@ == Map::<int, Depth>::empty()),
    {
        proof {
            use_type_invariant(self);
        }
        if self.levels.len() == 0 {
            proof {
                lemma_levels_empty(self.levels@);
            }
            true
        } else {
            proof {
                lemma_levels_map_at(self.levels@, 0);
            }
            false
        }
    }

    /// The number of levels.
    pub fn len(&self) -> (r: usize)
        ensures
            r == self.seq().len(),
    {
        self.levels.len()
    }

    /// The index of the first level whose price is not below `price`.
    fn lower_bound(&self, price: &crate::utils::decimal::Dec) -> (pos: usize)
        ensures
            pos <= self.levels@.len(),
            forall|j: int| 0 <= j < pos ==> (#[trigger] self.levels@[j]).price@ < price@,
            pos < self.levels@.len() ==> price@ <= self.levels@[pos as int].price@,
    {
        let mut pos: usize = 0;
        while pos < self.levels.len()
            invariant
                pos <= self.levels@.len(),
                forall|j: int| 0 <= j < pos ==> (#[trigger] self.levels@[j]).price@ < price@,
            decreases self.levels@.len() - pos,
        {
            if !dec_lt(&self.levels[pos].price, price) {
                return pos;
            }
            pos = pos + 1;
        }
        pos
    }

    /// Whether a level stands at the value of `price`.
    pub fn contains(&self, price: &crate::utils::decimal::Dec) -> (r: bool)
        ensures
            r == self@.contains_key(price@),
    {
        proof {
            use_type_invariant(self);
        }
        let pos = self.lower_bound(price);
        if pos < self.levels.len() && dec_eq(&self.levels[pos].price, price) {
            proof {
                lemma_levels_map_at(self.levels@, pos as int);
            }
            true
        } else {
            proof {
                if has_price(self.levels@, price@) {
                    let j = choose|j: int|
                        0 <= j < self.levels@.len() && (#[trigger] self.levels@[j]).price@
                            == price@;
                    if j > pos {
                    }
                }
            }
            false
        }
    }

    /// The level at the value of `price`, if any.
    pub fn get(&self, price: &crate::utils::decimal::Dec) -> (r: Option<Depth>)
        ensures
            r == (if self@.contains_key(price@) {
                Some(self@[price@])
            } else {
                None::<Depth>
            }),
            self@.contains_key(price@) ==> self@[price@].price@ == price@,
    {
        proof {
            use_type_invariant(self);
        }
        let pos = self.lower_bound(price);
        if pos < self.levels.len() && dec_eq(&self.levels[pos].price, price) {
            proof {
                lemma_levels_map_at(self.levels@, pos as int);
            }
            Some(self.levels[pos])
        } else {
            proof {
                if has_price(self.levels@, price@) {
                    let j = choose|j: int|
                        0 <= j < self.levels@.len() && (#[trigger] self.levels@[j]).price@
                            == price@;
                    if j > pos {
                    }
                }
            }
            None
        }
    }

    /// Puts `depth` at the value of its price, replacing the level there.
    pub fn insert(&mut self, depth: Depth)
        ensures
            final(self)@ == old(self)@.insert(depth.price@, depth),
    {
        proof {
            use_type_invariant(&*self);
        }
        let pos = self.lower_bound(&depth.price);
        if pos < self.levels.len() && dec_eq(&self.levels[pos].price, &depth.price) {
            proof {
                lemma_levels_update(self.levels@, pos as int, depth);
            }
            let mut levels = Vec::new();
            std::mem::swap(&mut levels, &mut self.levels);
            levels.set(pos, depth);
            self.levels = levels;
        } else {
            proof {
                assert forall|j: int| pos <= j < self.levels@.len() implies depth.price@ < (
                #[trigger] self.levels@[j]).price@ by {
                    if j > pos {
                    }
                }
                lemma_levels_insert(self.levels@, pos as int, depth);
            }
            let mut levels = Vec::new();
            std::mem::swap(&mut levels, &mut self.levels);
            levels.insert(pos, depth);
            self.levels = levels;
        }
    }

    /// Removes the level at the value of `price`, if there is one.
    pub fn remove(&mut self, price: &crate::utils::decimal::Dec)
        ensures
            final(self)@ == old(self)@.remove(price@),
    {
        proof {
            use_type_invariant(&*self);
        }
        let pos = self.lower_bound(price);
        if pos < self.levels.len() && dec_eq(&self.levels[pos].price, price) {
            proof {
                lemma_levels_remove(self.levels@, pos as int);
            }
            let mut levels = Vec::new();
            std::mem::swap(&mut levels, &mut self.levels);
            levels.remove(pos);
            self.levels = levels;
        } else {
            proof {
                if has_price(self.levels@, price@) {
                    let j = choose|j: int|
                        0 <= j < self.levels@.len() && (#[trigger] self.levels@[j]).price@
                            == price@;
                    if j > pos {
                    }
                }
            }
        }
    }

    /// The level with the lowest price, if any.
    pub fn first(&self) -> (r: Option<Depth>)
        ensures
            r is None <==> self@ == Map::<int, Depth>::empty(),
            r matches Some(d) ==> self@.contains_key(d.price@) && self@[d.price@] == d && forall|
                k: int,
            | #[trigger] self@.contains_key(k) ==> d.price@ <= k,
    {
        proof {
            use_type_invariant(self);
        }
        if self.levels.len() == 0 {
            proof {
                lemma_levels_empty(self.levels@);
            }
            None
        } else {
            let d = self.levels[0];
            proof {
                let s = self.levels@;
                lemma_levels_map_at(s, 0);
                assert forall|k: int| #[trigger] self@.contains_key(k) implies d.price@ <= k by {
                    let j = choose|j: int| 0 <= j < s.len() && (#[trigger] s[j]).price@ == k;
                    if j > 0 {
                    }
                }
            }
            Some(d)
        }
    }

    /// The level with the highest price, if any.
    pub fn last(&self) -> (r: Option<Depth>)
        ensures
            r is None <==> self@ == Map::<int, Depth>::empty(),
            r matches Some(d) ==> self@.contains_key(d.price@) && self@[d.price@] == d && forall|
                k: int,
            | #[trigger] self@.contains_key(k) ==> k <= d.price@,
    {
        proof {
            use_type_invariant(self);
        }
        let n = self.levels.len();
        if n == 0 {
            proof {
                lemma_levels_empty(self.levels@);
            }
            None
        } else {
            let d = self.levels[n - 1];
            proof {
                let s = self.levels@;
                lemma_levels_map_at(s, n - 1);
                assert forall|k: int| #[trigger] self@.contains_key(k) implies k <= d.price@ by {
                    let j = choose|j: int| 0 <= j < s.len() && (#[trigger] s[j]).price@ == k;
                    if j < n - 1 {
                    }
                }
            }
            Some(d)
        }
    }

    /// A copy of the side.
    pub fn copy(&self) -> (r: PriceLevels)
        ensures
            r@ == self@,
    {
        proof {
            use_type_invariant(self);
        }
        let levels = self.levels.clone();
        PriceLevels { levels }
    }

    /// The levels in ascending order of price.
    pub fn to_vec(&self) -> (r: Vec<Depth>)
        ensures
            r@ == self.seq(),
            sorted_by_price(r@),
            self@ == levels_map(r@),
    {
        proof {
            use_type_invariant(self);
        }
        self.levels.clone()
    }
}

impl View for PriceLevels {
    type V = Map<int, Depth>;

    open spec fn view(&self) -> Map<int, Depth> {
        levels_map(self.seq())
    }
}

} // verus!
