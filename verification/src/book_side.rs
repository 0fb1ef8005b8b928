//! One side (bids or asks) of a symbol's book.
//!
//! Levels are keyed by price: a new quote at a price that already rests
//! replaces that level, an id that quotes again first withdraws the level at
//! its previous price, and when more than `BOOK_LEVELS` levels rest the worst
//! one (lowest bid, highest ask) is dropped and announced with size zero.
use std::collections::{BTreeMap, HashMap};
use vstd::prelude::*;

use crate::ordered_keys::{entries_in_order, key_bounds};
use crate::price::{order_key, spec_order_key};
use crate::types::{BookLevel, QuoteUpdate, Side, Symbol, BOOK_LEVELS};

verus! {

/// What a book side holds: the resting levels by price key (each with the
/// price pattern it rests at) and the latest price each id quoted.
pub struct BookSideView {
    pub side: Side,
    pub levels: Map<u64, (u64, BookLevel)>,
    pub ids: Map<u64, u64>,
}

/// The feed line for a quote.
pub open spec fn quote_line(ts: u64, symbol: Symbol, side: Side, price: u64, size: u64, id: u64) -> QuoteUpdate {
    QuoteUpdate { ts, symbol, side, price, size, id }
}

impl BookSideView {
    /// The state of a fresh side.
    pub open spec fn empty(side: Side) -> BookSideView {
        BookSideView { side, levels: Map::empty(), ids: Map::empty() }
    }

    /// Well-formedness: finitely many levels, at most `BOOK_LEVELS` of them,
    /// each resting at a price of its own key, and each belonging to the id
    /// whose latest price has that key.
    pub open spec fn wf(self) -> bool {
        &&& self.levels.dom().finite()
        &&& self.ids.dom().finite()
        &&& self.levels.len() <= BOOK_LEVELS
        &&& forall|k: u64| #[trigger] self.levels.contains_key(k) ==> spec_order_key(self.levels[k].0) == k
        &&& forall|k: u64| #[trigger] self.levels.contains_key(k) ==> {
            let owner = self.levels[k].1.id;
            self.ids.contains_key(owner) && spec_order_key(self.ids[owner]) == k
        }
    }

    /// The levels once `id`'s previous price level, if it had one, is withdrawn.
    pub open spec fn cleared(self, id: u64) -> Map<u64, (u64, BookLevel)> {
        if self.ids.contains_key(id) {
            self.levels.remove(spec_order_key(self.ids[id]))
        } else {
            self.levels
        }
    }

    /// The side after `id` quotes `size` at `price`, before any pruning. A
    /// level already resting at that price keeps its price pattern.
    pub open spec fn with_quote(self, id: u64, price: u64, size: u64) -> BookSideView {
        let cleared = self.cleared(id);
        let k = spec_order_key(price);
        let resting = if cleared.contains_key(k) { cleared[k].0 } else { price };
        BookSideView {
            side: self.side,
            levels: cleared.insert(k, (resting, BookLevel { size, id })),
            ids: self.ids.insert(id, price),
        }
    }

    /// `k` is the key of the worst level: the lowest bid or the highest ask.
    pub open spec fn is_worst_key(self, k: u64) -> bool {
        &&& self.levels.contains_key(k)
        &&& forall|j: u64| #[trigger] self.levels.contains_key(j) ==> match self.side {
            Side::Bid => k <= j,
            Side::Ask => j <= k,
        }
    }

    /// The key of the worst level.
    pub open spec fn worst_key(self) -> u64 {
        choose|k: u64| self.is_worst_key(k)
    }

    /// The side with its worst level, and the id that owns it, dropped.
    pub open spec fn without_worst(self) -> BookSideView {
        let k = self.worst_key();
        BookSideView {
            side: self.side,
            levels: self.levels.remove(k),
            ids: self.ids.remove(self.levels[k].1.id),
        }
    }

    /// More levels rest than a side keeps.
    pub open spec fn overfull(self) -> bool {
        self.levels.len() > BOOK_LEVELS
    }

    /// The side after a quote, pruned back to `BOOK_LEVELS` levels.
    pub open spec fn after_update(self, id: u64, price: u64, size: u64) -> BookSideView {
        let s = self.with_quote(id, price, size);
        if s.overfull() {
            s.without_worst()
        } else {
            s
        }
    }

    /// The announcement of the worst level's withdrawal, stamped `now`.
    pub open spec fn is_prune_line(self, q: QuoteUpdate, symbol: Symbol, now: u64) -> bool {
        let k = self.worst_key();
        &&& q.ts == now
        &&& q.symbol == symbol
        &&& q.side == self.side
        &&& q.price == self.levels[k].0
        &&& q.size == 0
        &&& q.id == self.levels[k].1.id
    }

    /// The lines an update emits: the quote itself, then, when the side
    /// overflowed, the withdrawal of its worst level, stamped `now`.
    pub open spec fn is_update_output(self, quotes: Seq<QuoteUpdate>, id: u64, price: u64, size: u64, ts: u64, symbol: Symbol, now: u64) -> bool {
        let s = self.with_quote(id, price, size);
        &&& quotes.len() == (if s.overfull() { 2int } else { 1int })
        &&& quotes[0] == quote_line(ts, symbol, self.side, price, size, id)
        &&& s.overfull() ==> s.is_prune_line(quotes[1], symbol, now)
    }
}

/// A quote's updated state keeps the side well formed, once pruned.
pub(crate) proof fn lemma_with_quote_wf(s: BookSideView, id: u64, price: u64, size: u64)
    requires
        s.wf(),
    ensures
        s.with_quote(id, price, size).levels.dom().finite(),
        s.with_quote(id, price, size).ids.dom().finite(),
        s.with_quote(id, price, size).levels.len() <= BOOK_LEVELS + 1,
        ({
            let t = s.with_quote(id, price, size);
            &&& forall|k: u64| #[trigger] t.levels.contains_key(k) ==> spec_order_key(t.levels[k].0) == k
            &&& forall|k: u64| #[trigger] t.levels.contains_key(k) ==> {
                let owner = t.levels[k].1.id;
                t.ids.contains_key(owner) && spec_order_key(t.ids[owner]) == k
            }
        }),
{
    let t = s.with_quote(id, price, size);
    let cleared = s.cleared(id);
    let kn = spec_order_key(price);
    assert(cleared.dom().finite());
    assert(cleared.len() <= s.levels.len());
    assert forall|k: u64| #[trigger] t.levels.contains_key(k) implies {
        let owner = t.levels[k].1.id;
        t.ids.contains_key(owner) && spec_order_key(t.ids[owner]) == k
    } by {
        if k != kn {
            let owner = s.levels[k].1.id;
            if owner == id {
                assert(s.ids.contains_key(id));
                assert(spec_order_key(s.ids[id]) == k);
                assert(!cleared.contains_key(k));
            }
        }
    }
}

/// Dropping the worst level keeps every other level owned.
proof fn lemma_without_worst_wf(t: BookSideView)
    requires
        t.levels.dom().finite(),
        t.ids.dom().finite(),
        t.levels.len() == BOOK_LEVELS + 1,
        t.is_worst_key(t.worst_key()),
        forall|k: u64| #[trigger] t.levels.contains_key(k) ==> spec_order_key(t.levels[k].0) == k,
        forall|k: u64| #[trigger] t.levels.contains_key(k) ==> {
            let owner = t.levels[k].1.id;
            t.ids.contains_key(owner) && spec_order_key(t.ids[owner]) == k
        },
    ensures
        t.without_worst().wf(),
{
    let w = t.worst_key();
    let u = t.without_worst();
    assert forall|k: u64| #[trigger] u.levels.contains_key(k) implies {
        let owner = u.levels[k].1.id;
        u.ids.contains_key(owner) && spec_order_key(u.ids[owner]) == k
    } by {
        assert(t.levels.contains_key(k));
        assert(k != w);
        let owner = t.levels[k].1.id;
        if owner == t.levels[w].1.id {
            assert(spec_order_key(t.ids[owner]) == w);
        }
    }
}

/// A side with levels has a worst level.
pub proof fn lemma_worst_key_exists(s: BookSideView)
    requires
        s.levels.dom().finite(),
        s.levels.len() > 0,
    ensures
        s.is_worst_key(s.worst_key()),
{
    let dom = s.levels.dom();
    let leq = |a: u64, b: u64| a <= b;
    assert(vstd::relations::total_ordering(leq));
    match s.side {
        Side::Bid => {
            dom.find_unique_minimal_ensures(leq);
            let m = dom.find_unique_minimal(leq);
            dom.lemma_minimal_equivalent_least(leq, m);
            assert(vstd::relations::is_least(leq, m, dom));
            assert(dom.contains(m));
            assert forall|j: u64| #[trigger] s.levels.contains_key(j) implies m <= j by {
                assert(dom.contains(j));
                assert(leq(m, j));
            }
            assert(s.is_worst_key(m));
        },
        Side::Ask => {
            dom.find_unique_maximal_ensures(leq);
            let m = dom.find_unique_maximal(leq);
            dom.lemma_maximal_equivalent_greatest(leq, m);
            assert(vstd::relations::is_greatest(leq, m, dom));
            assert(dom.contains(m));
            assert forall|j: u64| #[trigger] s.levels.contains_key(j) implies j <= m by {
                assert(dom.contains(j));
                assert(leq(j, m));
            }
            assert(s.is_worst_key(m));
        },
    }
}

/// Every quote keeps a side well formed; in particular a side never holds
/// more than `BOOK_LEVELS` levels.
pub proof fn law_update_preserves_wf(s: BookSideView, id: u64, price: u64, size: u64)
    requires
        s.wf(),
    ensures
        s.after_update(id, price, size).wf(),
        s.after_update(id, price, size).levels.len() <= BOOK_LEVELS,
{
    lemma_with_quote_wf(s, id, price, size);
    let t = s.with_quote(id, price, size);
    if t.overfull() {
        lemma_worst_key_exists(t);
        lemma_without_worst_wf(t);
    }
}

/// After `id` quotes `size` at `price`, a level rests at that price's key,
/// owned by `id` with that size, and `id`'s latest price is `price`; the
/// only exception is a side that overflowed and whose worst level is the new
/// one, which is dropped at once together with `id`. Every other id keeps
/// its latest price.
pub proof fn law_latest_quote_rests(s: BookSideView, id: u64, price: u64, size: u64)
    requires
        s.wf(),
    ensures
        ({
            let t = s.with_quote(id, price, size);
            let u = s.after_update(id, price, size);
            let k = spec_order_key(price);
            &&& t.levels.contains_key(k) && t.levels[k].1 == (BookLevel { size, id })
            &&& (!t.overfull() || t.worst_key() != k) ==> {
                &&& u.levels.contains_key(k)
                &&& u.levels[k].1 == (BookLevel { size, id })
                &&& u.ids.contains_key(id) && u.ids[id] == price
            }
            &&& forall|other: u64| other != id && s.ids.contains_key(other) && (!t.overfull() || t.levels[t.worst_key()].1.id != other)
                ==> #[trigger] u.ids.contains_key(other) && u.ids[other] == s.ids[other]
        }),
{
    let t = s.with_quote(id, price, size);
    let k = spec_order_key(price);
    lemma_with_quote_wf(s, id, price, size);
    if t.overfull() {
        lemma_worst_key_exists(t);
    }
    if t.overfull() && t.worst_key() != k {
        let w = t.worst_key();
        if t.levels[w].1.id == id {
            assert(spec_order_key(t.ids[id]) == w);
        }
    }
}

/// One side of a book.
pub struct BookSide {
    side: Side,
    levels: BTreeMap<u64, (u64, BookLevel)>,
    id_to_price: HashMap<u64, u64>,
}

impl View for BookSide {
    type V = BookSideView;

    closed spec fn view(&self) -> BookSideView {
        BookSideView { side: self.side, levels: self.levels@, ids: self.id_to_price@ }
    }
}

impl BookSide {
    /// An empty side.
    pub fn new(side: Side) -> (r: BookSide)
        ensures
            r@ == BookSideView::empty(side),
            r@.wf(),
    {
        let r = BookSide { side, levels: BTreeMap::new(), id_to_price: HashMap::new() };
        proof {
            assert(r@.levels =~= Map::empty());
            assert(r@.ids =~= Map::empty());
        }
        r
    }

    /// Records that `id` now quotes `size` at `price` and returns the feed
    /// lines this produces: the quote, and, when the side then holds more than
    /// `BOOK_LEVELS` levels, the withdrawal (size zero) of its worst level,
    /// stamped with the current time `now`.
    pub fn update(&mut self, id: u64, price: u64, size: u64, ts: u64, symbol: Symbol, now: u64) -> (quotes: Vec<QuoteUpdate>)
        requires
            old(self)@.wf(),
        ensures
            final(self)@ == old(self)@.after_update(id, price, size),
            final(self)@.wf(),
            old(self)@.is_update_output(quotes@, id, price, size, ts, symbol, now),
    {
        let ghost before = self@;
        let previous = match self.id_to_price.get(&id) {
            Some(p) => Some(*p),
            None => None,
        };
        match previous {
            Some(old_price) => {
                let old_key = order_key(old_price);
                self.levels.remove(&old_key);
                self.id_to_price.insert(id, price);
            },
            None => {
                self.id_to_price.insert(id, price);
            },
        }
        let key = order_key(price);
        let resting = match self.levels.get(&key) {
            Some(entry) => entry.0,
            None => price,
        };
        self.levels.insert(key, (resting, BookLevel { size, id }));
        proof {
            assert(self@ == before.with_quote(id, price, size));
            lemma_with_quote_wf(before, id, price, size);
        }
        let mut quotes: Vec<QuoteUpdate> = Vec::new();
        quotes.push(QuoteUpdate { ts, symbol, side: self.side, price, size, id });
        if self.levels.len() > BOOK_LEVELS {
            let pruned = self.prune(symbol, now);
            quotes.push(pruned);
        }
        quotes
    }

    /// Drops the worst level (lowest bid, highest ask) and the id that owns
    /// it, and returns the announcement of its withdrawal.
    fn prune(&mut self, symbol: Symbol, now: u64) -> (q: QuoteUpdate)
        requires
            old(self)@.levels.dom().finite(),
            old(self)@.ids.dom().finite(),
            old(self)@.levels.len() == BOOK_LEVELS + 1,
            forall|k: u64| #[trigger] old(self)@.levels.contains_key(k) ==> spec_order_key(old(self)@.levels[k].0) == k,
            forall|k: u64| #[trigger] old(self)@.levels.contains_key(k) ==> {
                let owner = old(self)@.levels[k].1.id;
                old(self)@.ids.contains_key(owner) && spec_order_key(old(self)@.ids[owner]) == k
            },
        ensures
            final(self)@ == old(self)@.without_worst(),
            final(self)@.wf(),
            old(self)@.is_prune_line(q, symbol, now),
    {
        let ghost before = self@;
        let bounds = key_bounds(&self.levels);
        let (lo, hi) = match bounds {
            Some(b) => b,
            None => {
                proof {
                    assert(before.levels.len() == 0);
                }
                (0, 0)
            },
        };
        let key = match self.side {
            Side::Bid => lo,
            Side::Ask => hi,
        };
        proof {
            assert(before.is_worst_key(key));
            assert(before.worst_key() == key) by {
                let w = before.worst_key();
                assert(before.is_worst_key(w));
            }
        }
        let removed = self.levels.remove(&key);
        let (price, level) = match removed {
            Some(entry) => entry,
            None => (0, BookLevel { size: 0, id: 0 }),
        };
        self.id_to_price.remove(&level.id);
        proof {
            lemma_without_worst_wf(before);
            assert(self@ == before.without_worst());
        }
        QuoteUpdate { ts: now, symbol, side: self.side, price, size: 0, id: level.id }
    }

    /// The feed lines that restate every resting level, from the lowest price
    /// key to the highest, all stamped `ts`.
    pub fn snapshot(&self, symbol: Symbol, ts: u64) -> (quotes: Vec<QuoteUpdate>)
        requires
            self@.wf(),
        ensures
            quotes@.len() == self@.levels.len(),
            forall|i: int| 0 <= i < quotes@.len() ==> {
                let k = #[trigger] spec_order_key(quotes@[i].price);
                &&& self@.levels.contains_key(k)
                &&& quotes@[i] == quote_line(ts, symbol, self@.side, self@.levels[k].0, self@.levels[k].1.size, self@.levels[k].1.id)
            },
            forall|i: int, j: int| 0 <= i < j < quotes@.len() ==>
                spec_order_key(quotes@[i].price) < spec_order_key(quotes@[j].price),
    {
        let entries = entries_in_order(&self.levels);
        let mut quotes: Vec<QuoteUpdate> = Vec::new();
        let n = entries.len();
        for i in 0..n
            invariant
                n == entries@.len(),
                entries@.len() == self@.levels.len(),
                self@.wf(),
                forall|a: int| 0 <= a < entries@.len() ==> self@.levels.contains_key(#[trigger] entries@[a].0) && self@.levels[entries@[a].0] == entries@[a].1,
                forall|a: int, b: int| 0 <= a < b < entries@.len() ==> entries@[a].0 < entries@[b].0,
                quotes@.len() == i,
                forall|a: int| 0 <= a < i ==> #[trigger] quotes@[a] == quote_line(ts, symbol, self@.side, entries@[a].1.0, entries@[a].1.1.size, entries@[a].1.1.id),
        {
            let (_key, (price, level)) = entries[i];
            quotes.push(QuoteUpdate { ts, symbol, side: self.side, price, size: level.size, id: level.id });
        }
        proof {
            assert forall|a: int| 0 <= a < quotes@.len() implies spec_order_key(#[trigger] quotes@[a].price) == entries@[a].0 by {
                assert(self@.levels.contains_key(entries@[a].0));
            }
        }
        quotes
    }
}

} // verus!
