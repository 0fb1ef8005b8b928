//! The id bookkeeping of the synthetic quote generator.
//!
//! Each symbol and side has its own counter; every quote takes the next id
//! in the cycle 1, 2, ..., `BOOK_LEVELS - 1`, 0, 1, ... so that a side is
//! never quoted under more than `BOOK_LEVELS` ids.
use vstd::prelude::*;

use crate::types::{spec_symbol_index, Side, Symbol, BOOK_LEVELS, SYMBOL_COUNT};

verus! {

/// Position of a side within a symbol's pair of counters.
pub open spec fn spec_side_index(side: Side) -> int {
    match side {
        Side::Bid => 0,
        Side::Ask => 1,
    }
}

/// Position of a symbol's side among all counters.
pub open spec fn counter_slot(sym: Symbol, side: Side) -> int {
    2 * spec_symbol_index(sym) + spec_side_index(side)
}

/// The id after `last` in the cycle.
pub open spec fn next_in_cycle(last: u64) -> u64 {
    ((last + 1) % (BOOK_LEVELS as int)) as u64
}

/// The id a counter holds after `n` quotes from a fresh start.
pub open spec fn id_after(n: nat) -> u64
    decreases n,
{
    if n == 0 {
        0
    } else {
        next_in_cycle(id_after((n - 1) as nat))
    }
}

/// Ids cycle with period `BOOK_LEVELS`: the `n`-th quote on a side (counting
/// from one) is given id `n mod BOOK_LEVELS`, so the first is 1 and the
/// hundredth is 0.
pub proof fn lemma_ids_cycle(n: nat)
    ensures
        id_after(n) == n % (BOOK_LEVELS as nat),
    decreases n,
{
    if n > 0 {
        lemma_ids_cycle((n - 1) as nat);
        assert(id_after((n - 1) as nat) == (n - 1) as nat % 100);
        assert(((n - 1) as nat % 100 + 1) % 100 == n % 100) by (nonlinear_arith)
            requires n > 0;
    }
}

/// The counters after a sequence of calls, each naming the symbol and side
/// it asks an id for, starting from all counters at zero.
pub open spec fn counters_after(calls: Seq<(Symbol, Side)>) -> Seq<u64>
    decreases calls.len(),
{
    if calls.len() == 0 {
        Seq::new(2 * SYMBOL_COUNT as nat, |i: int| 0u64)
    } else {
        let prev = counters_after(calls.drop_last());
        let slot = counter_slot(calls.last().0, calls.last().1);
        prev.update(slot, next_in_cycle(prev[slot]))
    }
}

/// How many of the calls ask for an id on `sym`'s `side`.
pub open spec fn calls_on(calls: Seq<(Symbol, Side)>, sym: Symbol, side: Side) -> nat
    decreases calls.len(),
{
    if calls.len() == 0 {
        0
    } else {
        calls_on(calls.drop_last(), sym, side) + if calls.last() == (sym, side) { 1nat } else { 0nat }
    }
}

/// Two symbol-sides share a counter only when they are the same.
proof fn lemma_counter_slots_distinct(s1: Symbol, d1: Side, s2: Symbol, d2: Side)
    ensures
        0 <= counter_slot(s1, d1) < 2 * SYMBOL_COUNT,
        counter_slot(s1, d1) == counter_slot(s2, d2) ==> s1 == s2 && d1 == d2,
{
}

/// After any sequence of calls from fresh counters, each symbol-side's
/// counter is the number of calls made on it, modulo `BOOK_LEVELS`: the
/// `k`-th id handed out on a symbol's side is `k mod BOOK_LEVELS`, whatever
/// was asked of the other counters in between.
pub proof fn law_ids_count_calls(calls: Seq<(Symbol, Side)>)
    ensures
        counters_after(calls).len() == 2 * SYMBOL_COUNT,
        forall|sym: Symbol, side: Side|
            #[trigger] counters_after(calls)[counter_slot(sym, side)] == calls_on(calls, sym, side) % (
            BOOK_LEVELS as nat),
    decreases calls.len(),
{
    if calls.len() > 0 {
        let rest = calls.drop_last();
        law_ids_count_calls(rest);
        let (ls, ld) = calls.last();
        assert forall|sym: Symbol, side: Side|
            #[trigger] counters_after(calls)[counter_slot(sym, side)] == calls_on(calls, sym, side) % (
            BOOK_LEVELS as nat) by {
            lemma_counter_slots_distinct(sym, side, ls, ld);
            lemma_counter_slots_distinct(ls, ld, ls, ld);
            let n = calls_on(rest, sym, side);
            if (sym, side) == (ls, ld) {
                assert((n % 100 + 1) % 100 == (n + 1) % 100) by (nonlinear_arith);
            } else {
                assert(counter_slot(sym, side) != counter_slot(ls, ld));
            }
        }
    }
}

/// A call of `next_id` on counters that stand at `counters_after(calls)`
/// leaves them at `counters_after` of the calls with this one appended, and
/// the id it hands out is the number of calls on that symbol's side so far,
/// this one included, modulo `BOOK_LEVELS`.
pub proof fn law_next_id_extends_calls(calls: Seq<(Symbol, Side)>, sym: Symbol, side: Side)
    ensures
        ({
            let before = counters_after(calls);
            let slot = counter_slot(sym, side);
            let id = next_in_cycle(before[slot]);
            &&& counters_after(calls.push((sym, side))) == before.update(slot, id)
            &&& id == calls_on(calls.push((sym, side)), sym, side) % (BOOK_LEVELS as nat)
        }),
{
    assert(calls.push((sym, side)).drop_last() =~= calls);
    law_ids_count_calls(calls.push((sym, side)));
    law_ids_count_calls(calls);
    lemma_counter_slots_distinct(sym, side, sym, side);
    assert(counters_after(calls.push((sym, side)))[counter_slot(sym, side)] == calls_on(
        calls.push((sym, side)),
        sym,
        side,
    ) % (BOOK_LEVELS as nat));
}

/// The last id handed out for every symbol and side.
pub struct IdCounters {
    counters: Vec<u64>,
}

impl View for IdCounters {
    type V = Seq<u64>;

    closed spec fn view(&self) -> Seq<u64> {
        self.counters@
    }
}

impl IdCounters {
    /// One counter per symbol and side, each below `BOOK_LEVELS`.
    pub open spec fn wf(self) -> bool {
        &&& self@.len() == 2 * SYMBOL_COUNT
        &&& forall|i: int| 0 <= i < self@.len() ==> #[trigger] self@[i] < BOOK_LEVELS
    }

    /// The last id handed out on a symbol's side.
    pub open spec fn last(self, sym: Symbol, side: Side) -> u64 {
        self@[counter_slot(sym, side)]
    }

    /// All counters at zero.
    pub fn new() -> (r: IdCounters)
        ensures
            r.wf(),
            r@ == counters_after(Seq::empty()),
            forall|sym: Symbol, side: Side| #[trigger] r.last(sym, side) == 0,
    {
        let mut counters: Vec<u64> = Vec::new();
        for i in 0..2 * SYMBOL_COUNT
            invariant
                counters@.len() == i,
                forall|j: int| 0 <= j < i ==> #[trigger] counters@[j] == 0,
        {
            counters.push(0);
        }
        let r = IdCounters { counters };
        proof {
            assert(r@ =~= counters_after(Seq::empty()));
        }
        r
    }

    /// Advances the counter of a symbol's side and returns the new id.
    pub fn next_id(&mut self, symbol: Symbol, side: Side) -> (id: u64)
        requires
            old(self).wf(),
        ensures
            final(self).wf(),
            id == next_in_cycle(old(self).last(symbol, side)),
            id < BOOK_LEVELS,
            final(self)@ == old(self)@.update(counter_slot(symbol, side), id),
    {
        let side_index: usize = match side {
            Side::Bid => 0,
            Side::Ask => 1,
        };
        let slot = 2 * symbol.index() + side_index;
        let id = (self.counters[slot] + 1) % (BOOK_LEVELS as u64);
        self.counters.set(slot, id);
        id
    }
}

/// Whether a data mode has a generator: only `synthetic` does.
pub fn supports_data_mode(mode: &str) -> (r: bool)
    ensures
        r == (mode@ == seq!['s', 'y', 'n', 't', 'h', 'e', 't', 'i', 'c']),
{
    proof {
        reveal_strlit("synthetic");
        assert("synthetic"@ =~= seq!['s', 'y', 'n', 't', 'h', 'e', 't', 'i', 'c']);
    }
    mode.to_string() == "synthetic".to_string()
}

} // verus!
