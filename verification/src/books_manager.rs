//! The books of all symbols, and the routing of events to them.
use vstd::prelude::*;

use crate::book_side::{lemma_with_quote_wf, quote_line, BookSideView};
use crate::order_book::{OrderBook, OrderBookView};
use crate::time::{now_micros, timestamp_of};
use std::time::SystemTime;
use crate::price::spec_order_key;
use crate::types::{BookLevel, Config, MarketEvent, QuoteUpdate, Side, Symbol, BOOK_LEVELS};

verus! {

/// One rung of a starting ladder: the bid and ask price patterns and the size
/// pattern seeded under id equal to the rung's position.
#[derive(Clone, Copy, PartialEq, Eq, Debug, Structural)]
pub struct SeedLevel {
    pub bid: u64,
    pub ask: u64,
    pub size: u64,
}

/// The price a rung seeds on `side`.
pub open spec fn seed_price(side: Side, seed: SeedLevel) -> u64 {
    match side {
        Side::Bid => seed.bid,
        Side::Ask => seed.ask,
    }
}

/// A fresh side after its first `n` rungs are quoted, rung `i` under id `i`.
pub open spec fn seeded_side(side: Side, seeds: Seq<SeedLevel>, n: nat) -> BookSideView
    decreases n,
{
    if n == 0 {
        BookSideView::empty(side)
    } else {
        let i = (n - 1) as nat;
        seeded_side(side, seeds, i).after_update(i as u64, seed_price(side, seeds[i as int]), seeds[i as int].size)
    }
}

/// A fresh book after its whole ladder is quoted.
pub open spec fn seeded_book(sym: Symbol, seeds: Seq<SeedLevel>) -> OrderBookView {
    OrderBookView {
        sym,
        bids: seeded_side(Side::Bid, seeds, seeds.len()),
        asks: seeded_side(Side::Ask, seeds, seeds.len()),
    }
}

/// The lines the first `n` rungs emit: for each rung its bid, then its ask.
pub open spec fn seed_quotes(sym: Symbol, seeds: Seq<SeedLevel>, ts: u64, n: nat) -> Seq<QuoteUpdate>
    decreases n,
{
    if n == 0 {
        Seq::empty()
    } else {
        let i = (n - 1) as nat;
        seed_quotes(sym, seeds, ts, i)
            + seq![
                quote_line(ts, sym, Side::Bid, seeds[i as int].bid, seeds[i as int].size, i as u64),
                quote_line(ts, sym, Side::Ask, seeds[i as int].ask, seeds[i as int].size, i as u64),
            ]
    }
}

/// The books after the first `n` symbols are each given a fresh book seeded
/// with their ladder (a symbol listed twice ends with its later book).
pub open spec fn seeded_books(
    books: Map<Symbol, OrderBookView>,
    symbols: Seq<Symbol>,
    ladders: Seq<Seq<SeedLevel>>,
    n: nat,
) -> Map<Symbol, OrderBookView>
    decreases n,
{
    if n == 0 {
        books
    } else {
        let j = (n - 1) as nat;
        seeded_books(books, symbols, ladders, j).insert(symbols[j as int], seeded_book(symbols[j as int], ladders[j as int]))
    }
}

/// The lines seeding the first `n` symbols emits, symbol by symbol.
pub open spec fn seeding_quotes(symbols: Seq<Symbol>, ladders: Seq<Seq<SeedLevel>>, ts: u64, n: nat) -> Seq<QuoteUpdate>
    decreases n,
{
    if n == 0 {
        Seq::empty()
    } else {
        let j = (n - 1) as nat;
        seeding_quotes(symbols, ladders, ts, j) + seed_quotes(symbols[j as int], ladders[j as int], ts, ladders[j as int].len())
    }
}

/// The rungs' prices on `side` have pairwise different keys among the first `n`.
pub open spec fn distinct_seed_keys(side: Side, seeds: Seq<SeedLevel>, n: nat) -> bool {
    forall|a: int, b: int|
        0 <= a < b < n ==> spec_order_key(#[trigger] seed_price(side, seeds[a])) != spec_order_key(
            #[trigger] seed_price(side, seeds[b]),
        )
}

/// Seeding never overflows a side: after `n <= BOOK_LEVELS` rungs the side is
/// well formed, knows exactly the ids below `n`, each at its rung's price,
/// holds at most `n` levels (exactly `n` when the rungs' prices differ), and
/// each rung was a plain quote with nothing pruned.
pub proof fn lemma_seeded_side(side: Side, seeds: Seq<SeedLevel>, n: nat)
    requires
        n <= BOOK_LEVELS,
        n <= seeds.len(),
    ensures
        seeded_side(side, seeds, n).wf(),
        seeded_side(side, seeds, n).side == side,
        seeded_side(side, seeds, n).levels.len() <= n,
        forall|id: u64| #[trigger] seeded_side(side, seeds, n).ids.contains_key(id) <==> id < n,
        forall|id: u64| id < n ==> #[trigger] seeded_side(side, seeds, n).ids[id] == seed_price(side, seeds[id as int]),
        distinct_seed_keys(side, seeds, n) ==> seeded_side(side, seeds, n).levels.len() == n,
        n > 0 ==> {
            let i = (n - 1) as nat;
            let prev = seeded_side(side, seeds, i);
            &&& !prev.with_quote(i as u64, seed_price(side, seeds[i as int]), seeds[i as int].size).overfull()
        },
    decreases n,
{
    if n == 0 {
        let s = seeded_side(side, seeds, n);
        assert(s.levels =~= Map::empty());
        assert(s.ids =~= Map::empty());
    } else {
        let i = (n - 1) as nat;
        lemma_seeded_side(side, seeds, i);
        let prev = seeded_side(side, seeds, i);
        let price = seed_price(side, seeds[i as int]);
        let size = seeds[i as int].size;
        assert(!prev.ids.contains_key(i as u64));
        assert(prev.cleared(i as u64) == prev.levels);
        lemma_with_quote_wf(prev, i as u64, price, size);
        let t = prev.with_quote(i as u64, price, size);
        assert(t.levels.len() <= n);
        assert(!t.overfull());
        assert forall|id: u64| #[trigger] t.ids.contains_key(id) <==> id < n by {
            if id != i as u64 && id < n {
                assert(prev.ids.contains_key(id));
            }
        }
        if distinct_seed_keys(side, seeds, n) {
            assert(distinct_seed_keys(side, seeds, i));
            let k = spec_order_key(price);
            if prev.levels.contains_key(k) {
                let owner = prev.levels[k].1.id;
                assert(prev.ids.contains_key(owner));
                assert(owner < i);
                assert(spec_order_key(prev.ids[owner]) == k);
                assert(spec_order_key(seed_price(side, seeds[owner as int])) != spec_order_key(
                    seed_price(side, seeds[i as int]),
                ));
            }
            assert(t.levels.len() == n);
        }
    }
}

/// A side seeded with `n` rungs holds the rungs' quotes: each rung's price
/// rests, every resting level was quoted by some rung under that rung's
/// position as id, at that rung's price and with that rung's size; when the
/// rungs' prices differ, rung `i`'s level is exactly its price, size and id.
pub proof fn law_seeded_side_holds_rungs(side: Side, seeds: Seq<SeedLevel>, n: nat)
    requires
        n <= BOOK_LEVELS,
        n <= seeds.len(),
    ensures
        forall|i: int| 0 <= i < n ==> #[trigger] seeded_side(side, seeds, n).levels.contains_key(
            spec_order_key(seed_price(side, seeds[i])),
        ),
        forall|k: u64| #[trigger] seeded_side(side, seeds, n).levels.contains_key(k) ==> {
            let l = seeded_side(side, seeds, n).levels[k];
            &&& l.1.id < n
            &&& l.1.size == seeds[l.1.id as int].size
            &&& spec_order_key(seed_price(side, seeds[l.1.id as int])) == k
            &&& spec_order_key(l.0) == k
        },
        distinct_seed_keys(side, seeds, n) ==> forall|i: int| 0 <= i < n ==>
            #[trigger] seeded_side(side, seeds, n).levels[spec_order_key(seed_price(side, seeds[i]))] == (
                seed_price(side, seeds[i]),
                BookLevel { size: seeds[i].size, id: i as u64 },
            ),
    decreases n,
{
    lemma_seeded_side(side, seeds, n);
    if n > 0 {
        let i = (n - 1) as nat;
        law_seeded_side_holds_rungs(side, seeds, i);
        lemma_seeded_side(side, seeds, i);
        let prev = seeded_side(side, seeds, i);
        let price = seed_price(side, seeds[i as int]);
        let size = seeds[i as int].size;
        let kn = spec_order_key(price);
        assert(!prev.ids.contains_key(i as u64));
        assert(prev.cleared(i as u64) == prev.levels);
        let t = seeded_side(side, seeds, n);
        assert(t == prev.with_quote(i as u64, price, size));
        assert(t.levels == prev.levels.insert(kn, (if prev.levels.contains_key(kn) { prev.levels[kn].0 } else { price }, BookLevel { size, id: i as u64 })));
        assert forall|j: int| 0 <= j < n implies #[trigger] t.levels.contains_key(
            spec_order_key(seed_price(side, seeds[j])),
        ) by {
            if j < i {
                assert(prev.levels.contains_key(spec_order_key(seed_price(side, seeds[j]))));
            }
        }
        if distinct_seed_keys(side, seeds, n) {
            assert(distinct_seed_keys(side, seeds, i));
            if prev.levels.contains_key(kn) {
                let owner = prev.levels[kn].1.id;
                assert(spec_order_key(seed_price(side, seeds[owner as int])) == kn);
                assert(spec_order_key(seed_price(side, seeds[owner as int])) != spec_order_key(
                    seed_price(side, seeds[i as int]),
                ));
            }
            assert forall|j: int| 0 <= j < n implies #[trigger] t.levels[spec_order_key(seed_price(side, seeds[j]))] == (
                seed_price(side, seeds[j]),
                BookLevel { size: seeds[j].size, id: j as u64 },
            ) by {
                if j < i {
                    assert(spec_order_key(seed_price(side, seeds[j])) != spec_order_key(
                        seed_price(side, seeds[i as int]),
                    ));
                }
            }
        }
    }
}

/// Seeding `n` rungs emits two lines per rung, in rung order: line `2i` is
/// the bid of rung `i` and line `2i + 1` its ask, both with the rung's size
/// and with id `i`, all stamped `ts`.
pub proof fn law_seed_quotes(sym: Symbol, seeds: Seq<SeedLevel>, ts: u64, n: nat)
    requires
        n <= seeds.len(),
        n <= u64::MAX,
    ensures
        seed_quotes(sym, seeds, ts, n).len() == 2 * n,
        forall|i: int| 0 <= i < n ==> #[trigger] seed_quotes(sym, seeds, ts, n)[2 * i] == (QuoteUpdate {
            ts,
            symbol: sym,
            side: Side::Bid,
            price: seeds[i].bid,
            size: seeds[i].size,
            id: i as u64,
        }),
        forall|i: int| 0 <= i < n ==> #[trigger] seed_quotes(sym, seeds, ts, n)[2 * i + 1] == (QuoteUpdate {
            ts,
            symbol: sym,
            side: Side::Ask,
            price: seeds[i].ask,
            size: seeds[i].size,
            id: i as u64,
        }),
    decreases n,
{
    if n > 0 {
        law_seed_quotes(sym, seeds, ts, (n - 1) as nat);
    }
}

/// Seeding the first `n` symbols gives, for each listed symbol, the book
/// seeded with the ladder at the symbol's last listed position (both sides
/// holding that ladder's rungs), and leaves every other book as it was; its
/// lines are, symbol by symbol in list order, that symbol's ladder quotes:
/// line `2 * BOOK_LEVELS * j + 2i` is the bid of rung `i` of ladder `j`, the
/// next line its ask.
pub proof fn law_seeding(
    books: Map<Symbol, OrderBookView>,
    symbols: Seq<Symbol>,
    ladders: Seq<Seq<SeedLevel>>,
    ts: u64,
    n: nat,
)
    requires
        n <= symbols.len(),
        n <= ladders.len(),
        forall|j: int| 0 <= j < ladders.len() ==> #[trigger] ladders[j].len() == BOOK_LEVELS,
    ensures
        forall|j: int|
            #![trigger symbols[j]]
            0 <= j < n && (forall|j2: int| j < j2 < n ==> symbols[j2] != symbols[j]) ==> {
                let b = seeded_books(books, symbols, ladders, n)[symbols[j]];
                &&& seeded_books(books, symbols, ladders, n).contains_key(symbols[j])
                &&& b.sym == symbols[j]
                &&& b.bids == seeded_side(Side::Bid, ladders[j], BOOK_LEVELS as nat)
                &&& b.asks == seeded_side(Side::Ask, ladders[j], BOOK_LEVELS as nat)
            },
        forall|s: Symbol| (forall|j: int| 0 <= j < n ==> symbols[j] != s) ==> {
            &&& #[trigger] seeded_books(books, symbols, ladders, n).contains_key(s) == books.contains_key(s)
            &&& books.contains_key(s) ==> seeded_books(books, symbols, ladders, n)[s] == books[s]
        },
        seeding_quotes(symbols, ladders, ts, n).len() == 2 * BOOK_LEVELS * n,
        forall|j: int, i: int|
            #![trigger ladders[j][i]]
            0 <= j < n && 0 <= i < BOOK_LEVELS ==> {
            let q = seeding_quotes(symbols, ladders, ts, n);
            &&& q[2 * BOOK_LEVELS * j + 2 * i] == (QuoteUpdate {
                ts,
                symbol: symbols[j],
                side: Side::Bid,
                price: ladders[j][i].bid,
                size: ladders[j][i].size,
                id: i as u64,
            })
            &&& q[2 * BOOK_LEVELS * j + 2 * i + 1] == (QuoteUpdate {
                ts,
                symbol: symbols[j],
                side: Side::Ask,
                price: ladders[j][i].ask,
                size: ladders[j][i].size,
                id: i as u64,
            })
        },
    decreases n,
{
    if n > 0 {
        let m = (n - 1) as nat;
        law_seeding(books, symbols, ladders, ts, m);
        let sym = symbols[m as int];
        let seeds = ladders[m as int];
        law_seed_quotes(sym, seeds, ts, BOOK_LEVELS as nat);
        let prefix = seeding_quotes(symbols, ladders, ts, m);
        let tail = seed_quotes(sym, seeds, ts, seeds.len());
        assert(prefix.len() == 2 * BOOK_LEVELS * m);
        assert(2 * BOOK_LEVELS * n == 2 * BOOK_LEVELS * m + 2 * BOOK_LEVELS) by (nonlinear_arith)
            requires n == m + 1;
        let q = seeding_quotes(symbols, ladders, ts, n);
        assert(q == prefix + tail);
        assert forall|j: int, i: int|
            #![trigger ladders[j][i]]
            0 <= j < n && 0 <= i < BOOK_LEVELS implies {
            &&& q[2 * BOOK_LEVELS * j + 2 * i] == (QuoteUpdate {
                ts,
                symbol: symbols[j],
                side: Side::Bid,
                price: ladders[j][i].bid,
                size: ladders[j][i].size,
                id: i as u64,
            })
            &&& q[2 * BOOK_LEVELS * j + 2 * i + 1] == (QuoteUpdate {
                ts,
                symbol: symbols[j],
                side: Side::Ask,
                price: ladders[j][i].ask,
                size: ladders[j][i].size,
                id: i as u64,
            })
        } by {
            if j < m {
                assert(2 * BOOK_LEVELS * j + 2 * i + 1 < 2 * BOOK_LEVELS * m) by (nonlinear_arith)
                    requires j < m, 0 <= i < 100, j >= 0;
                assert(prefix[2 * BOOK_LEVELS * j + 2 * i] == q[2 * BOOK_LEVELS * j + 2 * i]);
            } else {
                assert(j == m);
                assert(q[2 * BOOK_LEVELS * j + 2 * i] == tail[2 * i]);
                assert(q[2 * BOOK_LEVELS * j + 2 * i + 1] == tail[2 * i + 1]);
            }
        }
    }
}

/// The books of every symbol, keyed by symbol.
pub struct BooksManager {
    btc_usd: Option<OrderBook>,
    eth_usd: Option<OrderBook>,
    eth_btc: Option<OrderBook>,
}

/// Every book is well formed and filed under its own symbol.
pub open spec fn books_wf(books: Map<Symbol, OrderBookView>) -> bool {
    forall|s: Symbol| #[trigger] books.contains_key(s) ==> books[s].sym == s && books[s].wf()
}

impl BooksManager {
    /// The slot that holds `sym`'s book.
    pub closed spec fn slot(&self, sym: Symbol) -> Option<OrderBook> {
        match sym {
            Symbol::BtcUsd => self.btc_usd,
            Symbol::EthUsd => self.eth_usd,
            Symbol::EthBtc => self.eth_btc,
        }
    }
}

impl View for BooksManager {
    type V = Map<Symbol, OrderBookView>;

    closed spec fn view(&self) -> Map<Symbol, OrderBookView> {
        Map::new(|s: Symbol| self.slot(s) is Some, |s: Symbol| self.slot(s)->0@)
    }
}

/// Routes an event to the book in `slot`, if there is one.
fn route(slot: &mut Option<OrderBook>, event: &MarketEvent, now: u64) -> (r: Option<Vec<QuoteUpdate>>)
    requires
        *old(slot) matches Some(b) ==> b@.wf(),
    ensures
        match *old(slot) {
            None => r is None && *final(slot) == *old(slot),
            Some(b) => {
                &&& *final(slot) matches Some(nb) && nb@ == b@.after_event(event.side, event.id, event.price, event.size)
                    && nb@.wf()
                &&& r matches Some(q) && b@.is_event_output(q@, event.side, event.id, event.price, event.size, event.ts, now)
            },
        },
{
    match slot {
        Some(book) => Some(book.handle_event(event.side, event.id, event.price, event.size, event.ts, now)),
        None => None,
    }
}

/// The ladders as sequences of rungs.
pub open spec fn ladder_views(ladders: Seq<Vec<SeedLevel>>) -> Seq<Seq<SeedLevel>> {
    ladders.map_values(|l: Vec<SeedLevel>| l@)
}

/// A fresh book for `sym`, seeded with `seeds` (rung `i` quoted on both sides
/// under id `i`), and the lines that seeding emits, all stamped `ts`.
fn seed_book(sym: Symbol, seeds: &Vec<SeedLevel>, ts: u64) -> (r: (OrderBook, Vec<QuoteUpdate>))
    requires
        seeds@.len() <= BOOK_LEVELS,
    ensures
        r.0@ == seeded_book(sym, seeds@),
        r.0@.wf(),
        r.1@ == seed_quotes(sym, seeds@, ts, seeds@.len()),
{
    let mut book = OrderBook::new(sym);
    let mut quotes: Vec<QuoteUpdate> = Vec::new();
    let n = seeds.len();
    proof {
        assert(book@.bids == seeded_side(Side::Bid, seeds@, 0));
        assert(book@.asks == seeded_side(Side::Ask, seeds@, 0));
        assert(quotes@ == seed_quotes(sym, seeds@, ts, 0));
    }
    for i in 0..n
        invariant
            n == seeds@.len(),
            n <= BOOK_LEVELS,
            book@.sym == sym,
            book@.bids == seeded_side(Side::Bid, seeds@, i as nat),
            book@.asks == seeded_side(Side::Ask, seeds@, i as nat),
            book@.wf(),
            quotes@ == seed_quotes(sym, seeds@, ts, i as nat),
    {
        let seed = seeds[i];
        let id = i as u64;
        proof {
            lemma_seeded_side(Side::Bid, seeds@, (i + 1) as nat);
            lemma_seeded_side(Side::Ask, seeds@, (i + 1) as nat);
        }
        let bid_lines = book.handle_event(Side::Bid, id, seed.bid, seed.size, ts, ts);
        let ask_lines = book.handle_event(Side::Ask, id, seed.ask, seed.size, ts, ts);
        quotes.push(bid_lines[0]);
        quotes.push(ask_lines[0]);
        proof {
            assert(quotes@ =~= seed_quotes(sym, seeds@, ts, (i + 1) as nat));
        }
    }
    (book, quotes)
}

impl BooksManager {
    /// Files `book` under its symbol, replacing any book already there.
    fn put(&mut self, book: OrderBook)
        requires
            books_wf(old(self)@),
            book@.wf(),
        ensures
            final(self)@ == old(self)@.insert(book@.sym, book@),
            books_wf(final(self)@),
    {
        let ghost before = self@;
        let ghost bv = book@;
        let sym = book.symbol();
        match sym {
            Symbol::BtcUsd => {
                self.btc_usd = Some(book);
            },
            Symbol::EthUsd => {
                self.eth_usd = Some(book);
            },
            Symbol::EthBtc => {
                self.eth_btc = Some(book);
            },
        }
        proof {
            assert(self@ =~= before.insert(bv.sym, bv));
        }
    }

    /// No books yet.
    pub fn new() -> (r: BooksManager)
        ensures
            r@ == Map::<Symbol, OrderBookView>::empty(),
    {
        let r = BooksManager { btc_usd: None, eth_usd: None, eth_btc: None };
        proof {
            assert(r@ =~= Map::<Symbol, OrderBookView>::empty());
        }
        r
    }

    /// Gives each configured symbol a fresh book seeded with its ladder
    /// (`ladders[j]` for `config.symbols[j]`, rung `i` quoted on both sides
    /// under id `i`) and returns the lines the seeding emits, all stamped `ts`.
    pub fn init_books(&mut self, config: &Config, ladders: &Vec<Vec<SeedLevel>>, ts: u64) -> (quotes: Vec<QuoteUpdate>)
        requires
            books_wf(old(self)@),
            config@.symbols.len() == ladders@.len(),
            forall|j: int| 0 <= j < ladders@.len() ==> #[trigger] ladders@[j]@.len() == BOOK_LEVELS,
        ensures
            books_wf(final(self)@),
            final(self)@ == seeded_books(old(self)@, config@.symbols, ladder_views(ladders@), ladders@.len()),
            quotes@ == seeding_quotes(config@.symbols, ladder_views(ladders@), ts, ladders@.len()),
    {
        let ghost before = self@;
        let ghost lv = ladder_views(ladders@);
        let mut quotes: Vec<QuoteUpdate> = Vec::new();
        let n = config.symbols.len();
        for j in 0..n
            invariant
                n == config@.symbols.len(),
                n == ladders@.len(),
                lv == ladder_views(ladders@),
                forall|k: int| 0 <= k < ladders@.len() ==> #[trigger] ladders@[k]@.len() == BOOK_LEVELS,
                books_wf(self@),
                self@ == seeded_books(before, config@.symbols, lv, j as nat),
                quotes@ == seeding_quotes(config@.symbols, lv, ts, j as nat),
        {
            let sym = config.symbols[j];
            proof {
                assert(lv[j as int] == ladders@[j as int]@);
            }
            let (book, mut lines) = seed_book(sym, &ladders[j], ts);
            self.put(book);
            quotes.append(&mut lines);
        }
        quotes
    }

    /// Seeds the books as `init_books` does, stamping every line with the
    /// clock's current reading; `None`, changing nothing, when the clock
    /// reads before the Unix epoch.
    pub fn populate_and_init_books(&mut self, config: &Config, ladders: &Vec<Vec<SeedLevel>>) -> (r: Option<Vec<QuoteUpdate>>)
        requires
            books_wf(old(self)@),
            config@.symbols.len() == ladders@.len(),
            forall|j: int| 0 <= j < ladders@.len() ==> #[trigger] ladders@[j]@.len() == BOOK_LEVELS,
        ensures
            books_wf(final(self)@),
            r is None ==> final(self)@ == old(self)@,
            r is Some ==> final(self)@ == seeded_books(old(self)@, config@.symbols, ladder_views(ladders@), ladders@.len()),
            r is None ==> exists|t: SystemTime| timestamp_of(t) is None,
            r matches Some(quotes) ==> exists|t: SystemTime, ts: u64|
                timestamp_of(t) == Some(ts) && quotes@ == seeding_quotes(config@.symbols, ladder_views(ladders@), ts, ladders@.len()),
    {
        match now_micros() {
            Some(ts) => Some(self.init_books(config, ladders, ts)),
            None => None,
        }
    }

    /// Applies an event to its symbol's book and returns the lines it
    /// produces, or `None`, changing nothing, when the symbol has no book.
    /// The withdrawal of a pruned level is stamped with the current time `now`.
    pub fn process_event(&mut self, event: &MarketEvent, now: u64) -> (r: Option<Vec<QuoteUpdate>>)
        requires
            books_wf(old(self)@),
        ensures
            books_wf(final(self)@),
            r is Some <==> old(self)@.contains_key(event.symbol),
            !old(self)@.contains_key(event.symbol) ==> final(self)@ == old(self)@,
            old(self)@.contains_key(event.symbol) ==> {
                let b = old(self)@[event.symbol];
                &&& final(self)@ == old(self)@.insert(event.symbol, b.after_event(event.side, event.id, event.price, event.size))
                &&& b.is_event_output(r->0@, event.side, event.id, event.price, event.size, event.ts, now)
            },
    {
        let ghost before = self@;
        proof {
            assert(old(self).slot(event.symbol) is Some ==> before.contains_key(event.symbol));
        }
        let r = match event.symbol {
            Symbol::BtcUsd => route(&mut self.btc_usd, event, now),
            Symbol::EthUsd => route(&mut self.eth_usd, event, now),
            Symbol::EthBtc => route(&mut self.eth_btc, event, now),
        };
        proof {
            if before.contains_key(event.symbol) {
                assert(self@ =~= before.insert(event.symbol, before[event.symbol].after_event(event.side, event.id, event.price, event.size)));
            } else {
                assert(self@ =~= before);
            }
        }
        r
    }
}

} // verus!
