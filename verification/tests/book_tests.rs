use enki::book_side::BookSide;
use enki::books_manager::{BooksManager, SeedLevel};
use enki::order_book::OrderBook;
use enki::types::{Config, MarketEvent, QuoteUpdate, RateProfile, Side, Symbol, BOOK_LEVELS};

fn line(ts: u64, symbol: Symbol, side: Side, price: f64, size: f64, id: u64) -> QuoteUpdate {
    QuoteUpdate { ts, symbol, side, price: price.to_bits(), size: size.to_bits(), id }
}

fn prices(quotes: &[QuoteUpdate]) -> Vec<f64> {
    quotes.iter().map(|q| f64::from_bits(q.price)).collect()
}

#[test]
fn update_emits_the_quote() {
    let mut bids = BookSide::new(Side::Bid);
    let out = bids.update(7, 64967.5f64.to_bits(), 2.3142f64.to_bits(), 1717430400000000, Symbol::BtcUsd, 999);
    assert_eq!(out, vec![line(1717430400000000, Symbol::BtcUsd, Side::Bid, 64967.5, 2.3142, 7)]);
    let snap = bids.snapshot(Symbol::BtcUsd, 5);
    assert_eq!(snap, vec![line(5, Symbol::BtcUsd, Side::Bid, 64967.5, 2.3142, 7)]);
}

#[test]
fn requote_moves_the_level_of_an_id() {
    let mut asks = BookSide::new(Side::Ask);
    asks.update(1, 101.0f64.to_bits(), 1.0f64.to_bits(), 1, Symbol::EthUsd, 999);
    asks.update(2, 102.0f64.to_bits(), 2.0f64.to_bits(), 2, Symbol::EthUsd, 999);
    asks.update(1, 103.0f64.to_bits(), 3.0f64.to_bits(), 3, Symbol::EthUsd, 999);
    let snap = asks.snapshot(Symbol::EthUsd, 9);
    assert_eq!(
        snap,
        vec![
            line(9, Symbol::EthUsd, Side::Ask, 102.0, 2.0, 2),
            line(9, Symbol::EthUsd, Side::Ask, 103.0, 3.0, 1),
        ]
    );
}

#[test]
fn same_price_replaces_the_level_and_keeps_its_price() {
    let mut bids = BookSide::new(Side::Bid);
    bids.update(1, 0.0f64.to_bits(), 1.0f64.to_bits(), 1, Symbol::BtcUsd, 999);
    let out = bids.update(2, (-0.0f64).to_bits(), 4.0f64.to_bits(), 2, Symbol::BtcUsd, 999);
    // The emitted line carries the price as quoted.
    assert_eq!(out[0].price, (-0.0f64).to_bits());
    let snap = bids.snapshot(Symbol::BtcUsd, 3);
    // One level, owned by the later id, resting at the first pattern.
    assert_eq!(snap.len(), 1);
    assert_eq!(snap[0].price, 0.0f64.to_bits());
    assert_eq!(snap[0].id, 2);
    assert_eq!(snap[0].size, 4.0f64.to_bits());
}

#[test]
fn moving_id_withdraws_whatever_rests_at_its_old_price() {
    let mut bids = BookSide::new(Side::Bid);
    bids.update(1, 10.0f64.to_bits(), 1.0f64.to_bits(), 1, Symbol::BtcUsd, 999);
    bids.update(2, 10.0f64.to_bits(), 2.0f64.to_bits(), 2, Symbol::BtcUsd, 999);
    bids.update(1, 11.0f64.to_bits(), 3.0f64.to_bits(), 3, Symbol::BtcUsd, 999);
    let snap = bids.snapshot(Symbol::BtcUsd, 4);
    assert_eq!(snap, vec![line(4, Symbol::BtcUsd, Side::Bid, 11.0, 3.0, 1)]);
}

#[test]
fn snapshot_is_sorted_by_price() {
    let mut asks = BookSide::new(Side::Ask);
    let ps: [f64; 6] = [5.0, -2.0, 3.5, 100.0, 0.25, -7.0];
    for (i, p) in ps.iter().enumerate() {
        asks.update(i as u64, p.to_bits(), 1.0f64.to_bits(), 0, Symbol::EthBtc, 999);
    }
    let snap = asks.snapshot(Symbol::EthBtc, 0);
    assert_eq!(prices(&snap), vec![-7.0, -2.0, 0.25, 3.5, 5.0, 100.0]);
}

fn fill(side: Side) -> BookSide {
    let mut book = BookSide::new(side);
    for i in 0..BOOK_LEVELS as u64 {
        let out = book.update(i, (100.0 + i as f64).to_bits(), 1.0f64.to_bits(), 1, Symbol::BtcUsd, 999);
        assert_eq!(out.len(), 1);
    }
    book
}

#[test]
fn full_bid_side_prunes_its_lowest_level() {
    let mut bids = fill(Side::Bid);
    let out = bids.update(500, 1000.0f64.to_bits(), 9.0f64.to_bits(), 77, Symbol::BtcUsd, 999);
    assert_eq!(out.len(), 2);
    assert_eq!(out[0], line(77, Symbol::BtcUsd, Side::Bid, 1000.0, 9.0, 500));
    assert_eq!(out[1].symbol, Symbol::BtcUsd);
    assert_eq!(out[1].side, Side::Bid);
    assert_eq!(out[1].price, 100.0f64.to_bits());
    assert_eq!(out[1].size, 0.0f64.to_bits());
    assert_eq!(out[1].id, 0);
    assert_eq!(out[1].ts, 999);
    let snap = bids.snapshot(Symbol::BtcUsd, 0);
    assert_eq!(snap.len(), BOOK_LEVELS);
    assert_eq!(f64::from_bits(snap[0].price), 101.0);
    assert_eq!(f64::from_bits(snap[BOOK_LEVELS - 1].price), 1000.0);
}

#[test]
fn full_ask_side_prunes_its_highest_level() {
    let mut asks = fill(Side::Ask);
    let out = asks.update(500, 50.0f64.to_bits(), 9.0f64.to_bits(), 77, Symbol::BtcUsd, 999);
    assert_eq!(out.len(), 2);
    assert_eq!(out[1].price, 199.0f64.to_bits());
    assert_eq!(out[1].size, 0);
    assert_eq!(out[1].id, 99);
    let snap = asks.snapshot(Symbol::BtcUsd, 0);
    assert_eq!(snap.len(), BOOK_LEVELS);
    assert_eq!(f64::from_bits(snap[0].price), 50.0);
    assert_eq!(f64::from_bits(snap[BOOK_LEVELS - 1].price), 198.0);
}

#[test]
fn a_new_worst_quote_on_a_full_side_is_withdrawn_at_once() {
    let mut bids = fill(Side::Bid);
    let out = bids.update(500, 1.0f64.to_bits(), 9.0f64.to_bits(), 77, Symbol::BtcUsd, 999);
    assert_eq!(out.len(), 2);
    assert_eq!(out[1].price, 1.0f64.to_bits());
    assert_eq!(out[1].id, 500);
    let snap = bids.snapshot(Symbol::BtcUsd, 0);
    assert_eq!(f64::from_bits(snap[0].price), 100.0);
    // The id was dropped too: quoting it again withdraws nothing.
    let again = bids.update(500, 2.0f64.to_bits(), 1.0f64.to_bits(), 78, Symbol::BtcUsd, 999);
    assert_eq!(again.len(), 2);
    assert_eq!(again[1].price, 2.0f64.to_bits());
}

#[test]
fn requoting_ids_on_a_full_side_never_prunes() {
    let mut asks = fill(Side::Ask);
    for i in 0..BOOK_LEVELS as u64 {
        let out = asks.update(i, (300.0 + i as f64).to_bits(), 2.0f64.to_bits(), 3, Symbol::BtcUsd, 999);
        assert_eq!(out.len(), 1);
    }
    assert_eq!(asks.snapshot(Symbol::BtcUsd, 0).len(), BOOK_LEVELS);
}

#[test]
fn order_book_routes_by_side() {
    let mut book = OrderBook::new(Symbol::EthUsd);
    assert_eq!(book.symbol(), Symbol::EthUsd);
    let b = book.handle_event(Side::Bid, 3, 3399.0f64.to_bits(), 1.0f64.to_bits(), 10, 999);
    let a = book.handle_event(Side::Ask, 3, 3401.0f64.to_bits(), 2.0f64.to_bits(), 11, 999);
    assert_eq!(b, vec![line(10, Symbol::EthUsd, Side::Bid, 3399.0, 1.0, 3)]);
    assert_eq!(a, vec![line(11, Symbol::EthUsd, Side::Ask, 3401.0, 2.0, 3)]);
}

fn config(symbols: Vec<Symbol>, mids: Vec<f64>) -> Config {
    Config {
        rate_profile: RateProfile::Constant,
        base_rate: 100.0f64.to_bits(),
        max_rate: 200.0f64.to_bits(),
        data_mode: "synthetic".to_string(),
        symbols,
        initial_mid_prices: mids.iter().map(|m| m.to_bits()).collect(),
    }
}

fn ladder(mid: f64) -> Vec<SeedLevel> {
    let spread = mid * 0.0005;
    (0..BOOK_LEVELS as u64)
        .map(|i| SeedLevel {
            bid: (mid - spread * (i + 1) as f64).to_bits(),
            ask: (mid + spread * (i + 1) as f64).to_bits(),
            size: ((i + 1) as f64).to_bits(),
        })
        .collect()
}

#[test]
fn seeding_quotes_every_rung_on_both_sides() {
    let cfg = config(vec![Symbol::BtcUsd], vec![65000.0]);
    let mut books = BooksManager::new();
    let out = books.init_books(&cfg, &vec![ladder(65000.0)], 42);
    assert_eq!(out.len(), 2 * BOOK_LEVELS);
    for i in 0..BOOK_LEVELS {
        assert_eq!(out[2 * i].side, Side::Bid);
        assert_eq!(out[2 * i + 1].side, Side::Ask);
        assert_eq!(out[2 * i].id, i as u64);
        assert_eq!(out[2 * i + 1].id, i as u64);
        assert_eq!(out[2 * i].ts, 42);
        assert_eq!(f64::from_bits(out[2 * i].size), (i + 1) as f64);
    }
    let spread = 65000.0 * 0.0005;
    assert_eq!(f64::from_bits(out[0].price), 65000.0 - spread * 1.0);
    assert_eq!(f64::from_bits(out[1].price), 65000.0 + spread * 1.0);
}

#[test]
fn populate_stamps_with_the_clock() {
    let cfg = config(vec![Symbol::EthUsd, Symbol::EthBtc], vec![3400.0, 0.052]);
    let mut books = BooksManager::new();
    let out = books.populate_and_init_books(&cfg, &vec![ladder(3400.0), ladder(0.052)]).unwrap();
    assert_eq!(out.len(), 4 * BOOK_LEVELS);
    assert!(out.iter().all(|q| q.ts == out[0].ts));
    assert_eq!(out[0].symbol, Symbol::EthUsd);
    assert_eq!(out[2 * BOOK_LEVELS].symbol, Symbol::EthBtc);
}

#[test]
fn events_reach_only_books_that_exist() {
    let cfg = config(vec![Symbol::BtcUsd], vec![65000.0]);
    let mut books = BooksManager::new();
    books.init_books(&cfg, &vec![ladder(65000.0)], 1);
    let known = MarketEvent { ts: 5, symbol: Symbol::BtcUsd, side: Side::Bid, price: 64999.0f64.to_bits(), size: 0.5f64.to_bits(), id: 0 };
    assert_eq!(books.process_event(&known, 999), Some(vec![line(5, Symbol::BtcUsd, Side::Bid, 64999.0, 0.5, 0)]));
    let unknown = MarketEvent { symbol: Symbol::EthUsd, ..known };
    assert_eq!(books.process_event(&unknown, 999), None);
}

#[test]
fn seeded_side_is_full_and_the_next_new_id_prunes() {
    let cfg = config(vec![Symbol::BtcUsd], vec![65000.0]);
    let mut books = BooksManager::new();
    books.init_books(&cfg, &vec![ladder(65000.0)], 1);
    let ev = MarketEvent { ts: 9, symbol: Symbol::BtcUsd, side: Side::Ask, price: 64990.0f64.to_bits(), size: 1.0f64.to_bits(), id: 100 };
    let out = books.process_event(&ev, 999).unwrap();
    assert_eq!(out.len(), 2);
    assert_eq!(f64::from_bits(out[1].price), 65000.0 + 65000.0 * 0.0005 * 100.0);
    assert_eq!(out[1].id, 99);
}

#[test]
fn books_manager_starts_empty() {
    let mut books = BooksManager::new();
    let ev = MarketEvent { ts: 1, symbol: Symbol::BtcUsd, side: Side::Bid, price: 1.0f64.to_bits(), size: 1.0f64.to_bits(), id: 1 };
    assert_eq!(books.process_event(&ev, 999), None);
}
