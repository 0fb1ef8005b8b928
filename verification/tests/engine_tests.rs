use enki::engine::{consumer_step, pacing_pause, ConsumerStep, Poll};
use enki::generator::{supports_data_mode, IdCounters};
use enki::types::{Side, Symbol, BOOK_LEVELS};

#[test]
fn consumer_delivers_spins_and_finishes() {
    assert_eq!(consumer_step(Poll::Received, true), ConsumerStep::Deliver);
    assert_eq!(consumer_step(Poll::Received, false), ConsumerStep::Deliver);
    assert_eq!(consumer_step(Poll::Empty, true), ConsumerStep::Spin);
    assert_eq!(consumer_step(Poll::Empty, false), ConsumerStep::Finish);
    assert_eq!(consumer_step(Poll::Disconnected, true), ConsumerStep::Finish);
    assert_eq!(consumer_step(Poll::Disconnected, false), ConsumerStep::Finish);
}

#[test]
fn pause_is_what_remains_of_the_interval() {
    assert_eq!(pacing_pause(2_000_000, 150_000), 1_850_000);
    assert_eq!(pacing_pause(100, 100), 0);
    assert_eq!(pacing_pause(100, 250), 0);
}

#[test]
fn ids_cycle_per_symbol_and_side() {
    let mut ids = IdCounters::new();
    let first: Vec<u64> = (0..BOOK_LEVELS + 2).map(|_| ids.next_id(Symbol::BtcUsd, Side::Bid)).collect();
    let mut expected: Vec<u64> = (1..BOOK_LEVELS as u64).collect();
    expected.extend([0, 1, 2]);
    assert_eq!(first, expected);
    assert_eq!(ids.next_id(Symbol::BtcUsd, Side::Ask), 1);
    assert_eq!(ids.next_id(Symbol::EthBtc, Side::Bid), 1);
    assert_eq!(ids.next_id(Symbol::BtcUsd, Side::Bid), 3);
}

#[test]
fn only_synthetic_data_is_supported() {
    assert!(supports_data_mode("synthetic"));
    assert!(!supports_data_mode("recorded"));
    assert!(!supports_data_mode(""));
}

#[test]
fn kth_id_on_a_side_is_k_mod_depth_whatever_else_is_asked() {
    let mut ids = IdCounters::new();
    let mut counts = std::collections::HashMap::new();
    let pattern = [
        (Symbol::BtcUsd, Side::Bid),
        (Symbol::EthUsd, Side::Ask),
        (Symbol::BtcUsd, Side::Bid),
        (Symbol::EthBtc, Side::Bid),
        (Symbol::BtcUsd, Side::Ask),
    ];
    for step in 0..1000 {
        let (sym, side) = pattern[(step * 7) % pattern.len()];
        let k = counts.entry((sym.index(), side == Side::Bid)).or_insert(0u64);
        *k += 1;
        assert_eq!(ids.next_id(sym, side), *k % BOOK_LEVELS as u64);
    }
}
