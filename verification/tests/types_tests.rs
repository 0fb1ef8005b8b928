use enki::types::{Side, Symbol, BOOK_LEVELS};
use enki::time::{micros_from_elapsed, now_micros};

#[test]
fn symbol_names_round_trip() {
    for sym in [Symbol::BtcUsd, Symbol::EthUsd, Symbol::EthBtc] {
        assert_eq!(Symbol::from_str(sym.as_str()), Ok(sym));
    }
    assert_eq!(Symbol::BtcUsd.as_str(), "BTCUSD");
    assert_eq!(Symbol::EthUsd.as_str(), "ETHUSD");
    assert_eq!(Symbol::EthBtc.as_str(), "ETHBTC");
}

#[test]
fn unknown_symbol_is_refused_with_its_text() {
    assert_eq!(Symbol::from_str("XRPUSD"), Err("unknown symbol: XRPUSD".to_string()));
    assert_eq!(Symbol::from_str("btcusd"), Err("unknown symbol: btcusd".to_string()));
    assert_eq!(Symbol::from_str(""), Err("unknown symbol: ".to_string()));
}

#[test]
fn side_names() {
    assert_eq!(Side::Bid.as_str(), "bid");
    assert_eq!(Side::Ask.as_str(), "ask");
}

#[test]
fn symbol_indices_are_distinct() {
    assert_eq!(Symbol::BtcUsd.index(), 0);
    assert_eq!(Symbol::EthUsd.index(), 1);
    assert_eq!(Symbol::EthBtc.index(), 2);
}

#[test]
fn book_depth_is_one_hundred() {
    assert_eq!(BOOK_LEVELS, 100);
}

#[test]
fn clock_reads_after_2020() {
    let t = now_micros().unwrap();
    assert!(t > 1_577_836_800_000_000);
    let later = now_micros().unwrap();
    assert!(later >= t);
}

#[test]
fn elapsed_micros_become_timestamps() {
    assert_eq!(micros_from_elapsed(Some(1_717_430_400_000_000)), Some(1_717_430_400_000_000));
    assert_eq!(micros_from_elapsed(Some((1u128 << 64) + 5)), Some(5));
    assert_eq!(micros_from_elapsed(None), None);
}
