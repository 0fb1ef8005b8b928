use enki::config::{config_from_fields, parse_config, ConfigError, ConfigFields, DEFAULT_BASE_RATE, DEFAULT_MAX_RATE};
use enki::types::{RateProfile, Symbol};

const README_CONFIG: &str = r#"{
  "data_mode": "synthetic",
  "symbols": ["BTCUSD", "ETHUSD", "ETHBTC"],
  "rate_profile": "burst",
  "base_rate": 500.0,
  "max_rate": 10000.0,
  "initial_mid_prices": {
    "BTCUSD": 65000.0,
    "ETHUSD": 3400.0,
    "ETHBTC": 0.052
  }
}"#;

fn message(text: &str) -> String {
    match parse_config(text) {
        Ok(_) => panic!("accepted"),
        Err(e) => e.message(),
    }
}

#[test]
fn readme_config_parses() {
    let c = parse_config(README_CONFIG).unwrap();
    assert_eq!(c.rate_profile, RateProfile::Burst);
    assert_eq!(f64::from_bits(c.base_rate), 500.0);
    assert_eq!(f64::from_bits(c.max_rate), 10000.0);
    assert_eq!(c.data_mode, "synthetic");
    assert_eq!(c.symbols, vec![Symbol::BtcUsd, Symbol::EthUsd, Symbol::EthBtc]);
    let mids: Vec<f64> = c.initial_mid_prices.iter().map(|b| f64::from_bits(*b)).collect();
    assert_eq!(mids, vec![65000.0, 3400.0, 0.052]);
}

#[test]
fn missing_fields_take_defaults() {
    let c = parse_config(r#"{"symbols": ["ETHBTC"], "initial_mid_prices": {"ETHBTC": 1}}"#).unwrap();
    assert_eq!(c.rate_profile, RateProfile::SineWave);
    assert_eq!(c.base_rate, 1000.0f64.to_bits());
    assert_eq!(c.max_rate, 5000.0f64.to_bits());
    assert_eq!(c.data_mode, "synthetic");
    assert_eq!(c.initial_mid_prices, vec![1.0f64.to_bits()]);
}

#[test]
fn default_rate_patterns() {
    assert_eq!(DEFAULT_BASE_RATE, 1000.0f64.to_bits());
    assert_eq!(DEFAULT_MAX_RATE, 5000.0f64.to_bits());
}

#[test]
fn each_profile_name() {
    for (name, p) in [("sine", RateProfile::SineWave), ("constant", RateProfile::Constant), ("burst", RateProfile::Burst), ("ramp", RateProfile::Ramp)] {
        let doc = format!(r#"{{"rate_profile": "{name}", "symbols": ["BTCUSD"], "initial_mid_prices": {{"BTCUSD": 2.5}}}}"#);
        assert_eq!(parse_config(&doc).unwrap().rate_profile, p);
    }
}

#[test]
fn wrongly_typed_fields_take_defaults() {
    let c = parse_config(r#"{"data_mode": 3, "base_rate": "fast", "rate_profile": null, "symbols": ["BTCUSD"], "initial_mid_prices": {"BTCUSD": 2.5}}"#).unwrap();
    assert_eq!(c.data_mode, "synthetic");
    assert_eq!(c.base_rate, DEFAULT_BASE_RATE);
    assert_eq!(c.rate_profile, RateProfile::SineWave);
}

#[test]
fn other_data_modes_are_kept() {
    let c = parse_config(r#"{"data_mode": "recorded", "symbols": ["BTCUSD"], "initial_mid_prices": {"BTCUSD": 2.5}}"#).unwrap();
    assert_eq!(c.data_mode, "recorded");
}

#[test]
fn duplicate_symbols_are_kept() {
    let c = parse_config(r#"{"symbols": ["BTCUSD", "BTCUSD"], "initial_mid_prices": {"BTCUSD": 2.5}}"#).unwrap();
    assert_eq!(c.symbols, vec![Symbol::BtcUsd, Symbol::BtcUsd]);
    assert_eq!(c.initial_mid_prices, vec![2.5f64.to_bits(), 2.5f64.to_bits()]);
}

#[test]
fn not_json_is_refused() {
    let r = parse_config("{ not json");
    assert!(matches!(r, Err(ConfigError::Json(_))));
    assert!(message("{ not json").starts_with("JSON parse error: "));
    let described = serde_json::from_str::<serde_json::Value>("{ not json").unwrap_err().to_string();
    assert!(!described.is_empty());
    assert_eq!(message("{ not json"), format!("JSON parse error: {described}"));
}

#[test]
fn unknown_profile_is_refused() {
    assert_eq!(message(r#"{"rate_profile": "fast", "symbols": ["BTCUSD"], "initial_mid_prices": {"BTCUSD": 1.0}}"#), "unknown rate_profile: fast");
}

#[test]
fn profile_is_checked_before_symbols() {
    assert_eq!(message(r#"{"rate_profile": "fast"}"#), "unknown rate_profile: fast");
}

#[test]
fn missing_symbols_array_is_refused() {
    assert_eq!(message(r#"{"initial_mid_prices": {}}"#), "config missing symbols array");
    assert_eq!(message(r#"{"symbols": "BTCUSD"}"#), "config missing symbols array");
    assert_eq!(message("[1, 2]"), "config missing symbols array");
}

#[test]
fn unknown_symbol_is_refused() {
    assert_eq!(message(r#"{"symbols": ["BTCUSD", "XRPUSD", "DOGE"]}"#), "unknown symbol: XRPUSD");
    assert_eq!(message(r#"{"symbols": [7]}"#), "unknown symbol: ");
}

#[test]
fn empty_symbols_are_refused() {
    assert_eq!(message(r#"{"symbols": []}"#), "config missing symbols");
}

#[test]
fn missing_mid_price_is_refused() {
    assert_eq!(
        message(r#"{"symbols": ["BTCUSD", "ETHUSD"], "initial_mid_prices": {"BTCUSD": 1.0}}"#),
        "config missing initial_mid_prices.ETHUSD"
    );
    assert_eq!(message(r#"{"symbols": ["ETHBTC"], "initial_mid_prices": {"ETHBTC": "0.05"}}"#), "config missing initial_mid_prices.ETHBTC");
    assert_eq!(message(r#"{"symbols": ["ETHBTC"]}"#), "config missing initial_mid_prices.ETHBTC");
}

#[test]
fn fields_checked_directly() {
    let fields = ConfigFields {
        data_mode: None,
        base_rate: Some(7),
        max_rate: None,
        rate_profile: Some("ramp".to_string()),
        symbols: Some(vec![Some("ETHUSD".to_string())]),
        mid_prices: vec![None, Some(11), None],
    };
    let c = config_from_fields(&fields).unwrap();
    assert_eq!(c.rate_profile, RateProfile::Ramp);
    assert_eq!(c.base_rate, 7);
    assert_eq!(c.max_rate, DEFAULT_MAX_RATE);
    assert_eq!(c.symbols, vec![Symbol::EthUsd]);
    assert_eq!(c.initial_mid_prices, vec![11]);
    let missing = ConfigFields { mid_prices: vec![Some(1)], ..fields };
    assert!(matches!(config_from_fields(&missing), Err(ConfigError::MissingMidPrice(Symbol::EthUsd))));
}

#[test]
fn error_messages() {
    assert_eq!(ConfigError::Json("x".to_string()).message(), "JSON parse error: x");
    assert_eq!(ConfigError::MissingMidPrice(Symbol::BtcUsd).message(), "config missing initial_mid_prices.BTCUSD");
    assert_eq!(ConfigError::UnknownSymbol("Q".to_string()).message(), "unknown symbol: Q");
    assert_eq!(ConfigError::MissingSymbols.message(), "config missing symbols");
}
