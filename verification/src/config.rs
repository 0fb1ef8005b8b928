//! Reading the simulator's JSON settings.
//!
//! `parse_config` parses the document with serde_json and reads the fields
//! the simulator uses into `ConfigFields`; `config_from_fields` then applies
//! the defaults and checks.
use serde_json::Value;
use vstd::prelude::*;

use crate::types::{symbol_name, symbol_named, spec_symbol_index, Config, ConfigView, RateProfile, Symbol, SYMBOL_COUNT};

verus! {

/// A parsed JSON value.
#[verifier::external_type_specification]
#[verifier::external_body]
pub struct ExValue(serde_json::Value);

/// serde_json's parse error.
#[verifier::external_type_specification]
#[verifier::external_body]
pub struct ExJsonError(serde_json::Error);

/// The value serde_json parses a document into, when it parses.
pub uninterp spec fn json_document(text: Seq<char>) -> Option<Value>;

/// The error serde_json reports for a document that does not parse.
pub uninterp spec fn json_parse_error(text: Seq<char>) -> serde_json::Error;

/// The `Display` text of a serde_json error.
pub uninterp spec fn json_error_description(e: serde_json::Error) -> Seq<char>;

/// The member `key` of a value (null when absent or not an object).
pub uninterp spec fn json_member(v: Value, key: Seq<char>) -> Value;

/// The text of a value that is a string.
pub uninterp spec fn json_text(v: Value) -> Option<Seq<char>>;

/// The bit pattern of the double of a value that is a number.
pub uninterp spec fn json_number(v: Value) -> Option<u64>;

/// The elements of a value that is an array.
pub uninterp spec fn json_items(v: Value) -> Option<Seq<Value>>;

/// `serde_json::from_str` into a `Value`: it succeeds exactly when the
/// document parses, and then gives the named document; otherwise it gives
/// the named error of that document.
#[verifier::external_body]
fn parse_json(text: &str) -> (r: Result<Value, serde_json::Error>)
    ensures
        r is Ok <==> json_document(text@) is Some,
        r matches Ok(v) ==> json_document(text@) == Some(v),
        r matches Err(e) ==> e == json_parse_error(text@),
{
    serde_json::from_str(text)
}

/// The `Display` text of serde_json's parse error.
#[verifier::external_body]
fn json_error_text(e: &serde_json::Error) -> (r: String)
    ensures
        r@ == json_error_description(*e),
{
    format!("{e}")
}

/// `Index<&str>` on a `Value`: the member named `key`.
#[verifier::external_body]
fn member<'a>(v: &'a Value, key: &str) -> (r: &'a Value)
    ensures
        *r == json_member(*v, key@),
{
    &v[key]
}

/// `Value::as_str`, copied into a `String`.
#[verifier::external_body]
fn text_of(v: &Value) -> (r: Option<String>)
    ensures
        match r {
            Some(s) => json_text(*v) == Some(s@),
            None => json_text(*v) is None,
        },
{
    v.as_str().map(|s| s.to_string())
}

/// `Value::as_f64`, as the bit pattern of the double.
#[verifier::external_body]
fn number_of(v: &Value) -> (r: Option<u64>)
    ensures
        r == json_number(*v),
{
    v.as_f64().map(|x| x.to_bits())
}

/// `Value::as_array`.
#[verifier::external_body]
fn items_of(v: &Value) -> (r: Option<&Vec<Value>>)
    ensures
        match r {
            Some(items) => json_items(*v) == Some(items@),
            None => json_items(*v) is None,
        },
{
    v.as_array()
}

/// The fields of the settings document that the simulator reads:
/// `data_mode`, `base_rate`, `max_rate` and `rate_profile` (each when of the
/// right kind), the elements of `symbols` (each one's text when it is a
/// string), and for every known symbol the number under its ticker in
/// `initial_mid_prices` (indexed by symbol position).
#[derive(Clone, Debug)]
pub struct ConfigFields {
    pub data_mode: Option<String>,
    pub base_rate: Option<u64>,
    pub max_rate: Option<u64>,
    pub rate_profile: Option<String>,
    pub symbols: Option<Vec<Option<String>>>,
    pub mid_prices: Vec<Option<u64>>,
}

/// What `ConfigFields` holds.
pub struct ConfigFieldsView {
    pub data_mode: Option<Seq<char>>,
    pub base_rate: Option<u64>,
    pub max_rate: Option<u64>,
    pub rate_profile: Option<Seq<char>>,
    pub symbols: Option<Seq<Option<Seq<char>>>>,
    pub mid_prices: Seq<Option<u64>>,
}

/// The text of an optional string.
pub open spec fn opt_text(o: Option<String>) -> Option<Seq<char>> {
    match o {
        Some(s) => Some(s@),
        None => None,
    }
}

impl View for ConfigFields {
    type V = ConfigFieldsView;

    open spec fn view(&self) -> ConfigFieldsView {
        ConfigFieldsView {
            data_mode: opt_text(self.data_mode),
            base_rate: self.base_rate,
            max_rate: self.max_rate,
            rate_profile: opt_text(self.rate_profile),
            symbols: match self.symbols {
                Some(v) => Some(v@.map_values(|o: Option<String>| opt_text(o))),
                None => None,
            },
            mid_prices: self.mid_prices@,
        }
    }
}

/// The fields of a parsed settings document.
pub open spec fn fields_of(root: Value) -> ConfigFieldsView {
    let mids = json_member(root, seq!['i', 'n', 'i', 't', 'i', 'a', 'l', '_', 'm', 'i', 'd', '_', 'p', 'r', 'i', 'c', 'e', 's']);
    ConfigFieldsView {
        data_mode: json_text(json_member(root, seq!['d', 'a', 't', 'a', '_', 'm', 'o', 'd', 'e'])),
        base_rate: json_number(json_member(root, seq!['b', 'a', 's', 'e', '_', 'r', 'a', 't', 'e'])),
        max_rate: json_number(json_member(root, seq!['m', 'a', 'x', '_', 'r', 'a', 't', 'e'])),
        rate_profile: json_text(json_member(root, seq!['r', 'a', 't', 'e', '_', 'p', 'r', 'o', 'f', 'i', 'l', 'e'])),
        symbols: match json_items(json_member(root, seq!['s', 'y', 'm', 'b', 'o', 'l', 's'])) {
            Some(items) => Some(items.map_values(|v: Value| json_text(v))),
            None => None,
        },
        mid_prices: seq![
            json_number(json_member(mids, symbol_name(Symbol::BtcUsd))),
            json_number(json_member(mids, symbol_name(Symbol::EthUsd))),
            json_number(json_member(mids, symbol_name(Symbol::EthBtc))),
        ],
    }
}

/// Why settings are refused.
#[derive(Clone, Debug)]
pub enum ConfigError {
    /// The document is not JSON; serde_json's description.
    Json(String),
    /// `rate_profile` names no profile.
    UnknownRateProfile(String),
    /// `symbols` is absent or not an array.
    MissingSymbolsArray,
    /// An element of `symbols` (its text, empty when not a string) names no symbol.
    UnknownSymbol(String),
    /// `symbols` is empty.
    MissingSymbols,
    /// A listed symbol has no number in `initial_mid_prices`.
    MissingMidPrice(Symbol),
}

/// What a `ConfigError` holds.
pub enum ConfigErrorView {
    Json(Seq<char>),
    UnknownRateProfile(Seq<char>),
    MissingSymbolsArray,
    UnknownSymbol(Seq<char>),
    MissingSymbols,
    MissingMidPrice(Symbol),
}

impl View for ConfigError {
    type V = ConfigErrorView;

    open spec fn view(&self) -> ConfigErrorView {
        match self {
            ConfigError::Json(s) => ConfigErrorView::Json(s@),
            ConfigError::UnknownRateProfile(s) => ConfigErrorView::UnknownRateProfile(s@),
            ConfigError::MissingSymbolsArray => ConfigErrorView::MissingSymbolsArray,
            ConfigError::UnknownSymbol(s) => ConfigErrorView::UnknownSymbol(s@),
            ConfigError::MissingSymbols => ConfigErrorView::MissingSymbols,
            ConfigError::MissingMidPrice(sym) => ConfigErrorView::MissingMidPrice(*sym),
        }
    }
}

/// The message shown for a refusal.
pub open spec fn error_message(e: ConfigErrorView) -> Seq<char> {
    match e {
        ConfigErrorView::Json(s) => "JSON parse error: "@ + s,
        ConfigErrorView::UnknownRateProfile(s) => "unknown rate_profile: "@ + s,
        ConfigErrorView::MissingSymbolsArray => "config missing symbols array"@,
        ConfigErrorView::UnknownSymbol(s) => "unknown symbol: "@ + s,
        ConfigErrorView::MissingSymbols => "config missing symbols"@,
        ConfigErrorView::MissingMidPrice(sym) => "config missing initial_mid_prices."@ + symbol_name(sym),
    }
}

impl ConfigError {
    /// The message shown for this refusal.
    pub fn message(&self) -> (r: String)
        ensures
            r@ == error_message(self@),
    {
        match self {
            ConfigError::Json(s) => "JSON parse error: ".to_string().concat(s.as_str()),
            ConfigError::UnknownRateProfile(s) => "unknown rate_profile: ".to_string().concat(s.as_str()),
            ConfigError::MissingSymbolsArray => "config missing symbols array".to_string(),
            ConfigError::UnknownSymbol(s) => "unknown symbol: ".to_string().concat(s.as_str()),
            ConfigError::MissingSymbols => "config missing symbols".to_string(),
            ConfigError::MissingMidPrice(sym) => "config missing initial_mid_prices.".to_string().concat(sym.as_str()),
        }
    }
}

/// Bit pattern of the default base rate, one thousand quotes per second.
pub const DEFAULT_BASE_RATE: u64 = 0x408F_4000_0000_0000;

/// Bit pattern of the default maximum rate, five thousand quotes per second.
pub const DEFAULT_MAX_RATE: u64 = 0x40B3_8800_0000_0000;

/// The data mode used when none is given.
pub open spec fn default_data_mode() -> Seq<char> {
    seq!['s', 'y', 'n', 't', 'h', 'e', 't', 'i', 'c']
}

/// The profile name used when none is given.
pub open spec fn default_profile_name() -> Seq<char> {
    seq!['s', 'i', 'n', 'e']
}

/// The profile a name selects.
pub open spec fn profile_named(s: Seq<char>) -> Option<RateProfile> {
    if s == default_profile_name() {
        Some(RateProfile::SineWave)
    } else if s == seq!['c', 'o', 'n', 's', 't', 'a', 'n', 't'] {
        Some(RateProfile::Constant)
    } else if s == seq!['b', 'u', 'r', 's', 't'] {
        Some(RateProfile::Burst)
    } else if s == seq!['r', 'a', 'm', 'p'] {
        Some(RateProfile::Ramp)
    } else {
        None
    }
}

/// The text of an element of `symbols`: its string, or empty.
pub open spec fn item_text(o: Option<Seq<char>>) -> Seq<char> {
    match o {
        Some(s) => s,
        None => Seq::empty(),
    }
}

/// The symbols the elements name, or the text of the first that names none.
pub open spec fn parse_symbols(items: Seq<Option<Seq<char>>>) -> Result<Seq<Symbol>, Seq<char>>
    decreases items.len(),
{
    if items.len() == 0 {
        Ok(Seq::empty())
    } else {
        match parse_symbols(items.drop_last()) {
            Err(t) => Err(t),
            Ok(syms) => match symbol_named(item_text(items.last())) {
                Some(sym) => Ok(syms.push(sym)),
                None => Err(item_text(items.last())),
            },
        }
    }
}

/// The mid price the table holds for a symbol.
pub open spec fn mid_of(mids: Seq<Option<u64>>, sym: Symbol) -> Option<u64> {
    if spec_symbol_index(sym) < mids.len() {
        mids[spec_symbol_index(sym)]
    } else {
        None
    }
}

/// The mid prices of the symbols, or the first symbol that has none.
pub open spec fn mids_for(syms: Seq<Symbol>, mids: Seq<Option<u64>>) -> Result<Seq<u64>, Symbol>
    decreases syms.len(),
{
    if syms.len() == 0 {
        Ok(Seq::empty())
    } else {
        match mids_for(syms.drop_last(), mids) {
            Err(s) => Err(s),
            Ok(prices) => match mid_of(mids, syms.last()) {
                Some(p) => Ok(prices.push(p)),
                None => Err(syms.last()),
            },
        }
    }
}

/// The settings the fields give, or why they are refused. Refusals are
/// checked in this order: the rate profile, the presence of `symbols`, each
/// symbol in turn, an empty list, then each symbol's mid price in turn.
pub open spec fn settings_from(f: ConfigFieldsView) -> Result<ConfigView, ConfigErrorView> {
    let profile_name = match f.rate_profile {
        Some(p) => p,
        None => default_profile_name(),
    };
    match profile_named(profile_name) {
        None => Err(ConfigErrorView::UnknownRateProfile(profile_name)),
        Some(profile) => match f.symbols {
            None => Err(ConfigErrorView::MissingSymbolsArray),
            Some(items) => match parse_symbols(items) {
                Err(t) => Err(ConfigErrorView::UnknownSymbol(t)),
                Ok(syms) => if syms.len() == 0 {
                    Err(ConfigErrorView::MissingSymbols)
                } else {
                    match mids_for(syms, f.mid_prices) {
                        Err(s) => Err(ConfigErrorView::MissingMidPrice(s)),
                        Ok(prices) => Ok(ConfigView {
                            rate_profile: profile,
                            base_rate: match f.base_rate {
                                Some(b) => b,
                                None => DEFAULT_BASE_RATE,
                            },
                            max_rate: match f.max_rate {
                                Some(m) => m,
                                None => DEFAULT_MAX_RATE,
                            },
                            data_mode: match f.data_mode {
                                Some(d) => d,
                                None => default_data_mode(),
                            },
                            symbols: syms,
                            initial_mid_prices: prices,
                        }),
                    }
                },
            },
        },
    }
}

/// The symbols the elements name, element by element, when every element
/// names one; the first element that names none otherwise.
proof fn lemma_parse_symbols_meaning(items: Seq<Option<Seq<char>>>)
    ensures
        parse_symbols(items) is Ok <==> forall|i: int|
            0 <= i < items.len() ==> #[trigger] symbol_named(item_text(items[i])) is Some,
        parse_symbols(items) matches Ok(syms) ==> syms.len() == items.len() && forall|i: int|
            0 <= i < items.len() ==> #[trigger] symbol_named(item_text(items[i])) == Some(syms[i]),
        parse_symbols(items) matches Err(t) ==> exists|i: int|
            0 <= i < items.len() && #[trigger] item_text(items[i]) == t && symbol_named(t) is None
                && forall|j: int| 0 <= j < i ==> #[trigger] symbol_named(item_text(items[j])) is Some,
    decreases items.len(),
{
    if items.len() > 0 {
        let rest = items.drop_last();
        lemma_parse_symbols_meaning(rest);
        let n = items.len() - 1;
        assert forall|i: int| 0 <= i < n implies items[i] == rest[i] by {}
        if parse_symbols(rest) is Err {
            let t = parse_symbols(rest)->Err_0;
            let i = choose|i: int|
                0 <= i < rest.len() && #[trigger] item_text(rest[i]) == t && symbol_named(t) is None
                    && forall|j: int| 0 <= j < i ==> #[trigger] symbol_named(item_text(rest[j])) is Some;
            assert(item_text(items[i]) == t);
            assert(!(symbol_named(item_text(items[i])) is Some));
        } else {
            let syms = parse_symbols(rest)->Ok_0;
            if symbol_named(item_text(items.last())) is None {
                assert(item_text(items[n]) == item_text(items.last()));
                assert(forall|j: int| 0 <= j < n ==> #[trigger] symbol_named(item_text(items[j])) is Some);
            } else {
                let full = syms.push(symbol_named(item_text(items.last()))->0);
                assert forall|i: int| 0 <= i < items.len() implies #[trigger] symbol_named(item_text(items[i])) == Some(full[i]) by {
                    if i < n {
                        assert(symbol_named(item_text(rest[i])) == Some(syms[i]));
                    }
                }
            }
        }
    }
}

/// The mid prices of the symbols, symbol by symbol, when every symbol has
/// one; the first symbol without one otherwise.
proof fn lemma_mids_for_meaning(syms: Seq<Symbol>, mids: Seq<Option<u64>>)
    ensures
        mids_for(syms, mids) is Ok <==> forall|i: int|
            0 <= i < syms.len() ==> #[trigger] mid_of(mids, syms[i]) is Some,
        mids_for(syms, mids) matches Ok(prices) ==> prices.len() == syms.len() && forall|i: int|
            0 <= i < syms.len() ==> #[trigger] mid_of(mids, syms[i]) == Some(prices[i]),
        mids_for(syms, mids) matches Err(s) ==> mid_of(mids, s) is None && exists|i: int|
            0 <= i < syms.len() && #[trigger] syms[i] == s,
    decreases syms.len(),
{
    if syms.len() > 0 {
        let rest = syms.drop_last();
        lemma_mids_for_meaning(rest, mids);
        let n = syms.len() - 1;
        assert forall|i: int| 0 <= i < n implies syms[i] == rest[i] by {}
        if mids_for(rest, mids) is Err {
            let s = mids_for(rest, mids)->Err_0;
            let i = choose|i: int| 0 <= i < rest.len() && #[trigger] rest[i] == s;
            assert(syms[i] == s);
            assert(!(mid_of(mids, syms[i]) is Some));
        } else {
            let prices = mids_for(rest, mids)->Ok_0;
            if mid_of(mids, syms.last()) is None {
                assert(syms[n] == syms.last());
                assert(!(mid_of(mids, syms[n]) is Some));
            } else {
                let full = prices.push(mid_of(mids, syms.last())->0);
                assert forall|i: int| 0 <= i < syms.len() implies #[trigger] mid_of(mids, syms[i]) == Some(full[i]) by {
                    if i < n {
                        assert(mid_of(mids, rest[i]) == Some(prices[i]));
                    }
                }
            }
        }
    }
}

/// Settings are accepted exactly when the rate profile (given, or `sine`)
/// names a profile, `symbols` is a non-empty list whose every element names
/// a symbol, and every listed symbol has a mid price. Accepted settings take
/// each value the fields give, each on its own: `base_rate`, `max_rate` and
/// `data_mode` are the given ones whenever given (whatever else is given or
/// not), and their defaults only when absent; the symbols are the ones the
/// elements name, in order; the mid price at position `i` is that of the
/// `i`-th symbol.
pub proof fn law_settings_take_given_values(f: ConfigFieldsView)
    ensures
        settings_from(f) is Ok <==> {
            &&& profile_named(
                match f.rate_profile {
                    Some(p) => p,
                    None => default_profile_name(),
                },
            ) is Some
            &&& f.symbols is Some
            &&& f.symbols->0.len() > 0
            &&& forall|i: int|
                0 <= i < f.symbols->0.len() ==> #[trigger] symbol_named(item_text(f.symbols->0[i])) is Some
            &&& forall|i: int|
                0 <= i < f.symbols->0.len() ==> #[trigger] mid_of(
                    f.mid_prices,
                    symbol_named(item_text(f.symbols->0[i]))->0,
                ) is Some
        },
        settings_from(f) matches Ok(c) ==> {
            &&& c.max_rate == (match f.max_rate {
                Some(m) => m,
                None => DEFAULT_MAX_RATE,
            })
            &&& c.base_rate == (match f.base_rate {
                Some(b) => b,
                None => DEFAULT_BASE_RATE,
            })
            &&& c.data_mode == (match f.data_mode {
                Some(d) => d,
                None => default_data_mode(),
            })
            &&& Some(c.rate_profile) == profile_named(
                match f.rate_profile {
                    Some(p) => p,
                    None => default_profile_name(),
                },
            )
            &&& c.symbols.len() == f.symbols->0.len()
            &&& forall|i: int|
                0 <= i < c.symbols.len() ==> Some(#[trigger] c.symbols[i]) == symbol_named(
                    item_text(f.symbols->0[i]),
                )
            &&& c.initial_mid_prices.len() == c.symbols.len()
            &&& forall|i: int|
                0 <= i < c.symbols.len() ==> mid_of(f.mid_prices, #[trigger] c.symbols[i]) == Some(
                    c.initial_mid_prices[i],
                )
        },
{
    if let Some(items) = f.symbols {
        lemma_parse_symbols_meaning(items);
        if let Ok(syms) = parse_symbols(items) {
            lemma_mids_for_meaning(syms, f.mid_prices);
            assert forall|i: int| 0 <= i < items.len() implies #[trigger] mid_of(
                f.mid_prices,
                symbol_named(item_text(items[i]))->0,
            ) == mid_of(f.mid_prices, syms[i]) by {
                assert(symbol_named(item_text(items[i])) == Some(syms[i]));
            }
            if forall|i: int|
                0 <= i < items.len() ==> #[trigger] mid_of(
                    f.mid_prices,
                    symbol_named(item_text(items[i]))->0,
                ) is Some {
                assert forall|i: int| 0 <= i < syms.len() implies #[trigger] mid_of(f.mid_prices, syms[i]) is Some by {
                    assert(mid_of(f.mid_prices, symbol_named(item_text(items[i]))->0) is Some);
                }
            }
            if mids_for(syms, f.mid_prices) is Err {
                let bad = mids_for(syms, f.mid_prices)->Err_0;
                let i = choose|i: int| 0 <= i < syms.len() && #[trigger] syms[i] == bad;
                assert(mid_of(f.mid_prices, syms[i]) is None);
            }
        } else {
            let t = parse_symbols(items)->Err_0;
            let i = choose|i: int|
                0 <= i < items.len() && #[trigger] item_text(items[i]) == t && symbol_named(t) is None
                    && forall|j: int| 0 <= j < i ==> #[trigger] symbol_named(item_text(items[j])) is Some;
            assert(!(symbol_named(item_text(items[i])) is Some));
        }
    }
}

/// A parsed document's accepted settings take their rates and data mode
/// from the document's own members: `max_rate` is the number under
/// `"max_rate"` whenever there is one (whatever `"base_rate"` holds), and the
/// default only otherwise; likewise `base_rate` and `data_mode`.
pub proof fn law_document_values_are_kept(root: Value)
    ensures
        settings_from(fields_of(root)) matches Ok(c) ==> {
            &&& c.max_rate == (match json_number(json_member(root, seq!['m', 'a', 'x', '_', 'r', 'a', 't', 'e'])) {
                Some(m) => m,
                None => DEFAULT_MAX_RATE,
            })
            &&& c.base_rate == (match json_number(json_member(root, seq!['b', 'a', 's', 'e', '_', 'r', 'a', 't', 'e'])) {
                Some(b) => b,
                None => DEFAULT_BASE_RATE,
            })
            &&& c.data_mode == (match json_text(json_member(root, seq!['d', 'a', 't', 'a', '_', 'm', 'o', 'd', 'e'])) {
                Some(d) => d,
                None => default_data_mode(),
            })
        },
{
    law_settings_take_given_values(fields_of(root));
}

/// The view of a settings result.
pub open spec fn result_view(r: Result<Config, ConfigError>) -> Result<ConfigView, ConfigErrorView> {
    match r {
        Ok(c) => Ok(c@),
        Err(e) => Err(e@),
    }
}

/// The profile a name selects.
fn profile_from_name(name: &String) -> (r: Option<RateProfile>)
    ensures
        r == profile_named(name@),
{
    proof {
        reveal_strlit("sine");
        reveal_strlit("constant");
        reveal_strlit("burst");
        reveal_strlit("ramp");
        assert("sine"@ =~= default_profile_name());
        assert("constant"@ =~= seq!['c', 'o', 'n', 's', 't', 'a', 'n', 't']);
        assert("burst"@ =~= seq!['b', 'u', 'r', 's', 't']);
        assert("ramp"@ =~= seq!['r', 'a', 'm', 'p']);
    }
    if *name == "sine".to_string() {
        Some(RateProfile::SineWave)
    } else if *name == "constant".to_string() {
        Some(RateProfile::Constant)
    } else if *name == "burst".to_string() {
        Some(RateProfile::Burst)
    } else if *name == "ramp".to_string() {
        Some(RateProfile::Ramp)
    } else {
        None
    }
}

/// Once a prefix of the elements names no symbol, neither does the whole.
proof fn lemma_parse_symbols_fails_early(s: Seq<Option<Seq<char>>>, k: int)
    requires
        0 <= k <= s.len(),
        parse_symbols(s.take(k)) is Err,
    ensures
        parse_symbols(s) == parse_symbols(s.take(k)),
    decreases s.len() - k,
{
    if k < s.len() {
        assert(s.take(k + 1).drop_last() =~= s.take(k));
        lemma_parse_symbols_fails_early(s, k + 1);
    } else {
        assert(s.take(k) =~= s);
    }
}

/// Once a prefix of the symbols lacks a mid price, so does the whole.
proof fn lemma_mids_for_fails_early(syms: Seq<Symbol>, mids: Seq<Option<u64>>, k: int)
    requires
        0 <= k <= syms.len(),
        mids_for(syms.take(k), mids) is Err,
    ensures
        mids_for(syms, mids) == mids_for(syms.take(k), mids),
    decreases syms.len() - k,
{
    if k < syms.len() {
        assert(syms.take(k + 1).drop_last() =~= syms.take(k));
        lemma_mids_for_fails_early(syms, mids, k + 1);
    } else {
        assert(syms.take(k) =~= syms);
    }
}

/// The symbols the elements name, or the text of the first that names none.
fn symbols_from_items(items: &Vec<Option<String>>) -> (r: Result<Vec<Symbol>, String>)
    ensures
        match r {
            Ok(syms) => parse_symbols(items@.map_values(|o: Option<String>| opt_text(o))) == Ok::<Seq<Symbol>, Seq<char>>(syms@),
            Err(t) => parse_symbols(items@.map_values(|o: Option<String>| opt_text(o))) == Err::<Seq<Symbol>, Seq<char>>(t@),
        },
{
    let ghost texts = items@.map_values(|o: Option<String>| opt_text(o));
    let mut syms: Vec<Symbol> = Vec::new();
    let n = items.len();
    proof {
        assert(texts.take(0) =~= Seq::empty());
    }
    for i in 0..n
        invariant
            n == items@.len(),
            texts == items@.map_values(|o: Option<String>| opt_text(o)),
            parse_symbols(texts.take(i as int)) == Ok::<Seq<Symbol>, Seq<char>>(syms@),
    {
        let text = match &items[i] {
            Some(t) => t.clone(),
            None => String::new(),
        };
        proof {
            assert(texts.take(i + 1).drop_last() =~= texts.take(i as int));
            assert(texts.take(i + 1).last() == texts[i as int]);
            assert(item_text(texts[i as int]) == text@);
        }
        match Symbol::from_str(text.as_str()) {
            Ok(sym) => {
                syms.push(sym);
            },
            Err(_) => {
                proof {
                    assert(symbol_named(text@) is None);
                    lemma_parse_symbols_fails_early(texts, i + 1);
                }
                return Err(text);
            },
        }
    }
    proof {
        assert(texts.take(n as int) =~= texts);
    }
    Ok(syms)
}

/// The mid prices of the symbols, or the first symbol that has none.
fn mids_for_symbols(syms: &Vec<Symbol>, mids: &Vec<Option<u64>>) -> (r: Result<Vec<u64>, Symbol>)
    ensures
        match r {
            Ok(prices) => mids_for(syms@, mids@) == Ok::<Seq<u64>, Symbol>(prices@),
            Err(s) => mids_for(syms@, mids@) == Err::<Seq<u64>, Symbol>(s),
        },
{
    let mut prices: Vec<u64> = Vec::new();
    let n = syms.len();
    proof {
        assert(syms@.take(0) =~= Seq::empty());
    }
    for i in 0..n
        invariant
            n == syms@.len(),
            mids_for(syms@.take(i as int), mids@) == Ok::<Seq<u64>, Symbol>(prices@),
    {
        let sym = syms[i];
        let idx = sym.index();
        let mid = if idx < mids.len() {
            mids[idx]
        } else {
            None
        };
        proof {
            assert(syms@.take(i + 1).drop_last() =~= syms@.take(i as int));
            assert(syms@.take(i + 1).last() == sym);
        }
        match mid {
            Some(p) => {
                prices.push(p);
            },
            None => {
                proof {
                    lemma_mids_for_fails_early(syms@, mids@, i + 1);
                }
                return Err(sym);
            },
        }
    }
    proof {
        assert(syms@.take(n as int) =~= syms@);
    }
    Ok(prices)
}

/// Applies the defaults and checks to the fields of a settings document.
pub fn config_from_fields(f: &ConfigFields) -> (r: Result<Config, ConfigError>)
    ensures
        result_view(r) == settings_from(f@),
{
    proof {
        reveal_strlit("sine");
        reveal_strlit("synthetic");
        assert("sine"@ =~= default_profile_name());
        assert("synthetic"@ =~= default_data_mode());
    }
    let profile_name = match &f.rate_profile {
        Some(p) => p.clone(),
        None => "sine".to_string(),
    };
    let rate_profile = match profile_from_name(&profile_name) {
        Some(p) => p,
        None => {
            return Err(ConfigError::UnknownRateProfile(profile_name));
        },
    };
    let items = match &f.symbols {
        Some(items) => items,
        None => {
            return Err(ConfigError::MissingSymbolsArray);
        },
    };
    let symbols = match symbols_from_items(items) {
        Ok(syms) => syms,
        Err(t) => {
            return Err(ConfigError::UnknownSymbol(t));
        },
    };
    if symbols.len() == 0 {
        return Err(ConfigError::MissingSymbols);
    }
    let initial_mid_prices = match mids_for_symbols(&symbols, &f.mid_prices) {
        Ok(prices) => prices,
        Err(sym) => {
            return Err(ConfigError::MissingMidPrice(sym));
        },
    };
    let base_rate = match f.base_rate {
        Some(b) => b,
        None => DEFAULT_BASE_RATE,
    };
    let max_rate = match f.max_rate {
        Some(m) => m,
        None => DEFAULT_MAX_RATE,
    };
    let data_mode = match &f.data_mode {
        Some(d) => d.clone(),
        None => "synthetic".to_string(),
    };
    Ok(Config { rate_profile, base_rate, max_rate, data_mode, symbols, initial_mid_prices })
}

/// Reads the fields the simulator uses from a parsed settings document.
fn read_config_fields(root: &Value) -> (f: ConfigFields)
    ensures
        f@ == fields_of(*root),
{
    proof {
        reveal_strlit("data_mode");
        reveal_strlit("base_rate");
        reveal_strlit("max_rate");
        reveal_strlit("rate_profile");
        reveal_strlit("symbols");
        reveal_strlit("initial_mid_prices");
        assert("data_mode"@ =~= seq!['d', 'a', 't', 'a', '_', 'm', 'o', 'd', 'e']);
        assert("base_rate"@ =~= seq!['b', 'a', 's', 'e', '_', 'r', 'a', 't', 'e']);
        assert("max_rate"@ =~= seq!['m', 'a', 'x', '_', 'r', 'a', 't', 'e']);
        assert("rate_profile"@ =~= seq!['r', 'a', 't', 'e', '_', 'p', 'r', 'o', 'f', 'i', 'l', 'e']);
        assert("symbols"@ =~= seq!['s', 'y', 'm', 'b', 'o', 'l', 's']);
        assert("initial_mid_prices"@ =~= seq!['i', 'n', 'i', 't', 'i', 'a', 'l', '_', 'm', 'i', 'd', '_', 'p', 'r', 'i', 'c', 'e', 's']);
    }
    let data_mode = text_of(member(root, "data_mode"));
    let base_rate = number_of(member(root, "base_rate"));
    let max_rate = number_of(member(root, "max_rate"));
    let rate_profile = text_of(member(root, "rate_profile"));
    let symbols = match items_of(member(root, "symbols")) {
        Some(items) => {
            let mut texts: Vec<Option<String>> = Vec::new();
            let n = items.len();
            for i in 0..n
                invariant
                    n == items@.len(),
                    texts@.len() == i,
                    forall|j: int| 0 <= j < i ==> #[trigger] opt_text(texts@[j]) == json_text(items@[j]),
            {
                texts.push(text_of(&items[i]));
            }
            proof {
                assert(texts@.map_values(|o: Option<String>| opt_text(o)) =~= items@.map_values(|v: Value| json_text(v)));
            }
            Some(texts)
        },
        None => None,
    };
    let mids = member(root, "initial_mid_prices");
    let mut mid_prices: Vec<Option<u64>> = Vec::new();
    mid_prices.push(number_of(member(mids, Symbol::BtcUsd.as_str())));
    mid_prices.push(number_of(member(mids, Symbol::EthUsd.as_str())));
    mid_prices.push(number_of(member(mids, Symbol::EthBtc.as_str())));
    let f = ConfigFields { data_mode, base_rate, max_rate, rate_profile, symbols, mid_prices };
    proof {
        assert(f@.mid_prices =~= fields_of(*root).mid_prices);
    }
    f
}

/// Parses a settings document: a document that is not JSON is refused with
/// serde_json's description of its error; otherwise the outcome is
/// `settings_from` of the document's fields.
pub fn parse_config(text: &str) -> (r: Result<Config, ConfigError>)
    ensures
        json_document(text@) is None ==> (r matches Err(e)
            && e@ == ConfigErrorView::Json(json_error_description(json_parse_error(text@)))),
        json_document(text@) matches Some(root) ==> result_view(r) == settings_from(fields_of(root)),
{
    match parse_json(text) {
        Ok(root) => {
            let fields = read_config_fields(&root);
            config_from_fields(&fields)
        },
        Err(e) => Err(ConfigError::Json(json_error_text(&e))),
    }
}

} // verus!
