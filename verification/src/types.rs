use vstd::prelude::*;

verus! {

/// Depth kept on each side of a book.
pub const BOOK_LEVELS: usize = 100;

/// The instruments the simulator knows.
#[derive(Clone, Copy, PartialEq, Eq, Hash, Debug, Structural)]
pub enum Symbol {
    BtcUsd,
    EthUsd,
    EthBtc,
}

/// The ticker text of a symbol.
pub open spec fn symbol_name(sym: Symbol) -> Seq<char> {
    match sym {
        Symbol::BtcUsd => seq!['B', 'T', 'C', 'U', 'S', 'D'],
        Symbol::EthUsd => seq!['E', 'T', 'H', 'U', 'S', 'D'],
        Symbol::EthBtc => seq!['E', 'T', 'H', 'B', 'T', 'C'],
    }
}

/// The symbol a ticker names.
pub open spec fn symbol_named(s: Seq<char>) -> Option<Symbol> {
    if s == symbol_name(Symbol::BtcUsd) {
        Some(Symbol::BtcUsd)
    } else if s == symbol_name(Symbol::EthUsd) {
        Some(Symbol::EthUsd)
    } else if s == symbol_name(Symbol::EthBtc) {
        Some(Symbol::EthBtc)
    } else {
        None
    }
}


impl Symbol {
    pub fn as_str(self) -> (r: &'static str)
        ensures
            r@ == symbol_name(self),
    {
        match self {
            Symbol::BtcUsd => {
                proof {
                    reveal_strlit("BTCUSD");
                }
                "BTCUSD"
            },
            Symbol::EthUsd => {
                proof {
                    reveal_strlit("ETHUSD");
                }
                "ETHUSD"
            },
            Symbol::EthBtc => {
                proof {
                    reveal_strlit("ETHBTC");
                }
                "ETHBTC"
            },
        }
    }

    /// Reads a ticker; any other text is refused with the message
    /// `unknown symbol: ` followed by the text.
    pub fn from_str(s: &str) -> (r: Result<Symbol, String>)
        ensures
            match symbol_named(s@) {
                Some(sym) => r == Ok::<Symbol, String>(sym),
                None => r matches Err(msg) && msg@ == "unknown symbol: "@ + s@,
            },
    {
        let text = s.to_string();
        if text == Symbol::BtcUsd.as_str().to_string() {
            Ok(Symbol::BtcUsd)
        } else if text == Symbol::EthUsd.as_str().to_string() {
            Ok(Symbol::EthUsd)
        } else if text == Symbol::EthBtc.as_str().to_string() {
            Ok(Symbol::EthBtc)
        } else {
            let mut msg = "unknown symbol: ".to_string();
            msg.append(s);
            Err(msg)
        }
    }
}

/// Side of a book.
#[derive(Clone, Copy, PartialEq, Eq, Hash, Debug, Structural)]
pub enum Side {
    Bid,
    Ask,
}

/// The text a side is written as in the feed.
pub open spec fn side_name(side: Side) -> Seq<char> {
    match side {
        Side::Bid => seq!['b', 'i', 'd'],
        Side::Ask => seq!['a', 's', 'k'],
    }
}

impl Side {
    pub fn as_str(self) -> (r: &'static str)
        ensures
            r@ == side_name(self),
    {
        match self {
            Side::Bid => {
                proof {
                    reveal_strlit("bid");
                }
                "bid"
            },
            Side::Ask => {
                proof {
                    reveal_strlit("ask");
                }
                "ask"
            },
        }
    }
}

/// Shape of the output rate over time.
#[derive(Clone, Copy, PartialEq, Eq, Hash, Debug, Structural)]
pub enum RateProfile {
    Constant,
    SineWave,
    Burst,
    Ramp,
}

/// One resting level: its size (bit pattern of the size) and the id that set it.
#[derive(Clone, Copy, PartialEq, Eq, Debug, Structural)]
pub struct BookLevel {
    pub size: u64,
    pub id: u64,
}

/// An incoming quote event. `price` and `size` are bit patterns of doubles.
#[derive(Clone, Copy, PartialEq, Eq, Debug, Structural)]
pub struct MarketEvent {
    pub ts: u64,
    pub symbol: Symbol,
    pub side: Side,
    pub price: u64,
    pub size: u64,
    pub id: u64,
}

/// An outgoing feed line. `price` and `size` are bit patterns of doubles;
/// a size of 0 (the pattern of zero) withdraws the level.
#[derive(Clone, Copy, PartialEq, Eq, Debug, Structural)]
pub struct QuoteUpdate {
    pub ts: u64,
    pub symbol: Symbol,
    pub side: Side,
    pub price: u64,
    pub size: u64,
    pub id: u64,
}

/// Position of a symbol in per-symbol tables.
pub open spec fn spec_symbol_index(sym: Symbol) -> int {
    match sym {
        Symbol::BtcUsd => 0,
        Symbol::EthUsd => 1,
        Symbol::EthBtc => 2,
    }
}

/// Number of symbols.
pub const SYMBOL_COUNT: usize = 3;

impl Symbol {
    /// Position of this symbol in per-symbol tables.
    pub fn index(self) -> (r: usize)
        ensures
            r == spec_symbol_index(self),
            r < SYMBOL_COUNT,
    {
        match self {
            Symbol::BtcUsd => 0,
            Symbol::EthUsd => 1,
            Symbol::EthBtc => 2,
        }
    }
}

/// The simulator's settings. `base_rate`, `max_rate` and the entries of
/// `initial_mid_prices` are bit patterns of doubles; `initial_mid_prices[i]`
/// is the starting mid price of `symbols[i]`.
#[derive(Clone, Debug)]
pub struct Config {
    pub rate_profile: RateProfile,
    pub base_rate: u64,
    pub max_rate: u64,
    pub data_mode: String,
    pub symbols: Vec<Symbol>,
    pub initial_mid_prices: Vec<u64>,
}

/// What a configuration holds.
pub struct ConfigView {
    pub rate_profile: RateProfile,
    pub base_rate: u64,
    pub max_rate: u64,
    pub data_mode: Seq<char>,
    pub symbols: Seq<Symbol>,
    pub initial_mid_prices: Seq<u64>,
}

impl View for Config {
    type V = ConfigView;

    open spec fn view(&self) -> ConfigView {
        ConfigView {
            rate_profile: self.rate_profile,
            base_rate: self.base_rate,
            max_rate: self.max_rate,
            data_mode: self.data_mode@,
            symbols: self.symbols@,
            initial_mid_prices: self.initial_mid_prices@,
        }
    }
}

impl ConfigView {
    /// At least one symbol, and a mid price for each.
    pub open spec fn wf(self) -> bool {
        &&& self.symbols.len() > 0
        &&& self.initial_mid_prices.len() == self.symbols.len()
    }
}

} // verus!
