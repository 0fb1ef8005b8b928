//! A symbol's book: a bid side and an ask side.
use vstd::prelude::*;

use crate::book_side::{BookSide, BookSideView};
use crate::types::{QuoteUpdate, Side, Symbol};

verus! {

/// What a book holds.
pub struct OrderBookView {
    pub sym: Symbol,
    pub bids: BookSideView,
    pub asks: BookSideView,
}

impl OrderBookView {
    /// The state of a fresh book.
    pub open spec fn empty(sym: Symbol) -> OrderBookView {
        OrderBookView { sym, bids: BookSideView::empty(Side::Bid), asks: BookSideView::empty(Side::Ask) }
    }

    /// Both sides well formed, each on its own side.
    pub open spec fn wf(self) -> bool {
        &&& self.bids.side == Side::Bid
        &&& self.asks.side == Side::Ask
        &&& self.bids.wf()
        &&& self.asks.wf()
    }

    /// The side an event on `side` goes to.
    pub open spec fn side_of(self, side: Side) -> BookSideView {
        match side {
            Side::Bid => self.bids,
            Side::Ask => self.asks,
        }
    }

    /// The book after `id` quotes `size` at `price` on `side`.
    pub open spec fn after_event(self, side: Side, id: u64, price: u64, size: u64) -> OrderBookView {
        match side {
            Side::Bid => OrderBookView { bids: self.bids.after_update(id, price, size), ..self },
            Side::Ask => OrderBookView { asks: self.asks.after_update(id, price, size), ..self },
        }
    }

    /// The lines such an event emits.
    pub open spec fn is_event_output(self, quotes: Seq<QuoteUpdate>, side: Side, id: u64, price: u64, size: u64, ts: u64, now: u64) -> bool {
        self.side_of(side).is_update_output(quotes, id, price, size, ts, self.sym, now)
    }
}

/// A symbol's book.
pub struct OrderBook {
    sym: Symbol,
    bids: BookSide,
    asks: BookSide,
}

impl View for OrderBook {
    type V = OrderBookView;

    closed spec fn view(&self) -> OrderBookView {
        OrderBookView { sym: self.sym, bids: self.bids@, asks: self.asks@ }
    }
}

impl OrderBook {
    /// An empty book for `symbol`.
    pub fn new(symbol: Symbol) -> (r: OrderBook)
        ensures
            r@ == OrderBookView::empty(symbol),
            r@.wf(),
    {
        let bids = BookSide::new(Side::Bid);
        let asks = BookSide::new(Side::Ask);
        OrderBook { sym: symbol, bids, asks }
    }

    /// The book's symbol.
    pub fn symbol(&self) -> (r: Symbol)
        ensures
            r == self@.sym,
    {
        self.sym
    }

    /// Routes a quote to its side and returns the lines it produces; a
    /// withdrawal of a pruned level is stamped `now`.
    pub fn handle_event(&mut self, side: Side, id: u64, price: u64, size: u64, ts: u64, now: u64) -> (quotes: Vec<QuoteUpdate>)
        requires
            old(self)@.wf(),
        ensures
            final(self)@ == old(self)@.after_event(side, id, price, size),
            final(self)@.wf(),
            old(self)@.is_event_output(quotes@, side, id, price, size, ts, now),
    {
        match side {
            Side::Bid => self.bids.update(id, price, size, ts, self.sym, now),
            Side::Ask => self.asks.update(id, price, size, ts, self.sym, now),
        }
    }
}

} // verus!
