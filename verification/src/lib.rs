//! Order-book core of a synthetic market-data simulator.
//!
//! Prices and sizes travel through the library as the IEEE-754 bit
//! patterns of the simulator's double-precision values; books order prices by
//! an integer key over those bits (see `price`).
pub mod book_side;
pub mod books_manager;
pub mod config;
pub mod engine;
pub mod generator;
pub mod order_book;
pub mod ordered_keys;
pub mod price;
pub mod time;
pub mod types;
