# enki

A synthetic market-data simulator: it keeps an order book per symbol, feeds
it random-walk quotes, and streams the resulting book updates as CSV at a
configurable rate.

- `src/` is the verified library (Verus): symbols and sides, the price order
  key, book sides with their depth limit and pruning, per-symbol books and
  their seeding, the settings parser, the generator's id cycle, and the
  consumer loop's decisions. Prices and sizes are carried as the bit
  patterns of doubles.
- `app/` is the program around it: reading the settings file, the
  floating-point parts (starting ladders, random walk, rate profiles, CSV
  formatting), the two threads and the channel between them, and Ctrl-C.
- `tests/` exercises the library.
