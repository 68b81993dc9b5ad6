# Polymarket tracker

A trader for Polymarket's five-minute up/down markets. It follows the prices of the configured
markets, tags a side that has become cheap near the end of an interval, and buys it when its price
recovers. The logic is a library whose behaviour is stated in contracts and proved with Verus.

## Layout

- `src/` is the library.
  - `number`, `text`, `text_map`, `search`, `clock`: numbers as bit patterns, text, maps keyed by
    text, positions in sequences, and instants of UTC.
  - `config`, `gamma_api`: the configuration, the markets of the Gamma service and the intervals.
  - `state`: everything the parts of the trader share, and each step that changes it.
  - `trading`: the strategy, the attempts to buy, and the evaluation of trades.
  - `websocket`: the messages of the price feed and the course of its connection.
  - `session`: the start of an interval and of trading.
  - `notice`, `ui`: what the user is told and what the screen shows.
  - `laws`: what holds over any course of events.
- `tests/` runs the library on concrete values.
- `app/` is the program around it: files, network, tasks, the terminal, and floating point. Besides
  the crates that `Cargo.toml` lists it uses `polymarket-client-sdk` and `reqwest`.

## Reading the contracts

`AppState` has the view `StateView`. Each function that changes the state says which transition of
`StateView` it makes, so that `laws` can speak of sequences of transitions. A function that reads
the clock says that its effect is the one for some instant; the function of the same name that ends
in `_at`, `_after` or `_for` takes the instant and is exact.
