# int_tradebot

The core of an intelligent trade bot, verified with Verus: order books fed
by exchange depth streams, a trading strategy, an order manager, market
simulators, and a back test that runs a recorded Bybit feed through all of
them.

- `src/` is the verified library.
  - `utils/`: exact decimals (`Dec`, with `rust_decimal` doing the
    arithmetic), a JSON value as the feed handlers read it, integer text,
    the clock, compressed streams and a seeded generator.
  - `engine/`: the price books (`PriceLevels`, one level per price, in
    order of price), the order tables (`OrderTable`, one order per price),
    the Okex and Bybit order books, the strategy, the order manager, the
    market simulators and the liquidity provider.
  - `gateways/`: the gateways' types and the logic they hold (the answer to
    a Huobi heartbeat, the Binance depth stream).
  - `ats/`: the back test (`BackTestRun::handle_message`), what it keeps
    from line to line (`bybit_bts_laws`), and the systems.
- `tests/` runs the library on concrete feeds and orders.
- `app/` is the program around it: `main`, the websocket subscribers, the
  files they record to, HTTP, the threads of the simulated system and the
  reading of feed lines as JSON.
