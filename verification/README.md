# cypher_cli

Command line utilities for the cypher protocol: account and sub-account
management, order placement on perpetual and spot markets, a market maker and
a liquidator.

The crate's logic is written in Verus and proved against its contracts:

- `src/cli` — the given arguments parsed into commands (with the exact
  messages of every rejection), token amounts turned into native units, the
  quote quantities orders reserve, the layout of a printed order book, and the
  lookup of markets by their zero-padded names.
- `src/common` — the market maker: layered quotes, the tracking of placed,
  in-flight and cancelled orders against the book, and the decisions of the
  context builders and of the receiving loops.
- `src/liquidator` — which accounts can be liquidated, what a liquidation
  would move, which positions to liquidate, and which accounts to watch.
- `src/fixed_point.rs` — 80.48 fixed-point numbers, computed by the `fixed`
  crate and described by the raw bits.

`app/` is the program around it: the `clap` command line, configuration files,
and the calls to the network clients.
