# polymarket_btc_arb

The decision logic of a trading bot that compares prediction-market prices
on crypto and commodity thresholds with model fair values, verified with Verus.

- `src/` — the verified library:
  - `text` — substring search, character classes, trimming, truncation;
  - `question` — market style and direction of a question, the dollar and
    Fed-rate figures it names, fair-value model choice, scan eligibility and
    diagnostics skip reasons;
  - `market` — order sides, classification of markets by asset, selection
    of tracked markets, Yes/No token ids, the fallback outcome price;
  - `signals` — which signals a scan emits, at most one per market;
  - `expiry` — seconds left until a market's end date (chrono);
  - `state` — labels, the bounded execution and equity journals, trade counters;
  - `risk` — the daily-cap and pause flags and the pre-trade check;
  - `cooldown` — per-market cooldowns of the scan loop, started by a fill;
  - `feeds` — reconnection policy of the streaming price feeds;
  - `dashboard` — keyboard commands;
  - `config` — on/off setting texts.
- `app/` — the program: configuration, price feeds, Polymarket HTTP and order
  execution, the floating-point pricing models and sizing, the web API, the
  terminal dashboard and the trade journal.
- `tests/` — tests of the library on concrete inputs.
