# yfinance_rs

A client for Yahoo Finance data whose computational core is verified with
Verus. The library (`src/`) holds what the client decides and computes; the
thin layer in `app/` performs the network requests, parses the wire formats
with serde, and hands plain values to the library.

## Layout

- `src/decimal.rs`, `src/bignat.rs`, `src/ratio.rs`, `src/adjust.rs` —
  fixed-point prices, exact ratios over arbitrary-precision naturals, and
  split/dividend adjustment factors with round-half-to-even results.
- `src/chart.rs`, `src/assemble.rs`, `src/actions.rs`, `src/history.rs`,
  `src/response.rs` — the chart query, the decoding of a chart series,
  candle assembly with its adjustment plan, price rounding, corporate
  actions in time order, and the whole history response built from a chart.
- `src/text.rs`, `src/scrape.rs`, `src/json.rs`, `src/payload.rs`,
  `src/profile.rs`, `src/dump.rs` — text scanning of quote pages, the JSON
  tree the page scripts are read into, the search for the quote summary
  store, the company or fund profile built from it, and the debug digest of
  a page.
- `src/isin.rs`, `src/symbol.rs` — recognising ISINs, normalising symbols,
  resolving the ISIN of a symbol from a search response, and the canonical
  form of a symbol.
- `src/search.rs`, `src/options.rs`, `src/stream.rs`, `src/news.rs`,
  `src/holders.rs`, `src/quote.rs`, `src/info.rs`, `src/ticker.rs`,
  `src/client.rs` — request builders, the retry policy with exponential
  backoff, the fetch step machines of the search and options endpoints and of a
  profile load, the quote summary answer, quotes and ticker summaries, the
  payload of a stream frame, and the mapping of their payloads.
- `tests/` — executable tests of the library.
- `app/` — HTTP, caching, WebSocket streaming and serde wire types.

Every function in `src/` carries a `requires`/`ensures` contract checked by
Verus; the few calls into `num-bigint`, `serde_json` and `chrono` sit behind
small trusted wrappers whose contracts are documented where they are declared.
