# trading_core

The rules of an OKX trading desktop back end, verified with Verus.

`src/` is the verified library:

- `text`, `error`: text helpers with exact specifications, and the error type.
- `keys`, `subscriptions`, `refs`, `realtime_state`: normalising instrument ids,
  channels and timeframes; reference-counted subscriptions of the realtime
  feeds, with the collection feeds and the per-mode private channels.
- `feed_status`, `ws_session`, `private_feed`, `private_cache`: the state of
  each websocket worker (generation-guarded), what a worker does with every
  frame and message, the private endpoints and login signature, and the
  caches of private events.
- `semantics`, `contract`, `orders`, `market_data`, `risk_params`: order
  management identities and dedupe keys, the targets of cancel and modify
  actions, the counts and warnings of a run's strategy actions, historical
  series merged by timestamp, and the strategy parameters the risk rules read.
- `schema`, `storage`: the statements that create the SQLite schema,
  planning of its migrations from a snapshot of the schema, and when a
  realtime candle's sync record is updated in place.

`app/` is ordinary Rust around it: the SQLite runner, JSON conversion,
floating-point renderings and market data with float prices.

`tests/` exercises the library through its public interface.
