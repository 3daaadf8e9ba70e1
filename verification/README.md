# wheatgame

The rules of a multiplayer farming world, verified with Verus: one hundred
plots in four tiers staked in USDC, a peer-to-peer plot exchange, a crop
order book, tribes and alliances, and a multiplicative yield engine.

Each instruction is a function from account state and arguments to the new
account state, the token amounts to move and the event to report. A refused
instruction changes nothing.

- `src/state.rs` — accounts, tiers, the world's count of claimed plots per
  tier, constants, upgrade tables.
- `src/instructions.rs` — claim, abandon, upgrade and harvest a plot.
- `src/exchange.rs` — list a plot and accept an offer.
- `src/market.rs` — place orders, matched on insert against the best
  counterparties first, and match the book.
- `src/social.rs` — tribes and alliances.
- `src/yield_engine.rs` — harvest yield and golden hour.
- `src/pubkey.rs`, `src/arith.rs` — addresses and saturating arithmetic.
- `src/*_laws.rs` — properties proved across calls and over all inputs.
- `app/` — the Solana program (Anchor) that validates accounts, reads the
  clock, moves tokens and emits events around the library.
