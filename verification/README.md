# percolator_engine

The integration layer of a perpetual-futures risk stack, with its decisions
formally verified.

- `src/convert.rs`: adapters from a price-feed tick to the risk engine's price,
  funding and warmup-band inputs, and from an equity session state to the
  risk-increase gates; laws on clamping and on the warmup band.
- `src/engine.rs`: `EngineCore`, the decision state of one composed tick (two
  halves around the feed and the equity engine) and the orders built from it;
  laws on open gating, on ungated liquidation and withdrawal, and on the session
  margin that every order carries.
- `src/invariants.rs`: the cross-component invariant contract over a snapshot.
- `src/redteam.rs`: the reproducible adversarial generator, the planning of
  actions into engine operations, and the replay, minimal shrink and search, generic
  over the engine through two closures.
- `app/`: the composed engine itself (price feed, equity engine, insured risk
  engine), demo configurations, the demo day and the command-line runner.
