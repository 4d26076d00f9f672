//! The integration layer of a perpetual-futures risk stack: it turns price-feed and
//! equity-session outputs into the inputs and gates of the insured risk engine,
//! sequences one composed tick, checks the cross-component invariant contract, and
//! drives an adversarial search for breaks of that contract.

pub mod convert;
pub mod engine;
pub mod invariants;
pub mod redteam;
