//! Economic and governance state-transition core of a blockchain node.
//!
//! Three coupled components: an oracle that aggregates a consensus index
//! (the "HOI" value) from a bounded set of allowed sources, a council
//! governance process that changes the oracle's parameters by vote, and a
//! reward-issuance engine that mints tokens under a hard supply cap, using
//! the oracle value, purchased licenses and staked collateral as
//! multiplicative modifiers.
//!
//! All state lives in explicit state structs and every transition is a
//! function with an exact contract. The surrounding runtime is expected to
//! authenticate callers (handing in an [`authority::Origin`]), serialize
//! calls, and persist the state between them; each call either commits all
//! of its mutations or, on any validation failure, none.

pub mod arith;
pub mod authority;
pub mod governance;
pub mod laws;
pub mod ledger;
pub mod oracle;
pub mod rewards;
