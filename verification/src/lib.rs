//! A deterministic, transactional contributor registry.
//!
//! The registry maps participant identities (on-chain addresses) to external
//! GitHub handles and maintains a mutable reputation score per identity, under
//! the control of a single administrator.  Every operation preserves two
//! invariants at once: at most one profile per identity, and a secondary
//! handle index that never contradicts the directory.
//!
//! Host facilities — the authorization oracle, the key-value store, the clock,
//! the event sink, and the code-replacement facility — are external
//! collaborators: the registry holds its state explicitly, takes the clock
//! reading as an argument, and returns the notifications it wants delivered.

pub mod errors;
pub mod events;
pub mod lookup;
pub mod profile;
pub mod registry;
pub mod reputation;
