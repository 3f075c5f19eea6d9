//! Registry for fractional ownership of freelance gigs.
//!
//! A gig records a client and an ordered set of freelancer shares, each a
//! (name, wallet, percentage) triple. The registry validates and persists
//! gig records under caller-supplied identifiers and emits one "NFTMinted"
//! notification event per freelancer share on demand. The host's key-value
//! storage is modelled as an explicit map held by the registry, and the
//! host's event log as an append-only sequence.

pub mod gig;
pub mod registry;
