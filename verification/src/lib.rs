//! Escrow accounting engine for a peer-to-peer car rental marketplace.
//!
//! Owners list cars, renters pay to rent them, the engine custodies the
//! funds, an admin skims a per-rental fee, and owners and admin withdraw
//! their accumulated balances. Every operation is a pure, atomic state
//! transition: it either returns a new state (plus the value transfer the
//! host must perform) or a typed error and no state at all. The host is
//! responsible for authorization evidence, for executing the returned
//! transfer against the external asset ledger, and for committing the new
//! state only when that transfer succeeds.

pub mod auth;
pub mod error;
pub mod state;
pub mod contract;
pub mod laws;
