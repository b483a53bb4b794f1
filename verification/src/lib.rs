//! A peer-reputation ledger module: each participating node ("car") holds a
//! trust record on a host-provided ledger, addressed by its public identity.
//! A small instruction protocol lets peers report on each other's honesty and
//! periodically recompute reputation scores with a simplified EigenTrust-style
//! propagation rule.
//!
//! This crate holds the verified core: the wire format of the instruction
//! envelope and of the stored record, account validation, and the decision
//! logic of the three operations. The host side performs storage allocation,
//! clock reads, and the numeric score arithmetic, driven by the directives
//! this crate returns.

pub mod error;
pub mod identity;
pub mod instruction;
pub mod ledger;
pub mod processor;
pub mod record;
