//! Provisioning of a Taproot wallet descriptor pair: either loaded from a
//! one-line configuration record, or freshly derived from a random seed and
//! handed back together with the record to persist.

pub mod keysource;
pub mod prompt;
pub mod provision;
pub mod record;
