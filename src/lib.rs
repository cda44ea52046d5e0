//! Rollup registry of a block-space marketplace: registration and update of
//! rollup terms, the canonical commitment that signers sign, and the solver
//! state seeded from the consensus stake table.
pub mod types;
pub mod error;
pub mod registry;
pub mod store;
pub mod commitment;
pub mod persistence;
pub mod options;
pub mod state;
