//! Reproducible, stratified sampling of mined software repositories.
//!
//! The crate filters a project population by language and maturity
//! criteria, draws deterministic seed-reproducible samples (top-K by a
//! metric, seeded random, seeded random with distinctness and a minimum
//! ratio), resolves each sampled project's default-branch head commit into
//! a list of `(pid, path, hash_id)` rows, and renders the rows as CSV text.
//! Reading the store and writing files are left to the embedding program.
use vstd::prelude::*;

pub mod export;
pub mod extract;
pub mod filter;
pub mod model;
pub mod pipeline;
pub mod sample;

verus! {

/// Nominal sample size of every sampling round.
pub const SELECTION_SIZE: usize = 1020;

/// How many extra candidates the diagnostic first pass draws.
pub const OVERSAMPLE: usize = 1000;

/// Seed for the "all projects" sampling round.
pub const SEED_ALL: u128 = 1;

/// Seed for the "developed projects" sampling round.
pub const SEED_100LOC_7D_10C: u128 = 2;

/// Seed reserved for a stricter "developed projects" round.
pub const SEED_1000LOC_180D_100C: u128 = 3;

} // verus!
