//! Composition engine for feature-based smart-contract validators.
//!
//! The crate turns a requested set of security features, a validator purpose
//! ("spend" or "mint") and a user-declared data schema into a composed
//! validator specification: the closed, conflict-free, deterministically
//! ordered feature sequence, merged imports and parameters, the assembled
//! code fragments, and synthesized positive and negative test scenarios.
//!
//! The pipeline is parse ([`features::types`]) → resolve
//! ([`features::compose::resolve_features`]) → compose
//! ([`features::compose::compose`]) → synthesize
//! ([`features::synth::build_tests`]); every stage is a pure function over
//! the static catalog in [`features`].

pub mod error;
pub mod features;
pub mod templates;
pub mod text;
