//! Proving-index lifecycle for a PLONK-style proof system: canonical circuit
//! gates, constraint-system construction with evaluation-domain sizing, a
//! structured reference string with a cached per-domain evaluation basis,
//! assembly of an immutable proving index with a cached verifier digest, and a
//! verified binary codec that persists and restores the index.

pub mod codec;
pub mod constraint_system;
pub mod digest;
pub mod domain;
pub mod gate;
pub mod index;
pub mod linearization;
pub mod srs;
