//! Inference support: model-cache policy, prompt-embedding caching,
//! pipeline progress, sampler and scheduler selection, and generation
//! statistics.
use vstd::prelude::*;

pub mod cache;
pub mod embedding_cache;
pub mod flux_pipeline;
pub mod metadata;
pub mod png_metadata;
pub mod progress;
pub mod samplers;
pub mod stats;

verus! {

} // verus!
