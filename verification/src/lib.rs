//! Verified core of the RZEM AI inference application: model taxonomy,
//! sampler and scheduler selection, batch prompt data, prompt-embedding
//! caching, folder trees and the small text protocols around them.
use vstd::prelude::*;

pub mod batch;
pub mod chatbot;
pub mod image_analysis;
pub mod client;
pub mod db;
pub mod gallery;
pub mod inference;
pub mod json_text;
pub mod lines;
pub mod model_manager;
pub mod numbers;
pub mod text;

verus! {

} // verus!
