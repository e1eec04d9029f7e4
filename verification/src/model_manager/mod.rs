//! Models on disk: their taxonomy, what a file or directory of weights is,
//! and the search for models below a directory.
use vstd::prelude::*;

pub mod model_on_disk;
pub mod search;
pub mod taxonomy;

pub use model_on_disk::{HashAlgorithm, ModelOnDisk};
pub use search::{ModelSearch, SearchStats};
pub use taxonomy::{
    AnyVariant, BaseModelType, ClipVariantType, Flux2VariantType, FluxLoRAFormat,
    FluxVariantType, ModelFormat, ModelRepoVariant, ModelSourceType, ModelType,
    ModelVariantType, Qwen3VariantType, SchedulerPredictionType, SubModelType,
};

verus! {

} // verus!
