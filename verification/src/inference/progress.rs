//! Progress reporting for the generation pipeline: its stages and the
//! status messages shown for them.
use vstd::prelude::*;
use crate::text::{concat, decimal, decimal_string};

verus! {

/// Stages of the generation pipeline.
#[derive(Debug, Clone, Copy, PartialEq, Eq, Structural)]
pub enum PipelineStage {
    LoadingModels,
    Denoising,
    DecodingVae,
    EncodingPng,
}

impl PipelineStage {
    /// The name shown for the stage.
    pub open spec fn display(self) -> Seq<char> {
        match self {
            PipelineStage::LoadingModels => "Loading models"@,
            PipelineStage::Denoising => "Drawing"@,
            PipelineStage::DecodingVae => "Decoding image"@,
            PipelineStage::EncodingPng => "Saving image"@,
        }
    }

    /// The name shown for the stage.
    pub fn display_name(&self) -> (s: &'static str)
        ensures
            s@ == self.display(),
    {
        match self {
            PipelineStage::LoadingModels => "Loading models",
            PipelineStage::Denoising => "Drawing",
            PipelineStage::DecodingVae => "Decoding image",
            PipelineStage::EncodingPng => "Saving image",
        }
    }
}

/// The status message of a denoising step: "Denoising step {current}/{total}".
pub open spec fn denoising_text(current: nat, total: nat) -> Seq<char> {
    "Denoising step "@ + decimal(current) + "/"@ + decimal(total)
}

/// The status message of a denoising step.
pub fn denoising_message(current_step: u64, total_steps: u64) -> (s: String)
    ensures
        s@ == denoising_text(current_step as nat, total_steps as nat),
{
    let a = concat("Denoising step ", decimal_string(current_step).as_str());
    let b = concat(a.as_str(), "/");
    concat(b.as_str(), decimal_string(total_steps).as_str())
}

/// A status message within a batch: prefixed by "Image {index}/{total}: "
/// when the batch has more than one image.
pub open spec fn batch_text(index: nat, total: nat, message: Seq<char>) -> Seq<char> {
    if total > 1 {
        "Image "@ + decimal(index) + "/"@ + decimal(total) + ": "@ + message
    } else {
        message
    }
}

/// A status message within a batch.
pub fn batch_message(index: u64, total: u64, message: &str) -> (s: String)
    ensures
        s@ == batch_text(index as nat, total as nat, message@),
{
    if total > 1 {
        let a = concat("Image ", decimal_string(index).as_str());
        let b = concat(a.as_str(), "/");
        let c = concat(b.as_str(), decimal_string(total).as_str());
        let d = concat(c.as_str(), ": ");
        concat(d.as_str(), message)
    } else {
        message.to_owned()
    }
}

} // verus!
