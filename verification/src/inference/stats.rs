//! Generation statistics: the timings and shapes recorded for one run, and
//! a timer for measuring them.
use vstd::prelude::*;
use std::time::Instant;

verus! {

/// Statistics of one generation run.
#[derive(Debug, Clone)]
pub struct GenerationStats {
    pub model_load_ms: Option<u64>,
    pub t5_load_ms: Option<u64>,
    pub clip_load_ms: Option<u64>,
    pub vae_load_ms: Option<u64>,
    pub flux_load_ms: Option<u64>,
    pub t5_encode_ms: u64,
    pub clip_encode_ms: u64,
    pub denoise_ms: u64,
    pub vae_decode_ms: u64,
    pub png_encode_ms: u64,
    pub total_ms: u64,
    pub t5_embedding_shape: Vec<usize>,
    pub clip_embedding_shape: Vec<usize>,
    pub latent_shape: Vec<usize>,
    pub image_shape: Vec<usize>,
    pub steps: usize,
    pub model_type: String,
}

impl Default for GenerationStats {
    /// No load times, zero durations, empty shapes, no steps, no model type.
    fn default() -> (s: Self)
        ensures
            s.model_load_ms is None && s.t5_load_ms is None && s.clip_load_ms is None
                && s.vae_load_ms is None && s.flux_load_ms is None,
            s.t5_encode_ms == 0 && s.clip_encode_ms == 0 && s.denoise_ms == 0 && s.vae_decode_ms
                == 0 && s.png_encode_ms == 0 && s.total_ms == 0,
            s.t5_embedding_shape@.len() == 0 && s.clip_embedding_shape@.len() == 0
                && s.latent_shape@.len() == 0 && s.image_shape@.len() == 0,
            s.steps == 0,
            s.model_type@.len() == 0,
    {
        GenerationStats {
            model_load_ms: None,
            t5_load_ms: None,
            clip_load_ms: None,
            vae_load_ms: None,
            flux_load_ms: None,
            t5_encode_ms: 0,
            clip_encode_ms: 0,
            denoise_ms: 0,
            vae_decode_ms: 0,
            png_encode_ms: 0,
            total_ms: 0,
            t5_embedding_shape: Vec::new(),
            clip_embedding_shape: Vec::new(),
            latent_shape: Vec::new(),
            image_shape: Vec::new(),
            steps: 0,
            model_type: String::new(),
        }
    }
}

#[verifier::external_type_specification]
#[verifier::external_body]
pub struct ExInstant(Instant);

/// The current instant (std `Instant::now`).
#[verifier::external_body]
fn now() -> Instant {
    Instant::now()
}

/// Whole milliseconds since `start` (std `Instant::elapsed`, then
/// `Duration::as_millis`); the value depends on the clock.
#[verifier::external_body]
fn millis_since(start: &Instant) -> u64 {
    start.elapsed().as_millis() as u64
}

/// Measures the time an operation takes.
pub struct Timer {
    start: Instant,
}

impl Timer {
    /// A timer started now.
    pub fn start() -> Timer {
        Timer { start: now() }
    }

    /// Milliseconds since the timer started.
    pub fn elapsed_ms(&self) -> u64 {
        millis_since(&self.start)
    }

    /// Stops the timer, giving the milliseconds since it started.
    pub fn stop(self) -> u64 {
        self.elapsed_ms()
    }
}

/// The image a run produced, with its statistics.
#[derive(Debug)]
pub struct GenerationResult {
    pub image_data: Vec<u8>,
    pub stats: GenerationStats,
}

} // verus!
