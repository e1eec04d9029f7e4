//! Model cache policy: which models stay loaded between generations, how
//! many prompt embeddings are cached, when an idle cache is cleared, and the
//! statistics the cache reports.
use vstd::prelude::*;
use crate::text::str_equal;

verus! {

/// Configuration of model caching.
#[derive(Clone, Debug)]
pub struct ModelCacheConfig {
    /// Keep the VAE loaded between generations.
    pub keep_vae_loaded: bool,
    /// Keep the FLUX transformer loaded.
    pub keep_flux_loaded: bool,
    /// Keep the T5 encoder loaded.
    pub keep_t5_loaded: bool,
    /// Keep the CLIP encoder loaded.
    pub keep_clip_loaded: bool,
    /// Maximum number of cached prompt embeddings.
    pub embedding_cache_size: usize,
    /// Clear everything after this many idle seconds (never when absent).
    pub idle_timeout_secs: Option<u64>,
}

impl Default for ModelCacheConfig {
    /// Keeps the VAE and the transformer, unloads the text encoders, caches
    /// 10 embeddings and clears after 5 idle minutes.
    fn default() -> (c: Self)
        ensures
            c.keep_vae_loaded && c.keep_flux_loaded && !c.keep_t5_loaded && !c.keep_clip_loaded,
            c.embedding_cache_size == 10,
            c.idle_timeout_secs == Some(300u64),
    {
        ModelCacheConfig {
            keep_vae_loaded: true,
            keep_flux_loaded: true,
            keep_t5_loaded: false,
            keep_clip_loaded: false,
            embedding_cache_size: 10,
            idle_timeout_secs: Some(300),
        }
    }
}

impl ModelCacheConfig {
    /// Keeps every model loaded (fast batches): 20 embeddings, 10 idle minutes.
    pub fn keep_all_loaded() -> (c: Self)
        ensures
            c.keep_vae_loaded && c.keep_flux_loaded && c.keep_t5_loaded && c.keep_clip_loaded,
            c.embedding_cache_size == 20,
            c.idle_timeout_secs == Some(600u64),
    {
        ModelCacheConfig {
            keep_vae_loaded: true,
            keep_flux_loaded: true,
            keep_t5_loaded: true,
            keep_clip_loaded: true,
            embedding_cache_size: 20,
            idle_timeout_secs: Some(600),
        }
    }

    /// Frees memory after each generation: nothing kept, 5 embeddings, one
    /// idle minute.
    pub fn memory_saver() -> (c: Self)
        ensures
            !c.keep_vae_loaded && !c.keep_flux_loaded && !c.keep_t5_loaded && !c.keep_clip_loaded,
            c.embedding_cache_size == 5,
            c.idle_timeout_secs == Some(60u64),
    {
        ModelCacheConfig {
            keep_vae_loaded: false,
            keep_flux_loaded: false,
            keep_t5_loaded: false,
            keep_clip_loaded: false,
            embedding_cache_size: 5,
            idle_timeout_secs: Some(60),
        }
    }
}

/// Which models are loaded.
#[derive(Clone, Debug)]
pub struct ModelsLoaded {
    pub t5: bool,
    pub clip: bool,
    pub vae: bool,
    pub flux: bool,
}

impl Default for ModelsLoaded {
    /// Nothing loaded.
    fn default() -> (m: Self)
        ensures
            !m.t5 && !m.clip && !m.vae && !m.flux,
    {
        ModelsLoaded { t5: false, clip: false, vae: false, flux: false }
    }
}

/// Cache statistics for monitoring.
#[derive(Clone, Debug)]
pub struct CacheStats {
    pub embedding_hits: u64,
    pub embedding_misses: u64,
    pub cached_embeddings: usize,
    pub pipeline_reuses: u64,
    pub pipeline_recreations: u64,
    /// Name of the model type of the current pipeline.
    pub current_model_type: Option<String>,
    pub models_loaded: ModelsLoaded,
}

impl Default for CacheStats {
    /// All counts zero, no pipeline, nothing loaded.
    fn default() -> (s: Self)
        ensures
            s.embedding_hits == 0 && s.embedding_misses == 0 && s.cached_embeddings == 0,
            s.pipeline_reuses == 0 && s.pipeline_recreations == 0,
            s.current_model_type is None,
            !s.models_loaded.t5 && !s.models_loaded.clip && !s.models_loaded.vae
                && !s.models_loaded.flux,
    {
        CacheStats {
            embedding_hits: 0,
            embedding_misses: 0,
            cached_embeddings: 0,
            pipeline_reuses: 0,
            pipeline_recreations: 0,
            current_model_type: None,
            models_loaded: ModelsLoaded::default(),
        }
    }
}

/// Whether a new pipeline must be made for `requested`: when there is none,
/// or when the current one was made for another model type.
pub open spec fn pipeline_needed(
    has_pipeline: bool,
    current: Option<Seq<char>>,
    requested: Seq<char>,
) -> bool {
    !has_pipeline || (current matches Some(c) && c != requested)
}

/// Decides whether a new pipeline must be made for the requested model type.
pub fn needs_new_pipeline(has_pipeline: bool, current: Option<&str>, requested: &str) -> (b: bool)
    ensures
        b == pipeline_needed(
            has_pipeline,
            match current {
                Some(c) => Some(c@),
                None => None,
            },
            requested@,
        ),
{
    if !has_pipeline {
        return true;
    }
    match current {
        Some(c) => !str_equal(c, requested),
        None => false,
    }
}

impl CacheStats {
    /// Records a pipeline request: a recreation (with the model type now
    /// current) when a pipeline was made, a reuse otherwise.
    pub fn record_pipeline(&mut self, created: bool, model_type: String)
        requires
            old(self).pipeline_recreations < u64::MAX,
            old(self).pipeline_reuses < u64::MAX,
        ensures
            created ==> final(self).pipeline_recreations == old(self).pipeline_recreations + 1
                && final(self).pipeline_reuses == old(self).pipeline_reuses
                && final(self).current_model_type == Some(model_type),
            !created ==> final(self).pipeline_reuses == old(self).pipeline_reuses + 1
                && final(self).pipeline_recreations == old(self).pipeline_recreations
                && final(self).current_model_type == old(self).current_model_type,
            final(self).embedding_hits == old(self).embedding_hits,
            final(self).embedding_misses == old(self).embedding_misses,
            final(self).cached_embeddings == old(self).cached_embeddings,
            final(self).models_loaded == old(self).models_loaded,
    {
        if created {
            self.pipeline_recreations = self.pipeline_recreations + 1;
            self.current_model_type = Some(model_type);
        } else {
            self.pipeline_reuses = self.pipeline_reuses + 1;
        }
    }

    /// The statistics after the cache is cleared: no current model type and
    /// nothing loaded; the counts stay.
    pub fn record_clear(&mut self)
        ensures
            final(self).current_model_type is None,
            !final(self).models_loaded.t5 && !final(self).models_loaded.clip
                && !final(self).models_loaded.vae && !final(self).models_loaded.flux,
            final(self).embedding_hits == old(self).embedding_hits,
            final(self).embedding_misses == old(self).embedding_misses,
            final(self).cached_embeddings == old(self).cached_embeddings,
            final(self).pipeline_reuses == old(self).pipeline_reuses,
            final(self).pipeline_recreations == old(self).pipeline_recreations,
    {
        self.current_model_type = None;
        self.models_loaded = ModelsLoaded::default();
    }

    /// The statistics with the embedding cache's figures filled in.
    pub fn with_embedding_figures(self, hits: u64, misses: u64, cached: usize) -> (s: Self)
        ensures
            s.embedding_hits == hits,
            s.embedding_misses == misses,
            s.cached_embeddings == cached,
            s.pipeline_reuses == self.pipeline_reuses,
            s.pipeline_recreations == self.pipeline_recreations,
            s.current_model_type == self.current_model_type,
            s.models_loaded == self.models_loaded,
    {
        let mut s = self;
        s.embedding_hits = hits;
        s.embedding_misses = misses;
        s.cached_embeddings = cached;
        s
    }
}

/// Whether an idle time of `elapsed_secs` seconds and `elapsed_nanos`
/// nanoseconds exceeds the timeout (there is none when the timeout is absent).
pub open spec fn idle_expired(timeout_secs: Option<u64>, elapsed_secs: u64, elapsed_nanos: u32) -> bool {
    match timeout_secs {
        Some(t) => elapsed_secs > t || (elapsed_secs == t && elapsed_nanos > 0),
        None => false,
    }
}

/// Decides whether the idle timeout has passed.
pub fn idle_timeout_passed(timeout_secs: Option<u64>, elapsed_secs: u64, elapsed_nanos: u32) -> (b: bool)
    ensures
        b == idle_expired(timeout_secs, elapsed_secs, elapsed_nanos),
{
    match timeout_secs {
        Some(t) => elapsed_secs > t || (elapsed_secs == t && elapsed_nanos > 0),
        None => false,
    }
}

/// Whether a configuration change calls for a new embedding cache: when the
/// configured size differs from the number of embeddings now cached.
pub fn embedding_cache_needs_reset(new_size: usize, cached: usize) -> (b: bool)
    ensures
        b == (new_size != cached),
{
    new_size != cached
}

/// The models still loaded after a generation: each loaded model stays
/// only where the configuration keeps it loaded.
pub open spec fn kept_after_cleanup(loaded: ModelsLoaded, config: ModelCacheConfig) -> ModelsLoaded {
    ModelsLoaded {
        t5: loaded.t5 && config.keep_t5_loaded,
        clip: loaded.clip && config.keep_clip_loaded,
        vae: loaded.vae && config.keep_vae_loaded,
        flux: loaded.flux && config.keep_flux_loaded,
    }
}

/// Decides which models stay loaded after a generation, given the cache
/// configuration.
pub fn models_after_cleanup(loaded: &ModelsLoaded, config: &ModelCacheConfig) -> (r: ModelsLoaded)
    ensures
        r == kept_after_cleanup(*loaded, *config),
{
    ModelsLoaded {
        t5: loaded.t5 && config.keep_t5_loaded,
        clip: loaded.clip && config.keep_clip_loaded,
        vae: loaded.vae && config.keep_vae_loaded,
        flux: loaded.flux && config.keep_flux_loaded,
    }
}

/// Cleaning up never loads a model, and cleaning up twice unloads nothing
/// more than cleaning up once.
pub proof fn lemma_cleanup_only_unloads(loaded: ModelsLoaded, config: ModelCacheConfig)
    ensures
        kept_after_cleanup(loaded, config).t5 ==> loaded.t5,
        kept_after_cleanup(loaded, config).clip ==> loaded.clip,
        kept_after_cleanup(loaded, config).vae ==> loaded.vae,
        kept_after_cleanup(loaded, config).flux ==> loaded.flux,
        kept_after_cleanup(kept_after_cleanup(loaded, config), config) == kept_after_cleanup(loaded, config),
{
}

/// With every model kept, nothing is unloaded.
pub proof fn lemma_keep_all_keeps_everything(loaded: ModelsLoaded, config: ModelCacheConfig)
    requires
        config.keep_t5_loaded && config.keep_clip_loaded && config.keep_vae_loaded && config.keep_flux_loaded,
    ensures
        kept_after_cleanup(loaded, config) == loaded,
{
}

} // verus!
