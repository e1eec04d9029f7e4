use rzem_ai_inference::inference::stats::{GenerationStats, Timer};
use rzem_ai_inference::inference::cache::{models_after_cleanup, ModelsLoaded};
use rzem_ai_inference::inference::cache::{
    embedding_cache_needs_reset, idle_timeout_passed, needs_new_pipeline, CacheStats, ModelCacheConfig,
};
use rzem_ai_inference::inference::embedding_cache::{hash_prompt, EmbeddingCache};
use rzem_ai_inference::inference::progress::{batch_message, denoising_message, PipelineStage};

fn make_dummy_embedding() -> Vec<f32> {
    vec![0.0f32; 8]
}

#[test]
fn test_config_presets() {
    let default = ModelCacheConfig::default();
    assert!(default.keep_flux_loaded);
    assert!(default.keep_vae_loaded);

    let keep_all = ModelCacheConfig::keep_all_loaded();
    assert!(keep_all.keep_flux_loaded);
    assert!(keep_all.keep_t5_loaded);

    let memory_saver = ModelCacheConfig::memory_saver();
    assert!(!memory_saver.keep_vae_loaded);
    assert_eq!(memory_saver.idle_timeout_secs, Some(60));
}

#[test]
fn test_cache_hit_miss() {
    let mut cache = EmbeddingCache::new(5);

    assert!(cache.get("prompt 1").is_none());
    assert_eq!(cache.stats(), (0, 1));

    cache.insert("prompt 1", make_dummy_embedding());
    assert!(cache.get("prompt 1").is_some());
    assert_eq!(cache.stats(), (1, 1));
}

#[test]
fn test_lru_eviction() {
    let mut cache = EmbeddingCache::new(2);

    cache.insert("a", make_dummy_embedding());
    cache.insert("b", make_dummy_embedding());

    cache.get("a");

    cache.insert("c", make_dummy_embedding());

    assert!(cache.get("a").is_some());
    assert!(cache.get("b").is_none());
    assert!(cache.get("c").is_some());
}

#[test]
fn cache_gives_back_what_was_written() {
    let mut cache = EmbeddingCache::new(3);
    cache.insert("x", vec![1.0f32, 2.0]);
    cache.insert("x", vec![3.0f32]);
    assert_eq!(cache.get("x"), Some(vec![3.0f32]));
    assert_eq!(cache.len(), 1);
    cache.clear();
    assert!(cache.is_empty());
    assert_eq!(cache.get("x"), None);
}

#[test]
fn cache_never_exceeds_its_capacity() {
    let mut cache = EmbeddingCache::new(2);
    for p in ["a", "b", "c", "d"] {
        cache.insert(p, make_dummy_embedding());
        assert!(cache.len() <= 2);
    }
    assert!(cache.get("c").is_some());
    assert!(cache.get("d").is_some());
}

#[test]
fn prompt_keys_are_stable() {
    assert_eq!(hash_prompt("a cat"), hash_prompt("a cat"));
    assert_ne!(hash_prompt("a cat"), hash_prompt("a dog"));
}

#[test]
fn test_denoising_step() {
    let message = denoising_message(2, 4);
    assert_eq!(message, "Denoising step 2/4");
}

#[test]
fn batch_messages_are_prefixed_only_in_batches() {
    assert_eq!(batch_message(2, 3, "Encoding"), "Image 2/3: Encoding");
    assert_eq!(batch_message(1, 1, "Encoding"), "Encoding");
}

#[test]
fn stage_names() {
    assert_eq!(PipelineStage::Denoising.display_name(), "Drawing");
}

#[test]
fn pipeline_reuse_decisions() {
    assert!(needs_new_pipeline(false, None, "flux"));
    assert!(!needs_new_pipeline(true, Some("flux"), "flux"));
    assert!(needs_new_pipeline(true, Some("flux"), "zindex"));
    assert!(!needs_new_pipeline(true, None, "flux"));
}

#[test]
fn idle_timeouts() {
    assert!(!idle_timeout_passed(None, 10_000, 0));
    assert!(!idle_timeout_passed(Some(60), 60, 0));
    assert!(idle_timeout_passed(Some(60), 60, 1));
    assert!(idle_timeout_passed(Some(60), 61, 0));
}

#[test]
fn embedding_cache_reset_rule() {
    assert!(embedding_cache_needs_reset(5, 6));
    assert!(!embedding_cache_needs_reset(5, 5));
}

#[test]
fn stats_record_pipelines() {
    let mut s = CacheStats::default();
    s.record_pipeline(true, "flux".to_string());
    s.record_pipeline(false, "flux".to_string());
    assert_eq!(s.pipeline_recreations, 1);
    assert_eq!(s.pipeline_reuses, 1);
    assert_eq!(s.current_model_type, Some("flux".to_string()));
    s.record_clear();
    assert_eq!(s.current_model_type, None);
    let s = s.with_embedding_figures(3, 4, 2);
    assert_eq!((s.embedding_hits, s.embedding_misses, s.cached_embeddings), (3, 4, 2));
}

#[test]
fn cleanup_unloads_what_is_not_kept() {
    let loaded = ModelsLoaded { t5: true, clip: true, vae: false, flux: true };
    let after = models_after_cleanup(&loaded, &ModelCacheConfig::memory_saver());
    let keep = ModelCacheConfig::memory_saver();
    assert_eq!(after.t5, keep.keep_t5_loaded);
    assert!(!after.vae);
    let all = models_after_cleanup(&loaded, &ModelCacheConfig::keep_all_loaded());
    assert!(all.t5 && all.clip && !all.vae && all.flux);
}

#[test]
fn timers_and_empty_stats() {
    let t = Timer::start();
    let first = t.elapsed_ms();
    let total = t.stop();
    assert!(total >= first);
    let s = GenerationStats::default();
    assert_eq!(s.total_ms, 0);
    assert!(s.model_load_ms.is_none());
    assert!(s.image_shape.is_empty());
    assert_eq!(s.model_type, "");
}
