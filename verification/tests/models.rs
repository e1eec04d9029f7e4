use rzem_ai_inference::batch::JsonValue;
use rzem_ai_inference::model_manager::model_on_disk::{
    model_name, safetensors_header_metadata, safetensors_metadata, weight_walk_step, WalkStep, WeightFileError,
};
use rzem_ai_inference::model_manager::search::{DirEntry, EntryKind};
use rzem_ai_inference::model_manager::taxonomy::{BaseModelType, ModelRepoVariant, ModelType};
use rzem_ai_inference::model_manager::{HashAlgorithm, ModelOnDisk, ModelSearch, SearchStats};

fn entry(name: &str, path: &str, kind: EntryKind) -> DirEntry {
    DirEntry { name: name.to_string(), path: path.to_string(), kind }
}

#[test]
fn single_weight_files_are_named_by_stem() {
    let m = ModelOnDisk::new("/models/flux1-schnell.safetensors".to_string());
    assert_eq!(m.name, "flux1-schnell");
    assert_eq!(m.path(), "/models/flux1-schnell.safetensors");
    let d = ModelOnDisk::new("/models/FLUX.1-dev".to_string());
    assert_eq!(d.name, "FLUX.1-dev");
    let g = ModelOnDisk::new("/models/q.gguf".to_string());
    assert_eq!(g.name, "q.gguf");
}

#[test]
fn name_from_path_pieces() {
    assert_eq!(model_name(Some("pt".to_string()), Some("a".to_string()), Some("a.pt".to_string())), "a");
    assert_eq!(model_name(Some("txt".to_string()), Some("a".to_string()), Some("a.txt".to_string())), "a.txt");
    assert_eq!(model_name(None, None, None), "");
}

#[test]
fn hashing_follows_the_algorithm() {
    let m = ModelOnDisk::new("/m/x.bin".to_string());
    assert_eq!(m.hash(b"abc"), "6437b3ac38465133ffb63b75273a8db548c558465d79db03fd359c6cd5bd9d85");
    let b = ModelOnDisk::with_hash_algo("/m/x.bin".to_string(), HashAlgorithm::Blake2b);
    assert_eq!(
        b.hash(b"abc"),
        "ba80a53f981c4d0d6a2797b69f12f6e94c212f14685ac4b74b12bb6fdbffa2d17d87c5392aab792dc252d5de4533cc9518d38aa8dbf1925ab92386edd4009923"
    );
    assert_eq!(HashAlgorithm::default(), HashAlgorithm::Blake3);
}

#[test]
fn hashed_files_are_sorted_or_the_model_itself() {
    let m = ModelOnDisk::new("/m/dir".to_string());
    assert_eq!(m.hash_files(vec![]), vec!["/m/dir".to_string()]);
    let files = vec!["/m/dir/b.safetensors".to_string(), "/m/dir/a.safetensors".to_string()];
    assert_eq!(
        m.hash_files(files),
        vec!["/m/dir/a.safetensors".to_string(), "/m/dir/b.safetensors".to_string()]
    );
}

#[test]
fn weight_walk_steps() {
    assert_eq!(weight_walk_step(".git", "/m/.git", true), WalkStep::Skip);
    assert_eq!(weight_walk_step("unet", "/m/unet", true), WalkStep::Descend);
    assert_eq!(weight_walk_step("w.pth", "/m/w.pth", false), WalkStep::Keep);
    assert_eq!(weight_walk_step("readme.md", "/m/readme.md", false), WalkStep::Skip);
}

#[test]
fn metadata_is_read_once() {
    let mut m = ModelOnDisk::new("/m/x.safetensors".to_string());
    assert!(m.metadata_needs_read(None));
    let first = m.metadata(None, vec![("k".to_string(), "v".to_string())]);
    assert_eq!(first, vec![("k".to_string(), "v".to_string())]);
    assert!(!m.metadata_needs_read(None));
    let second = m.metadata(None, vec![]);
    assert_eq!(second, first);
    let other = m.metadata(Some("/m/y.bin"), vec![("k".to_string(), "v".to_string())]);
    assert!(other.is_empty());
    assert_eq!(m.metadata_target(Some("/m/y.bin")), "/m/y.bin");
}

#[test]
fn safetensors_header_value_metadata() {
    let meta = JsonValue::Object(
        vec![
            ("format".to_string(), JsonValue::Text("pt".to_string())),
            ("steps".to_string(), JsonValue::Number("20".to_string())),
        ],
        "{\"format\":\"pt\",\"steps\":20}".to_string(),
    );
    let header = JsonValue::Object(
        vec![("__metadata__".to_string(), meta), ("w".to_string(), JsonValue::Null)],
        "{}".to_string(),
    );
    assert_eq!(
        safetensors_metadata(&header),
        vec![("format".to_string(), "pt".to_string()), ("steps".to_string(), "20".to_string())]
    );
    assert!(safetensors_metadata(&JsonValue::Null).is_empty());
}

#[test]
fn repo_variants() {
    let m = ModelOnDisk::new("/m/sd".to_string());
    assert_eq!(m.repo_variant(true, &vec![]), None);
    let onnx = vec![("/m/sd/a.fp16.safetensors".to_string(), false), ("/m/sd/model.onnx".to_string(), false)];
    assert_eq!(m.repo_variant(false, &onnx), Some(ModelRepoVariant::ONNX));
    let fp16 = vec![("/m/sd/unet".to_string(), true), ("/m/sd/w.fp16.safetensors".to_string(), false)];
    assert_eq!(m.repo_variant(false, &fp16), Some(ModelRepoVariant::FP16));
    let flax = vec![("/m/sd/flax_model.bin".to_string(), false)];
    assert_eq!(m.repo_variant(false, &flax), Some(ModelRepoVariant::Flax));
    let plain = vec![("/m/sd/w.safetensors".to_string(), false)];
    assert_eq!(m.repo_variant(false, &plain), Some(ModelRepoVariant::Default));
}

#[test]
fn weight_file_resolution() {
    let m = ModelOnDisk::new("/m/dir".to_string());
    assert_eq!(m.resolve_weight_file(Some("/x.bin"), true, false, &vec![]).unwrap(), "/x.bin");
    assert!(matches!(m.resolve_weight_file(Some("/x.bin"), false, false, &vec![]), Err(WeightFileError::Missing(p)) if p == "/x.bin"));
    assert!(matches!(m.resolve_weight_file(None, false, false, &vec![]), Err(WeightFileError::NoWeights(_))));
    let one = vec!["/m/dir/a.bin".to_string()];
    assert_eq!(m.resolve_weight_file(None, false, false, &one).unwrap(), "/m/dir/a.bin");
    let two = vec!["/m/dir/a.bin".to_string(), "/m/dir/b.bin".to_string()];
    assert!(matches!(m.resolve_weight_file(None, false, false, &two), Err(WeightFileError::Ambiguous(_))));
    assert_eq!(m.resolve_weight_file(None, false, true, &two).unwrap(), "/m/dir");
}

#[test]
fn search_marks_marker_directories_as_one_model() {
    let mut s = ModelSearch::new();
    assert!(!s.search());
    let listing = vec![
        entry("config.json", "/r/a/config.json", EntryKind::File),
        entry("w.safetensors", "/r/a/w.safetensors", EntryKind::File),
        entry("sub", "/r/a/sub", EntryKind::Dir),
    ];
    let plan = s.visit_directory(&"/r/a".to_string(), &listing);
    assert_eq!(plan.candidates, vec!["/r/a".to_string()]);
    assert!(plan.subdirs.is_empty());
    assert_eq!(s.stats.items_scanned, 3);
}

#[test]
fn search_collects_weight_files_and_subdirectories() {
    let mut s = ModelSearch::new().max_depth(1).with_on_model_found();
    s.search();
    let listing = vec![
        entry(".hidden.ckpt", "/r/.hidden.ckpt", EntryKind::File),
        entry("a.ckpt", "/r/a.ckpt", EntryKind::File),
        entry("notes.txt", "/r/notes.txt", EntryKind::File),
        entry("loras", "/r/loras", EntryKind::Dir),
        entry("link", "/r/link", EntryKind::Other),
    ];
    let plan = s.visit_directory(&"/r".to_string(), &listing);
    assert_eq!(plan.candidates, vec!["/r/a.ckpt".to_string()]);
    assert_eq!(plan.subdirs, vec!["/r/loras".to_string()]);
    assert!(s.should_walk(1));
    assert!(!s.should_walk(2));
    assert!(!s.record_candidate("/r/a.ckpt".to_string(), false));
    assert!(s.record_candidate("/r/b.ckpt".to_string(), true));
    assert!(s.record_candidate("/r/b.ckpt".to_string(), true));
    assert_eq!(s.found_models(), vec!["/r/b.ckpt".to_string()]);
    let SearchStats { items_scanned, models_found, models_filtered } = s.stats;
    assert_eq!((items_scanned, models_found, models_filtered), (5, 3, 2));
}

#[test]
fn search_without_filter_keeps_every_model() {
    let mut s = ModelSearch::new().with_on_search_started().with_on_search_completed();
    assert!(s.search());
    assert!(s.reports_completion());
    assert!(!s.filters_models());
    assert!(s.record_candidate("/r/a.bin".to_string(), false));
    assert_eq!(s.found_models().len(), 1);
}

#[test]
fn safetensors_header_bytes_give_metadata() {
    let header = br#"{"__metadata__": {"format": "pt", "steps": 20, "tags": ["a"]}, "w": {"dtype": "F16"}}"#;
    let meta = safetensors_header_metadata(header).unwrap();
    assert_eq!(
        meta,
        vec![
            ("format".to_string(), "pt".to_string()),
            ("steps".to_string(), "20".to_string()),
            ("tags".to_string(), r#"["a"]"#.to_string()),
        ]
    );
    assert!(safetensors_header_metadata(br#"{"w": 1}"#).unwrap().is_empty());
    assert!(safetensors_header_metadata(b"[1]").unwrap().is_empty());
    assert!(safetensors_header_metadata(b"{oops").is_err());
}

#[test]
fn taxonomy_text_forms_are_the_wire_names() {
    assert_eq!(ModelType::TextualInversion.to_string(), "embedding");
    assert_eq!(ModelType::ControlLoRa.to_string(), "control_lora");
    assert_eq!(ModelType::SpandrelImageToImage.to_string(), "spandrel_image_to_image");
    assert_eq!(ModelRepoVariant::Default.to_string(), "");
    assert_eq!(ModelRepoVariant::FP16.to_string(), "fp16");
    assert_eq!(ModelRepoVariant::OpenVINO.to_string(), "openvino");
    assert_eq!(BaseModelType::Flux.to_string(), BaseModelType::Flux.as_str());
}

#[test]
fn hash_order_does_not_follow_listing_order() {
    let m = ModelOnDisk::new("/m/dir".to_string());
    let listed_a = vec!["/m/dir/b/w.bin".to_string(), "/m/dir/a.safetensors".to_string(), "/m/dir/c.pt".to_string()];
    let listed_b = vec!["/m/dir/c.pt".to_string(), "/m/dir/b/w.bin".to_string(), "/m/dir/a.safetensors".to_string()];
    let first = m.hash_files(listed_a);
    assert_eq!(first, m.hash_files(listed_b));
    assert_eq!(first[0], "/m/dir/a.safetensors");
}

#[test]
fn stems_stop_at_the_last_dot() {
    assert_eq!(ModelOnDisk::new("/m/x.tar.safetensors".to_string()).name, "x.tar");
    assert_eq!(ModelOnDisk::new("/m/.safetensors".to_string()).name, ".safetensors");
    assert_eq!(ModelOnDisk::new("/m/w.ckpt/".to_string()).name, "w");
    assert_eq!(ModelOnDisk::new("/m/w.bin.".to_string()).name, "w.bin.");
}
