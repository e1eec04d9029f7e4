use rzem_ai_inference::db::bundle_scan::{
    bundle_is_complete, bundle_vram_total, role_is_required, vram_total_fits, ScannedComponent,
};
use rzem_ai_inference::db::folder_order::next_sort_order;
use rzem_ai_inference::db::models::find_bundle_by_name;
use rzem_ai_inference::db::folders::{
    check_folder_move, folder_move_decidable, folder_tree, folder_tree_buildable, folder_tree_checked,
    FolderMoveError,
};
use rzem_ai_inference::db::models::{
    bundle_item, bundle_response, component_type_to_model_type, infer_family, model_file_info,
    optional_response_time, response_time, BundleOverview,
};
use rzem_ai_inference::db::{ComponentInfo, Folder};
use rzem_ai_inference::gallery;

fn folder(id: &str, name: &str, parent: Option<&str>, order: i32) -> Folder {
    Folder {
        id: id.to_string(),
        name: name.to_string(),
        parent_id: parent.map(|p| p.to_string()),
        color: None,
        icon: Some("folder".to_string()),
        sort_order: order,
        created_at: 10,
        updated_at: 20,
    }
}

fn component(id: &str, kind: &str) -> ComponentInfo {
    ComponentInfo {
        id: id.to_string(),
        role: "transformer".to_string(),
        name: format!("{} weights", id),
        component_type: kind.to_string(),
        format: "safetensors".to_string(),
        file_path: format!("/models/{}.safetensors", id),
        file_size: 1024,
        quantization: Some("q8".to_string()),
        vram_mb: Some(12000),
        is_available: true,
        is_required: true,
        priority: 0,
    }
}

#[test]
fn folder_tree_nests_children_with_counts_and_paths() {
    let folders = vec![
        folder("a", "Animals", None, 0),
        folder("p", "Places", None, 1),
        folder("c", "Cats", Some("a"), 0),
        folder("k", "Kittens", Some("c"), 0),
        folder("d", "Dogs", Some("a"), 1),
    ];
    let counts = vec![
        ("a".to_string(), 2),
        ("c".to_string(), 3),
        ("k".to_string(), 4),
        ("p".to_string(), 1),
    ];
    let tree = folder_tree(&folders, &counts);
    assert_eq!(tree.len(), 2);
    let animals = &tree[0];
    assert_eq!(animals.name, "Animals");
    assert_eq!(animals.image_count, 2);
    assert_eq!(animals.total_image_count, 9);
    assert!(animals.path.is_empty());
    assert_eq!(animals.children.len(), 2);
    let cats = &animals.children[0];
    assert_eq!(cats.name, "Cats");
    assert_eq!(cats.total_image_count, 7);
    assert_eq!(cats.path, vec!["Animals".to_string()]);
    let kittens = &cats.children[0];
    assert_eq!(kittens.path, vec!["Animals".to_string(), "Cats".to_string()]);
    assert_eq!(kittens.total_image_count, 4);
    assert_eq!(kittens.icon, Some("folder".to_string()));
    assert_eq!(animals.children[1].image_count, 0);
    assert_eq!(tree[1].total_image_count, 1);
}

#[test]
fn folders_in_a_cycle_or_under_a_missing_parent_are_left_out() {
    let folders = vec![
        folder("x", "X", Some("y"), 0),
        folder("y", "Y", Some("x"), 0),
        folder("o", "Orphan", Some("gone"), 0),
        folder("r", "Root", None, 0),
    ];
    let tree = folder_tree(&folders, &vec![]);
    assert_eq!(tree.len(), 1);
    assert_eq!(tree[0].name, "Root");
    assert!(tree[0].children.is_empty());
}

#[test]
fn later_counts_replace_earlier_ones() {
    let folders = vec![folder("a", "A", None, 0)];
    let counts = vec![("a".to_string(), 1), ("a".to_string(), 5)];
    assert_eq!(folder_tree(&folders, &counts)[0].image_count, 5);
}

#[test]
fn folder_moves() {
    let folders = vec![
        folder("a", "A", None, 0),
        folder("b", "B", Some("a"), 0),
        folder("c", "C", Some("b"), 0),
        folder("d", "D", None, 0),
    ];
    assert_eq!(check_folder_move(&folders, "a", Some("a")), Err(FolderMoveError::IntoItself));
    assert_eq!(check_folder_move(&folders, "a", Some("c")), Err(FolderMoveError::IntoDescendant));
    assert_eq!(check_folder_move(&folders, "c", Some("d")), Ok(()));
    assert_eq!(check_folder_move(&folders, "b", None), Ok(()));
    assert_eq!(check_folder_move(&folders, "d", Some("nowhere")), Ok(()));
    assert_eq!(FolderMoveError::IntoItself.message(), "Cannot move folder into itself");
    assert_eq!(
        FolderMoveError::IntoDescendant.message(),
        "Cannot move folder into its own descendant"
    );
}

#[test]
fn component_types_and_families() {
    assert_eq!(component_type_to_model_type("transformer"), "checkpoint");
    assert_eq!(component_type_to_model_type("clip_encoder"), "text_encoder");
    assert_eq!(component_type_to_model_type("t5_tokenizer"), "tokenizer");
    assert_eq!(component_type_to_model_type("vae"), "vae");
    assert_eq!(component_type_to_model_type("lora"), "other");
    assert_eq!(infer_family(Some("z-image-turbo")), "zindex");
    assert_eq!(infer_family(Some("flux-dev")), "flux");
    assert_eq!(infer_family(Some("sdxl")), "other");
    assert_eq!(infer_family(None), "other");
}

#[test]
fn response_times() {
    assert_eq!(response_time(0), "1970-01-01T00:00:00Z");
    assert_eq!(response_time(1431648000), "2015-05-15T00:00:00Z");
    assert_eq!(response_time(i64::MAX), "");
    assert_eq!(optional_response_time(None), "");
    assert_eq!(optional_response_time(Some(86400)), "1970-01-02T00:00:00Z");
}

#[test]
fn model_file_entries() {
    let f = model_file_info(&"m1".to_string(), &"/w.safetensors".to_string(), &Some("abc".to_string()), 42);
    assert_eq!(f.id, "m1");
    assert_eq!(f.model_id, "m1");
    assert_eq!(f.resolved_path, "/w.safetensors");
    assert_eq!(f.sha256, Some("abc".to_string()));
    assert_eq!(f.size_bytes, 42);
    assert!(!f.is_symlink);
}

#[test]
fn bundle_responses() {
    let bundle = BundleOverview {
        id: "b1".to_string(),
        name: "FLUX schnell".to_string(),
        description: None,
        is_active: true,
        is_complete: false,
        total_vram_mb: None,
        created_at: 0,
        updated_at: 86400,
        components: vec![component("t", "transformer"), component("v", "vae")],
    };
    let lookups = vec![Some(Some("flux-schnell".to_string())), None];
    let r = bundle_response(&bundle, &lookups, vec![]);
    assert_eq!(r.display_name, "FLUX schnell");
    assert_eq!(r.total_vram_mb, 0);
    assert!(r.tags.is_empty());
    assert_eq!(r.items.len(), 2);
    assert_eq!(r.items[0].model_family, "flux");
    assert_eq!(r.items[0].model_type, "checkpoint");
    assert_eq!(r.items[1].model_family, "other");
    assert_eq!(r.items[1].model_type, "vae");
    assert_eq!(r.created_at, "1970-01-01T00:00:00Z");
    assert_eq!(r.updated_at, "1970-01-02T00:00:00Z");
    let item = bundle_item(&component("z", "t5_encoder"), &Some(None));
    assert_eq!(item.model_family, "other");
    assert_eq!(item.model_quantization, Some("q8".to_string()));
}

#[test]
fn gallery_shares_the_records() {
    let f: gallery::Folder = folder("a", "A", None, 0);
    let tree = folder_tree(&vec![f], &vec![]);
    let node: &gallery::FolderNode = &tree[0];
    assert_eq!(node.id, "a");
}

#[test]
fn bundles_found_by_name() {
    let names = vec!["FLUX Schnell".to_string(), "flux dev".to_string(), "Z-Image".to_string()];
    assert_eq!(find_bundle_by_name(&names, "FLUX DEV"), Some(1));
    assert_eq!(find_bundle_by_name(&names, "flux"), Some(0));
    assert_eq!(find_bundle_by_name(&names, "image"), Some(2));
    assert_eq!(find_bundle_by_name(&names, "sdxl"), None);
}

#[test]
fn trees_are_built_only_where_they_can_be() {
    let ok = vec![folder("a", "A", None, 0), folder("b", "B", Some("a"), 0)];
    assert!(folder_tree_buildable(&ok, &vec![("b".to_string(), 3)]));
    let tree = folder_tree_checked(&ok, &vec![("b".to_string(), 3)]).unwrap();
    assert_eq!(tree[0].total_image_count, 3);
    let twice = vec![folder("a", "A", None, 0), folder("a", "A2", None, 1)];
    assert_eq!(folder_tree_checked(&twice, &vec![]).unwrap().len(), 2);
    let looping = vec![folder("a", "A", None, 0), folder("a", "A2", Some("a"), 1)];
    assert!(!folder_tree_buildable(&looping, &vec![]));
    assert!(folder_tree_checked(&looping, &vec![]).is_none());
    let negative = folder_tree_checked(&ok, &vec![("a".to_string(), -1)]).unwrap();
    assert_eq!(negative[0].total_image_count, -1);
    let big = vec![("a".to_string(), i32::MAX), ("b".to_string(), 1)];
    assert!(!folder_tree_buildable(&ok, &big));
    assert!(folder_tree_checked(&ok, &vec![("a".to_string(), i32::MAX)]).is_some());
}

#[test]
fn running_sums_must_fit_even_where_the_total_does() {
    let family = vec![
        folder("a", "A", None, 0),
        folder("b", "B", Some("a"), 0),
        folder("c", "C", Some("a"), 1),
        folder("d", "D", Some("a"), 2),
    ];
    let overflowing = vec![("b".to_string(), i32::MAX), ("c".to_string(), 1), ("d".to_string(), -5)];
    assert!(!folder_tree_buildable(&family, &overflowing));
    assert!(folder_tree_checked(&family, &overflowing).is_none());
    let reordered = vec![("b".to_string(), i32::MAX), ("c".to_string(), -5), ("d".to_string(), 1)];
    let tree = folder_tree_checked(&family, &reordered).unwrap();
    assert_eq!(tree[0].total_image_count, i32::MAX - 4);
    let low = vec![("a".to_string(), -1), ("b".to_string(), i32::MIN)];
    assert!(folder_tree_checked(&family, &low).is_none());
    let lowest = vec![("b".to_string(), i32::MIN)];
    assert_eq!(folder_tree_checked(&family, &lowest).unwrap()[0].total_image_count, i32::MIN);
}

#[test]
fn moves_are_decidable_without_cycles() {
    let folders = vec![folder("a", "A", None, 0), folder("b", "B", Some("a"), 0)];
    assert!(folder_move_decidable(&folders, "a", Some("b")));
    assert!(folder_move_decidable(&folders, "a", None));
    let looped = vec![folder("x", "X", Some("y"), 0), folder("y", "Y", Some("x"), 0)];
    assert!(!folder_move_decidable(&looped, "a", Some("x")));
    assert!(folder_move_decidable(&looped, "y", Some("x")));
}

#[test]
fn moved_folder_goes_after_its_new_siblings() {
    let folders = vec![
        folder("a", "A", None, 0),
        folder("b", "B", None, 5),
        folder("c", "C", Some("a"), 2),
        folder("d", "D", Some("a"), 7),
        folder("e", "E", Some("b"), 1),
    ];
    assert_eq!(next_sort_order(&folders, None), 6);
    assert_eq!(next_sort_order(&folders, Some("a")), 8);
    assert_eq!(next_sort_order(&folders, Some("b")), 2);
    assert_eq!(next_sort_order(&folders, Some("e")), 0);
    let full = vec![folder("x", "X", Some("p"), i32::MAX), folder("y", "Y", Some("p"), 3)];
    assert_eq!(next_sort_order(&full, Some("p")), 0);
    assert_eq!(next_sort_order(&vec![], None), 0);
}

fn scanned(role: &str, found: bool, vram: Option<i32>) -> ScannedComponent {
    ScannedComponent { role: role.to_string(), found, vram_mb: vram }
}

#[test]
fn bundle_scan_decisions() {
    let comps = vec![
        scanned("transformer", true, Some(12000)),
        scanned("t5", true, Some(9000)),
        scanned("clip", true, None),
        scanned("vae", true, Some(160)),
    ];
    assert!(vram_total_fits(&comps));
    assert_eq!(bundle_vram_total(&comps), 21160);
    assert!(bundle_is_complete(&comps));
    let three = comps[..3].to_vec();
    assert!(!bundle_is_complete(&three));
    let mut missing = comps.clone();
    missing[1] = scanned("t5", false, Some(9000));
    assert!(!bundle_is_complete(&missing));
    assert_eq!(bundle_vram_total(&missing), 12160);
    let huge = vec![scanned("transformer", true, Some(i32::MAX)), scanned("vae", true, Some(1))];
    assert!(!vram_total_fits(&huge));
    assert!(role_is_required("transformer"));
    assert!(role_is_required("vae"));
    assert!(!role_is_required("lora"));
    assert!(!role_is_required("Transformer"));
}
