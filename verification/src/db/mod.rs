//! Gallery records: folders and the folder tree shown in the sidebar, tags,
//! and the components of a model bundle with the responses built from them.
use vstd::prelude::*;

pub mod bundle_scan;
pub mod folder_order;
pub mod folders;
pub mod models;

pub use folders::folder_tree;
pub use models::{BundleInfoResponse, BundleItemInfoResponse, ExampleResponse, ModelFileInfoResponse};

verus! {

/// A folder for organising gallery images.
#[derive(Debug, Clone)]
pub struct Folder {
    pub id: String,
    pub name: String,
    pub parent_id: Option<String>,
    pub color: Option<String>,
    pub icon: Option<String>,
    pub sort_order: i32,
    pub created_at: i64,
    pub updated_at: i64,
}

/// A folder with its place in the hierarchy: children, image counts and the
/// names of the folders above it.
#[derive(Debug)]
pub struct FolderNode {
    pub id: String,
    pub name: String,
    pub parent_id: Option<String>,
    pub color: Option<String>,
    pub icon: Option<String>,
    pub sort_order: i32,
    pub created_at: i64,
    pub updated_at: i64,
    /// Direct children of this folder.
    pub children: Vec<FolderNode>,
    /// Images directly in this folder.
    pub image_count: i32,
    /// Images in this folder and all its descendants.
    pub total_image_count: i32,
    /// Names of the folders from the root down to this folder's parent.
    pub path: Vec<String>,
}

/// A tag with its colour, category and how often it is used.
#[derive(Debug, Clone)]
pub struct Tag {
    pub id: i64,
    pub name: String,
    pub color: Option<String>,
    pub category: Option<String>,
    pub usage_count: i32,
}

/// A component in a bundle, with the role it plays there.
#[derive(Debug, Clone)]
pub struct ComponentInfo {
    pub id: String,
    pub role: String,
    pub name: String,
    pub component_type: String,
    pub format: String,
    pub file_path: String,
    pub file_size: i64,
    pub quantization: Option<String>,
    pub vram_mb: Option<i32>,
    pub is_available: bool,
    pub is_required: bool,
    pub priority: i32,
}

} // verus!
