//! The responses the frontend receives for model files and bundles, and the
//! mapping of scanner component types and architectures to the model types
//! and families shown there.
use vstd::prelude::*;
use crate::db::ComponentInfo;
use crate::text::{clone_opt, contains, opt_view, str_equal, text_contains, to_lowercase, unicode_lowercase, views};

verus! {

/// One file of a model.
#[derive(Debug, Clone)]
pub struct ModelFileInfoResponse {
    pub id: String,
    pub model_id: String,
    pub path: String,
    pub resolved_path: String,
    pub sha256: Option<String>,
    pub size_bytes: i64,
    pub is_symlink: bool,
}

/// An example attached to a model or a bundle.
#[derive(Debug, Clone)]
pub struct ExampleResponse {
    pub id: String,
    pub entity_type: String,
    pub entity_id: String,
    pub example_type: String,
    pub content: String,
    pub created_at: String,
}

/// One component of a bundle as the frontend shows it.
#[derive(Debug, Clone)]
pub struct BundleItemInfoResponse {
    pub id: String,
    pub model_id: String,
    pub role: String,
    pub model_display_name: String,
    pub model_family: String,
    pub model_type: String,
    pub model_vram_mb: Option<i32>,
    pub model_quantization: Option<String>,
}

/// A bundle as the frontend shows it.
#[derive(Debug, Clone)]
pub struct BundleInfoResponse {
    pub id: String,
    pub display_name: String,
    pub description: Option<String>,
    pub is_active: bool,
    pub is_complete: bool,
    pub total_vram_mb: i32,
    pub tags: Vec<String>,
    pub items: Vec<BundleItemInfoResponse>,
    pub examples: Vec<ExampleResponse>,
    pub created_at: String,
    pub updated_at: String,
}

/// What a bundle response is built from: the bundle's own fields that the
/// response shows, and its components.
#[derive(Debug, Clone)]
pub struct BundleOverview {
    pub id: String,
    pub name: String,
    pub description: Option<String>,
    pub is_active: bool,
    pub is_complete: bool,
    pub total_vram_mb: Option<i32>,
    pub created_at: i64,
    pub updated_at: i64,
    pub components: Vec<ComponentInfo>,
}

/// The model type shown for a scanner component type.
pub open spec fn model_type_for(comp_type: Seq<char>) -> Seq<char> {
    if comp_type == "transformer"@ {
        "checkpoint"@
    } else if comp_type == "t5_encoder"@ || comp_type == "clip_encoder"@ {
        "text_encoder"@
    } else if comp_type == "vae"@ {
        "vae"@
    } else if comp_type == "t5_tokenizer"@ || comp_type == "clip_tokenizer"@ {
        "tokenizer"@
    } else {
        "other"@
    }
}

/// The model family inferred from an architecture name.
pub open spec fn family_for(architecture: Option<Seq<char>>) -> Seq<char> {
    match architecture {
        Some(a) => if contains(a, "z-image"@) {
            "zindex"@
        } else if contains(a, "flux"@) || contains(a, "schnell"@) || contains(a, "dev"@) {
            "flux"@
        } else {
            "other"@
        },
        None => "other"@,
    }
}

/// Maps a scanner component type to the model type the frontend shows.
pub fn component_type_to_model_type(comp_type: &str) -> (r: &'static str)
    ensures
        r@ == model_type_for(comp_type@),
{
    proof {
        reveal_strlit("transformer");
        reveal_strlit("t5_encoder");
        reveal_strlit("clip_encoder");
        reveal_strlit("vae");
        reveal_strlit("t5_tokenizer");
        reveal_strlit("clip_tokenizer");
    }
    if str_equal(comp_type, "transformer") {
        "checkpoint"
    } else if str_equal(comp_type, "t5_encoder") || str_equal(comp_type, "clip_encoder") {
        "text_encoder"
    } else if str_equal(comp_type, "vae") {
        "vae"
    } else if str_equal(comp_type, "t5_tokenizer") || str_equal(comp_type, "clip_tokenizer") {
        "tokenizer"
    } else {
        "other"
    }
}

/// Infers the model family from an architecture name.
pub fn infer_family(architecture: Option<&str>) -> (r: &'static str)
    ensures
        r@ == family_for(
            match architecture {
                Some(a) => Some(a@),
                None => None,
            },
        ),
{
    match architecture {
        Some(a) => {
            if text_contains(a, "z-image") {
                "zindex"
            } else if text_contains(a, "flux") || text_contains(a, "schnell") || text_contains(a, "dev") {
                "flux"
            } else {
                "other"
            }
        },
        None => "other",
    }
}

/// Names the text of `chrono::DateTime::from_timestamp(secs, 0)` (a UTC
/// time) written with the strftime pattern `pattern`, or `None` where chrono
/// finds `secs` out of its range.
pub uninterp spec fn utc_time_text(secs: int, pattern: Seq<char>) -> Option<Seq<char>>;

/// Calls `chrono::DateTime::from_timestamp` and, where it gives a time,
/// `format(pattern).to_string()`; the contract claims the result is the
/// named text for these arguments. `to_string` panics on a pattern that
/// chrono cannot format, so the pattern is held to the ISO 8601 one, whose
/// specifiers all format (the year beyond four digits with a sign).
#[verifier::external_body]
fn format_utc_time(secs: i64, pattern: &str) -> (r: Option<String>)
    requires
        pattern@ == response_time_pattern(),
    ensures
        opt_view(r) == utc_time_text(secs as int, pattern@),
{
    match chrono::DateTime::from_timestamp(secs, 0) {
        Some(dt) => Some(dt.format(pattern).to_string()),
        None => None,
    }
}

/// The pattern of the times in responses: ISO 8601 in UTC.
pub open spec fn response_time_pattern() -> Seq<char> {
    "%Y-%m-%dT%H:%M:%SZ"@
}

/// The response text of a Unix time: its ISO 8601 form, or empty where it
/// cannot be represented.
pub open spec fn time_text(secs: int) -> Seq<char> {
    match utc_time_text(secs, response_time_pattern()) {
        Some(t) => t,
        None => Seq::empty(),
    }
}

/// Writes a Unix time (seconds) as the responses show it.
pub fn response_time(secs: i64) -> (r: String)
    ensures
        r@ == time_text(secs as int),
{
    let pattern = "%Y-%m-%dT%H:%M:%SZ";
    proof {
        reveal_strlit("%Y-%m-%dT%H:%M:%SZ");
    }
    match format_utc_time(secs, pattern) {
        Some(t) => t,
        None => String::new(),
    }
}

/// Writes an optional Unix time as the responses show it (empty where absent).
pub fn optional_response_time(secs: Option<i64>) -> (r: String)
    ensures
        r@ == match secs {
            Some(s) => time_text(s as int),
            None => Seq::empty(),
        },
{
    match secs {
        Some(s) => response_time(s),
        None => String::new(),
    }
}

/// The file entry of a model component: its path (resolved to itself), hash
/// and size, under the component's id.
pub fn model_file_info(id: &String, file_path: &String, file_hash: &Option<String>, file_size: i64) -> (r:
    ModelFileInfoResponse)
    ensures
        r.id@ == id@,
        r.model_id@ == id@,
        r.path@ == file_path@,
        r.resolved_path@ == file_path@,
        opt_view(r.sha256) == opt_view(*file_hash),
        r.size_bytes == file_size,
        !r.is_symlink,
{
    ModelFileInfoResponse {
        id: id.clone(),
        model_id: id.clone(),
        path: file_path.clone(),
        resolved_path: file_path.clone(),
        sha256: clone_opt(file_hash),
        size_bytes: file_size,
        is_symlink: false,
    }
}

/// The family of a bundle component, from the architecture recorded for it;
/// `lookup` is `None` where the component could not be looked up.
pub open spec fn lookup_family(lookup: Option<Option<Seq<char>>>) -> Seq<char> {
    match lookup {
        Some(arch) => family_for(arch),
        None => "other"@,
    }
}

/// The optional architecture of a looked-up component, as a view.
pub open spec fn lookup_view(lookup: Option<Option<String>>) -> Option<Option<Seq<char>>> {
    match lookup {
        Some(arch) => Some(opt_view(arch)),
        None => None,
    }
}

/// `item` shows component `c`, of family `family`.
pub open spec fn item_shows(item: BundleItemInfoResponse, c: ComponentInfo, family: Seq<char>) -> bool {
    &&& item.id@ == c.id@
    &&& item.model_id@ == c.id@
    &&& item.role@ == c.role@
    &&& item.model_display_name@ == c.name@
    &&& item.model_family@ == family
    &&& item.model_type@ == model_type_for(c.component_type@)
    &&& item.model_vram_mb == c.vram_mb
    &&& opt_view(item.model_quantization) == opt_view(c.quantization)
}

/// The entry of one bundle component; `lookup` is the architecture found for
/// it (`None` where the lookup failed).
pub fn bundle_item(c: &ComponentInfo, lookup: &Option<Option<String>>) -> (r: BundleItemInfoResponse)
    ensures
        item_shows(r, *c, lookup_family(lookup_view(*lookup))),
{
    let family = match lookup {
        Some(arch) => match arch {
            Some(a) => infer_family(Some(a.as_str())),
            None => infer_family(None),
        },
        None => "other",
    };
    proof {
        reveal_strlit("other");
    }
    BundleItemInfoResponse {
        id: c.id.clone(),
        model_id: c.id.clone(),
        role: c.role.clone(),
        model_display_name: c.name.clone(),
        model_family: family.to_string(),
        model_type: component_type_to_model_type(c.component_type.as_str()).to_string(),
        model_vram_mb: c.vram_mb,
        model_quantization: clone_opt(&c.quantization),
    }
}

/// The response for a bundle: its fields, one item per component (in order,
/// each with the family found through `lookups`, one per component), no
/// tags, the examples given, and its times as text.
pub fn bundle_response(bundle: &BundleOverview, lookups: &Vec<Option<Option<String>>>, examples: Vec<
    ExampleResponse,
>) -> (r: BundleInfoResponse)
    requires
        lookups@.len() == bundle.components@.len(),
    ensures
        r.id@ == bundle.id@,
        r.display_name@ == bundle.name@,
        opt_view(r.description) == opt_view(bundle.description),
        r.is_active == bundle.is_active,
        r.is_complete == bundle.is_complete,
        r.total_vram_mb == match bundle.total_vram_mb {
            Some(v) => v,
            None => 0,
        },
        r.tags@.len() == 0,
        r.items@.len() == bundle.components@.len(),
        forall|i: int|
            0 <= i < r.items@.len() ==> #[trigger] item_shows(
                r.items@[i],
                bundle.components@[i],
                lookup_family(lookup_view(lookups@[i])),
            ),
        r.examples@ == examples@,
        r.created_at@ == time_text(bundle.created_at as int),
        r.updated_at@ == time_text(bundle.updated_at as int),
{
    let mut items: Vec<BundleItemInfoResponse> = Vec::new();
    let mut i: usize = 0;
    while i < bundle.components.len()
        invariant
            lookups@.len() == bundle.components@.len(),
            i <= bundle.components.len(),
            items@.len() == i,
            forall|k: int|
                0 <= k < i ==> #[trigger] item_shows(
                    items@[k],
                    bundle.components@[k],
                    lookup_family(lookup_view(lookups@[k])),
                ),
        decreases bundle.components.len() - i,
    {
        let item = bundle_item(&bundle.components[i], &lookups[i]);
        items.push(item);
        i = i + 1;
    }
    BundleInfoResponse {
        id: bundle.id.clone(),
        display_name: bundle.name.clone(),
        description: clone_opt(&bundle.description),
        is_active: bundle.is_active,
        is_complete: bundle.is_complete,
        total_vram_mb: match bundle.total_vram_mb {
            Some(v) => v,
            None => 0,
        },
        tags: Vec::new(),
        items,
        examples,
        created_at: response_time(bundle.created_at),
        updated_at: response_time(bundle.updated_at),
    }
}

/// Whether a name matches a lowercased query: equal to it once lowercased,
/// or (with `partial`) containing it once lowercased.
pub open spec fn name_hit(name: Seq<char>, lower_query: Seq<char>, partial: bool) -> bool {
    if partial {
        contains(unicode_lowercase(name), lower_query)
    } else {
        unicode_lowercase(name) == lower_query
    }
}

/// The first position in `names` whose name matches.
pub open spec fn first_hit(names: Seq<Seq<char>>, lower_query: Seq<char>, partial: bool) -> Option<int>
    decreases names.len(),
{
    if names.len() == 0 {
        None
    } else if name_hit(names[0], lower_query, partial) {
        Some(0)
    } else {
        match first_hit(names.drop_first(), lower_query, partial) {
            Some(i) => Some(i + 1),
            None => None,
        }
    }
}

/// The bundle a name refers to: the first whose name equals it ignoring
/// case, else the first whose name contains it ignoring case.
pub open spec fn bundle_for_name(names: Seq<Seq<char>>, query: Seq<char>) -> Option<int> {
    let q = unicode_lowercase(query);
    match first_hit(names, q, false) {
        Some(i) => Some(i),
        None => first_hit(names, q, true),
    }
}

/// The first position whose name matches the lowercased query.
fn find_lowercase(names: &Vec<String>, lower_query: &String, partial: bool) -> (r: Option<usize>)
    ensures
        match r {
            Some(i) => Some(i as int) == first_hit(views(names@), lower_query@, partial),
            None => first_hit(views(names@), lower_query@, partial) is None,
        },
{
    let ghost vs = views(names@);
    let mut i: usize = 0;
    assert(vs.skip(0) =~= vs);
    while i < names.len()
        invariant
            i <= names@.len(),
            vs == views(names@),
            first_hit(vs, lower_query@, partial) == match first_hit(vs.skip(i as int), lower_query@, partial) {
                Some(j) => Some(j + i),
                None => None,
            },
        decreases names@.len() - i,
    {
        let lower = to_lowercase(names[i].as_str());
        let hit = if partial {
            text_contains(lower.as_str(), lower_query.as_str())
        } else {
            str_equal(lower.as_str(), lower_query.as_str())
        };
        let ghost rest = vs.skip(i as int);
        assert(vs[i as int] == names@[i as int]@);
        assert(rest[0] == vs[i as int]);
        assert(rest.drop_first() =~= vs.skip(i + 1));
        assert(hit == name_hit(vs[i as int], lower_query@, partial));
        if hit {
            return Some(i);
        }
        i = i + 1;
    }
    assert(vs.skip(i as int) =~= Seq::<Seq<char>>::empty());
    None
}

/// Finds the bundle a name refers to among the bundles' names: an exact
/// match ignoring case first, else a partial one.
pub fn find_bundle_by_name(names: &Vec<String>, query: &str) -> (r: Option<usize>)
    ensures
        match r {
            Some(i) => Some(i as int) == bundle_for_name(views(names@), query@),
            None => bundle_for_name(views(names@), query@) is None,
        },
{
    let q = to_lowercase(query);
    match find_lowercase(names, &q, false) {
        Some(i) => Some(i),
        None => find_lowercase(names, &q, true),
    }
}

/// The model types shown for component types: "transformer" shows as
/// "checkpoint"; "t5_encoder" and "clip_encoder" as "text_encoder"; "vae"
/// as "vae"; "t5_tokenizer" and "clip_tokenizer" as "tokenizer"; every
/// other component type as "other".
pub proof fn lemma_model_types(comp_type: Seq<char>)
    ensures
        model_type_for("transformer"@) == "checkpoint"@,
        model_type_for("t5_encoder"@) == "text_encoder"@,
        model_type_for("clip_encoder"@) == "text_encoder"@,
        model_type_for("vae"@) == "vae"@,
        model_type_for("t5_tokenizer"@) == "tokenizer"@,
        model_type_for("clip_tokenizer"@) == "tokenizer"@,
        !(comp_type == "transformer"@ || comp_type == "t5_encoder"@ || comp_type == "clip_encoder"@
            || comp_type == "vae"@ || comp_type == "t5_tokenizer"@ || comp_type == "clip_tokenizer"@)
            ==> model_type_for(comp_type) == "other"@,
{
    reveal_strlit("transformer");
    reveal_strlit("t5_encoder");
    reveal_strlit("clip_encoder");
    reveal_strlit("vae");
    reveal_strlit("t5_tokenizer");
    reveal_strlit("clip_tokenizer");
    assert("transformer"@.len() == 11 && "vae"@.len() == 3);
    assert("t5_encoder"@.len() == 10 && "clip_encoder"@.len() == 12);
    assert("t5_tokenizer"@.len() == 12 && "clip_tokenizer"@.len() == 14);
    assert("clip_encoder"@[5] == 'e' && "t5_tokenizer"@[5] != 'e');
}

/// The family of an architecture: "zindex" where its name holds "z-image";
/// else "flux" where it holds "flux", "schnell" or "dev"; else, and where
/// there is no architecture, "other".
pub proof fn lemma_families(architecture: Seq<char>)
    ensures
        contains(architecture, "z-image"@) ==> family_for(Some(architecture)) == "zindex"@,
        !contains(architecture, "z-image"@) && (contains(architecture, "flux"@) || contains(
            architecture,
            "schnell"@,
        ) || contains(architecture, "dev"@)) ==> family_for(Some(architecture)) == "flux"@,
        !contains(architecture, "z-image"@) && !contains(architecture, "flux"@) && !contains(
            architecture,
            "schnell"@,
        ) && !contains(architecture, "dev"@) ==> family_for(Some(architecture)) == "other"@,
        family_for(None) == "other"@,
{
}

} // verus!
