//! A model stored on disk: its display name, the weight files that make it
//! up, the content hash, the safetensors metadata (read once and kept), and
//! the repository variant of a diffusers directory. The library decides;
//! reading directories and files is left to the caller, who hands over what
//! it found.
use vstd::prelude::*;
use vstd::seq_lib::{to_multiset_contains, to_multiset_len, to_multiset_remove};
use crate::model_manager::taxonomy::ModelRepoVariant;
use crate::batch::JsonValue;
use crate::text::{contains, opt_view, str_equal, text_contains, text_starts_with_char, views};

verus! {

/// The position of the last `.` in `name`, if it holds one.
pub open spec fn last_dot(name: Seq<char>) -> Option<int>
    decreases name.len(),
{
    if name.len() == 0 {
        None
    } else if name.last() == '.' {
        Some(name.len() - 1)
    } else {
        last_dot(name.drop_last())
    }
}

/// The extension of a file name, as `std::path::Path::extension` documents
/// it: what follows the last `.`; none where there is no `.`, or where the
/// only one begins the name.
pub open spec fn name_extension(name: Seq<char>) -> Option<Seq<char>> {
    match last_dot(name) {
        Some(i) => if i > 0 {
            Some(name.skip(i + 1))
        } else {
            None
        },
        None => None,
    }
}

/// The stem of a file name, as `std::path::Path::file_stem` documents it:
/// what comes before the last `.`; the whole name where there is no `.`,
/// or where the only one begins the name.
pub open spec fn name_stem(name: Seq<char>) -> Seq<char> {
    match last_dot(name) {
        Some(i) => if i > 0 {
            name.take(i)
        } else {
            name
        },
        None => name,
    }
}

/// The extension of the final component of `path` (see `name_extension`).
pub open spec fn path_extension_of(path: Seq<char>) -> Option<Seq<char>> {
    match path_file_name_of(path) {
        Some(n) => name_extension(n),
        None => None,
    }
}

/// The stem of the final component of `path` (see `name_stem`).
pub open spec fn path_stem_of(path: Seq<char>) -> Option<Seq<char>> {
    match path_file_name_of(path) {
        Some(n) => Some(name_stem(n)),
        None => None,
    }
}

/// Names the final component that `std::path::Path::file_name` finds in `path`.
pub uninterp spec fn path_file_name_of(path: Seq<char>) -> Option<Seq<char>>;

/// Calls `std::path::Path::extension` on `path`; the contract claims the
/// result is the extension of the path's final component, as std documents it.
#[verifier::external_body]
fn path_extension(path: &str) -> (r: Option<String>)
    ensures
        opt_view(r) == path_extension_of(path@),
{
    match std::path::Path::new(path).extension() {
        Some(e) => match e.to_str() {
            Some(t) => Some(t.to_string()),
            None => None,
        },
        None => None,
    }
}

/// Calls `std::path::Path::file_stem` on `path`; the contract claims the
/// result is the stem of the path's final component, as std documents it.
#[verifier::external_body]
fn path_file_stem(path: &str) -> (r: Option<String>)
    ensures
        opt_view(r) == path_stem_of(path@),
{
    match std::path::Path::new(path).file_stem() {
        Some(e) => match e.to_str() {
            Some(t) => Some(t.to_string()),
            None => None,
        },
        None => None,
    }
}

/// Calls `std::path::Path::file_name` on `path`; the contract claims the
/// result is the named final component of `path`.
#[verifier::external_body]
fn path_file_name(path: &str) -> (r: Option<String>)
    ensures
        opt_view(r) == path_file_name_of(path@),
{
    match std::path::Path::new(path).file_name() {
        Some(e) => match e.to_str() {
            Some(t) => Some(t.to_string()),
            None => None,
        },
        None => None,
    }
}

/// Names the order `<[std::path::PathBuf]>::sort` puts `paths` in.
pub uninterp spec fn paths_sorted(paths: Seq<Seq<char>>) -> Seq<Seq<char>>;

/// Names whether `PathBuf::from(a) <= PathBuf::from(b)` (std's `Ord` for
/// paths, component by component).
pub uninterp spec fn path_le(a: Seq<char>, b: Seq<char>) -> bool;

/// Sorts paths as `std::path::PathBuf`s (component by component, std's
/// `slice::sort`, which sorts in ascending order); the contract claims the
/// result is the named order of the given paths, holds the same paths, and
/// is ascending by `path_le`.
#[verifier::external_body]
fn sort_paths(files: Vec<String>) -> (r: Vec<String>)
    ensures
        views(r@) == paths_sorted(views(files@)),
        views(r@).to_multiset() == views(files@).to_multiset(),
        forall|i: int, j: int| 0 <= i < j < r@.len() ==> path_le(#[trigger] r@[i]@, #[trigger] r@[j]@),
{
    let mut v: Vec<std::path::PathBuf> = Vec::new();
    for f in files {
        v.push(std::path::PathBuf::from(f));
    }
    v.sort();
    let mut out: Vec<String> = Vec::new();
    for p in v {
        out.push(p.to_string_lossy().into_owned());
    }
    out
}

/// Names the BLAKE3 hash of `data` in lowercase hexadecimal.
pub uninterp spec fn blake3_hex_of(data: Seq<u8>) -> Seq<char>;

/// Names the BLAKE2b-512 hash of `data` in lowercase hexadecimal.
pub uninterp spec fn blake2b_hex_of(data: Seq<u8>) -> Seq<char>;

/// Calls `blake3::hash` and `Hash::to_hex`; the contract claims the result
/// is the named hash of `data`, two hex digits for each of its 32 bytes.
#[verifier::external_body]
fn blake3_hex(data: &[u8]) -> (r: String)
    ensures
        r@ == blake3_hex_of(data@),
        r@.len() == 64,
{
    blake3::hash(data).to_hex().to_string()
}

/// Calls `blake2::Blake2b512::digest` and writes it with `{:x}`; the
/// contract claims the result is the named hash of `data`, two hex digits
/// for each of its 64 bytes.
#[verifier::external_body]
fn blake2b_hex(data: &[u8]) -> (r: String)
    ensures
        r@ == blake2b_hex_of(data@),
        r@.len() == 128,
{
    format!("{:x}", <blake2::Blake2b512 as blake2::Digest>::digest(data))
}

/// The hash algorithms a model's weights can be hashed with.
#[derive(Debug, Clone, Copy, PartialEq, Eq, Structural)]
pub enum HashAlgorithm {
    Blake3,
    Blake2b,
}

impl Default for HashAlgorithm {
    fn default() -> (r: Self)
        ensures
            r == HashAlgorithm::Blake3,
    {
        HashAlgorithm::Blake3
    }
}

/// The contents of an optional text, or the empty text.
pub open spec fn or_empty(o: Option<Seq<char>>) -> Seq<char> {
    match o {
        Some(t) => t,
        None => Seq::empty(),
    }
}

/// Extensions of single-file weights, whose name drops the extension.
pub open spec fn is_weight_suffix(ext: Seq<char>) -> bool {
    ext == "safetensors"@ || ext == "bin"@ || ext == "pt"@ || ext == "ckpt"@
}

/// The display name of a model from the pieces of its path: the stem of a
/// single weight file, else the final component (empty where there is none).
pub open spec fn name_from(
    extension: Option<Seq<char>>,
    stem: Option<Seq<char>>,
    file_name: Option<Seq<char>>,
) -> Seq<char> {
    match extension {
        Some(e) => if is_weight_suffix(e) {
            or_empty(stem)
        } else {
            or_empty(file_name)
        },
        None => or_empty(file_name),
    }
}

/// The display name of the model at `path`.
pub open spec fn model_name_of(path: Seq<char>) -> Seq<char> {
    name_from(path_extension_of(path), path_stem_of(path), path_file_name_of(path))
}

/// Whether `ext` is one of `exts` given as literals.
fn is_weight_suffix_exec(ext: &str) -> (r: bool)
    ensures
        r == is_weight_suffix(ext@),
{
    str_equal(ext, "safetensors") || str_equal(ext, "bin") || str_equal(ext, "pt") || str_equal(
        ext,
        "ckpt",
    )
}

/// The display name of a model from the pieces of its path (its extension,
/// stem and final component, as `std::path::Path` finds them).
pub fn model_name(extension: Option<String>, stem: Option<String>, file_name: Option<String>) -> (r: String)
    ensures
        r@ == name_from(opt_view(extension), opt_view(stem), opt_view(file_name)),
{
    let single_file = match &extension {
        Some(e) => is_weight_suffix_exec(e.as_str()),
        None => false,
    };
    let chosen = if single_file {
        stem
    } else {
        file_name
    };
    match chosen {
        Some(t) => t,
        None => String::new(),
    }
}

/// A model stored on disk.
#[derive(Debug, Clone)]
pub struct ModelOnDisk {
    path: String,
    pub name: String,
    hash_algo: HashAlgorithm,
    metadata_cache: Vec<(String, Vec<(String, String)>)>,
}

/// A list of string pairs, as views.
pub open spec fn pairs_view(pairs: Seq<(String, String)>) -> Seq<(Seq<char>, Seq<char>)> {
    pairs.map_values(|p: (String, String)| (p.0@, p.1@))
}

/// The metadata kept for `target` (the first entry for it), if any.
pub open spec fn meta_lookup(cache: Seq<(Seq<char>, Seq<(Seq<char>, Seq<char>)>)>, target: Seq<char>) -> Option<
    Seq<(Seq<char>, Seq<char>)>,
>
    decreases cache.len(),
{
    if cache.len() == 0 {
        None
    } else if cache[0].0 == target {
        Some(cache[0].1)
    } else {
        meta_lookup(cache.drop_first(), target)
    }
}

/// A metadata request for `target`, where reading its safetensors header
/// would give `header`: what is kept for it, or else the header of a
/// safetensors file (nothing for other files), which is then kept. Gives the
/// metadata and the entries kept afterwards.
pub open spec fn meta_step(
    cache: Seq<(Seq<char>, Seq<(Seq<char>, Seq<char>)>)>,
    target: Seq<char>,
    header: Seq<(Seq<char>, Seq<char>)>,
) -> (Seq<(Seq<char>, Seq<char>)>, Seq<(Seq<char>, Seq<(Seq<char>, Seq<char>)>)>) {
    match meta_lookup(cache, target) {
        Some(m) => (m, cache),
        None => {
            let m = if path_extension_of(target) == Some("safetensors"@) {
                header
            } else {
                Seq::empty()
            };
            (m, cache.push((target, m)))
        },
    }
}

/// The path a metadata request is for: the one given, or the model's own.
pub open spec fn meta_target(path: Option<Seq<char>>, own: Seq<char>) -> Seq<char> {
    match path {
        Some(p) => p,
        None => own,
    }
}

proof fn lemma_meta_lookup_push(
    cache: Seq<(Seq<char>, Seq<(Seq<char>, Seq<char>)>)>,
    target: Seq<char>,
    m: Seq<(Seq<char>, Seq<char>)>,
)
    requires
        meta_lookup(cache, target) is None,
    ensures
        meta_lookup(cache.push((target, m)), target) == Some(m),
    decreases cache.len(),
{
    if cache.len() > 0 {
        assert(cache.push((target, m)).drop_first() =~= cache.drop_first().push((target, m)));
        lemma_meta_lookup_push(cache.drop_first(), target, m);
    }
}

/// Metadata is read once per path: a second request for the same path gives
/// what the first gave, whatever the header would give then, and keeps
/// nothing new.
pub proof fn lemma_metadata_read_once(
    cache: Seq<(Seq<char>, Seq<(Seq<char>, Seq<char>)>)>,
    target: Seq<char>,
    first_header: Seq<(Seq<char>, Seq<char>)>,
    second_header: Seq<(Seq<char>, Seq<char>)>,
)
    ensures
        ({
            let (m1, c1) = meta_step(cache, target, first_header);
            let (m2, c2) = meta_step(c1, target, second_header);
            m2 == m1 && c2 == c1
        }),
{
    let (m1, c1) = meta_step(cache, target, first_header);
    if meta_lookup(cache, target) is None {
        lemma_meta_lookup_push(cache, target, m1);
    }
}

/// A kept entry stays found when another entry is kept after it.
proof fn lemma_meta_lookup_keeps(
    cache: Seq<(Seq<char>, Seq<(Seq<char>, Seq<char>)>)>,
    target: Seq<char>,
    entry: (Seq<char>, Seq<(Seq<char>, Seq<char>)>),
)
    requires
        meta_lookup(cache, target) is Some,
    ensures
        meta_lookup(cache.push(entry), target) == meta_lookup(cache, target),
    decreases cache.len(),
{
    if cache[0].0 != target {
        assert(cache.push(entry).drop_first() =~= cache.drop_first().push(entry));
        lemma_meta_lookup_keeps(cache.drop_first(), target, entry);
    }
}

/// Nothing is kept for a target that is not a safetensors file but the
/// empty metadata.
pub open spec fn cache_wf(cache: Seq<(Seq<char>, Seq<(Seq<char>, Seq<char>)>)>) -> bool {
    forall|i: int|
        0 <= i < cache.len() && path_extension_of(#[trigger] cache[i].0) != Some("safetensors"@)
            ==> cache[i].1.len() == 0
}

/// What is kept for a target is the metadata of an entry for it.
proof fn lemma_meta_lookup_entry(cache: Seq<(Seq<char>, Seq<(Seq<char>, Seq<char>)>)>, target: Seq<char>)
    requires
        meta_lookup(cache, target) is Some,
    ensures
        exists|i: int| 0 <= i < cache.len() && #[trigger] cache[i].0 == target && cache[i].1 == meta_lookup(
            cache,
            target,
        )->0,
    decreases cache.len(),
{
    if cache[0].0 != target {
        lemma_meta_lookup_entry(cache.drop_first(), target);
        let j = choose|j: int|
            0 <= j < cache.drop_first().len() && #[trigger] cache.drop_first()[j].0 == target
                && cache.drop_first()[j].1 == meta_lookup(cache.drop_first(), target)->0;
        assert(cache[j + 1].0 == target);
    } else {
        assert(cache[0].0 == target);
    }
}

/// A metadata request for a target that is not a safetensors file gives
/// nothing, whatever its header, where the kept entries are well formed (as
/// every model's are: its constructors make them so and `metadata` keeps
/// them so); and the request keeps them well formed.
pub proof fn lemma_other_files_have_no_metadata(
    cache: Seq<(Seq<char>, Seq<(Seq<char>, Seq<char>)>)>,
    target: Seq<char>,
    header: Seq<(Seq<char>, Seq<char>)>,
)
    requires
        cache_wf(cache),
        path_extension_of(target) != Some("safetensors"@),
    ensures
        meta_step(cache, target, header).0.len() == 0,
        cache_wf(meta_step(cache, target, header).1),
{
    if meta_lookup(cache, target) is Some {
        lemma_meta_lookup_entry(cache, target);
    } else {
        lemma_meta_step_wf(cache, target, header);
    }
}

/// A metadata request keeps the kept entries well formed.
pub proof fn lemma_meta_step_wf(
    cache: Seq<(Seq<char>, Seq<(Seq<char>, Seq<char>)>)>,
    target: Seq<char>,
    header: Seq<(Seq<char>, Seq<char>)>,
)
    requires
        cache_wf(cache),
    ensures
        cache_wf(meta_step(cache, target, header).1),
{
    let c = meta_step(cache, target, header).1;
    if meta_lookup(cache, target) is None {
        assert forall|i: int|
            0 <= i < c.len() && path_extension_of(#[trigger] c[i].0) != Some("safetensors"@) implies c[i].1.len()
                == 0 by {
            if i < cache.len() {
                assert(c[i] == cache[i]);
            }
        }
    }
}

/// The entries kept after the requests `requests` (each a target and the
/// metadata its header would give), starting from `cache`.
pub open spec fn cache_after(
    cache: Seq<(Seq<char>, Seq<(Seq<char>, Seq<char>)>)>,
    requests: Seq<(Seq<char>, Seq<(Seq<char>, Seq<char>)>)>,
) -> Seq<(Seq<char>, Seq<(Seq<char>, Seq<char>)>)>
    decreases requests.len(),
{
    if requests.len() == 0 {
        cache
    } else {
        meta_step(cache_after(cache, requests.drop_last()), requests.last().0, requests.last().1).1
    }
}

/// Once the metadata of a target is kept, it stays: after any later
/// requests, for this or other targets, a request for the target gives the
/// kept metadata, whatever its header would give then, and keeps nothing
/// new.
pub proof fn lemma_kept_metadata_stays(
    cache: Seq<(Seq<char>, Seq<(Seq<char>, Seq<char>)>)>,
    target: Seq<char>,
    kept: Seq<(Seq<char>, Seq<char>)>,
    requests: Seq<(Seq<char>, Seq<(Seq<char>, Seq<char>)>)>,
    header: Seq<(Seq<char>, Seq<char>)>,
)
    requires
        meta_lookup(cache, target) == Some(kept),
    ensures
        meta_lookup(cache_after(cache, requests), target) == Some(kept),
        meta_step(cache_after(cache, requests), target, header) == (kept, cache_after(cache, requests)),
    decreases requests.len(),
{
    if requests.len() > 0 {
        let before = cache_after(cache, requests.drop_last());
        lemma_kept_metadata_stays(cache, target, kept, requests.drop_last(), header);
        let (m, _) = meta_step(before, requests.last().0, requests.last().1);
        if meta_lookup(before, requests.last().0) is None {
            lemma_meta_lookup_keeps(before, target, (requests.last().0, m));
        }
    }
}

/// Copies a list of string pairs.
fn clone_pairs(v: &Vec<(String, String)>) -> (r: Vec<(String, String)>)
    ensures
        pairs_view(r@) == pairs_view(v@),
{
    let mut r: Vec<(String, String)> = Vec::new();
    let mut i: usize = 0;
    while i < v.len()
        invariant
            i <= v.len(),
            r@ == v@.subrange(0, i as int),
        decreases v.len() - i,
    {
        let a = v[i].0.clone();
        let b = v[i].1.clone();
        r.push((a, b));
        i = i + 1;
        assert(r@ =~= v@.subrange(0, i as int));
    }
    assert(v@.subrange(0, v.len() as int) =~= v@);
    r
}

impl ModelOnDisk {
    /// The path of the model.
    pub closed spec fn path_text(&self) -> Seq<char> {
        self.path@
    }

    /// The display name of the model.
    pub closed spec fn name_text(&self) -> Seq<char> {
        self.name@
    }

    /// The algorithm its weights are hashed with.
    pub closed spec fn algorithm(&self) -> HashAlgorithm {
        self.hash_algo
    }

    /// The kept metadata is well formed (see `cache_wf`).
    pub open spec fn wf(&self) -> bool {
        cache_wf(self.cache())
    }

    /// The metadata kept so far, path by path, in the order it was read.
    pub closed spec fn cache(&self) -> Seq<(Seq<char>, Seq<(Seq<char>, Seq<char>)>)> {
        self.metadata_cache@.map_values(
            |e: (String, Vec<(String, String)>)| (e.0@, pairs_view(e.1@)),
        )
    }

    /// A model at `path`, hashed with the default algorithm.
    pub fn new(path: String) -> (r: Self)
        ensures
            r.path_text() == path@,
            r.name_text() == model_name_of(path@),
            r.algorithm() == HashAlgorithm::Blake3,
            r.cache().len() == 0,
            r.wf(),
    {
        Self::with_hash_algo(path, HashAlgorithm::default())
    }

    /// A model at `path`, hashed with `hash_algo`; its name is the stem of a
    /// single weight file (.safetensors, .bin, .pt, .ckpt), else the final
    /// component of the path.
    pub fn with_hash_algo(path: String, hash_algo: HashAlgorithm) -> (r: Self)
        ensures
            r.path_text() == path@,
            r.name_text() == model_name_of(path@),
            r.algorithm() == hash_algo,
            r.cache().len() == 0,
            r.wf(),
    {
        let name = model_name(
            path_extension(path.as_str()),
            path_file_stem(path.as_str()),
            path_file_name(path.as_str()),
        );
        let r = ModelOnDisk { path, name, hash_algo, metadata_cache: Vec::new() };
        assert(r.cache() =~= Seq::empty());
        r
    }

    /// The path of the model.
    pub fn path(&self) -> (r: &String)
        ensures
            r@ == self.path_text(),
    {
        &self.path
    }

    /// The files whose contents are hashed, in the order they are fed to the
    /// hasher: the weight files found, or the model path itself where none
    /// were, sorted as paths.
    pub fn hash_files(&self, weight_files: Vec<String>) -> (r: Vec<String>)
        ensures
            views(r@) == paths_sorted(hash_inputs(views(weight_files@), self.path_text())),
            views(r@).to_multiset() == hash_inputs(views(weight_files@), self.path_text()).to_multiset(),
            forall|i: int, j: int| 0 <= i < j < r@.len() ==> path_le(#[trigger] r@[i]@, #[trigger] r@[j]@),
    {
        let mut files = weight_files;
        if files.len() == 0 {
            files.push(self.path.clone());
            proof {
                assert(views(files@) =~= seq![self.path_text()]);
            }
        }
        sort_paths(files)
    }

    /// The position of the first kept entry for `target`.
    fn find_cached(&self, target: &String) -> (r: Option<usize>)
        ensures
            match r {
                Some(i) => i < self.cache().len() && meta_lookup(self.cache(), target@) == Some(
                    self.cache()[i as int].1,
                ),
                None => meta_lookup(self.cache(), target@) is None,
            },
    {
        let ghost c = self.cache();
        let mut i: usize = 0;
        assert(c.subrange(0, c.len() as int) =~= c);
        while i < self.metadata_cache.len()
            invariant
                c == self.cache(),
                c.len() == self.metadata_cache@.len(),
                i <= self.metadata_cache.len(),
                meta_lookup(c, target@) == meta_lookup(c.subrange(i as int, c.len() as int), target@),
            decreases self.metadata_cache.len() - i,
        {
            let ghost rest = c.subrange(i as int, c.len() as int);
            assert(rest.drop_first() =~= c.subrange(i + 1, c.len() as int));
            assert(rest[0] == c[i as int]);
            if str_equal(self.metadata_cache[i].0.as_str(), target.as_str()) {
                return Some(i);
            }
            i = i + 1;
        }
        None
    }

    /// The path a metadata request is for: `path`, or the model's own.
    pub fn metadata_target(&self, path: Option<&str>) -> (r: String)
        ensures
            r@ == meta_target(
                match path {
                    Some(p) => Some(p@),
                    None => None,
                },
                self.path_text(),
            ),
    {
        match path {
            Some(p) => p.to_string(),
            None => self.path.clone(),
        }
    }

    /// Whether a metadata request for `path` needs the safetensors header
    /// read: nothing is kept for the target yet and it is a safetensors file.
    pub fn metadata_needs_read(&self, path: Option<&str>) -> (r: bool)
        ensures
            ({
                let t = meta_target(
                    match path {
                        Some(p) => Some(p@),
                        None => None,
                    },
                    self.path_text(),
                );
                r == (meta_lookup(self.cache(), t) is None && path_extension_of(t) == Some(
                    "safetensors"@,
                ))
            }),
    {
        let target = self.metadata_target(path);
        match self.find_cached(&target) {
            Some(_) => false,
            None => match path_extension(target.as_str()) {
                Some(e) => {
                    proof {
                        reveal_strlit("safetensors");
                    }
                    str_equal(e.as_str(), "safetensors")
                },
                None => false,
            },
        }
    }

    /// The metadata of the model's file (or of `path`): what was kept for it
    /// before, or else `header` (the safetensors header's metadata, which the
    /// caller read) for a safetensors file and nothing for other files, which
    /// is then kept for later requests.
    pub fn metadata(&mut self, path: Option<&str>, header: Vec<(String, String)>) -> (r: Vec<
        (String, String),
    >)
        ensures
            ({
                let t = meta_target(
                    match path {
                        Some(p) => Some(p@),
                        None => None,
                    },
                    old(self).path_text(),
                );
                (pairs_view(r@), final(self).cache()) == meta_step(
                    old(self).cache(),
                    t,
                    pairs_view(header@),
                )
            }),
            final(self).path_text() == old(self).path_text(),
            final(self).name_text() == old(self).name_text(),
            final(self).algorithm() == old(self).algorithm(),
            old(self).wf() ==> final(self).wf(),
    {
        let ghost hv = pairs_view(header@);
        let target = self.metadata_target(path);
        match self.find_cached(&target) {
            Some(i) => clone_pairs(&self.metadata_cache[i].1),
            None => {
                let is_safetensors = match path_extension(target.as_str()) {
                    Some(e) => {
                        proof {
                            reveal_strlit("safetensors");
                        }
                        str_equal(e.as_str(), "safetensors")
                    },
                    None => false,
                };
                let m = if is_safetensors {
                    header
                } else {
                    Vec::new()
                };
                let kept = clone_pairs(&m);
                let ghost before = self.cache();
                self.metadata_cache.push((target, kept));
                assert(self.cache() =~= before.push((target@, pairs_view(m@))));
                proof {
                    if cache_wf(before) {
                        lemma_meta_step_wf(before, target@, hv);
                    }
                }
                m
            },
        }
    }

    /// The content hash of the model, given the contents of its hashed files
    /// one after another: hex BLAKE3 or BLAKE2b-512, by the model's algorithm.
    pub fn hash(&self, contents: &[u8]) -> (r: String)
        ensures
            r@ == digest_text(self.algorithm(), contents@),
    {
        match self.hash_algo {
            HashAlgorithm::Blake3 => blake3_hex(contents),
            HashAlgorithm::Blake2b => blake2b_hex(contents),
        }
    }
}

/// The paths to hash before sorting: the weight files, or the model path
/// where there are none.
pub open spec fn hash_inputs(weight_files: Seq<Seq<char>>, path: Seq<char>) -> Seq<Seq<char>> {
    if weight_files.len() == 0 {
        seq![path]
    } else {
        weight_files
    }
}

/// The hex digest of `data` under `algo`.
pub open spec fn digest_text(algo: HashAlgorithm, data: Seq<u8>) -> Seq<char> {
    match algo {
        HashAlgorithm::Blake3 => blake3_hex_of(data),
        HashAlgorithm::Blake2b => blake2b_hex_of(data),
    }
}

/// What the walk for weight files does with a directory entry.
#[derive(Debug, Clone, Copy, PartialEq, Eq, Structural)]
pub enum WalkStep {
    /// Leave it: a hidden entry, or a file that holds no weights.
    Skip,
    /// Walk into it: a directory.
    Descend,
    /// Keep it: a weight file.
    Keep,
}

/// Extensions of weight files.
pub open spec fn is_weight_file_extension(ext: Seq<char>) -> bool {
    ||| ext == "safetensors"@
    ||| ext == "pt"@
    ||| ext == "pth"@
    ||| ext == "ckpt"@
    ||| ext == "bin"@
    ||| ext == "gguf"@
    ||| ext == "onnx"@
}

/// What the walk does with the entry named `file_name` at `path`.
pub open spec fn walk_step_for(file_name: Seq<char>, path: Seq<char>, is_dir: bool) -> WalkStep {
    if file_name.len() > 0 && file_name[0] == '.' {
        WalkStep::Skip
    } else if is_dir {
        WalkStep::Descend
    } else {
        match path_extension_of(path) {
            Some(e) => if is_weight_file_extension(e) {
                WalkStep::Keep
            } else {
                WalkStep::Skip
            },
            None => WalkStep::Skip,
        }
    }
}

/// Decides what the walk for weight files below a model directory does
/// with one entry: hidden entries are left, directories walked into, and
/// files with a weight extension kept.
pub fn weight_walk_step(file_name: &str, path: &str, is_dir: bool) -> (r: WalkStep)
    ensures
        r == walk_step_for(file_name@, path@, is_dir),
{
    if text_starts_with_char(file_name, '.') {
        return WalkStep::Skip;
    }
    if is_dir {
        return WalkStep::Descend;
    }
    match path_extension(path) {
        Some(e) => {
            let x = e.as_str();
            if str_equal(x, "safetensors") || str_equal(x, "pt") || str_equal(x, "pth") || str_equal(x, "ckpt")
                || str_equal(x, "bin") || str_equal(x, "gguf") || str_equal(x, "onnx") {
                WalkStep::Keep
            } else {
                WalkStep::Skip
            }
        },
        None => WalkStep::Skip,
    }
}

/// The text kept for a metadata value: a string's contents, and the
/// compact JSON text of anything else.
pub open spec fn meta_value_text(v: JsonValue) -> Seq<char> {
    match v {
        JsonValue::Null => "null"@,
        JsonValue::Bool(b) => if b {
            "true"@
        } else {
            "false"@
        },
        JsonValue::Number(t) => t@,
        JsonValue::Text(s) => s@,
        JsonValue::Array(_, t) => t@,
        JsonValue::Object(_, t) => t@,
        JsonValue::Nested(t) => t@,
    }
}

/// The value under `key` in a list of object entries (the first one).
pub open spec fn entry_value(entries: Seq<(String, JsonValue)>, key: Seq<char>) -> Option<JsonValue>
    decreases entries.len(),
{
    if entries.len() == 0 {
        None
    } else if entries[0].0@ == key {
        Some(entries[0].1)
    } else {
        entry_value(entries.drop_first(), key)
    }
}

/// The metadata in a safetensors header: the entries of its
/// `__metadata__` object, each value as text; nothing where there is none.
pub open spec fn header_metadata(header: JsonValue) -> Seq<(Seq<char>, Seq<char>)> {
    match header {
        JsonValue::Object(entries, _) => match entry_value(entries@, "__metadata__"@) {
            Some(JsonValue::Object(meta, _)) => meta@.map_values(
                |e: (String, JsonValue)| (e.0@, meta_value_text(e.1)),
            ),
            _ => Seq::empty(),
        },
        _ => Seq::empty(),
    }
}

/// The text kept for a metadata value.
fn meta_value_string(v: &JsonValue) -> (r: String)
    ensures
        r@ == meta_value_text(*v),
{
    match v {
        JsonValue::Null => "null".to_string(),
        JsonValue::Bool(b) => if *b {
            "true".to_string()
        } else {
            "false".to_string()
        },
        JsonValue::Number(t) => t.clone(),
        JsonValue::Text(s) => s.clone(),
        JsonValue::Array(_, t) => t.clone(),
        JsonValue::Object(_, t) => t.clone(),
        JsonValue::Nested(t) => t.clone(),
    }
}

/// Reads the metadata out of a parsed safetensors header: the entries of
/// its `__metadata__` object, strings as they are and other values as
/// compact JSON text.
#[verifier::loop_isolation(false)]
pub fn safetensors_metadata(header: &JsonValue) -> (r: Vec<(String, String)>)
    ensures
        pairs_view(r@) == header_metadata(*header),
{
    proof {
        reveal_strlit("__metadata__");
    }
    let mut r: Vec<(String, String)> = Vec::new();
    match header {
        JsonValue::Object(entries, _) => {
            let mut i: usize = 0;
            assert(entries@.subrange(0, entries@.len() as int) =~= entries@);
            while i < entries.len()
                invariant
                    i <= entries.len(),
                    r@.len() == 0,
                    entry_value(entries@, "__metadata__"@) == entry_value(
                        entries@.subrange(i as int, entries@.len() as int),
                        "__metadata__"@,
                    ),
                decreases entries.len() - i,
            {
                let ghost rest = entries@.subrange(i as int, entries@.len() as int);
                assert(rest.drop_first() =~= entries@.subrange(i + 1, entries@.len() as int));
                assert(rest[0] == entries@[i as int]);
                if str_equal(entries[i].0.as_str(), "__metadata__") {
                    match &entries[i].1 {
                        JsonValue::Object(meta, _) => {
                            let mut k: usize = 0;
                            while k < meta.len()
                                invariant
                                    k <= meta.len(),
                                    pairs_view(r@) == meta@.subrange(0, k as int).map_values(
                                        |e: (String, JsonValue)| (e.0@, meta_value_text(e.1)),
                                    ),
                                decreases meta.len() - k,
                            {
                                let key = meta[k].0.clone();
                                let value = meta_value_string(&meta[k].1);
                                let ghost before = r@;
                                r.push((key, value));
                                assert(pairs_view(r@) =~= pairs_view(before).push((key@, value@)));
                                assert(meta@.subrange(0, k + 1) =~= meta@.subrange(0, k as int).push(
                                    meta@[k as int],
                                ));
                                k = k + 1;
                                assert(pairs_view(r@) =~= meta@.subrange(0, k as int).map_values(
                                    |e: (String, JsonValue)| (e.0@, meta_value_text(e.1)),
                                ));
                            }
                            assert(meta@.subrange(0, meta@.len() as int) =~= meta@);
                            return r;
                        },
                        _ => {
                            return r;
                        },
                    }
                }
                i = i + 1;
            }
            assert(pairs_view(r@) =~= Seq::empty());
            r
        },
        _ => {
            assert(pairs_view(r@) =~= Seq::empty());
            r
        },
    }
}

/// Reads the metadata out of a safetensors header given as its JSON bytes
/// (see `safetensors_metadata`); bytes that are not JSON are an error
/// carrying the parser's message.
pub fn safetensors_header_metadata(header: &[u8]) -> (r: Result<Vec<(String, String)>, String>)
    ensures
        match crate::json_text::json_bytes_compact(header@) {
            Ok(t) => r matches Ok(m) && exists|v: JsonValue|
                crate::json_text::deep_value_matches(v, t) && pairs_view(m@) == header_metadata(v),
            Err(e) => r matches Err(x) && x@ == e,
        },
{
    match crate::json_text::read_json_bytes(header) {
        Ok(v) => {
            let m = safetensors_metadata(&v);
            assert(crate::json_text::deep_value_matches(v, crate::json_text::json_bytes_compact(header@)->Ok_0)
                && pairs_view(m@) == header_metadata(v));
            Ok(m)
        },
        Err(e) => Err(e),
    }
}

/// The repository variant a weight file's name reveals, if any.
pub open spec fn name_variant(name: Seq<char>) -> Option<ModelRepoVariant> {
    if contains(name, ".fp16"@) {
        Some(ModelRepoVariant::FP16)
    } else if contains(name, "openvino_model"@) {
        Some(ModelRepoVariant::OpenVINO)
    } else if contains(name, "flax_model"@) {
        Some(ModelRepoVariant::Flax)
    } else {
        None
    }
}

/// The variant revealed by the first of `paths` whose file name reveals one.
pub open spec fn first_variant(paths: Seq<Seq<char>>) -> Option<ModelRepoVariant>
    decreases paths.len(),
{
    if paths.len() == 0 {
        None
    } else {
        match name_variant(or_empty(path_file_name_of(paths[0]))) {
            Some(v) => Some(v),
            None => first_variant(paths.drop_first()),
        }
    }
}

/// The files (not directories) among `entries` with extension `ext`, in order.
pub open spec fn files_with_extension(entries: Seq<(Seq<char>, bool)>, ext: Seq<char>) -> Seq<Seq<char>>
    decreases entries.len(),
{
    if entries.len() == 0 {
        seq![]
    } else {
        let rest = files_with_extension(entries.drop_last(), ext);
        let (p, is_dir) = entries.last();
        if !is_dir && path_extension_of(p) == Some(ext) {
            rest.push(p)
        } else {
            rest
        }
    }
}

/// Some file among `entries` is an ONNX file.
pub open spec fn has_onnx(entries: Seq<(Seq<char>, bool)>) -> bool {
    exists|i: int|
        0 <= i < entries.len() && !entries[i].1 && #[trigger] path_extension_of(entries[i].0) == Some(
            "onnx"@,
        )
}

/// The variant of a diffusers directory listing: ONNX where it holds an ONNX
/// file, else the variant revealed by its safetensors files, else by its
/// bin files, else the default.
pub open spec fn listing_variant(entries: Seq<(Seq<char>, bool)>) -> ModelRepoVariant {
    if has_onnx(entries) {
        ModelRepoVariant::ONNX
    } else {
        match first_variant(files_with_extension(entries, "safetensors"@)) {
            Some(v) => v,
            None => match first_variant(files_with_extension(entries, "bin"@)) {
                Some(v) => v,
                None => ModelRepoVariant::Default,
            },
        }
    }
}

/// A listing as views: each entry's path and whether it is a directory.
pub open spec fn listing_view(entries: Seq<(String, bool)>) -> Seq<(Seq<char>, bool)> {
    entries.map_values(|e: (String, bool)| (e.0@, e.1))
}

/// The variant revealed by a file name.
fn file_name_variant(path: &String) -> (r: Option<ModelRepoVariant>)
    ensures
        r == name_variant(or_empty(path_file_name_of(path@))),
{
    let name = match path_file_name(path.as_str()) {
        Some(n) => n,
        None => String::new(),
    };
    if text_contains(name.as_str(), ".fp16") {
        Some(ModelRepoVariant::FP16)
    } else if text_contains(name.as_str(), "openvino_model") {
        Some(ModelRepoVariant::OpenVINO)
    } else if text_contains(name.as_str(), "flax_model") {
        Some(ModelRepoVariant::Flax)
    } else {
        None
    }
}

/// The variant revealed by the first path whose file name reveals one.
fn first_path_variant(paths: &Vec<String>) -> (r: Option<ModelRepoVariant>)
    ensures
        r == first_variant(views(paths@)),
{
    let mut i: usize = 0;
    assert(views(paths@).subrange(0, paths@.len() as int) =~= views(paths@));
    while i < paths.len()
        invariant
            i <= paths.len(),
            first_variant(views(paths@)) == first_variant(
                views(paths@).subrange(i as int, paths@.len() as int),
            ),
        decreases paths.len() - i,
    {
        let ghost rest = views(paths@).subrange(i as int, paths@.len() as int);
        assert(rest.drop_first() =~= views(paths@).subrange(i + 1, paths@.len() as int));
        assert(rest[0] == paths@[i as int]@);
        let v = file_name_variant(&paths[i]);
        if v.is_some() {
            return v;
        }
        i = i + 1;
    }
    None
}

impl ModelOnDisk {
    /// The repository variant of the model: none for a single file; for a
    /// directory, judged from its listing (each entry's path and whether it
    /// is a directory, in the order the directory was read).
    pub fn repo_variant(&self, path_is_file: bool, entries: &Vec<(String, bool)>) -> (r: Option<
        ModelRepoVariant,
    >)
        ensures
            r == if path_is_file {
                None
            } else {
                Some(listing_variant(listing_view(entries@)))
            },
    {
        if path_is_file {
            return None;
        }
        proof {
            reveal_strlit("safetensors");
            reveal_strlit("bin");
            reveal_strlit("onnx");
        }
        let ghost lv = listing_view(entries@);
        let mut safes: Vec<String> = Vec::new();
        let mut bins: Vec<String> = Vec::new();
        let mut i: usize = 0;
        while i < entries.len()
            invariant
                !path_is_file,
                lv == listing_view(entries@),
                i <= entries.len(),
                views(safes@) == files_with_extension(lv.subrange(0, i as int), "safetensors"@),
                views(bins@) == files_with_extension(lv.subrange(0, i as int), "bin"@),
                forall|k: int|
                    0 <= k < i ==> !(!lv[k].1 && #[trigger] path_extension_of(lv[k].0) == Some("onnx"@)),
            decreases entries.len() - i,
        {
            proof {
                reveal_strlit("safetensors");
                reveal_strlit("bin");
                reveal_strlit("onnx");
            }
            let ghost pre = lv.subrange(0, i as int);
            assert(lv.subrange(0, i + 1).drop_last() =~= pre);
            assert(lv[i as int] == (entries@[i as int].0@, entries@[i as int].1));
            assert("safetensors"@ != "bin"@ && "safetensors"@ != "onnx"@ && "bin"@ != "onnx"@) by {
                assert("safetensors"@.len() == 11 && "bin"@.len() == 3 && "onnx"@.len() == 4);
            }
            if !entries[i].1 {
                let ext = path_extension(entries[i].0.as_str());
                assert(opt_view(ext) == path_extension_of(lv[i as int].0));
                match ext {
                    Some(e) => {
                        if str_equal(e.as_str(), "safetensors") {
                            let ghost b = safes@;
                            safes.push(entries[i].0.clone());
                            assert(views(safes@) =~= views(b).push(entries@[i as int].0@));
                        } else if str_equal(e.as_str(), "bin") {
                            let ghost b = bins@;
                            bins.push(entries[i].0.clone());
                            assert(views(bins@) =~= views(b).push(entries@[i as int].0@));
                        } else if str_equal(e.as_str(), "onnx") {
                            assert(has_onnx(lv)) by {
                                assert(!lv[i as int].1 && path_extension_of(lv[i as int].0) == Some(
                                    "onnx"@,
                                ));
                            }
                            return Some(ModelRepoVariant::ONNX);
                        }
                    },
                    None => {},
                }
            }
            i = i + 1;
        }
        assert(lv.subrange(0, entries@.len() as int) =~= lv);
        assert(!has_onnx(lv));
        let v = first_path_variant(&safes);
        if v.is_some() {
            return v;
        }
        let w = first_path_variant(&bins);
        if w.is_some() {
            return w;
        }
        Some(ModelRepoVariant::Default)
    }

    /// Chooses the weight file to work on: the given path where it exists;
    /// else the model path where it is a file; else the single weight file
    /// found below it (the caller's walk), failing where there is none or
    /// more than one.
    pub fn resolve_weight_file(
        &self,
        provided: Option<&str>,
        provided_exists: bool,
        path_is_file: bool,
        weights: &Vec<String>,
    ) -> (r: Result<String, WeightFileError>)
        ensures
            match provided {
                Some(p) => if provided_exists {
                    r matches Ok(s) && s@ == p@
                } else {
                    r matches Err(WeightFileError::Missing(q)) && q@ == p@
                },
                None => if path_is_file {
                    r matches Ok(s) && s@ == self.path_text()
                } else if weights@.len() == 0 {
                    r matches Err(WeightFileError::NoWeights(q)) && q@ == self.path_text()
                } else if weights@.len() == 1 {
                    r matches Ok(s) && s@ == weights@[0]@
                } else {
                    r matches Err(WeightFileError::Ambiguous(q)) && q@ == self.path_text()
                },
            },
    {
        match provided {
            Some(p) => {
                if provided_exists {
                    Ok(p.to_string())
                } else {
                    Err(WeightFileError::Missing(p.to_string()))
                }
            },
            None => {
                if path_is_file {
                    Ok(self.path.clone())
                } else if weights.len() == 0 {
                    Err(WeightFileError::NoWeights(self.path.clone()))
                } else if weights.len() == 1 {
                    Ok(weights[0].clone())
                } else {
                    Err(WeightFileError::Ambiguous(self.path.clone()))
                }
            },
        }
    }
}

/// Why no weight file could be chosen; each carries the path concerned.
#[derive(Debug, Clone)]
pub enum WeightFileError {
    /// The weight path given does not exist.
    Missing(String),
    /// No weight file lies below the model path.
    NoWeights(String),
    /// More than one weight file lies below the model path.
    Ambiguous(String),
}

/// Each path comes no later than every path after it, by `path_le`.
pub open spec fn ascending_paths(s: Seq<Seq<char>>) -> bool {
    forall|i: int, j: int| 0 <= i < j < s.len() ==> path_le(#[trigger] s[i], #[trigger] s[j])
}

/// The path order tells apart any two different paths of `s`.
pub open spec fn told_apart(s: Seq<Seq<char>>) -> bool {
    forall|x: Seq<char>, y: Seq<char>|
        s.contains(x) && s.contains(y) && #[trigger] path_le(x, y) && #[trigger] path_le(y, x) ==> x == y
}

/// Two ascending orderings of the same paths are one sequence, where the
/// path order tells those paths apart.
proof fn lemma_ascending_unique(s1: Seq<Seq<char>>, s2: Seq<Seq<char>>)
    requires
        s1.to_multiset() == s2.to_multiset(),
        ascending_paths(s1),
        ascending_paths(s2),
        told_apart(s1),
    ensures
        s1 == s2,
    decreases s1.len(),
{
    broadcast use vstd::seq_lib::group_to_multiset_ensures;

    to_multiset_len(s1);
    to_multiset_len(s2);
    if s1.len() == 0 {
        assert(s1 =~= s2);
    } else {
        let a = s1[0];
        let b = s2[0];
        to_multiset_contains(s1, a);
        to_multiset_contains(s2, a);
        to_multiset_contains(s1, b);
        to_multiset_contains(s2, b);
        assert(s1.contains(a));
        assert(s2.contains(b));
        let m = choose|m: int| 0 <= m < s1.len() && s1[m] == b;
        let k = choose|k: int| 0 <= k < s2.len() && s2[k] == a;
        if m > 0 {
            assert(path_le(s1[0], s1[m]));
        }
        if k > 0 {
            assert(path_le(s2[0], s2[k]));
        }
        if m > 0 && k > 0 {
            assert(a == b);
        }
        assert(a == b);
        to_multiset_remove(s1, 0);
        to_multiset_remove(s2, 0);
        assert(s1.remove(0) =~= s1.drop_first());
        assert(s2.remove(0) =~= s2.drop_first());
        let t1 = s1.drop_first();
        let t2 = s2.drop_first();
        assert forall|x: Seq<char>, y: Seq<char>|
            t1.contains(x) && t1.contains(y) && #[trigger] path_le(x, y) && #[trigger] path_le(y, x) implies x == y by {
            let i = choose|i: int| 0 <= i < t1.len() && t1[i] == x;
            let j = choose|j: int| 0 <= j < t1.len() && t1[j] == y;
            assert(s1[i + 1] == x);
            assert(s1[j + 1] == y);
            assert(s1.contains(x) && s1.contains(y));
        }
        assert forall|i: int, j: int| 0 <= i < j < t1.len() implies path_le(#[trigger] t1[i], #[trigger] t1[j]) by {
            assert(path_le(s1[i + 1], s1[j + 1]));
        }
        assert forall|i: int, j: int| 0 <= i < j < t2.len() implies path_le(#[trigger] t2[i], #[trigger] t2[j]) by {
            assert(path_le(s2[i + 1], s2[j + 1]));
        }
        lemma_ascending_unique(t1, t2);
        assert forall|i: int| 0 <= i < s1.len() implies s1[i] == s2[i] by {
            if i > 0 {
                assert(s1[i] == t1[i - 1]);
                assert(s2[i] == t2[i - 1]);
            }
        }
        assert(s1 =~= s2);
    }
}

/// The order in which a model's files are hashed does not depend on the
/// order in which they were listed: two listings of the same files give the
/// same hashed order, where the path order tells those files apart.
pub proof fn lemma_hash_order_independent(
    listed1: Seq<Seq<char>>,
    listed2: Seq<Seq<char>>,
    path: Seq<char>,
    hashed1: Seq<Seq<char>>,
    hashed2: Seq<Seq<char>>,
)
    requires
        listed1.to_multiset() == listed2.to_multiset(),
        told_apart(hash_inputs(listed1, path)),
        hashed1.to_multiset() == hash_inputs(listed1, path).to_multiset(),
        ascending_paths(hashed1),
        hashed2.to_multiset() == hash_inputs(listed2, path).to_multiset(),
        ascending_paths(hashed2),
    ensures
        hashed1 == hashed2,
{
    broadcast use vstd::seq_lib::group_to_multiset_ensures;

    to_multiset_len(listed1);
    to_multiset_len(listed2);
    let inputs = hash_inputs(listed1, path);
    assert forall|x: Seq<char>, y: Seq<char>|
        hashed1.contains(x) && hashed1.contains(y) && #[trigger] path_le(x, y) && #[trigger] path_le(y, x) implies x == y by {
        to_multiset_contains(hashed1, x);
        to_multiset_contains(hashed1, y);
        to_multiset_contains(inputs, x);
        to_multiset_contains(inputs, y);
    }
    lemma_ascending_unique(hashed1, hashed2);
}

/// Characters without a `.` after a name leave its last `.` where it was.
proof fn lemma_last_dot_past(prefix: Seq<char>, tail: Seq<char>)
    requires
        forall|i: int| 0 <= i < tail.len() ==> #[trigger] tail[i] != '.',
    ensures
        last_dot(prefix + tail) == last_dot(prefix),
    decreases tail.len(),
{
    if tail.len() > 0 {
        let shorter = tail.drop_last();
        assert((prefix + tail).drop_last() =~= prefix + shorter);
        assert((prefix + tail).last() == tail.last());
        lemma_last_dot_past(prefix, shorter);
    }
}

/// A model whose path ends in a file named by a stem, a dot and an
/// extension without a dot is named by the stem where the extension is one
/// of the weight-file extensions safetensors, bin, pt and ckpt, and by the
/// whole file name where it is any other.
pub proof fn lemma_weight_file_named_by_stem(path: Seq<char>, stem: Seq<char>, ext: Seq<char>)
    requires
        path_file_name_of(path) == Some(stem + "."@ + ext),
        stem.len() > 0,
        forall|i: int| 0 <= i < ext.len() ==> #[trigger] ext[i] != '.',
    ensures
        (ext == "safetensors"@ || ext == "bin"@ || ext == "pt"@ || ext == "ckpt"@) ==> model_name_of(path)
            == stem,
        !(ext == "safetensors"@ || ext == "bin"@ || ext == "pt"@ || ext == "ckpt"@) ==> model_name_of(path)
            == stem + "."@ + ext,
{
    reveal_strlit(".");
    let name = stem + "."@ + ext;
    let dotted = stem + "."@;
    lemma_last_dot_past(dotted, ext);
    assert(dotted.last() == '.');
    assert(last_dot(dotted) == Some(stem.len() as int));
    assert(name.skip(stem.len() as int + 1) =~= ext);
    assert(name.take(stem.len() as int) =~= stem);
}

/// The walk for weight files keeps a visible file exactly where its
/// extension is safetensors, pt, pth, ckpt, bin, gguf or onnx; it walks into
/// every visible directory and leaves every hidden entry.
pub proof fn lemma_weight_walk_keeps(file_name: Seq<char>, path: Seq<char>, is_dir: bool)
    ensures
        (file_name.len() > 0 && file_name[0] == '.') ==> walk_step_for(file_name, path, is_dir)
            == WalkStep::Skip,
        !(file_name.len() > 0 && file_name[0] == '.') && is_dir ==> walk_step_for(file_name, path, is_dir)
            == WalkStep::Descend,
        !(file_name.len() > 0 && file_name[0] == '.') && !is_dir ==> (walk_step_for(file_name, path, is_dir)
            == WalkStep::Keep <==> (path_extension_of(path) == Some("safetensors"@) || path_extension_of(path)
            == Some("pt"@) || path_extension_of(path) == Some("pth"@) || path_extension_of(path) == Some(
            "ckpt"@,
        ) || path_extension_of(path) == Some("bin"@) || path_extension_of(path) == Some("gguf"@)
            || path_extension_of(path) == Some("onnx"@))),
{
}

/// A weight file's name reveals its repository variant: ".fp16" anywhere in
/// it gives FP16, else "openvino_model" gives OpenVINO, else "flax_model"
/// gives Flax; a name holding none of the three reveals none.
pub proof fn lemma_name_variants(name: Seq<char>)
    ensures
        contains(name, ".fp16"@) ==> name_variant(name) == Some(ModelRepoVariant::FP16),
        !contains(name, ".fp16"@) && contains(name, "openvino_model"@) ==> name_variant(name) == Some(
            ModelRepoVariant::OpenVINO,
        ),
        !contains(name, ".fp16"@) && !contains(name, "openvino_model"@) && contains(name, "flax_model"@)
            ==> name_variant(name) == Some(ModelRepoVariant::Flax),
        !contains(name, ".fp16"@) && !contains(name, "openvino_model"@) && !contains(name, "flax_model"@)
            ==> name_variant(name) is None,
{
}

} // verus!
