//! The search for models below a directory. The caller walks the directories
//! and runs its callbacks; the search decides how deep to go, which entries
//! are models (a directory holding a marker file is one model, else each
//! weight file is), which directories to enter, and keeps the statistics and
//! the set of models found.
use vstd::prelude::*;
use crate::text::{ends_with, str_equal, text_ends_with, text_starts_with_char, views};

verus! {

/// Statistics gathered during a search.
#[derive(Debug, Clone, Copy)]
pub struct SearchStats {
    pub items_scanned: usize,
    pub models_found: usize,
    pub models_filtered: usize,
}

impl Default for SearchStats {
    fn default() -> (r: Self)
        ensures
            r.items_scanned == 0,
            r.models_found == 0,
            r.models_filtered == 0,
    {
        SearchStats { items_scanned: 0, models_found: 0, models_filtered: 0 }
    }
}

/// What kind of thing a directory entry is.
#[derive(Debug, Clone, Copy, PartialEq, Eq, Structural)]
pub enum EntryKind {
    Dir,
    File,
    /// Neither, or its type could not be read.
    Other,
}

/// One entry of a directory listing.
#[derive(Debug, Clone)]
pub struct DirEntry {
    /// The entry's name (lossily decoded).
    pub name: String,
    /// The entry's full path.
    pub path: String,
    pub kind: EntryKind,
}

/// What a search does after reading one directory.
#[derive(Debug, Clone)]
pub struct DirectoryPlan {
    /// Models found there, in listing order, each to be offered to the filter.
    pub candidates: Vec<String>,
    /// Directories to search next, in listing order, one level deeper.
    pub subdirs: Vec<String>,
}

/// The entry is hidden: its name begins with a dot.
pub open spec fn is_hidden(e: DirEntry) -> bool {
    e.name@.len() > 0 && e.name@[0] == '.'
}

/// Names of the files that make their directory a model.
pub open spec fn is_marker(name: Seq<char>) -> bool {
    ||| name == "config.json"@
    ||| name == "model_index.json"@
    ||| name == "learned_embeds.bin"@
    ||| name == "pytorch_lora_weights.bin"@
    ||| name == "image_encoder.txt"@
}

/// Names of weight files that are models on their own.
pub open spec fn is_model_file(name: Seq<char>) -> bool {
    ||| ends_with(name, ".ckpt"@)
    ||| ends_with(name, ".bin"@)
    ||| ends_with(name, ".pth"@)
    ||| ends_with(name, ".safetensors"@)
    ||| ends_with(name, ".pt"@)
    ||| ends_with(name, ".gguf"@)
    ||| ends_with(name, ".onnx"@)
}

/// Some visible file of the listing is a marker.
pub open spec fn has_marker(es: Seq<DirEntry>) -> bool {
    exists|i: int|
        0 <= i < es.len() && !is_hidden(es[i]) && es[i].kind == EntryKind::File && #[trigger] is_marker(
            es[i].name@,
        )
}

/// Paths of the visible weight files of the listing, in order.
pub open spec fn model_files(es: Seq<DirEntry>) -> Seq<Seq<char>>
    decreases es.len(),
{
    if es.len() == 0 {
        seq![]
    } else {
        let rest = model_files(es.drop_last());
        let e = es.last();
        if !is_hidden(e) && e.kind == EntryKind::File && is_model_file(e.name@) {
            rest.push(e.path@)
        } else {
            rest
        }
    }
}

/// Paths of the visible directories of the listing, in order.
pub open spec fn visible_dirs(es: Seq<DirEntry>) -> Seq<Seq<char>>
    decreases es.len(),
{
    if es.len() == 0 {
        seq![]
    } else {
        let rest = visible_dirs(es.drop_last());
        let e = es.last();
        if !is_hidden(e) && e.kind == EntryKind::Dir {
            rest.push(e.path@)
        } else {
            rest
        }
    }
}

/// The search for models.
pub struct ModelSearch {
    reports_start: bool,
    filters_models: bool,
    reports_completion: bool,
    pub stats: SearchStats,
    models_found: Vec<String>,
    max_depth: usize,
}

impl ModelSearch {
    /// The statistics so far.
    pub closed spec fn stats_view(&self) -> SearchStats {
        self.stats
    }

    /// The models found so far, in the order found.
    pub closed spec fn found(&self) -> Seq<Seq<char>> {
        views(self.models_found@)
    }

    /// How deep below the root the search goes.
    pub closed spec fn depth_limit(&self) -> usize {
        self.max_depth
    }

    /// Whether the caller reports the start of a search.
    pub closed spec fn start_reported(&self) -> bool {
        self.reports_start
    }

    /// Whether the caller offers each model found to a filter.
    pub closed spec fn filtered(&self) -> bool {
        self.filters_models
    }

    /// Whether the caller reports the models found when a search completes.
    pub closed spec fn completion_reported(&self) -> bool {
        self.reports_completion
    }

    /// The search's invariant: no model is kept twice, and no more are kept
    /// than passed the filter, nor more passed than were found.
    pub open spec fn wf(&self) -> bool {
        &&& self.found().no_duplicates()
        &&& self.found().len() <= self.stats_view().models_filtered
        &&& self.stats_view().models_filtered <= self.stats_view().models_found
    }

    /// A search with no callbacks, going at most 20 levels deep.
    pub fn new() -> (r: Self)
        ensures
            r.wf(),
            r.depth_limit() == 20,
            !r.start_reported(),
            !r.filtered(),
            !r.completion_reported(),
            r.found().len() == 0,
            r.stats_view() == (SearchStats { items_scanned: 0, models_found: 0, models_filtered: 0 }),
    {
        let r = ModelSearch {
            reports_start: false,
            filters_models: false,
            reports_completion: false,
            stats: SearchStats::default(),
            models_found: Vec::new(),
            max_depth: 20,
        };
        assert(r.found() =~= Seq::empty());
        r
    }

    /// The same search, with the start of each search reported by the caller.
    pub fn with_on_search_started(self) -> (r: Self)
        ensures
            r.start_reported(),
            r.filtered() == self.filtered(),
            r.completion_reported() == self.completion_reported(),
            r.depth_limit() == self.depth_limit(),
            r.found() == self.found(),
            r.stats_view() == self.stats_view(),
    {
        ModelSearch { reports_start: true, ..self }
    }

    /// The same search, with each model found offered to the caller's filter.
    pub fn with_on_model_found(self) -> (r: Self)
        ensures
            r.filtered(),
            r.start_reported() == self.start_reported(),
            r.completion_reported() == self.completion_reported(),
            r.depth_limit() == self.depth_limit(),
            r.found() == self.found(),
            r.stats_view() == self.stats_view(),
    {
        ModelSearch { filters_models: true, ..self }
    }

    /// The same search, with the models found reported by the caller at the end.
    pub fn with_on_search_completed(self) -> (r: Self)
        ensures
            r.completion_reported(),
            r.start_reported() == self.start_reported(),
            r.filtered() == self.filtered(),
            r.depth_limit() == self.depth_limit(),
            r.found() == self.found(),
            r.stats_view() == self.stats_view(),
    {
        ModelSearch { reports_completion: true, ..self }
    }

    /// The same search, going at most `depth` levels deep.
    pub fn max_depth(self, depth: usize) -> (r: Self)
        ensures
            r.depth_limit() == depth,
            r.start_reported() == self.start_reported(),
            r.filtered() == self.filtered(),
            r.completion_reported() == self.completion_reported(),
            r.found() == self.found(),
            r.stats_view() == self.stats_view(),
    {
        ModelSearch { max_depth: depth, ..self }
    }

    /// Starts a search: the statistics and the models found are cleared.
    /// Returns whether the caller reports the start.
    pub fn search(&mut self) -> (r: bool)
        ensures
            r == old(self).start_reported(),
            final(self).wf(),
            final(self).found().len() == 0,
            final(self).stats_view() == (SearchStats { items_scanned: 0, models_found: 0, models_filtered: 0 }),
            final(self).depth_limit() == old(self).depth_limit(),
            final(self).start_reported() == old(self).start_reported(),
            final(self).filtered() == old(self).filtered(),
            final(self).completion_reported() == old(self).completion_reported(),
    {
        self.stats = SearchStats::default();
        self.models_found = Vec::new();
        assert(self.found() =~= Seq::empty());
        self.reports_start
    }

    /// Whether a directory `depth` levels below the root is searched.
    pub fn should_walk(&self, depth: usize) -> (r: bool)
        ensures
            r == (depth <= self.depth_limit()),
    {
        depth <= self.max_depth
    }

    /// Takes in the listing of directory `dir`: every entry counts as
    /// scanned; where a visible file is a marker, the directory is the one
    /// model and nothing below it is searched; else each visible weight file
    /// is a model and each visible directory is searched next.
    pub fn visit_directory(&mut self, dir: &String, entries: &Vec<DirEntry>) -> (r: DirectoryPlan)
        requires
            old(self).stats_view().items_scanned + entries@.len() <= usize::MAX,
        ensures
            final(self).stats_view().items_scanned == old(self).stats_view().items_scanned + entries@.len(),
            final(self).stats_view().models_found == old(self).stats_view().models_found,
            final(self).stats_view().models_filtered == old(self).stats_view().models_filtered,
            final(self).found() == old(self).found(),
            final(self).depth_limit() == old(self).depth_limit(),
            final(self).start_reported() == old(self).start_reported(),
            final(self).filtered() == old(self).filtered(),
            final(self).completion_reported() == old(self).completion_reported(),
            visit_step(*old(self), *final(self)),
            if has_marker(entries@) {
                views(r.candidates@) == seq![dir@] && r.subdirs@.len() == 0
            } else {
                views(r.candidates@) == model_files(entries@) && views(r.subdirs@) == visible_dirs(
                    entries@,
                )
            },
    {
        proof {
            reveal_strlit(".ckpt");
            reveal_strlit(".bin");
            reveal_strlit(".pth");
            reveal_strlit(".safetensors");
            reveal_strlit(".pt");
            reveal_strlit(".gguf");
            reveal_strlit(".onnx");
        }
        self.stats.items_scanned = self.stats.items_scanned + entries.len();
        let mut files: Vec<String> = Vec::new();
        let mut dirs: Vec<String> = Vec::new();
        let mut marker = false;
        let mut i: usize = 0;
        while i < entries.len()
            invariant
                i <= entries.len(),
                views(files@) == model_files(entries@.subrange(0, i as int)),
                views(dirs@) == visible_dirs(entries@.subrange(0, i as int)),
                marker == exists|k: int|
                    0 <= k < i && !is_hidden(entries@[k]) && entries@[k].kind == EntryKind::File
                        && #[trigger] is_marker(entries@[k].name@),
            decreases entries.len() - i,
        {
            let e = &entries[i];
            let ghost pre = entries@.subrange(0, i as int);
            assert(entries@.subrange(0, i + 1).drop_last() =~= pre);
            let hidden = text_starts_with_char(e.name.as_str(), '.');
            if !hidden {
                match e.kind {
                    EntryKind::Dir => {
                        let ghost b = dirs@;
                        dirs.push(e.path.clone());
                        assert(views(dirs@) =~= views(b).push(e.path@));
                    },
                    EntryKind::File => {
                        let n = e.name.as_str();
                        if is_marker_name(n) {
                            marker = true;
                        }
                        if text_ends_with(n, ".ckpt") || text_ends_with(n, ".bin") || text_ends_with(
                            n,
                            ".pth",
                        ) || text_ends_with(n, ".safetensors") || text_ends_with(n, ".pt")
                            || text_ends_with(n, ".gguf") || text_ends_with(n, ".onnx") {
                            let ghost b = files@;
                            files.push(e.path.clone());
                            assert(views(files@) =~= views(b).push(e.path@));
                        }
                    },
                    EntryKind::Other => {},
                }
            }
            proof {
                if marker {
                    if !(exists|k: int|
                        0 <= k < i && !is_hidden(entries@[k]) && entries@[k].kind == EntryKind::File
                            && #[trigger] is_marker(entries@[k].name@)) {
                        assert(is_marker(entries@[i as int].name@));
                    }
                }
            }
            i = i + 1;
        }
        assert(entries@.subrange(0, entries@.len() as int) =~= entries@);
        if marker {
            let mut candidates: Vec<String> = Vec::new();
            candidates.push(dir.clone());
            assert(views(candidates@) =~= seq![dir@]);
            DirectoryPlan { candidates, subdirs: Vec::new() }
        } else {
            DirectoryPlan { candidates: files, subdirs: dirs }
        }
    }

    /// Records a model found: it counts as found, and it passes where no
    /// filter is set or the filter's `verdict` admits it; a model that
    /// passes counts as such and is kept (once).
    pub fn record_candidate(&mut self, candidate: String, verdict: bool) -> (passed: bool)
        requires
            old(self).wf(),
            old(self).stats_view().models_found < usize::MAX,
        ensures
            final(self).wf(),
            record_step(*old(self), *final(self), candidate@, verdict),
            passed == (!old(self).filtered() || verdict),
            final(self).stats_view().items_scanned == old(self).stats_view().items_scanned,
            final(self).stats_view().models_found == old(self).stats_view().models_found + 1,
            final(self).stats_view().models_filtered == old(self).stats_view().models_filtered + if passed {
                1int
            } else {
                0int
            },
            final(self).found() == if passed && !old(self).found().contains(candidate@) {
                old(self).found().push(candidate@)
            } else {
                old(self).found()
            },
            final(self).depth_limit() == old(self).depth_limit(),
            final(self).start_reported() == old(self).start_reported(),
            final(self).filtered() == old(self).filtered(),
            final(self).completion_reported() == old(self).completion_reported(),
    {
        self.stats.models_found = self.stats.models_found + 1;
        let passed = !self.filters_models || verdict;
        if passed {
            self.stats.models_filtered = self.stats.models_filtered + 1;
            let mut present = false;
            let mut i: usize = 0;
            while i < self.models_found.len()
                invariant
                    i <= self.models_found.len(),
                    present == exists|k: int| 0 <= k < i && #[trigger] self.models_found@[k]@ == candidate@,
                decreases self.models_found.len() - i,
            {
                if str_equal(self.models_found[i].as_str(), candidate.as_str()) {
                    present = true;
                }
                i = i + 1;
            }
            proof {
                if self.found().contains(candidate@) {
                    let k = choose|k: int| 0 <= k < self.found().len() && self.found()[k] == candidate@;
                    assert(self.models_found@[k]@ == candidate@);
                }
                if present {
                    let k = choose|k: int| 0 <= k < i && #[trigger] self.models_found@[k]@ == candidate@;
                    assert(self.found()[k] == candidate@);
                }
            }
            if !present {
                let ghost b = self.found();
                self.models_found.push(candidate);
                assert(self.found() =~= b.push(candidate@));
            }
        }
        passed
    }

    /// The models found by the search, in the order found.
    pub fn found_models(&self) -> (r: Vec<String>)
        ensures
            views(r@) == self.found(),
    {
        crate::text::clone_strings(&self.models_found)
    }

    /// Whether the caller reports the models found when the search completes.
    pub fn reports_completion(&self) -> (r: bool)
        ensures
            r == self.completion_reported(),
    {
        self.reports_completion
    }

    /// Whether the caller offers each model found to its filter.
    pub fn filters_models(&self) -> (r: bool)
        ensures
            r == self.filtered(),
    {
        self.filters_models
    }
}

impl Default for ModelSearch {
    fn default() -> (r: Self)
        ensures
            r.wf(),
            r.depth_limit() == 20,
            !r.start_reported(),
            !r.filtered(),
            !r.completion_reported(),
            r.found().len() == 0,
    {
        ModelSearch::new()
    }
}

/// Whether `name` is one of the marker file names.
fn is_marker_name(name: &str) -> (r: bool)
    ensures
        r == is_marker(name@),
{
    str_equal(name, "config.json") || str_equal(name, "model_index.json") || str_equal(
        name,
        "learned_embeds.bin",
    ) || str_equal(name, "pytorch_lora_weights.bin") || str_equal(name, "image_encoder.txt")
}

/// A candidate passes where models are not filtered or the filter accepts
/// it.
pub open spec fn passes(filtered: bool, verdict: bool) -> bool {
    !filtered || verdict
}

/// Visiting a directory keeps the models kept, the counts of models found
/// and passed, and whether models are filtered.
pub open spec fn visit_step(before: ModelSearch, after: ModelSearch) -> bool {
    &&& after.found() == before.found()
    &&& after.stats_view().models_found == before.stats_view().models_found
    &&& after.stats_view().models_filtered == before.stats_view().models_filtered
    &&& after.filtered() == before.filtered()
}

/// Recording candidate `c` with the filter's verdict `v`: it is counted as
/// found, counted as passed and kept (once) where it passes.
pub open spec fn record_step(before: ModelSearch, after: ModelSearch, c: Seq<char>, v: bool) -> bool {
    &&& after.found() == if passes(before.filtered(), v) && !before.found().contains(c) {
        before.found().push(c)
    } else {
        before.found()
    }
    &&& after.stats_view().models_found == before.stats_view().models_found + 1
    &&& after.stats_view().models_filtered == before.stats_view().models_filtered + if passes(
        before.filtered(),
        v,
    ) {
        1int
    } else {
        0int
    }
    &&& after.filtered() == before.filtered()
}

/// One step of a search: a directory visit (`None`) or a candidate with the
/// filter's verdict.
pub open spec fn search_step(before: ModelSearch, after: ModelSearch, e: Option<(Seq<char>, bool)>) -> bool {
    match e {
        None => visit_step(before, after),
        Some((c, v)) => record_step(before, after, c, v),
    }
}

/// The models kept after the steps `es`, starting from `found`: each
/// candidate that passes, once, in the order met.
pub open spec fn kept_after(found: Seq<Seq<char>>, es: Seq<Option<(Seq<char>, bool)>>, filtered: bool) -> Seq<
    Seq<char>,
>
    decreases es.len(),
{
    if es.len() == 0 {
        found
    } else {
        let f = kept_after(found, es.drop_last(), filtered);
        match es.last() {
            Some((c, v)) => if passes(filtered, v) && !f.contains(c) {
                f.push(c)
            } else {
                f
            },
            None => f,
        }
    }
}

/// The number of candidates among the steps.
pub open spec fn candidate_count(es: Seq<Option<(Seq<char>, bool)>>) -> nat
    decreases es.len(),
{
    if es.len() == 0 {
        0
    } else {
        candidate_count(es.drop_last()) + if es.last() is Some {
            1nat
        } else {
            0nat
        }
    }
}

/// The number of candidates among the steps that pass.
pub open spec fn passed_count(es: Seq<Option<(Seq<char>, bool)>>, filtered: bool) -> nat
    decreases es.len(),
{
    if es.len() == 0 {
        0
    } else {
        passed_count(es.drop_last(), filtered) + match es.last() {
            Some((_, v)) => if passes(filtered, v) {
                1nat
            } else {
                0nat
            },
            None => 0nat,
        }
    }
}

/// A whole search, as the steps of its walk: each candidate is offered to
/// the filter once, the models kept are the candidates that pass, each once
/// and in the order met, and the counts grow by the candidates met and the
/// candidates passed. (After `search` the start holds nothing and counts
/// nothing, so the counts are those of this search alone.)
pub proof fn lemma_search_outcome(states: Seq<ModelSearch>, es: Seq<Option<(Seq<char>, bool)>>)
    requires
        states.len() == es.len() + 1,
        forall|i: int| 0 <= i < es.len() ==> search_step(#[trigger] states[i], states[i + 1], es[i]),
    ensures
        states.last().filtered() == states[0].filtered(),
        states.last().found() == kept_after(states[0].found(), es, states[0].filtered()),
        states.last().stats_view().models_found == states[0].stats_view().models_found + candidate_count(es),
        states.last().stats_view().models_filtered == states[0].stats_view().models_filtered + passed_count(
            es,
            states[0].filtered(),
        ),
    decreases es.len(),
{
    if es.len() > 0 {
        let n = es.len() - 1;
        let front = states.take(states.len() - 1);
        assert forall|i: int| 0 <= i < es.drop_last().len() implies search_step(
            #[trigger] front[i],
            front[i + 1],
            es.drop_last()[i],
        ) by {
            assert(front[i] == states[i]);
            assert(front[i + 1] == states[i + 1]);
            assert(es.drop_last()[i] == es[i]);
        }
        lemma_search_outcome(front, es.drop_last());
        assert(front.last() == states[n]);
        assert(search_step(states[n], states[n + 1], es[n]));
        assert(states.last() == states[n + 1]);
        assert(es.last() == es[n]);
    }
}

/// Without a marker file in the listing, the models offered are exactly
/// the paths of its visible files (names not starting with a dot) whose
/// names end in .ckpt, .bin, .pth, .safetensors, .pt, .gguf or .onnx: each
/// such file is offered, and nothing else is.
pub proof fn lemma_weight_files_offered(es: Seq<DirEntry>)
    ensures
        forall|i: int|
            0 <= i < es.len() && !(es[i].name@.len() > 0 && es[i].name@[0] == '.') && es[i].kind
                == EntryKind::File && (ends_with(es[i].name@, ".ckpt"@) || ends_with(es[i].name@, ".bin"@)
                || ends_with(es[i].name@, ".pth"@) || ends_with(es[i].name@, ".safetensors"@) || ends_with(
                es[i].name@,
                ".pt"@,
            ) || ends_with(es[i].name@, ".gguf"@) || ends_with(es[i].name@, ".onnx"@))
                ==> #[trigger] model_files(es).contains(es[i].path@),
        forall|p: Seq<char>|
            #[trigger] model_files(es).contains(p) ==> exists|i: int|
                0 <= i < es.len() && es[i].path@ == p && !(es[i].name@.len() > 0 && es[i].name@[0] == '.')
                    && es[i].kind == EntryKind::File && (ends_with(es[i].name@, ".ckpt"@) || ends_with(
                    es[i].name@,
                    ".bin"@,
                ) || ends_with(es[i].name@, ".pth"@) || ends_with(es[i].name@, ".safetensors"@)
                    || ends_with(es[i].name@, ".pt"@) || ends_with(es[i].name@, ".gguf"@) || ends_with(
                    es[i].name@,
                    ".onnx"@,
                )),
    decreases es.len(),
{
    if es.len() > 0 {
        let front = es.drop_last();
        lemma_weight_files_offered(front);
        let rest = model_files(front);
        let last = es.len() - 1;
        assert forall|i: int|
            0 <= i < es.len() && !(es[i].name@.len() > 0 && es[i].name@[0] == '.') && es[i].kind
                == EntryKind::File && (ends_with(es[i].name@, ".ckpt"@) || ends_with(es[i].name@, ".bin"@)
                || ends_with(es[i].name@, ".pth"@) || ends_with(es[i].name@, ".safetensors"@) || ends_with(
                es[i].name@,
                ".pt"@,
            ) || ends_with(es[i].name@, ".gguf"@) || ends_with(es[i].name@, ".onnx"@)) implies #[trigger] model_files(
            es,
        ).contains(es[i].path@) by {
            if i < last {
                assert(front[i] == es[i]);
                assert(rest.contains(es[i].path@));
                let j = choose|j: int| 0 <= j < rest.len() && rest[j] == es[i].path@;
                if model_files(es) != rest {
                    assert(model_files(es) == rest.push(es[last].path@));
                    assert(model_files(es)[j] == rest[j]);
                }
            } else {
                assert(model_files(es) == rest.push(es[last].path@));
                assert(model_files(es)[rest.len() as int] == es[i].path@);
            }
        }
        assert forall|p: Seq<char>| #[trigger] model_files(es).contains(p) implies exists|i: int|
            0 <= i < es.len() && es[i].path@ == p && !(es[i].name@.len() > 0 && es[i].name@[0] == '.')
                && es[i].kind == EntryKind::File && (ends_with(es[i].name@, ".ckpt"@) || ends_with(
                es[i].name@,
                ".bin"@,
            ) || ends_with(es[i].name@, ".pth"@) || ends_with(es[i].name@, ".safetensors"@) || ends_with(
                es[i].name@,
                ".pt"@,
            ) || ends_with(es[i].name@, ".gguf"@) || ends_with(es[i].name@, ".onnx"@)) by {
            let k = choose|k: int| 0 <= k < model_files(es).len() && model_files(es)[k] == p;
            if k < rest.len() {
                assert(model_files(es)[k] == rest[k]);
                assert(rest.contains(p));
                let i = choose|i: int|
                    0 <= i < front.len() && front[i].path@ == p && !(front[i].name@.len() > 0
                        && front[i].name@[0] == '.') && front[i].kind == EntryKind::File && (ends_with(
                        front[i].name@,
                        ".ckpt"@,
                    ) || ends_with(front[i].name@, ".bin"@) || ends_with(front[i].name@, ".pth"@) || ends_with(
                        front[i].name@,
                        ".safetensors"@,
                    ) || ends_with(front[i].name@, ".pt"@) || ends_with(front[i].name@, ".gguf"@) || ends_with(
                        front[i].name@,
                        ".onnx"@,
                    ));
                assert(es[i] == front[i]);
            } else {
                assert(p == es[last].path@);
            }
        }
    }
}

/// A directory is one model exactly where its listing holds a visible file
/// named config.json, model_index.json, learned_embeds.bin,
/// pytorch_lora_weights.bin or image_encoder.txt.
pub proof fn lemma_marker_files(es: Seq<DirEntry>)
    ensures
        has_marker(es) <==> exists|i: int|
            0 <= i < es.len() && !(es[i].name@.len() > 0 && es[i].name@[0] == '.') && es[i].kind
                == EntryKind::File && (#[trigger] es[i].name@ == "config.json"@ || es[i].name@
                == "model_index.json"@ || es[i].name@ == "learned_embeds.bin"@ || es[i].name@
                == "pytorch_lora_weights.bin"@ || es[i].name@ == "image_encoder.txt"@),
{
    if has_marker(es) {
        let i = choose|i: int|
            0 <= i < es.len() && !is_hidden(es[i]) && es[i].kind == EntryKind::File && #[trigger] is_marker(
                es[i].name@,
            );
        assert(es[i].name@ == es[i].name@);
    }
    if exists|i: int|
        0 <= i < es.len() && !(es[i].name@.len() > 0 && es[i].name@[0] == '.') && es[i].kind
            == EntryKind::File && (#[trigger] es[i].name@ == "config.json"@ || es[i].name@
            == "model_index.json"@ || es[i].name@ == "learned_embeds.bin"@ || es[i].name@
            == "pytorch_lora_weights.bin"@ || es[i].name@ == "image_encoder.txt"@) {
        let i = choose|i: int|
            0 <= i < es.len() && !(es[i].name@.len() > 0 && es[i].name@[0] == '.') && es[i].kind
                == EntryKind::File && (#[trigger] es[i].name@ == "config.json"@ || es[i].name@
                == "model_index.json"@ || es[i].name@ == "learned_embeds.bin"@ || es[i].name@
                == "pytorch_lora_weights.bin"@ || es[i].name@ == "image_encoder.txt"@);
        assert(is_marker(es[i].name@));
    }
}

} // verus!
