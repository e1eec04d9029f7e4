//! The folder tree: every folder under its parent, in list order, with the
//! images directly in it, the images in it and all its descendants, and the
//! names of the folders above it.
use vstd::prelude::*;
use vstd::set_lib::{lemma_int_range, lemma_len_subset};
use crate::db::{Folder, FolderNode};
use crate::text::{clone_opt, clone_strings, opt_view, str_equal, views};

verus! {

/// No two folders share an id.
pub open spec fn ids_distinct(fs: Seq<Folder>) -> bool {
    forall|i: int, j: int| 0 <= i < fs.len() && 0 <= j < fs.len() && i != j
        ==> #[trigger] fs[i].id@ != #[trigger] fs[j].id@
}

/// Positions, in list order, of the folders whose parent is `parent`
/// (`None`: the folders at the top level).
pub open spec fn children_of(fs: Seq<Folder>, parent: Option<Seq<char>>) -> Seq<int>
    decreases fs.len(),
{
    if fs.len() == 0 {
        seq![]
    } else {
        let rest = children_of(fs.drop_last(), parent);
        if opt_view(fs.last().parent_id) == parent {
            rest.push(fs.len() - 1)
        } else {
            rest
        }
    }
}

/// The image count recorded for `id`; a later entry replaces an earlier one,
/// and a folder with no entry has none.
pub open spec fn count_of(counts: Seq<(String, i32)>, id: Seq<char>) -> i32
    decreases counts.len(),
{
    if counts.len() == 0 {
        0
    } else if counts.last().0@ == id {
        counts.last().1
    } else {
        count_of(counts.drop_last(), id)
    }
}


/// The images in folder `idx` and all folders below it, as a number; `depth`
/// is how far below the top level the folder stands.
pub open spec fn tree_total(fs: Seq<Folder>, counts: Seq<(String, i32)>, idx: int, depth: int) -> int
    decreases fs.len() - depth, 1int, 0int,
{
    if depth < 0 || depth >= fs.len() || idx < 0 || idx >= fs.len() {
        0
    } else {
        count_of(counts, fs[idx].id@) + kids_total(
            fs,
            counts,
            children_of(fs, Some(fs[idx].id@)),
            depth + 1,
        )
    }
}

/// The sum of `tree_total` over the folders at positions `kids`, all at `depth`.
pub open spec fn kids_total(fs: Seq<Folder>, counts: Seq<(String, i32)>, kids: Seq<int>, depth: int) -> int
    decreases fs.len() - depth + 1, 0int, kids.len(),
{
    if kids.len() == 0 || depth < 0 || depth > fs.len() {
        0
    } else {
        kids_total(fs, counts, kids.drop_last(), depth) + tree_total(fs, counts, kids.last(), depth)
    }
}

/// `x` is an `i32` value.
pub open spec fn fits_i32(x: int) -> bool {
    i32::MIN <= x <= i32::MAX
}

/// Adding up the subtree of folder `idx` as building the tree does (the
/// totals of its children in list order, then its own count), and so for
/// every folder below it, stays within `i32`.
pub open spec fn node_fits(fs: Seq<Folder>, counts: Seq<(String, i32)>, idx: int, depth: int) -> bool
    decreases fs.len() - depth, 1int, 0int,
{
    if depth < 0 || depth >= fs.len() || idx < 0 || idx >= fs.len() {
        true
    } else {
        &&& kids_fit(fs, counts, children_of(fs, Some(fs[idx].id@)), depth + 1)
        &&& fits_i32(tree_total(fs, counts, idx, depth))
    }
}

/// Every running sum of the totals of the folders at positions `kids`, and
/// every subtree below them, stays within `i32`.
pub open spec fn kids_fit(fs: Seq<Folder>, counts: Seq<(String, i32)>, kids: Seq<int>, depth: int) -> bool
    decreases fs.len() - depth + 1, 0int, kids.len(),
{
    if kids.len() == 0 || depth < 0 || depth > fs.len() {
        true
    } else {
        &&& kids_fit(fs, counts, kids.drop_last(), depth)
        &&& node_fits(fs, counts, kids.last(), depth)
        &&& fits_i32(kids_total(fs, counts, kids, depth))
    }
}

/// The sums over a prefix of `kids` fit where those over all of them do.
proof fn lemma_kids_fit_prefix(fs: Seq<Folder>, counts: Seq<(String, i32)>, kids: Seq<int>, depth: int, j: int)
    requires
        kids_fit(fs, counts, kids, depth),
        0 <= j <= kids.len(),
    ensures
        kids_fit(fs, counts, kids.take(j), depth),
    decreases kids.len(),
{
    if j < kids.len() {
        lemma_kids_fit_prefix(fs, counts, kids.drop_last(), depth, j);
        assert(kids.drop_last().take(j) =~= kids.take(j));
    } else {
        assert(kids.take(j) =~= kids);
    }
}

/// The sum over the first `j + 1` of `kids` adds the total of entry `j` to
/// the sum over the first `j`, and where it fits, so does that total.
proof fn lemma_kids_step(fs: Seq<Folder>, counts: Seq<(String, i32)>, kids: Seq<int>, depth: int, j: int)
    requires
        0 <= j < kids.len(),
        0 <= depth <= fs.len(),
    ensures
        kids_total(fs, counts, kids.take(j + 1), depth) == kids_total(fs, counts, kids.take(j), depth)
            + tree_total(fs, counts, kids[j], depth),
        kids_fit(fs, counts, kids.take(j + 1), depth) <==> (kids_fit(fs, counts, kids.take(j), depth)
            && node_fits(fs, counts, kids[j], depth) && fits_i32(
            kids_total(fs, counts, kids.take(j + 1), depth),
        )),
{
    let next = kids.take(j + 1);
    assert(next.drop_last() =~= kids.take(j));
    assert(next.last() == kids[j]);
}

/// The sum of the total image counts of `nodes`.
pub open spec fn totals_sum(nodes: Seq<FolderNode>) -> int
    decreases nodes.len(),
{
    if nodes.len() == 0 {
        0
    } else {
        totals_sum(nodes.drop_last()) + nodes.last().total_image_count
    }
}

/// `node` carries the fields of folder `f`.
pub open spec fn node_copies(node: FolderNode, f: Folder) -> bool {
    &&& node.id@ == f.id@
    &&& node.name@ == f.name@
    &&& opt_view(node.parent_id) == opt_view(f.parent_id)
    &&& opt_view(node.color) == opt_view(f.color)
    &&& opt_view(node.icon) == opt_view(f.icon)
    &&& node.sort_order == f.sort_order
    &&& node.created_at == f.created_at
    &&& node.updated_at == f.updated_at
}

/// `node` is the tree of folder `idx` reached through the folders named in
/// `path`: its fields, its direct image count, its children (the folders whose
/// parent it is, in list order, each the tree of that folder), and its total
/// (its own count plus the totals of its children).
pub open spec fn node_matches(
    node: FolderNode,
    fs: Seq<Folder>,
    counts: Seq<(String, i32)>,
    idx: int,
    path: Seq<Seq<char>>,
) -> bool
    decreases fs.len() - path.len(), 1int, 0int,
{
    if path.len() >= fs.len() || idx < 0 || idx >= fs.len() {
        false
    } else {
        let f = fs[idx];
        &&& node_copies(node, f)
        &&& node.image_count == count_of(counts, f.id@)
        &&& views(node.path@) == path
        &&& nodes_match(node.children@, fs, counts, children_of(fs, Some(f.id@)), path.push(f.name@))
        &&& node.total_image_count == node.image_count + totals_sum(node.children@)
    }
}

/// `nodes` are, one for one, the trees of the folders at positions `kids`,
/// each reached through the folders named in `path`.
pub open spec fn nodes_match(
    nodes: Seq<FolderNode>,
    fs: Seq<Folder>,
    counts: Seq<(String, i32)>,
    kids: Seq<int>,
    path: Seq<Seq<char>>,
) -> bool
    decreases fs.len() - path.len() + 1, 0int, nodes.len(),
{
    if path.len() > fs.len() {
        false
    } else if nodes.len() == 0 {
        kids.len() == 0
    } else {
        &&& kids.len() == nodes.len()
        &&& nodes_match(nodes.drop_last(), fs, counts, kids.drop_last(), path)
        &&& node_matches(nodes.last(), fs, counts, kids.last(), path)
    }
}

/// Matching lists match entry by entry.
pub proof fn lemma_nodes_match_each(
    nodes: Seq<FolderNode>,
    fs: Seq<Folder>,
    counts: Seq<(String, i32)>,
    kids: Seq<int>,
    path: Seq<Seq<char>>,
)
    requires
        nodes_match(nodes, fs, counts, kids, path),
    ensures
        nodes.len() == kids.len(),
        forall|i: int| 0 <= i < nodes.len() ==> #[trigger] node_matches(nodes[i], fs, counts, kids[i], path),
    decreases nodes.len(),
{
    if nodes.len() > 0 {
        lemma_nodes_match_each(nodes.drop_last(), fs, counts, kids.drop_last(), path);
        assert forall|i: int| 0 <= i < nodes.len() implies #[trigger] node_matches(
            nodes[i],
            fs,
            counts,
            kids[i],
            path,
        ) by {
            if i < nodes.len() - 1 {
                assert(nodes.drop_last()[i] == nodes[i]);
                assert(kids.drop_last()[i] == kids[i]);
            }
        }
    }
}

/// The positions in `kids` as integers.
pub open spec fn kid_ints(kids: Seq<usize>) -> Seq<int> {
    kids.map_values(|k: usize| k as int)
}

/// `full` lists folders from a top-level folder down, each the parent of the
/// next.
pub open spec fn descends(fs: Seq<Folder>, full: Seq<int>) -> bool {
    &&& full.len() > 0
    &&& forall|i: int| 0 <= i < full.len() ==> 0 <= #[trigger] full[i] < fs.len()
    &&& fs[full[0]].parent_id is None
    &&& forall|i: int|
        0 < i < full.len() ==> opt_view(fs[#[trigger] full[i]].parent_id) == Some(fs[full[i - 1]].id@)
}

/// No descent from a top-level folder passes through more folders than
/// there are: building the tree down from the top-level folders ends. (A
/// longer descent visits some folder twice, and from there goes round
/// forever.)
pub open spec fn descents_bounded(fs: Seq<Folder>) -> bool {
    forall|full: Seq<int>| #[trigger] descends(fs, full) ==> full.len() <= fs.len()
}

/// No descent that begins with `full` passes through more folders than
/// there are.
pub open spec fn extensions_bounded(fs: Seq<Folder>, full: Seq<int>) -> bool {
    forall|ext: Seq<int>| #[trigger] descends(fs, full + ext) ==> full.len() + ext.len() <= fs.len()
}

proof fn lemma_children_of_members(fs: Seq<Folder>, parent: Option<Seq<char>>)
    ensures
        forall|i: int|
            0 <= i < children_of(fs, parent).len() ==> {
                let k = #[trigger] children_of(fs, parent)[i];
                &&& 0 <= k < fs.len()
                &&& opt_view(fs[k].parent_id) == parent
            },
    decreases fs.len(),
{
    if fs.len() > 0 {
        lemma_children_of_members(fs.drop_last(), parent);
    }
}

/// A list of distinct positions below `n` has at most `n` entries.
proof fn lemma_distinct_positions_bounded(s: Seq<int>, n: int)
    requires
        0 <= n,
        s.no_duplicates(),
        forall|i: int| 0 <= i < s.len() ==> 0 <= #[trigger] s[i] < n,
    ensures
        s.len() <= n,
{
    s.unique_seq_to_set();
    lemma_int_range(0, n);
    assert(s.to_set().subset_of(vstd::set_lib::set_int_range(0, n)));
    lemma_len_subset(s.to_set(), vstd::set_lib::set_int_range(0, n));
}

/// Going down from the last folder of a descent to one of its children
/// gives a longer descent.
proof fn lemma_descends_push(fs: Seq<Folder>, full: Seq<int>, c: int)
    requires
        descends(fs, full),
        0 <= c < fs.len(),
        opt_view(fs[c].parent_id) == Some(fs[full.last()].id@),
    ensures
        descends(fs, full.push(c)),
{
    let ext = full.push(c);
    assert forall|i: int| 0 < i < ext.len() implies opt_view(fs[#[trigger] ext[i]].parent_id) == Some(
        fs[ext[i - 1]].id@,
    ) by {
        if i < full.len() {
            assert(ext[i] == full[i]);
            assert(ext[i - 1] == full[i - 1]);
        }
    }
}

/// The first `k` folders of a descent are a descent.
proof fn lemma_descends_prefix(fs: Seq<Folder>, full: Seq<int>, k: int)
    requires
        descends(fs, full),
        1 <= k <= full.len(),
    ensures
        descends(fs, full.take(k)),
{
    let pre = full.take(k);
    assert forall|i: int| 0 < i < pre.len() implies opt_view(fs[#[trigger] pre[i]].parent_id) == Some(
        fs[pre[i - 1]].id@,
    ) by {
        assert(pre[i] == full[i]);
        assert(pre[i - 1] == full[i - 1]);
    }
}

/// Every folder whose parent is `parent` is among `children_of`.
proof fn lemma_children_of_complete(fs: Seq<Folder>, parent: Option<Seq<char>>, k: int)
    requires
        0 <= k < fs.len(),
        opt_view(fs[k].parent_id) == parent,
    ensures
        exists|i: int| 0 <= i < children_of(fs, parent).len() && children_of(fs, parent)[i] == k,
    decreases fs.len(),
{
    let kids = children_of(fs, parent);
    if k == fs.len() - 1 {
        assert(kids[kids.len() - 1] == k);
    } else {
        assert(fs.drop_last()[k] == fs[k]);
        lemma_children_of_complete(fs.drop_last(), parent, k);
        let rest = children_of(fs.drop_last(), parent);
        let i = choose|i: int| 0 <= i < rest.len() && rest[i] == k;
        assert(kids[i] == rest[i]);
    }
}

/// Where the descents through `full` are bounded, so are those through
/// `full` followed by `c`.
proof fn lemma_bounded_below(fs: Seq<Folder>, full: Seq<int>, c: int)
    requires
        extensions_bounded(fs, full),
    ensures
        extensions_bounded(fs, full.push(c)),
{
    assert forall|ext: Seq<int>| #[trigger] descends(fs, full.push(c) + ext) implies full.push(c).len()
        + ext.len() <= fs.len() by {
        let longer = seq![c] + ext;
        assert(full + longer =~= full.push(c) + ext);
        assert(descends(fs, full + longer));
    }
}

/// The first folder after `full` in a descent through `full` is a child of
/// the last folder of `full`, and `full` followed by it is a descent.
proof fn lemma_first_step(fs: Seq<Folder>, full: Seq<int>, ext: Seq<int>)
    requires
        descends(fs, full + ext),
        full.len() > 0,
        ext.len() > 0,
    ensures
        descends(fs, full.push(ext[0])),
        0 <= ext[0] < fs.len(),
        opt_view(fs[ext[0]].parent_id) == Some(fs[full.last()].id@),
        full.push(ext[0]) + ext.drop_first() == full + ext,
{
    let whole = full + ext;
    lemma_descends_prefix(fs, whole, full.len() as int + 1);
    assert(whole.take(full.len() as int + 1) =~= full.push(ext[0]));
    assert(whole[full.len() as int] == ext[0]);
    assert(whole[full.len() - 1] == full.last());
    assert(full.push(ext[0]) + ext.drop_first() =~= whole);
}

/// The descents through `full` are bounded where `full` itself is and those
/// through each child of its last folder are.
#[verifier::spinoff_prover]
proof fn lemma_bounded_through_children(fs: Seq<Folder>, full: Seq<int>, kids: Seq<int>)
    requires
        descends(fs, full),
        full.len() <= fs.len(),
        kids == children_of(fs, Some(fs[full.last()].id@)),
        forall|i: int| 0 <= i < kids.len() ==> extensions_bounded(fs, #[trigger] full.push(kids[i])),
    ensures
        extensions_bounded(fs, full),
{
    assert forall|ext: Seq<int>| #[trigger] descends(fs, full + ext) implies full.len() + ext.len()
        <= fs.len() by {
        if ext.len() > 0 {
            let c = ext[0];
            lemma_first_step(fs, full, ext);
            lemma_children_of_complete(fs, Some(fs[full.last()].id@), c);
            let i = choose|i: int| 0 <= i < kids.len() && kids[i] == c;
            assert(extensions_bounded(fs, full.push(kids[i])));
            assert(descends(fs, full.push(c) + ext.drop_first()));
        } else {
            assert(full + ext =~= full);
        }
    }
}

/// In a descent where no two folders share an id, no folder comes twice.
proof fn lemma_descent_distinct(fs: Seq<Folder>, full: Seq<int>)
    requires
        ids_distinct(fs),
        descends(fs, full),
    ensures
        full.no_duplicates(),
    decreases full.len(),
{
    if full.len() > 1 {
        let pre = full.drop_last();
        assert(pre =~= full.take(full.len() - 1));
        lemma_descends_prefix(fs, full, full.len() - 1);
        lemma_descent_distinct(fs, pre);
        let c = full.last();
        assert forall|j: int| 0 <= j < pre.len() implies pre[j] != c by {
            if pre[j] == c {
                if j == 0 {
                    assert(opt_view(fs[full[full.len() - 1]].parent_id) == Some(
                        fs[full[full.len() - 2]].id@,
                    ));
                } else {
                    assert(opt_view(fs[full[j]].parent_id) == Some(fs[full[j - 1]].id@));
                    assert(opt_view(fs[full[full.len() - 1]].parent_id) == Some(
                        fs[full[full.len() - 2]].id@,
                    ));
                    assert(fs[full[j - 1]].id@ == fs[full[full.len() - 2]].id@);
                    assert(full[j - 1] == full[full.len() - 2]);
                    assert(pre[j - 1] == pre[pre.len() - 1]);
                }
            }
        }
        assert forall|a: int, b: int| 0 <= a < full.len() && 0 <= b < full.len() && a != b implies full[a]
            != full[b] by {
            if a < pre.len() && b < pre.len() {
                assert(pre[a] != pre[b]);
            } else if a < pre.len() {
                assert(pre[a] != c);
            } else {
                assert(pre[b] != c);
            }
        }
    }
}

/// Where no two folders share an id (as the database's key ensures), every
/// descent is bounded and the tree can be built down to its leaves.
pub proof fn lemma_distinct_ids_bound_descents(fs: Seq<Folder>)
    requires
        ids_distinct(fs),
    ensures
        descents_bounded(fs),
{
    assert forall|full: Seq<int>| #[trigger] descends(fs, full) implies full.len() <= fs.len() by {
        lemma_descent_distinct(fs, full);
        lemma_distinct_positions_bounded(full, fs.len() as int);
    }
}

/// Compares two optional strings.
fn opt_equal(a: &Option<String>, b: &Option<String>) -> (r: bool)
    ensures
        r == (opt_view(*a) == opt_view(*b)),
{
    match (a, b) {
        (Some(x), Some(y)) => str_equal(x.as_str(), y.as_str()),
        (None, None) => true,
        _ => false,
    }
}

/// The positions of the folders whose parent is `parent`, in list order.
fn child_positions(fs: &Vec<Folder>, parent: &Option<String>) -> (kids: Vec<usize>)
    ensures
        kid_ints(kids@) == children_of(fs@, opt_view(*parent)),
{
    let mut kids: Vec<usize> = Vec::new();
    let mut i: usize = 0;
    while i < fs.len()
        invariant
            i <= fs.len(),
            kid_ints(kids@) == children_of(fs@.subrange(0, i as int), opt_view(*parent)),
        decreases fs.len() - i,
    {
        let hit = opt_equal(&fs[i].parent_id, parent);
        proof {
            assert(fs@.subrange(0, i + 1).drop_last() =~= fs@.subrange(0, i as int));
        }
        if hit {
            proof {
                assert(kid_ints(kids@.push(i)) =~= kid_ints(kids@).push(i as int));
            }
            kids.push(i);
        }
        i = i + 1;
    }
    assert(fs@.subrange(0, fs.len() as int) =~= fs@);
    kids
}

/// The image count recorded for `id` (the last entry for it), or 0.
fn image_count_of(counts: &Vec<(String, i32)>, id: &String) -> (c: i32)
    ensures
        c == count_of(counts@, id@),
{
    let mut i: usize = counts.len();
    assert(counts@.subrange(0, counts.len() as int) =~= counts@);
    while i > 0
        invariant
            i <= counts.len(),
            count_of(counts@, id@) == count_of(counts@.subrange(0, i as int), id@),
        decreases i,
    {
        let prefix = Ghost(counts@.subrange(0, i as int));
        assert(prefix@.drop_last() =~= counts@.subrange(0, i - 1));
        if str_equal(counts[i - 1].0.as_str(), id.as_str()) {
            return counts[i - 1].1;
        }
        i = i - 1;
    }
    0
}

#[verifier::rlimit(40)]
/// Builds the tree of folder `idx`, whose ancestors from the top level down
/// are `chain` and whose path holds their names.
fn build_node(
    fs: &Vec<Folder>,
    counts: &Vec<(String, i32)>,
    idx: usize,
    path: Vec<String>,
    Ghost(chain): Ghost<Seq<int>>,
) -> (node: FolderNode)
    requires
        descents_bounded(fs@),
        descends(fs@, chain.push(idx as int)),
        path@.len() == chain.len(),
        node_fits(fs@, counts@, idx as int, chain.len() as int),
    ensures
        node_matches(node, fs@, counts@, idx as int, views(path@)),
        node.total_image_count == tree_total(fs@, counts@, idx as int, chain.len() as int),
    decreases fs.len() - chain.len(),
{
    let ghost full = chain.push(idx as int);
    let ghost depth = chain.len() as int;
    proof {
        assert(full.last() == idx as int);
    }
    let f = &fs[idx];
    let direct = image_count_of(counts, &f.id);
    let kids = child_positions(fs, &Some(f.id.clone()));
    let ghost kids_seq = kid_ints(kids@);
    proof {
        lemma_children_of_members(fs@, Some(f.id@));
        assert(tree_total(fs@, counts@, idx as int, depth) == direct + kids_total(
            fs@,
            counts@,
            kids_seq,
            depth + 1,
        ));
    }
    let mut child_path = clone_strings(&path);
    child_path.push(f.name.clone());
    let ghost child_view = views(path@).push(f.name@);
    assert(views(child_path@) =~= child_view);
    let mut children: Vec<FolderNode> = Vec::new();
    let mut sum: i32 = 0;
    let mut j: usize = 0;
    while j < kids.len()
        invariant
            descents_bounded(fs@),
            descends(fs@, full),
            full.len() <= fs.len(),
            full.last() == idx as int,
            depth == chain.len(),
            full.len() == depth + 1,
            f == fs@[idx as int],
            kids_seq == kid_ints(kids@),
            kids_seq == children_of(fs@, Some(f.id@)),
            forall|i: int|
                0 <= i < kids_seq.len() ==> {
                    let k = #[trigger] kids_seq[i];
                    &&& 0 <= k < fs.len()
                    &&& opt_view(fs@[k].parent_id) == Some(f.id@)
                },
            direct == count_of(counts@, f.id@),
            kids_fit(fs@, counts@, kids_seq, depth + 1),
            fits_i32(direct + kids_total(fs@, counts@, kids_seq, depth + 1)),
            views(child_path@) == child_view,
            child_path@.len() == depth + 1,
            j <= kids.len(),
            children@.len() == j,
            nodes_match(children@, fs@, counts@, kids_seq.take(j as int), child_view),
            sum == kids_total(fs@, counts@, kids_seq.take(j as int), depth + 1),
            sum == totals_sum(children@),
        decreases kids.len() - j,
    {
        let c = kids[j];
        proof {
            assert(kids_seq[j as int] == c as int);
            lemma_descends_push(fs@, full, c as int);
            lemma_kids_fit_prefix(fs@, counts@, kids_seq, depth + 1, j + 1);
            lemma_kids_step(fs@, counts@, kids_seq, depth + 1, j as int);
        }
        let sub_path = clone_strings(&child_path);
        assert(sub_path@.len() == views(sub_path@).len());
        let node_c = build_node(fs, counts, c, sub_path, Ghost(full));
        sum = sum + node_c.total_image_count;
        let ghost before = children@;
        children.push(node_c);
        proof {
            assert(children@.drop_last() =~= before);
            let next = kids_seq.take(j + 1);
            assert(next.drop_last() =~= kids_seq.take(j as int));
            assert(child_view.len() <= fs.len());
            assert(nodes_match(children@, fs@, counts@, next, child_view));
        }
        j = j + 1;
    }
    proof {
        assert(kids_seq.take(kids.len() as int) =~= kids_seq);
    }
    let total = direct + sum;
    let node = FolderNode {
        id: f.id.clone(),
        name: f.name.clone(),
        parent_id: clone_opt(&f.parent_id),
        color: clone_opt(&f.color),
        icon: clone_opt(&f.icon),
        sort_order: f.sort_order,
        created_at: f.created_at,
        updated_at: f.updated_at,
        children,
        image_count: direct,
        total_image_count: total,
        path,
    };
    proof {
        assert(views(node.path@).len() == depth);
        assert(node.children@ == children@);
    }
    node
}

/// Builds the folder tree from the folders (ordered as they are to be shown)
/// and the image counts of the folders: the top-level folders in list
/// order, each with its descendants.
pub fn folder_tree(folders: &Vec<Folder>, counts: &Vec<(String, i32)>) -> (tree: Vec<FolderNode>)
    requires
        descents_bounded(folders@),
        forall|i: int|
            0 <= i < children_of(folders@, None).len() ==> node_fits(
                folders@,
                counts@,
                #[trigger] children_of(folders@, None)[i],
                0,
            ),
    ensures
        tree@.len() == children_of(folders@, None).len(),
        forall|i: int|
            0 <= i < tree@.len() ==> #[trigger] node_matches(
                tree@[i],
                folders@,
                counts@,
                children_of(folders@, None)[i],
                seq![],
            ),
{
    let roots = child_positions(folders, &None);
    let ghost roots_seq = kid_ints(roots@);
    proof {
        lemma_children_of_members(folders@, None);
    }
    let mut tree: Vec<FolderNode> = Vec::new();
    let mut j: usize = 0;
    while j < roots.len()
        invariant
            descents_bounded(folders@),
            roots_seq == kid_ints(roots@),
            roots_seq == children_of(folders@, None),
            forall|i: int|
                0 <= i < roots_seq.len() ==> {
                    let k = #[trigger] roots_seq[i];
                    &&& 0 <= k < folders.len()
                    &&& opt_view(folders@[k].parent_id) == None::<Seq<char>>
                },
            forall|i: int| 0 <= i < roots_seq.len() ==> node_fits(folders@, counts@, #[trigger] roots_seq[i], 0),
            j <= roots.len(),
            tree@.len() == j,
            forall|i: int|
                0 <= i < j ==> #[trigger] node_matches(tree@[i], folders@, counts@, roots_seq[i], seq![]),
        decreases roots.len() - j,
    {
        let r = roots[j];
        proof {
            assert(roots_seq[j as int] == r as int);
            let one = seq![].push(r as int);
            assert(one[0] == r as int);
            assert(descends(folders@, one));
        }
        let empty: Vec<String> = Vec::new();
        assert(views(empty@) =~= seq![]);
        let node = build_node(folders, counts, r, empty, Ghost(Seq::<int>::empty()));
        let ghost before = tree@;
        tree.push(node);
        proof {
            assert(forall|i: int| 0 <= i < j ==> tree@[i] == before[i]);
        }
        j = j + 1;
    }
    tree
}

/// The total of folder `idx` (reached through `chain`, `level` folders
/// deep), where every descent through it is bounded and adding up its
/// subtree stays within `i32`; `None` where either fails.
fn fitting_total(
    fs: &Vec<Folder>,
    counts: &Vec<(String, i32)>,
    idx: usize,
    level: usize,
    Ghost(chain): Ghost<Seq<int>>,
) -> (r: Option<i32>)
    requires
        descends(fs@, chain.push(idx as int)),
        chain.len() == level,
        level < fs.len(),
    ensures
        match r {
            Some(t) => {
                &&& extensions_bounded(fs@, chain.push(idx as int))
                &&& node_fits(fs@, counts@, idx as int, level as int)
                &&& t == tree_total(fs@, counts@, idx as int, level as int)
            },
            None => !(extensions_bounded(fs@, chain.push(idx as int)) && node_fits(
                fs@,
                counts@,
                idx as int,
                level as int,
            )),
        },
    decreases fs.len() - level,
{
    let ghost full = chain.push(idx as int);
    let ghost depth = level as int;
    proof {
        assert(full.last() == idx as int);
    }
    let f = &fs[idx];
    let direct = image_count_of(counts, &f.id);
    let kids = child_positions(fs, &Some(f.id.clone()));
    let ghost kids_seq = kid_ints(kids@);
    proof {
        lemma_children_of_members(fs@, Some(f.id@));
        assert(kids_seq.take(0) =~= Seq::<int>::empty());
    }
    let mut sum: i32 = 0;
    let mut j: usize = 0;
    while j < kids.len()
        invariant
            full == chain.push(idx as int),
            descends(fs@, full),
            full.last() == idx as int,
            depth == level,
            level < fs.len(),
            full.len() == depth + 1,
            f == fs@[idx as int],
            kids_seq == kid_ints(kids@),
            kids_seq == children_of(fs@, Some(f.id@)),
            forall|i: int|
                0 <= i < kids_seq.len() ==> {
                    let k = #[trigger] kids_seq[i];
                    &&& 0 <= k < fs.len()
                    &&& opt_view(fs@[k].parent_id) == Some(f.id@)
                },
            direct == count_of(counts@, f.id@),
            j <= kids.len(),
            forall|i: int| 0 <= i < j ==> extensions_bounded(fs@, #[trigger] full.push(kids_seq[i])),
            kids_fit(fs@, counts@, kids_seq.take(j as int), depth + 1),
            sum == kids_total(fs@, counts@, kids_seq.take(j as int), depth + 1),
        decreases kids.len() - j,
    {
        let c = kids[j];
        proof {
            assert(kids_seq[j as int] == c as int);
            lemma_descends_push(fs@, full, c as int);
            lemma_kids_step(fs@, counts@, kids_seq, depth + 1, j as int);
        }
        if level + 1 >= fs.len() {
            proof {
                let ext = seq![c as int];
                assert(full + ext =~= full.push(c as int));
                assert(descends(fs@, full + ext));
            }
            return None;
        }
        let t = match fitting_total(fs, counts, c, level + 1, Ghost(full)) {
            Some(t) => t,
            None => {
                proof {
                    if node_fits(fs@, counts@, idx as int, depth) && extensions_bounded(fs@, full) {
                        lemma_kids_fit_prefix(fs@, counts@, kids_seq, depth + 1, j + 1);
                        lemma_bounded_below(fs@, full, c as int);
                    }
                }
                return None;
            },
        };
        let next: i64 = sum as i64 + t as i64;
        if next < i32::MIN as i64 || next > i32::MAX as i64 {
            proof {
                if node_fits(fs@, counts@, idx as int, depth) {
                    lemma_kids_fit_prefix(fs@, counts@, kids_seq, depth + 1, j + 1);
                }
            }
            return None;
        }
        sum = next as i32;
        j = j + 1;
    }
    proof {
        assert(kids_seq.take(kids.len() as int) =~= kids_seq);
        assert(tree_total(fs@, counts@, idx as int, depth) == direct + kids_total(
            fs@,
            counts@,
            kids_seq,
            depth + 1,
        ));
        lemma_bounded_through_children(fs@, full, kids_seq);
    }
    let total: i64 = direct as i64 + sum as i64;
    if total < i32::MIN as i64 || total > i32::MAX as i64 {
        return None;
    }
    Some(total as i32)
}

/// Whether the folder tree can be built: every descent from a top-level
/// folder is bounded, and adding up the subtree of every top-level folder
/// stays within `i32`.
pub fn folder_tree_buildable(folders: &Vec<Folder>, counts: &Vec<(String, i32)>) -> (r: bool)
    ensures
        r == (descents_bounded(folders@) && forall|i: int|
            0 <= i < children_of(folders@, None).len() ==> node_fits(
                folders@,
                counts@,
                #[trigger] children_of(folders@, None)[i],
                0,
            )),
{
    let roots = child_positions(folders, &None);
    let ghost roots_seq = kid_ints(roots@);
    proof {
        lemma_children_of_members(folders@, None);
    }
    let mut j: usize = 0;
    while j < roots.len()
        invariant
            roots_seq == kid_ints(roots@),
            roots_seq == children_of(folders@, None),
            forall|i: int|
                0 <= i < roots_seq.len() ==> {
                    let k = #[trigger] roots_seq[i];
                    &&& 0 <= k < folders.len()
                    &&& opt_view(folders@[k].parent_id) == None::<Seq<char>>
                },
            j <= roots.len(),
            forall|i: int| 0 <= i < j ==> node_fits(folders@, counts@, #[trigger] roots_seq[i], 0),
            forall|i: int| 0 <= i < j ==> extensions_bounded(folders@, seq![#[trigger] roots_seq[i]]),
        decreases roots.len() - j,
    {
        let r = roots[j];
        let ghost one = seq![r as int];
        proof {
            assert(roots_seq[j as int] == r as int);
            assert(one[0] == r as int);
            assert(descends(folders@, one));
            assert(Seq::<int>::empty().push(r as int) =~= one);
        }
        if fitting_total(folders, counts, r, 0, Ghost(Seq::<int>::empty())).is_none() {
            proof {
                if extensions_bounded(folders@, one) {
                    assert(!node_fits(folders@, counts@, roots_seq[j as int], 0));
                } else {
                    let ext = choose|ext: Seq<int>| #[trigger] descends(folders@, one + ext) && !(one.len()
                        + ext.len() <= folders@.len());
                    assert(descends(folders@, one + ext));
                }
            }
            return false;
        }
        j = j + 1;
    }
    proof {
        assert forall|full: Seq<int>| #[trigger] descends(folders@, full) implies full.len() <= folders@.len() by {
            let r0 = full[0];
            lemma_children_of_complete(folders@, None, r0);
            let i = choose|i: int| 0 <= i < roots_seq.len() && roots_seq[i] == r0;
            assert(extensions_bounded(folders@, seq![roots_seq[i]]));
            let rest = full.drop_first();
            assert(seq![r0] + rest =~= full);
            assert(descends(folders@, seq![r0] + rest));
        }
    }
    true
}

/// Builds the folder tree where it can be built (see `folder_tree`), and
/// gives `None` where it cannot (see `folder_tree_buildable`).
pub fn folder_tree_checked(folders: &Vec<Folder>, counts: &Vec<(String, i32)>) -> (r: Option<Vec<FolderNode>>)
    ensures
        match r {
            Some(tree) => {
                &&& descents_bounded(folders@)
                &&& tree@.len() == children_of(folders@, None).len()
                &&& forall|i: int|
                    0 <= i < tree@.len() ==> #[trigger] node_matches(
                        tree@[i],
                        folders@,
                        counts@,
                        children_of(folders@, None)[i],
                        seq![],
                    )
            },
            None => !(descents_bounded(folders@) && forall|i: int|
                0 <= i < children_of(folders@, None).len() ==> node_fits(
                    folders@,
                    counts@,
                    #[trigger] children_of(folders@, None)[i],
                    0,
                )),
        },
{
    if folder_tree_buildable(folders, counts) {
        Some(folder_tree(folders, counts))
    } else {
        None
    }
}

/// Whether the walk up from `new_parent` ends within one step per folder
/// (as it does where the folders form no cycle), so that a move under it
/// can be decided.
pub fn folder_move_decidable(folders: &Vec<Folder>, id: &str, new_parent: Option<&str>) -> (r: bool)
    ensures
        r == match new_parent {
            Some(p) => walk_meets(folders@, p@, id@, (folders@.len() + 1) as nat) is Some,
            None => true,
        },
{
    match new_parent {
        None => true,
        Some(p) => {
            let target = id.to_string();
            let mut cur = p.to_string();
            let ghost start = walk_meets(folders@, p@, id@, (folders@.len() + 1) as nat);
            let mut fuel: usize = folders.len();
            loop
                invariant
                    new_parent == Some(p),
                    start == walk_meets(folders@, p@, id@, (folders@.len() + 1) as nat),
                    start == walk_meets(folders@, cur@, target@, (fuel + 1) as nat),
                    target@ == id@,
                    fuel <= folders@.len(),
                decreases fuel,
            {
                if str_equal(cur.as_str(), target.as_str()) {
                    return true;
                }
                match folder_parent(folders, &cur) {
                    None => {
                        return true;
                    },
                    Some(q) => {
                        if fuel == 0 {
                            assert(walk_meets(folders@, q@, target@, 0) is None);
                            return false;
                        }
                        cur = q;
                        fuel = fuel - 1;
                    },
                }
            }
        },
    }
}

/// Why a folder cannot be moved under a new parent.
#[derive(Debug, Clone, Copy, PartialEq, Eq, Structural)]
pub enum FolderMoveError {
    /// The new parent is the folder itself.
    IntoItself,
    /// The new parent lies below the folder.
    IntoDescendant,
}

impl FolderMoveError {
    /// The message shown for the error.
    pub open spec fn text(self) -> Seq<char> {
        match self {
            FolderMoveError::IntoItself => "Cannot move folder into itself"@,
            FolderMoveError::IntoDescendant => "Cannot move folder into its own descendant"@,
        }
    }

    /// The message shown for the error.
    pub fn message(&self) -> (r: String)
        ensures
            r@ == self.text(),
    {
        match self {
            FolderMoveError::IntoItself => {
                proof {
                    reveal_strlit("Cannot move folder into itself");
                }
                "Cannot move folder into itself".to_string()
            },
            FolderMoveError::IntoDescendant => {
                proof {
                    reveal_strlit("Cannot move folder into its own descendant");
                }
                "Cannot move folder into its own descendant".to_string()
            },
        }
    }
}

/// The parent recorded for the first folder with id `id`; `None` where there
/// is no such folder or it stands at the top level.
pub open spec fn parent_of(fs: Seq<Folder>, id: Seq<char>) -> Option<Seq<char>>
    decreases fs.len(),
{
    if fs.len() == 0 {
        None
    } else if fs[0].id@ == id {
        opt_view(fs[0].parent_id)
    } else {
        parent_of(fs.drop_first(), id)
    }
}

/// Walking up from `cur` through the parents: `Some(true)` where the walk
/// meets `target`, `Some(false)` where it reaches the top, `None` where it has
/// not ended after `fuel` steps.
pub open spec fn walk_meets(fs: Seq<Folder>, cur: Seq<char>, target: Seq<char>, fuel: nat) -> Option<bool>
    decreases fuel,
{
    if fuel == 0 {
        None
    } else if cur == target {
        Some(true)
    } else {
        match parent_of(fs, cur) {
            None => Some(false),
            Some(p) => walk_meets(fs, p, target, (fuel - 1) as nat),
        }
    }
}

/// The parent of the first folder with id `id`.
fn folder_parent(fs: &Vec<Folder>, id: &String) -> (r: Option<String>)
    ensures
        opt_view(r) == parent_of(fs@, id@),
{
    let mut i: usize = 0;
    assert(fs@.subrange(0, fs.len() as int) =~= fs@);
    while i < fs.len()
        invariant
            i <= fs.len(),
            parent_of(fs@, id@) == parent_of(fs@.subrange(i as int, fs.len() as int), id@),
        decreases fs.len() - i,
    {
        let ghost rest = fs@.subrange(i as int, fs.len() as int);
        assert(rest.drop_first() =~= fs@.subrange(i + 1, fs.len() as int));
        assert(rest[0] == fs@[i as int]);
        if str_equal(fs[i].id.as_str(), id.as_str()) {
            return clone_opt(&fs[i].parent_id);
        }
        i = i + 1;
    }
    None
}

/// Decides whether folder `id` may be moved under `new_parent` (`None`: to
/// the top level), given the folders as they stand: not into itself, and not
/// under a folder that lies below it. The walk up from the new parent must
/// end, as it does where the folders form no cycle.
pub fn check_folder_move(folders: &Vec<Folder>, id: &str, new_parent: Option<&str>) -> (r: Result<
    (),
    FolderMoveError,
>)
    requires
        match new_parent {
            Some(p) => walk_meets(folders@, p@, id@, (folders@.len() + 1) as nat) is Some,
            None => true,
        },
    ensures
        match new_parent {
            None => r is Ok,
            Some(p) => if p@ == id@ {
                r == Err::<(), FolderMoveError>(FolderMoveError::IntoItself)
            } else if walk_meets(folders@, p@, id@, (folders@.len() + 1) as nat) == Some(true) {
                r == Err::<(), FolderMoveError>(FolderMoveError::IntoDescendant)
            } else {
                r is Ok
            },
        },
{
    match new_parent {
        None => Ok(()),
        Some(p) => {
            if str_equal(p, id) {
                return Err(FolderMoveError::IntoItself);
            }
            let target = id.to_string();
            let mut cur = p.to_string();
            let ghost start = walk_meets(folders@, p@, id@, (folders@.len() + 1) as nat);
            let ghost mut fuel: nat = (folders@.len() + 1) as nat;
            loop
                invariant
                    new_parent == Some(p),
                    p@ != id@,
                    start == walk_meets(folders@, p@, id@, (folders@.len() + 1) as nat),
                    start == walk_meets(folders@, cur@, target@, fuel),
                    start is Some,
                    target@ == id@,
                decreases fuel,
            {
                if str_equal(cur.as_str(), target.as_str()) {
                    return Err(FolderMoveError::IntoDescendant);
                }
                match folder_parent(folders, &cur) {
                    None => {
                        return Ok(());
                    },
                    Some(q) => {
                        cur = q;
                        proof {
                            fuel = (fuel - 1) as nat;
                        }
                    },
                }
            }
        },
    }
}

/// The parent of folder `c` once folder `id` is moved under `new_parent`.
pub open spec fn parent_after_move(
    fs: Seq<Folder>,
    id: Seq<char>,
    new_parent: Option<Seq<char>>,
    c: Seq<char>,
) -> Option<Seq<char>> {
    if c == id {
        new_parent
    } else {
        parent_of(fs, c)
    }
}

/// Walking up the parent links from `c` reaches a top-level folder within
/// `fuel` steps.
pub open spec fn reaches_top(fs: Seq<Folder>, c: Seq<char>, fuel: nat) -> bool
    decreases fuel,
{
    fuel > 0 && match parent_of(fs, c) {
        None => true,
        Some(p) => reaches_top(fs, p, (fuel - 1) as nat),
    }
}

/// Walking up the parent links from `c`, once folder `id` is moved under
/// `new_parent`, reaches a top-level folder within `fuel` steps.
pub open spec fn reaches_top_after_move(
    fs: Seq<Folder>,
    id: Seq<char>,
    new_parent: Option<Seq<char>>,
    c: Seq<char>,
    fuel: nat,
) -> bool
    decreases fuel,
{
    fuel > 0 && match parent_after_move(fs, id, new_parent, c) {
        None => true,
        Some(p) => reaches_top_after_move(fs, id, new_parent, p, (fuel - 1) as nat),
    }
}

/// The walk up the parent links from `c` ends.
pub open spec fn walk_ends(fs: Seq<Folder>, c: Seq<char>) -> bool {
    exists|k: nat| #[trigger] reaches_top(fs, c, k)
}

/// The walk up from `c`, once folder `id` is moved under `new_parent`, ends.
pub open spec fn walk_ends_after_move(
    fs: Seq<Folder>,
    id: Seq<char>,
    new_parent: Option<Seq<char>>,
    c: Seq<char>,
) -> bool {
    exists|k: nat| #[trigger] reaches_top_after_move(fs, id, new_parent, c, k)
}

/// The parent links hold no cycle: from every folder the walk up ends.
pub open spec fn links_acyclic(fs: Seq<Folder>) -> bool {
    forall|c: Seq<char>| #[trigger] walk_ends(fs, c)
}

/// Once folder `id` is moved under `new_parent`, the parent links hold no
/// cycle.
pub open spec fn links_acyclic_after_move(fs: Seq<Folder>, id: Seq<char>, new_parent: Option<Seq<char>>) -> bool {
    forall|c: Seq<char>| #[trigger] walk_ends_after_move(fs, id, new_parent, c)
}

/// A walk up that ends at the top without meeting `id` is not changed by
/// moving `id`.
proof fn lemma_walk_unchanged(fs: Seq<Folder>, id: Seq<char>, np: Option<Seq<char>>, x: Seq<char>, f: nat)
    requires
        walk_meets(fs, x, id, f) == Some(false),
    ensures
        reaches_top_after_move(fs, id, np, x, f),
    decreases f,
{
    match parent_of(fs, x) {
        None => {},
        Some(p) => lemma_walk_unchanged(fs, id, np, p, (f - 1) as nat),
    }
}

/// More fuel does not stop a walk that ends.
proof fn lemma_reaches_more_fuel(fs: Seq<Folder>, id: Seq<char>, np: Option<Seq<char>>, x: Seq<char>, f: nat, g: nat)
    requires
        reaches_top_after_move(fs, id, np, x, f),
        f <= g,
    ensures
        reaches_top_after_move(fs, id, np, x, g),
    decreases f,
{
    match parent_after_move(fs, id, np, x) {
        None => {},
        Some(p) => lemma_reaches_more_fuel(fs, id, np, p, (f - 1) as nat, (g - 1) as nat),
    }
}

/// A walk up that ended before the move ends after it, within the old
/// length plus a walk from the new parent.
proof fn lemma_walk_after_move(fs: Seq<Folder>, id: Seq<char>, np: Option<Seq<char>>, c: Seq<char>, k: nat)
    requires
        reaches_top(fs, c, k),
        match np {
            None => true,
            Some(p) => walk_meets(fs, p, id, (fs.len() + 1) as nat) == Some(false),
        },
    ensures
        reaches_top_after_move(fs, id, np, c, k + fs.len() + 2),
    decreases k,
{
    let big: nat = (k + fs.len() + 2) as nat;
    if c == id {
        match np {
            None => {},
            Some(p) => {
                lemma_walk_unchanged(fs, id, np, p, (fs.len() + 1) as nat);
                lemma_reaches_more_fuel(fs, id, np, p, (fs.len() + 1) as nat, (big - 1) as nat);
            },
        }
    } else {
        match parent_of(fs, c) {
            None => {},
            Some(q) => {
                lemma_walk_after_move(fs, id, np, q, (k - 1) as nat);
                assert((k - 1) as nat + fs.len() + 2 == big - 1);
            },
        }
    }
}

/// A move that `check_folder_move` accepts (to the top level, or under a
/// folder other than the one moved whose walk up does not meet it) keeps
/// the parent links free of cycles.
pub proof fn lemma_accepted_move_keeps_links_acyclic(fs: Seq<Folder>, id: Seq<char>, new_parent: Option<Seq<char>>)
    requires
        links_acyclic(fs),
        match new_parent {
            None => true,
            Some(p) => p != id && walk_meets(fs, p, id, (fs.len() + 1) as nat) == Some(false),
        },
    ensures
        links_acyclic_after_move(fs, id, new_parent),
{
    assert forall|c: Seq<char>| #[trigger] walk_ends_after_move(fs, id, new_parent, c) by {
        assert(walk_ends(fs, c));
        let k = choose|k: nat| #[trigger] reaches_top(fs, c, k);
        lemma_walk_after_move(fs, id, new_parent, c, k);
        assert(reaches_top_after_move(fs, id, new_parent, c, (k + fs.len() + 2) as nat));
    }
}

} // verus!
