//! Where a folder goes among its new siblings when it is moved.
use vstd::prelude::*;
use crate::db::Folder;
use crate::text::{opt_view, str_equal};

verus! {

/// The largest sort order among the folders of `fs` whose parent is
/// `parent` (`None`: the top level), if there are any.
pub open spec fn max_sort_under(fs: Seq<Folder>, parent: Option<Seq<char>>) -> Option<int>
    decreases fs.len(),
{
    if fs.len() == 0 {
        None
    } else {
        let rest = max_sort_under(fs.drop_last(), parent);
        let last = fs.last();
        if opt_view(last.parent_id) == parent {
            match rest {
                Some(m) => Some(
                    if last.sort_order > m {
                        last.sort_order as int
                    } else {
                        m
                    },
                ),
                None => Some(last.sort_order as int),
            }
        } else {
            rest
        }
    }
}

/// The sort order a folder gets when it is moved under `parent`: one past
/// the largest among the folders there, 0 where there are none, and 0 where
/// one past the largest does not fit an `i32`.
pub open spec fn moved_sort_order(fs: Seq<Folder>, parent: Option<Seq<char>>) -> i32 {
    match max_sort_under(fs, parent) {
        Some(m) => if m + 1 <= i32::MAX {
            (m + 1) as i32
        } else {
            0
        },
        None => 0,
    }
}

/// The sort order a folder gets when it is moved under `new_parent`
/// (`None`: the top level), after the folders already there.
pub fn next_sort_order(folders: &Vec<Folder>, new_parent: Option<&str>) -> (r: i32)
    ensures
        r == moved_sort_order(
            folders@,
            match new_parent {
                Some(p) => Some(p@),
                None => None,
            },
        ),
{
    let ghost parent: Option<Seq<char>> = match new_parent {
        Some(p) => Some(p@),
        None => None,
    };
    let mut best: Option<i32> = None;
    let mut i: usize = 0;
    while i < folders.len()
        invariant
            i <= folders@.len(),
            parent == match new_parent {
                Some(p) => Some(p@),
                None => None::<Seq<char>>,
            },
            match best {
                Some(b) => max_sort_under(folders@.take(i as int), parent) == Some(b as int),
                None => max_sort_under(folders@.take(i as int), parent) is None,
            },
        decreases folders@.len() - i,
    {
        assert(folders@.take(i + 1).drop_last() =~= folders@.take(i as int));
        let f = &folders[i];
        let under = match (&f.parent_id, new_parent) {
            (Some(a), Some(b)) => str_equal(a.as_str(), b),
            (None, None) => true,
            _ => false,
        };
        if under {
            best = match best {
                Some(b) => Some(
                    if f.sort_order > b {
                        f.sort_order
                    } else {
                        b
                    },
                ),
                None => Some(f.sort_order),
            };
        }
        i = i + 1;
    }
    assert(folders@.take(folders@.len() as int) =~= folders@);
    match best {
        Some(b) => if b < i32::MAX {
            b + 1
        } else {
            0
        },
        None => 0,
    }
}

/// The largest sort order under a parent is the sort order of one of the
/// folders there, and no folder there has a larger one; there is none
/// exactly where no folder is there.
proof fn lemma_max_sort_under(fs: Seq<Folder>, parent: Option<Seq<char>>)
    ensures
        max_sort_under(fs, parent) is None <==> forall|i: int|
            0 <= i < fs.len() ==> opt_view(#[trigger] fs[i].parent_id) != parent,
        max_sort_under(fs, parent) matches Some(m) ==> (forall|i: int|
            0 <= i < fs.len() && opt_view(#[trigger] fs[i].parent_id) == parent ==> fs[i].sort_order <= m)
            && exists|i: int|
            0 <= i < fs.len() && opt_view(#[trigger] fs[i].parent_id) == parent && fs[i].sort_order == m,
    decreases fs.len(),
{
    if fs.len() > 0 {
        let front = fs.drop_last();
        lemma_max_sort_under(front, parent);
        let last = fs.len() - 1;
        assert forall|i: int| 0 <= i < front.len() implies #[trigger] fs[i] == front[i] by {}
        if max_sort_under(front, parent) is Some {
            let m = max_sort_under(front, parent)->0;
            let j = choose|j: int|
                0 <= j < front.len() && opt_view(#[trigger] front[j].parent_id) == parent && front[j].sort_order == m;
            assert(fs[j] == front[j]);
        }
        if max_sort_under(fs, parent) is None {
            assert forall|i: int| 0 <= i < fs.len() implies opt_view(#[trigger] fs[i].parent_id) != parent by {
                if i < last {
                    assert(fs[i] == front[i]);
                }
            }
        }
    }
}

/// A folder moved under a parent goes after every folder already there:
/// its sort order is one past the largest of theirs, so larger than each
/// of theirs and one past one of them; it is 0 where no folder is there, and
/// also where one of them already has the largest `i32`.
pub proof fn lemma_moved_after_siblings(fs: Seq<Folder>, parent: Option<Seq<char>>)
    ensures
        (forall|i: int| 0 <= i < fs.len() ==> opt_view(#[trigger] fs[i].parent_id) != parent)
            ==> moved_sort_order(fs, parent) == 0,
        (exists|i: int|
            0 <= i < fs.len() && opt_view(#[trigger] fs[i].parent_id) == parent && fs[i].sort_order
                == i32::MAX) ==> moved_sort_order(fs, parent) == 0,
        (exists|i: int| 0 <= i < fs.len() && opt_view(#[trigger] fs[i].parent_id) == parent) && (forall|i: int|
            0 <= i < fs.len() && opt_view(#[trigger] fs[i].parent_id) == parent ==> fs[i].sort_order
                < i32::MAX) ==> (forall|i: int|
            0 <= i < fs.len() && opt_view(#[trigger] fs[i].parent_id) == parent ==> fs[i].sort_order
                < moved_sort_order(fs, parent)) && exists|i: int|
            0 <= i < fs.len() && opt_view(#[trigger] fs[i].parent_id) == parent && fs[i].sort_order + 1
                == moved_sort_order(fs, parent),
{
    lemma_max_sort_under(fs, parent);
}

} // verus!
