//! Choosing, from what a walk of a directory reported, the files to move.
//!
//! A walk hands over one item per entry it met, in the order it met them:
//! the entry with its depth below the root and what it names, or the failure
//! to read it. The root itself has depth 0, what stands directly in it
//! depth 1.
use vstd::prelude::*;
use crate::path::PathKind;

verus! {

/// One entry met by a walk.
#[derive(Clone, Debug, PartialEq, Eq)]
pub struct Entry {
    /// The entry's path.
    pub path: String,
    /// How many directories below the root the entry stands.
    pub depth: usize,
    /// What the path names.
    pub kind: PathKind,
}

/// The mathematical value of an [`Entry`].
pub struct EntryView {
    pub path: Seq<char>,
    pub depth: nat,
    pub kind: PathKind,
}

impl View for Entry {
    type V = EntryView;

    open spec fn view(&self) -> EntryView {
        EntryView { path: self.path@, depth: self.depth as nat, kind: self.kind }
    }
}

impl DeepView for Entry {
    type V = EntryView;

    open spec fn deep_view(&self) -> EntryView {
        self@
    }
}

/// What a walk reports at one step.
#[derive(Clone, Debug, PartialEq, Eq)]
pub enum WalkItem {
    /// An entry was read.
    Found(Entry),
    /// An entry could not be read; the text says why.
    Failed(String),
}

/// The mathematical value of a [`WalkItem`].
pub enum WalkItemView {
    Found(EntryView),
    Failed(Seq<char>),
}

impl View for WalkItem {
    type V = WalkItemView;

    open spec fn view(&self) -> WalkItemView {
        match self {
            WalkItem::Found(entry) => WalkItemView::Found(entry@),
            WalkItem::Failed(reason) => WalkItemView::Failed(reason@),
        }
    }
}

impl DeepView for WalkItem {
    type V = WalkItemView;

    open spec fn deep_view(&self) -> WalkItemView {
        self@
    }
}

/// A walk that could not read one of its entries.
#[derive(Clone, Debug, PartialEq, Eq)]
pub struct TraversalError {
    /// The place of the failed item in the walk.
    pub position: usize,
    /// Why the entry could not be read.
    pub reason: String,
}

/// The depth rule: a recursive walk takes every depth, a flat one the root
/// and what stands directly in it.
pub open spec fn within_depth(depth: nat, recursive: bool) -> bool {
    recursive || depth <= 1
}

/// An entry is moved when it is a regular file within the depth rule.
pub open spec fn is_selected(entry: EntryView, recursive: bool) -> bool {
    entry.kind == PathKind::File && within_depth(entry.depth, recursive)
}

/// Whether a walk item contributes a file to move.
pub open spec fn selects(item: WalkItemView, recursive: bool) -> bool {
    match item {
        WalkItemView::Found(entry) => is_selected(entry, recursive),
        WalkItemView::Failed(_) => false,
    }
}

/// The path that a walk item carries; a failure carries none.
pub open spec fn path_of(item: WalkItemView) -> Seq<char> {
    match item {
        WalkItemView::Found(entry) => entry.path,
        WalkItemView::Failed(_) => Seq::empty(),
    }
}

/// The paths of the selected entries of a walk, in the walk's order.
pub open spec fn selected_paths(items: Seq<WalkItemView>, recursive: bool) -> Seq<Seq<char>> {
    items.filter(|item: WalkItemView| selects(item, recursive)).map_values(
        |item: WalkItemView| path_of(item),
    )
}

/// Every item of the walk is an entry that was read.
pub open spec fn all_found(items: Seq<WalkItemView>) -> bool {
    forall|i: int| 0 <= i < items.len() ==> (#[trigger] items[i]) is Found
}

/// The item at `at` is a failure and every item before it was read.
pub open spec fn is_first_failure(items: Seq<WalkItemView>, at: int) -> bool {
    &&& 0 <= at < items.len()
    &&& items[at] is Failed
    &&& all_found(items.take(at))
}

/// No two entries of the walk have the same path.
pub open spec fn distinct_paths(items: Seq<WalkItemView>) -> bool {
    forall|i: int, j: int|
        0 <= i < j < items.len() && (#[trigger] items[i]) is Found && (#[trigger] items[j]) is Found
            ==> path_of(items[i]) != path_of(items[j])
}

/// The item is an entry with this path that is a regular file within the
/// depth rule.
pub open spec fn is_file_at(item: WalkItemView, path: Seq<char>, recursive: bool) -> bool {
    match item {
        WalkItemView::Found(entry) => entry.path == path && is_selected(entry, recursive),
        WalkItemView::Failed(_) => false,
    }
}

/// The depth to which a walk has to descend: `Some(1)` for a flat walk, no
/// limit for a recursive one.
pub fn depth_limit(recursive: bool) -> (limit: Option<usize>)
    ensures
        limit == (if recursive { None } else { Some(1usize) }),
        forall|depth: nat| within_depth(depth, recursive) <==> (limit matches Some(most) ==> depth <= most),
{
    if recursive {
        None
    } else {
        Some(1)
    }
}

/// Lists the files to move out of what a walk reported.
///
/// A walk with a failure in it yields the first failure and no file. A walk
/// without one yields the paths of its regular files within the depth rule,
/// in the walk's order.
pub fn traverse_folder(recursive: bool, items: &Vec<WalkItem>) -> (found: Result<
    Vec<String>,
    TraversalError,
>)
    ensures
        match found {
            Ok(files) => {
                &&& all_found(items.deep_view())
                &&& files.deep_view() == selected_paths(items.deep_view(), recursive)
            },
            Err(error) => {
                &&& is_first_failure(items.deep_view(), error.position as int)
                &&& items.deep_view()[error.position as int] == WalkItemView::Failed(
                    error.reason@,
                )
            },
        },
{
    let ghost walk = items.deep_view();
    let mut files: Vec<String> = Vec::new();
    let mut i: usize = 0;
    proof {
        reveal(Seq::filter);
    }
    while i < items.len()
        invariant
            i <= items.len(),
            walk == items.deep_view(),
            walk.len() == items.len(),
            all_found(walk.take(i as int)),
            files.deep_view() == selected_paths(walk.take(i as int), recursive),
        decreases items.len() - i,
    {
        proof {
            selected_paths_step(walk, recursive, i as int);
        }
        match &items[i] {
            WalkItem::Failed(reason) => {
                return Err(TraversalError { position: i, reason: reason.clone() });
            },
            WalkItem::Found(entry) => {
                if entry.kind == PathKind::File && (recursive || entry.depth <= 1) {
                    files.push(entry.path.clone());
                }
            },
        }
        assert(all_found(walk.take(i + 1)));
        i += 1;
    }
    assert(walk.take(i as int) =~= walk);
    Ok(files)
}

/// Extending a walk by one item extends the selected paths by that item's
/// path, or leaves them as they are.
proof fn selected_paths_step(items: Seq<WalkItemView>, recursive: bool, n: int)
    requires
        0 <= n < items.len(),
    ensures
        selected_paths(items.take(n + 1), recursive) == if selects(items[n], recursive) {
            selected_paths(items.take(n), recursive).push(path_of(items[n]))
        } else {
            selected_paths(items.take(n), recursive)
        },
{
    assert(items.take(n + 1).drop_last() =~= items.take(n));
    reveal(Seq::filter);
}

/// A path is listed by the first `n` items of a walk exactly when one of
/// them is a selected entry with that path.
proof fn listed_among_first(items: Seq<WalkItemView>, recursive: bool, n: int, path: Seq<char>)
    requires
        0 <= n <= items.len(),
    ensures
        selected_paths(items.take(n), recursive).contains(path) <==> exists|i: int|
            0 <= i < n && selects(#[trigger] items[i], recursive) && path_of(items[i]) == path,
    decreases n,
{
    if n == 0 {
        reveal(Seq::filter);
    } else {
        let shorter = selected_paths(items.take(n - 1), recursive);
        let longer = selected_paths(items.take(n), recursive);
        listed_among_first(items, recursive, n - 1, path);
        selected_paths_step(items, recursive, n - 1);
        if selects(items[n - 1], recursive) {
            let last = path_of(items[n - 1]);
            if shorter.contains(path) {
                let k = choose|k: int| 0 <= k < shorter.len() && shorter[k] == path;
                assert(longer[k] == path);
            }
            if path == last {
                assert(longer[shorter.len() as int] == path);
            }
        }
    }
}

/// The first `n` items of a walk with distinct paths list no path twice.
proof fn listed_once_among_first(items: Seq<WalkItemView>, recursive: bool, n: int)
    requires
        0 <= n <= items.len(),
        distinct_paths(items),
    ensures
        selected_paths(items.take(n), recursive).no_duplicates(),
    decreases n,
{
    if n == 0 {
        reveal(Seq::filter);
    } else {
        let shorter = selected_paths(items.take(n - 1), recursive);
        listed_once_among_first(items, recursive, n - 1);
        selected_paths_step(items, recursive, n - 1);
        if selects(items[n - 1], recursive) {
            let last = path_of(items[n - 1]);
            listed_among_first(items, recursive, n - 1, last);
            let grown = shorter.push(last);
            assert forall|a: int, b: int|
                0 <= a < grown.len() && 0 <= b < grown.len() && a != b implies grown[a]
                != grown[b] by {
                if a < shorter.len() {
                    assert(shorter.contains(grown[a]));
                }
                if b < shorter.len() {
                    assert(shorter.contains(grown[b]));
                }
            }
        }
    }
}

/// The listing holds exactly the regular files within the depth rule: a path
/// is listed if and only if the walk met an entry with that path that is a
/// regular file and stands within the depth that the flag allows. So no
/// directory is listed, and nothing below depth 1 unless the walk is
/// recursive.
pub proof fn traverse_lists_exactly_the_files(
    items: Seq<WalkItemView>,
    recursive: bool,
    path: Seq<char>,
)
    ensures
        selected_paths(items, recursive).contains(path) <==> exists|i: int|
            0 <= i < items.len() && is_file_at(#[trigger] items[i], path, recursive),
{
    listed_among_first(items, recursive, items.len() as int, path);
    assert(items.take(items.len() as int) =~= items);
}

/// A walk that meets no path twice lists no path twice.
pub proof fn traverse_lists_no_file_twice(items: Seq<WalkItemView>, recursive: bool)
    requires
        distinct_paths(items),
    ensures
        selected_paths(items, recursive).no_duplicates(),
{
    listed_once_among_first(items, recursive, items.len() as int);
    assert(items.take(items.len() as int) =~= items);
}

} // verus!
