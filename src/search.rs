use vstd::prelude::*;

use crate::entries::{Directory, Entry, EntryView, File, Link};
use crate::error::{FexplorerError, FileSystemError};
use crate::file_system::{
    classify, get_link_type, is_directory, kind_of, link_of, strings_view, EntryType, LinkType,
    PathInfo,
};
use crate::index::{insert_first, merge_first, of_kind, Index};
use crate::paths::{join_of, join_path};

verus! {

/// One child of a directory listing: its name and what the filesystem said
/// about it.
#[derive(Debug)]
pub struct Report {
    pub name: String,
    pub info: PathInfo,
}

/// The entry that a reported child of `dir` becomes by itself: a file, or a
/// link whose target could be read. Directories get theirs when they are
/// listed.
pub open spec fn leaf_of(dir: Seq<char>, r: Report) -> Option<EntryView> {
    let p = join_of(dir, r.name@);
    match kind_of(r.info) {
        EntryType::File => Some(EntryView::File { path: p }),
        EntryType::Link => match r.info.link_target {
            Ok(t) => Some(EntryView::Link { path: p, target: t@ }),
            Err(_) => None,
        },
        _ => None,
    }
}

/// A reported child that the index keeps: a directory, a file, or a link
/// whose target could be read.
pub open spec fn kept(r: Report) -> bool {
    match kind_of(r.info) {
        EntryType::Directory | EntryType::File => true,
        EntryType::Link => r.info.link_target is Ok,
        EntryType::Unknown => false,
    }
}

/// The leaf entries of a listing of `dir`, the first one for a path winning.
pub open spec fn leaves(dir: Seq<char>, rs: Seq<Report>) -> Map<Seq<char>, EntryView>
    decreases rs.len(),
{
    if rs.len() == 0 {
        Map::empty()
    } else {
        let m = leaves(dir, rs.drop_last());
        match leaf_of(dir, rs.last()) {
            Some(e) => insert_first(m, e),
            None => m,
        }
    }
}

/// The names of the kept children of a listing, in order.
pub open spec fn kept_names(rs: Seq<Report>) -> Seq<Seq<char>>
    decreases rs.len(),
{
    if rs.len() == 0 {
        Seq::empty()
    } else if kept(rs.last()) {
        kept_names(rs.drop_last()).push(rs.last().name@)
    } else {
        kept_names(rs.drop_last())
    }
}

/// The paths of the reported children of `dir` of kind `k`, in order.
pub open spec fn children_of_kind(dir: Seq<char>, rs: Seq<Report>, k: EntryType) -> Seq<Seq<char>>
    decreases rs.len(),
{
    if rs.len() == 0 {
        Seq::empty()
    } else if kind_of(rs.last().info) == k {
        children_of_kind(dir, rs.drop_last(), k).push(join_of(dir, rs.last().name@))
    } else {
        children_of_kind(dir, rs.drop_last(), k)
    }
}

/// The links of a listing of `dir` that resolve to a directory or a file,
/// each with whether it resolves to a directory, in order.
pub open spec fn link_types_of(dir: Seq<char>, rs: Seq<Report>) -> Seq<(bool, Seq<char>)>
    decreases rs.len(),
{
    if rs.len() == 0 {
        Seq::empty()
    } else {
        let r = rs.last();
        let prev = link_types_of(dir, rs.drop_last());
        if link_of(r.info) && (r.info.is_dir || r.info.is_file) {
            prev.push((r.info.is_dir, join_of(dir, r.name@)))
        } else {
            prev
        }
    }
}

/// The view of a list of skipped paths, each with the reason.
pub open spec fn skips_view(v: Seq<(String, String)>) -> Seq<(Seq<char>, Seq<char>)> {
    v.map_values(|x: (String, String)| (x.0@, x.1@))
}

/// The links of a listing of `dir` whose target could not be read, each
/// with the error of the read, in order.
pub open spec fn unreadable_links(dir: Seq<char>, rs: Seq<Report>) -> Seq<(Seq<char>, Seq<char>)>
    decreases rs.len(),
{
    if rs.len() == 0 {
        Seq::empty()
    } else {
        let r = rs.last();
        let prev = unreadable_links(dir, rs.drop_last());
        match r.info.link_target {
            Err(e) => if kind_of(r.info) == EntryType::Link {
                prev.push((join_of(dir, r.name@), e@))
            } else {
                prev
            },
            Ok(_) => prev,
        }
    }
}

/// What the listing of `dir` leaves out, and why: the directory's children
/// where it could not be read, else its links whose target could not be
/// read.
pub open spec fn skips_of(dir: Seq<char>, listing: Result<Vec<Report>, String>) -> Seq<
    (Seq<char>, Seq<char>),
> {
    match listing {
        Ok(v) => unreadable_links(dir, v@),
        Err(e) => seq![(dir, e@)],
    }
}

/// The reports of a listing; an unreadable directory has none.
pub open spec fn reports_of(listing: Option<Seq<Report>>) -> Seq<Report> {
    match listing {
        Some(rs) => rs,
        None => Seq::empty(),
    }
}

/// The view of a listing: its reports, or none where it could not be read.
pub open spec fn listing_view(listing: Result<Vec<Report>, String>) -> Option<Seq<Report>> {
    match listing {
        Ok(v) => Some(v@),
        Err(_) => None,
    }
}

/// The directory entry of a listed directory: the names of its kept
/// children.
pub open spec fn directory_of(dir: Seq<char>, listing: Option<Seq<Report>>) -> EntryView {
    EntryView::Directory { path: dir, children: kept_names(reports_of(listing)).to_set() }
}

/// What the listing of `dir` adds to the index: its leaves and its own entry.
pub open spec fn level_of(dir: Seq<char>, listing: Option<Seq<Report>>) -> Map<
    Seq<char>,
    EntryView,
> {
    insert_first(leaves(dir, reports_of(listing)), directory_of(dir, listing))
}

/// A walk in progress: its root, what it has indexed, and the directories
/// still to be listed.
pub struct IndexerView {
    pub root: Seq<char>,
    pub index: Map<Seq<char>, EntryView>,
    pub pending: Seq<Seq<char>>,
}

/// A walk that has not listed anything yet.
pub open spec fn start_of(root: Seq<char>) -> IndexerView {
    IndexerView { root, index: Map::empty(), pending: seq![root] }
}

/// The walk after the listing of its `i`th pending directory: the level is
/// merged in, the first entry for a path winning, and the subdirectories
/// found join the end of the queue.
pub open spec fn step(v: IndexerView, i: int, listing: Option<Seq<Report>>) -> IndexerView {
    let dir = v.pending[i];
    IndexerView {
        root: v.root,
        index: merge_first(v.index, level_of(dir, listing)),
        pending: v.pending.remove(i) + children_of_kind(
            dir,
            reports_of(listing),
            EntryType::Directory,
        ),
    }
}

proof fn lemma_leaves_holds(dir: Seq<char>, rs: Seq<Report>, j: int)
    requires
        0 <= j < rs.len(),
        leaf_of(dir, rs[j]) is Some,
        forall|k: int|
            0 <= k < rs.len() && k != j ==> join_of(dir, #[trigger] rs[k].name@) != join_of(
                dir,
                rs[j].name@,
            ),
    ensures
        leaves(dir, rs).contains_key(join_of(dir, rs[j].name@)),
        leaves(dir, rs)[join_of(dir, rs[j].name@)] == leaf_of(dir, rs[j])->0,
    decreases rs.len(),
{
    let p = join_of(dir, rs[j].name@);
    let t = rs.drop_last();
    if j < rs.len() - 1 {
        assert forall|k: int| 0 <= k < t.len() && k != j implies join_of(
            dir,
            #[trigger] t[k].name@,
        ) != join_of(dir, t[j].name@) by {
            assert(t[k] == rs[k]);
        }
        lemma_leaves_holds(dir, t, j);
        assert(rs.last() == rs[rs.len() - 1]);
    } else {
        lemma_leaves_lacks(dir, t, p);
    }
}

proof fn lemma_leaves_lacks(dir: Seq<char>, rs: Seq<Report>, p: Seq<char>)
    requires
        forall|k: int| 0 <= k < rs.len() ==> join_of(dir, #[trigger] rs[k].name@) != p,
    ensures
        !leaves(dir, rs).contains_key(p),
    decreases rs.len(),
{
    if rs.len() > 0 {
        let t = rs.drop_last();
        assert forall|k: int| 0 <= k < t.len() implies join_of(dir, #[trigger] t[k].name@) != p by {
            assert(t[k] == rs[k]);
        }
        lemma_leaves_lacks(dir, t, p);
        assert(join_of(dir, rs[rs.len() - 1].name@) != p);
    }
}

proof fn lemma_kind_found(dir: Seq<char>, rs: Seq<Report>, j: int, k: EntryType)
    requires
        0 <= j < rs.len(),
        kind_of(rs[j].info) == k,
    ensures
        children_of_kind(dir, rs, k).contains(join_of(dir, rs[j].name@)),
    decreases rs.len(),
{
    let t = rs.drop_last();
    if j < rs.len() - 1 {
        lemma_kind_found(dir, t, j, k);
        assert(t[j] == rs[j]);
        let c = children_of_kind(dir, t, k);
        let i = choose|i: int| 0 <= i < c.len() && c[i] == join_of(dir, rs[j].name@);
        if kind_of(rs.last().info) == k {
            assert(c.push(join_of(dir, rs.last().name@))[i] == c[i]);
        }
    } else {
        let c = children_of_kind(dir, t, k);
        assert(c.push(join_of(dir, rs[j].name@))[c.len() as int] == join_of(dir, rs[j].name@));
    }
}

proof fn lemma_name_kept(rs: Seq<Report>, j: int)
    requires
        0 <= j < rs.len(),
        kept(rs[j]),
    ensures
        kept_names(rs).contains(rs[j].name@),
    decreases rs.len(),
{
    let t = rs.drop_last();
    if j < rs.len() - 1 {
        lemma_name_kept(t, j);
        assert(t[j] == rs[j]);
        let c = kept_names(t);
        let i = choose|i: int| 0 <= i < c.len() && c[i] == rs[j].name@;
        if kept(rs.last()) {
            assert(c.push(rs.last().name@)[i] == c[i]);
        }
    } else {
        let c = kept_names(t);
        assert(c.push(rs[j].name@)[c.len() as int] == rs[j].name@);
    }
}

/// An empty directory walked from its root gives one directory entry, with
/// no children, and leaves nothing to list.
pub proof fn lemma_empty_directory(root: Seq<char>)
    ensures
        step(start_of(root), 0, Some(Seq::empty())).index == map![root => EntryView::Directory {
            path: root,
            children: Set::empty(),
        }],
        step(start_of(root), 0, Some(Seq::empty())).pending.len() == 0,
{
    let v = step(start_of(root), 0, Some(Seq::empty()));
    assert(kept_names(Seq::<Report>::empty()).to_set() =~= Set::empty());
    assert(leaves(root, Seq::empty()) == Map::<Seq<char>, EntryView>::empty());
    assert(v.index =~= map![root => EntryView::Directory { path: root, children: Set::empty() }]);
    assert(v.pending =~= Seq::empty());
}

/// Each child that a listing reports and the index keeps is found, where its
/// path is reported once and was not indexed before: a file or a link is
/// indexed under its path with its own kind (and a link with its raw
/// target), and a directory is queued to be listed.
pub proof fn lemma_reported_child_found(v: IndexerView, i: int, rs: Seq<Report>, j: int)
    requires
        0 <= i < v.pending.len(),
        0 <= j < rs.len(),
        kept(rs[j]),
        forall|k: int|
            0 <= k < rs.len() && k != j ==> join_of(v.pending[i], #[trigger] rs[k].name@)
                != join_of(v.pending[i], rs[j].name@),
        join_of(v.pending[i], rs[j].name@) != v.pending[i],
        !v.index.contains_key(join_of(v.pending[i], rs[j].name@)),
    ensures
        kind_of(rs[j].info) == EntryType::Directory ==> step(v, i, Some(rs)).pending.contains(
            join_of(v.pending[i], rs[j].name@),
        ),
        kind_of(rs[j].info) != EntryType::Directory ==> step(v, i, Some(rs)).index.contains_key(
            join_of(v.pending[i], rs[j].name@),
        ),
        kind_of(rs[j].info) != EntryType::Directory ==> step(v, i, Some(rs)).index[join_of(
            v.pending[i],
            rs[j].name@,
        )] == leaf_of(v.pending[i], rs[j])->0,
        kind_of(rs[j].info) != EntryType::Directory ==> step(v, i, Some(rs)).index[join_of(
            v.pending[i],
            rs[j].name@,
        )].kind() == kind_of(rs[j].info),
{
    let dir = v.pending[i];
    let p = join_of(dir, rs[j].name@);
    let w = step(v, i, Some(rs));
    if kind_of(rs[j].info) == EntryType::Directory {
        lemma_kind_found(dir, rs, j, EntryType::Directory);
        let c = children_of_kind(dir, rs, EntryType::Directory);
        let x = choose|x: int| 0 <= x < c.len() && c[x] == p;
        assert(w.pending[v.pending.len() - 1 + x] == p);
    } else {
        lemma_leaves_holds(dir, rs, j);
    }
}

/// A listed directory that was not indexed before gets its entry, named for
/// each kept child, where no child's path is the directory's own.
pub proof fn lemma_listed_directory(v: IndexerView, i: int, rs: Seq<Report>, j: int)
    requires
        0 <= i < v.pending.len(),
        0 <= j < rs.len(),
        kept(rs[j]),
        forall|k: int| 0 <= k < rs.len() ==> join_of(v.pending[i], #[trigger] rs[k].name@) != v.pending[i],
        !v.index.contains_key(v.pending[i]),
    ensures
        step(v, i, Some(rs)).index.contains_key(v.pending[i]),
        step(v, i, Some(rs)).index[v.pending[i]] == directory_of(v.pending[i], Some(rs)),
        directory_of(v.pending[i], Some(rs)) matches EntryView::Directory { children, .. }
            && children.contains(rs[j].name@),
{
    lemma_leaves_lacks(v.pending[i], rs, v.pending[i]);
    lemma_name_kept(rs, j);
}

/// A directory that cannot be read gets an entry with no children; the rest
/// of the index stays as it was, and nothing is queued.
pub proof fn lemma_unreadable_directory(v: IndexerView, i: int)
    requires
        0 <= i < v.pending.len(),
        !v.index.contains_key(v.pending[i]),
    ensures
        step(v, i, None).index == v.index.insert(
            v.pending[i],
            EntryView::Directory { path: v.pending[i], children: Set::empty() },
        ),
        step(v, i, None).pending == v.pending.remove(i),
{
    let w = step(v, i, None);
    assert(kept_names(Seq::<Report>::empty()).to_set() =~= Set::empty());
    assert(leaves(v.pending[i], Seq::empty()) == Map::<Seq<char>, EntryView>::empty());
    assert(w.index =~= v.index.insert(
        v.pending[i],
        EntryView::Directory { path: v.pending[i], children: Set::empty() },
    ));
    assert(w.pending =~= v.pending.remove(i));
}

/// An entry, once indexed, stays as it is: recording a listing only adds.
pub proof fn lemma_step_keeps_entries(v: IndexerView, i: int, listing: Option<Seq<Report>>)
    requires
        0 <= i < v.pending.len(),
    ensures
        v.index.submap_of(step(v, i, listing).index),
{
}

/// Two pending directories whose listings add disjoint paths give the same
/// index whichever is recorded first.
pub proof fn lemma_listing_order(
    v: IndexerView,
    i: int,
    j: int,
    first: Option<Seq<Report>>,
    second: Option<Seq<Report>>,
)
    requires
        0 <= i < j < v.pending.len(),
        level_of(v.pending[i], first).dom().disjoint(level_of(v.pending[j], second).dom()),
    ensures
        step(step(v, i, first), j - 1, second).index == step(step(v, j, second), i, first).index,
{
    let a = step(v, i, first);
    let b = step(v, j, second);
    assert(a.pending[j - 1] == v.pending[j]);
    assert(b.pending[i] == v.pending[i]);
    assert(step(a, j - 1, second).index =~= step(b, i, first).index);
}

/// The path `n` levels below `root`, each level named `name`.
pub open spec fn nested(root: Seq<char>, name: Seq<char>, n: nat) -> Seq<char>
    decreases n,
{
    if n == 0 {
        root
    } else {
        join_of(nested(root, name, (n - 1) as nat), name)
    }
}

/// The walk from `root` after `k` listings, each of one directory that holds
/// one subdirectory, reported by `r`.
pub open spec fn walk_nested(root: Seq<char>, r: Report, k: nat) -> IndexerView
    decreases k,
{
    if k == 0 {
        start_of(root)
    } else {
        step(walk_nested(root, r, (k - 1) as nat), 0, Some(seq![r]))
    }
}

proof fn lemma_nested_walk(root: Seq<char>, r: Report, k: nat)
    requires
        r.name@.len() > 0,
        r.name@[0] != '/',
        kind_of(r.info) == EntryType::Directory,
    ensures
        walk_nested(root, r, k).pending == seq![nested(root, r.name@, k)],
        walk_nested(root, r, k).index.dom().finite(),
        walk_nested(root, r, k).index.dom().len() == k,
        forall|p: Seq<char>|
            #[trigger] walk_nested(root, r, k).index.contains_key(p) ==> walk_nested(
                root,
                r,
                k,
            ).index[p].kind() == EntryType::Directory && p.len() < nested(root, r.name@, k).len(),
    decreases k,
{
    let name = r.name@;
    if k == 0 {
        assert(walk_nested(root, r, 0).index.dom() =~= Set::empty());
    } else {
        let k1 = (k - 1) as nat;
        lemma_nested_walk(root, r, k1);
        let v = walk_nested(root, r, k1);
        let dir = nested(root, name, k1);
        let rs = seq![r];
        assert(rs.drop_last() =~= Seq::<Report>::empty());
        assert(rs.last() == r);
        assert(leaves(dir, Seq::empty()) == Map::<Seq<char>, EntryView>::empty());
        assert(children_of_kind(dir, Seq::empty(), EntryType::Directory) == Seq::<Seq<char>>::empty());
        assert(leaves(dir, rs) == leaves(dir, rs.drop_last()));
        assert(leaves(dir, rs) == Map::<Seq<char>, EntryView>::empty());
        assert(children_of_kind(dir, rs, EntryType::Directory) =~= seq![join_of(dir, name)]);
        let d = directory_of(dir, Some(rs));
        assert(!v.index.contains_key(dir));
        let w = step(v, 0, Some(rs));
        assert(w.index =~= v.index.insert(dir, d));
        assert(w.pending =~= seq![nested(root, name, k)]);
        assert(nested(root, name, k) == join_of(dir, name));
        assert(dir.len() < join_of(dir, name).len());
    }
}

/// A chain of `n` nested directories below `root`, each holding only the
/// next, the last one empty, is walked to its end in `n + 1` listings and
/// gives exactly `n + 1` entries, all directories.
pub proof fn lemma_nested_directories(root: Seq<char>, r: Report, n: nat)
    requires
        r.name@.len() > 0,
        r.name@[0] != '/',
        kind_of(r.info) == EntryType::Directory,
    ensures
        step(walk_nested(root, r, n), 0, Some(Seq::empty())).pending.len() == 0,
        step(walk_nested(root, r, n), 0, Some(Seq::empty())).index.dom().finite(),
        step(walk_nested(root, r, n), 0, Some(Seq::empty())).index.dom().len() == n + 1,
        forall|p: Seq<char>|
            #[trigger] step(walk_nested(root, r, n), 0, Some(Seq::empty())).index.contains_key(p)
                ==> step(walk_nested(root, r, n), 0, Some(Seq::empty())).index[p].kind()
                == EntryType::Directory,
{
    lemma_nested_walk(root, r, n);
    let v = walk_nested(root, r, n);
    let dir = nested(root, r.name@, n);
    let w = step(v, 0, Some(Seq::empty()));
    assert(leaves(dir, Seq::empty()) == Map::<Seq<char>, EntryView>::empty());
    assert(!v.index.contains_key(dir));
    assert(w.index =~= v.index.insert(dir, directory_of(dir, Some(Seq::empty()))));
    assert(w.pending =~= Seq::empty());
}

/// A walk over the tree under a root directory. The caller lists each
/// pending directory and records what it found; the indexer classifies the
/// children, builds their entries and queues the subdirectories.
#[derive(Debug)]
pub struct Indexer {
    path: String,
    index: Index,
    pending: Vec<String>,
    skipped: Vec<(String, String)>,
}

impl View for Indexer {
    type V = IndexerView;

    closed spec fn view(&self) -> IndexerView {
        IndexerView { root: self.path@, index: self.index@, pending: strings_view(self.pending@) }
    }
}

impl Indexer {
    /// The walk is in order.
    pub closed spec fn wf(&self) -> bool {
        self.index.wf()
    }

    /// The paths the walk has left out so far, each with the reason.
    pub closed spec fn skipped_view(&self) -> Seq<(Seq<char>, Seq<char>)> {
        skips_view(self.skipped@)
    }

    /// A walk from `start`, given what the filesystem said of it; an error
    /// where it does not exist or is not a directory (a link to one is not).
    pub fn new(start: &str, info: &PathInfo) -> (r: Result<Indexer, FexplorerError>)
        ensures
            !info.exists ==> (r matches Err(FexplorerError::PathDoesNotExist(p)) && p@ == start@),
            info.exists && !(info.is_dir && !link_of(*info)) ==> (r matches Err(
                FexplorerError::FileSystem(FileSystemError::NotADirectory(p)),
            ) && p@ == start@),
            info.exists && info.is_dir && !link_of(*info) ==> (r matches Ok(w) && w.wf() && w@
                == start_of(start@) && w.skipped_view() == Seq::<(Seq<char>, Seq<char>)>::empty()),
    {
        if !info.exists {
            return Err(FexplorerError::PathDoesNotExist(String::from_str(start)));
        }
        if !is_directory(info) {
            return Err(
                FexplorerError::FileSystem(FileSystemError::NotADirectory(String::from_str(start))),
            );
        }
        let mut pending: Vec<String> = Vec::new();
        pending.push(String::from_str(start));
        let w = Indexer {
            path: String::from_str(start),
            index: Index::new(),
            pending,
            skipped: Vec::new(),
        };
        assert(w@.pending =~= seq![start@]);
        assert(w.skipped_view() =~= Seq::empty());
        Ok(w)
    }

    /// The root of the walk.
    pub fn get_path(&self) -> (r: &String)
        ensures
            r@ == self@.root,
    {
        &self.path
    }

    /// The directories still to be listed, in the order they were found.
    pub fn pending(&self) -> (r: &Vec<String>)
        ensures
            strings_view(r@) == self@.pending,
    {
        &self.pending
    }

    /// The paths left out so far, each with the reason: directories that
    /// could not be listed (they are indexed with no children) and links
    /// whose target could not be read.
    pub fn skipped(&self) -> (r: &Vec<(String, String)>)
        ensures
            skips_view(r@) == self.skipped_view(),
    {
        &self.skipped
    }

    /// The next directory to list, if any is left.
    pub fn next_directory(&self) -> (r: Option<&String>)
        ensures
            r is Some <==> self@.pending.len() > 0,
            r is Some ==> r->0@ == self@.pending[0],
    {
        if self.pending.len() == 0 {
            None
        } else {
            Some(&self.pending[0])
        }
    }

    /// Whether every directory found has been listed.
    pub fn is_done(&self) -> (r: bool)
        ensures
            r == (self@.pending.len() == 0),
    {
        self.pending.len() == 0
    }

    /// What the walk has indexed.
    pub fn index(&self) -> (r: &Index)
        requires
            self.wf(),
        ensures
            r@ == self@.index,
            r.wf(),
    {
        &self.index
    }

    /// The finished index, taken out of the walk.
    pub fn into_index(self) -> (r: Index)
        requires
            self.wf(),
        ensures
            r@ == self@.index,
            r.wf(),
    {
        self.index
    }

    /// The paths of the subdirectories in a listing of `path`, in order.
    pub fn get_directories(path: &str, reports: &Vec<Report>) -> (r: Vec<String>)
        ensures
            strings_view(r@) == children_of_kind(path@, reports@, EntryType::Directory),
    {
        Self::children_of_kind(path, reports, EntryType::Directory)
    }

    /// The paths of the files in a listing of `path`, in order.
    pub fn get_files(path: &str, reports: &Vec<Report>) -> (r: Vec<String>)
        ensures
            strings_view(r@) == children_of_kind(path@, reports@, EntryType::File),
    {
        Self::children_of_kind(path, reports, EntryType::File)
    }

    /// The links in a listing of `path` that resolve to a directory or a
    /// file, told apart by which, in order.
    pub fn get_links(path: &str, reports: &Vec<Report>) -> (r: Vec<LinkType>)
        ensures
            r@.map_values(|t: LinkType| t@) == link_types_of(path@, reports@),
    {
        let mut links: Vec<LinkType> = Vec::new();
        let mut i: usize = 0;
        while i < reports.len()
            invariant
                i <= reports@.len(),
                links@.map_values(|t: LinkType| t@) == link_types_of(
                    path@,
                    reports@.subrange(0, i as int),
                ),
            decreases reports@.len() - i,
        {
            let ghost next = reports@.subrange(0, i + 1);
            assert(next.drop_last() =~= reports@.subrange(0, i as int));
            let p = join_path(path, reports[i].name.as_str());
            match get_link_type(p.as_str(), &reports[i].info) {
                Ok(t) => {
                    links.push(t);
                },
                Err(_) => {},
            }
            i = i + 1;
            assert(links@.map_values(|t: LinkType| t@) =~= link_types_of(
                path@,
                reports@.subrange(0, i as int),
            ));
        }
        assert(reports@.subrange(0, i as int) =~= reports@);
        links
    }

    fn children_of_kind(path: &str, reports: &Vec<Report>, k: EntryType) -> (r: Vec<String>)
        ensures
            strings_view(r@) == children_of_kind(path@, reports@, k),
    {
        let mut found: Vec<String> = Vec::new();
        let mut i: usize = 0;
        while i < reports.len()
            invariant
                i <= reports@.len(),
                strings_view(found@) == children_of_kind(path@, reports@.subrange(0, i as int), k),
            decreases reports@.len() - i,
        {
            let ghost next = reports@.subrange(0, i + 1);
            assert(next.drop_last() =~= reports@.subrange(0, i as int));
            if classify(&reports[i].info) == k {
                found.push(join_path(path, reports[i].name.as_str()));
            }
            i = i + 1;
            assert(strings_view(found@) =~= children_of_kind(
                path@,
                reports@.subrange(0, i as int),
                k,
            ));
        }
        assert(reports@.subrange(0, i as int) =~= reports@);
        found
    }

    /// The entries that a listing of `dir` adds, the names of the children
    /// kept, and the links whose target could not be read.
    fn level(dir: &str, reports: &Vec<Report>) -> (r: (Index, Vec<String>, Vec<(String, String)>))
        ensures
            r.0.wf(),
            r.0@ == leaves(dir@, reports@),
            strings_view(r.1@) == kept_names(reports@),
            skips_view(r.2@) == unreadable_links(dir@, reports@),
    {
        let mut level = Index::new();
        let mut names: Vec<String> = Vec::new();
        let mut failures: Vec<(String, String)> = Vec::new();
        let mut i: usize = 0;
        while i < reports.len()
            invariant
                i <= reports@.len(),
                level.wf(),
                level@ == leaves(dir@, reports@.subrange(0, i as int)),
                strings_view(names@) == kept_names(reports@.subrange(0, i as int)),
                skips_view(failures@) == unreadable_links(dir@, reports@.subrange(0, i as int)),
            decreases reports@.len() - i,
        {
            let ghost next = reports@.subrange(0, i + 1);
            assert(next.drop_last() =~= reports@.subrange(0, i as int));
            assert(next.last() == reports@[i as int]);
            let r = &reports[i];
            let p = join_path(dir, r.name.as_str());
            match classify(&r.info) {
                EntryType::Directory => {
                    names.push(r.name.clone());
                },
                EntryType::File => {
                    if let Ok(f) = File::new(p.as_str(), &r.info) {
                        level.insert(Entry::File(f));
                    }
                    names.push(r.name.clone());
                },
                EntryType::Link => {
                    match &r.info.link_target {
                        Ok(_) => {
                            if let Ok(l) = Link::new(p.as_str(), &r.info) {
                                level.insert(Entry::Link(l));
                                names.push(r.name.clone());
                            }
                        },
                        Err(e) => {
                            failures.push((p.clone(), e.clone()));
                        },
                    }
                },
                EntryType::Unknown => {},
            }
            i = i + 1;
            assert(strings_view(names@) =~= kept_names(reports@.subrange(0, i as int)));
            assert(skips_view(failures@) =~= unreadable_links(
                dir@,
                reports@.subrange(0, i as int),
            ));
        }
        assert(reports@.subrange(0, i as int) =~= reports@);
        (level, names, failures)
    }

    /// Records the listing of the `i`th pending directory, or that it could
    /// not be read: the directory gets its entry, with no children where it
    /// could not be read, its files and links get theirs, and its
    /// subdirectories are queued. Nothing fails: an unreadable directory is
    /// left empty and, like a link whose target could not be read, recorded
    /// among the skipped paths.
    pub fn record_listing(&mut self, i: usize, listing: Result<Vec<Report>, String>)
        requires
            old(self).wf(),
            i < old(self)@.pending.len(),
        ensures
            final(self).wf(),
            final(self)@ == step(old(self)@, i as int, listing_view(listing)),
            final(self).skipped_view() == old(self).skipped_view() + skips_of(
                old(self)@.pending[i as int],
                listing,
            ),
    {
        let ghost lv = listing_view(listing);
        let ghost given = listing;
        let ghost old_pending = self@.pending;
        let dir = self.pending.remove(i);
        proof {
            assert(strings_view(self.pending@) =~= old_pending.remove(i as int));
        }
        let ghost skipped_before = self.skipped_view();
        let reports = match listing {
            Ok(reports) => reports,
            Err(e) => {
                self.skipped.push((dir.clone(), e));
                Vec::new()
            },
        };
        assert(reports@ == reports_of(lv));
        let (mut level, names, mut failures) = Self::level(dir.as_str(), &reports);
        assert(unreadable_links(dir@, Seq::empty()) == Seq::<(Seq<char>, Seq<char>)>::empty());
        self.skipped.append(&mut failures);
        assert(self.skipped_view() =~= skipped_before + skips_of(dir@, given));
        let d = Directory::with_names(dir.as_str(), &names);
        level.insert(Entry::Directory(d));
        assert(level@ == level_of(dir@, lv));
        self.index.merge(level);
        let mut subdirs = Self::get_directories(dir.as_str(), &reports);
        let ghost before = self.pending@;
        self.pending.append(&mut subdirs);
        proof {
            assert(strings_view(self.pending@) =~= strings_view(before) + children_of_kind(
                dir@,
                reports@,
                EntryType::Directory,
            ));
        }
    }

    /// The directories indexed so far.
    pub fn index_directories(&self) -> (r: Index)
        requires
            self.wf(),
        ensures
            r.wf(),
            r@ == of_kind(self@.index, EntryType::Directory),
    {
        self.index.directories()
    }

    /// The files indexed so far.
    pub fn index_files(&self) -> (r: Index)
        requires
            self.wf(),
        ensures
            r.wf(),
            r@ == of_kind(self@.index, EntryType::File),
    {
        self.index.files()
    }

    /// The links indexed so far.
    pub fn index_links(&self) -> (r: Index)
        requires
            self.wf(),
        ensures
            r.wf(),
            r@ == of_kind(self@.index, EntryType::Link),
    {
        self.index.links()
    }
}

} // verus!
