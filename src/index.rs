use vstd::prelude::*;

use crate::entries::{Entry, EntryView};
use crate::file_system::EntryType;

verus! {

/// The map that a sequence of entries with distinct paths makes, each entry
/// under its path.
pub open spec fn map_of(s: Seq<EntryView>) -> Map<Seq<char>, EntryView>
    decreases s.len(),
{
    if s.len() == 0 {
        Map::empty()
    } else {
        map_of(s.drop_last()).insert(s.last().path(), s.last())
    }
}

/// The values of a sequence of entries.
pub open spec fn views(s: Seq<Entry>) -> Seq<EntryView> {
    s.map_values(|e: Entry| e@)
}

/// No two entries share a path.
pub open spec fn distinct_paths(s: Seq<EntryView>) -> bool {
    forall|i: int, j: int| 0 <= i < j < s.len() ==> s[i].path() != s[j].path()
}

/// Each entry of `m` is stored under its own path.
pub open spec fn keyed(m: Map<Seq<char>, EntryView>) -> bool {
    forall|k: Seq<char>| #[trigger] m.contains_key(k) ==> m[k].path() == k
}

/// `m` with `e` added under its path, unless the path is taken: the first
/// entry for a path wins.
pub open spec fn insert_first(m: Map<Seq<char>, EntryView>, e: EntryView) -> Map<
    Seq<char>,
    EntryView,
> {
    if m.contains_key(e.path()) {
        m
    } else {
        m.insert(e.path(), e)
    }
}

/// The union of `a` and `b`; where both hold a path, the entry of `a` wins.
pub open spec fn merge_first(a: Map<Seq<char>, EntryView>, b: Map<Seq<char>, EntryView>) -> Map<
    Seq<char>,
    EntryView,
> {
    b.union_prefer_right(a)
}

/// The entries of `m` of kind `k`.
pub open spec fn of_kind(m: Map<Seq<char>, EntryView>, k: EntryType) -> Map<Seq<char>, EntryView> {
    Map::new(|p: Seq<char>| m.contains_key(p) && m[p].kind() == k, |p: Seq<char>| m[p])
}

/// The map that adding the entries of `s` one by one makes, the first entry
/// for a path winning.
pub open spec fn fold_first(s: Seq<EntryView>) -> Map<Seq<char>, EntryView>
    decreases s.len(),
{
    if s.len() == 0 {
        Map::empty()
    } else {
        insert_first(fold_first(s.drop_last()), s.last())
    }
}

proof fn lemma_map_of(s: Seq<EntryView>)
    ensures
        forall|k: Seq<char>|
            #[trigger] map_of(s).contains_key(k) <==> exists|i: int|
                0 <= i < s.len() && #[trigger] s[i].path() == k,
        distinct_paths(s) ==> forall|i: int|
            0 <= i < s.len() ==> map_of(s)[#[trigger] s[i].path()] == s[i],
        distinct_paths(s) ==> map_of(s).dom().finite() && map_of(s).dom().len() == s.len(),
        keyed(map_of(s)),
    decreases s.len(),
{
    if s.len() > 0 {
        let t = s.drop_last();
        lemma_map_of(t);
        assert forall|k: Seq<char>| #[trigger] map_of(s).contains_key(k) <==> exists|i: int|
            0 <= i < s.len() && #[trigger] s[i].path() == k by {
            if map_of(s).contains_key(k) && k != s.last().path() {
                let i = choose|i: int| 0 <= i < t.len() && #[trigger] t[i].path() == k;
                assert(s[i].path() == k);
            }
            if exists|i: int| 0 <= i < s.len() && #[trigger] s[i].path() == k {
                let i = choose|i: int| 0 <= i < s.len() && #[trigger] s[i].path() == k;
                if i < t.len() {
                    assert(t[i].path() == k);
                }
            }
        }
        if distinct_paths(s) {
            assert(distinct_paths(t));
            assert(!map_of(t).contains_key(s.last().path())) by {
                if map_of(t).contains_key(s.last().path()) {
                    let i = choose|i: int|
                        0 <= i < t.len() && #[trigger] t[i].path() == s.last().path();
                    assert(s[i].path() == s[s.len() - 1].path());
                }
            }
            assert forall|i: int| 0 <= i < s.len() implies map_of(s)[#[trigger] s[i].path()]
                == s[i] by {
                if i < t.len() {
                    assert(t[i] == s[i]);
                    assert(s[i].path() != s[s.len() - 1].path());
                }
            }
        }
    }
}

proof fn lemma_merge_step(a: Map<Seq<char>, EntryView>, m: Map<Seq<char>, EntryView>, e: EntryView)
    requires
        !m.contains_key(e.path()),
    ensures
        merge_first(a, m.insert(e.path(), e)) == merge_first(insert_first(a, e), m),
{
    assert(merge_first(a, m.insert(e.path(), e)) =~= merge_first(insert_first(a, e), m));
}

/// Rebuilding an index from the entries it hands out gives the same index:
/// with no path twice, adding the entries one by one makes the map they form.
pub proof fn lemma_rebuild_from_entries(s: Seq<EntryView>)
    requires
        distinct_paths(s),
    ensures
        fold_first(s) == map_of(s),
    decreases s.len(),
{
    if s.len() > 0 {
        let t = s.drop_last();
        assert(distinct_paths(t));
        lemma_rebuild_from_entries(t);
        lemma_map_of(t);
        assert(!map_of(t).contains_key(s.last().path())) by {
            if map_of(t).contains_key(s.last().path()) {
                let i = choose|i: int| 0 <= i < t.len() && #[trigger] t[i].path() == s.last().path();
                assert(s[i].path() == s[s.len() - 1].path());
            }
        }
    }
}

/// A map from path to entry: each path at most once, and each entry under
/// its own path.
#[derive(Debug)]
pub struct Index {
    entries: Vec<Entry>,
}

impl View for Index {
    type V = Map<Seq<char>, EntryView>;

    closed spec fn view(&self) -> Map<Seq<char>, EntryView> {
        map_of(views(self.entries@))
    }
}

impl Index {
    /// No two entries of the index share a path.
    pub closed spec fn wf(&self) -> bool {
        distinct_paths(views(self.entries@))
    }

    /// An empty index.
    pub fn new() -> (r: Index)
        ensures
            r@ == Map::<Seq<char>, EntryView>::empty(),
            r.wf(),
    {
        Index { entries: Vec::new() }
    }

    /// The index that adding `entries` one by one makes, the first entry for
    /// a path winning.
    pub fn from_entries(entries: &Vec<Entry>) -> (r: Index)
        ensures
            r.wf(),
            r@ == fold_first(views(entries@)),
    {
        let mut r = Index::new();
        let mut i: usize = 0;
        while i < entries.len()
            invariant
                i <= entries@.len(),
                r.wf(),
                r@ == fold_first(views(entries@.subrange(0, i as int))),
            decreases entries@.len() - i,
        {
            let ghost next = views(entries@.subrange(0, i + 1));
            assert(next.drop_last() =~= views(entries@.subrange(0, i as int)));
            assert(next.last() == entries@[i as int]@);
            r.insert(entries[i].duplicate());
            i = i + 1;
        }
        assert(entries@.subrange(0, i as int) =~= entries@);
        r
    }

    /// The number of paths in the index.
    pub fn len(&self) -> (r: usize)
        requires
            self.wf(),
        ensures
            r == self@.dom().len(),
            self@.dom().finite(),
            keyed(self@),
    {
        proof {
            lemma_map_of(views(self.entries@));
        }
        self.entries.len()
    }

    /// The position of the entry at `path`, if there is one.
    fn position(&self, path: &str) -> (r: Option<usize>)
        requires
            self.wf(),
        ensures
            r is Some <==> self@.contains_key(path@),
            r is Some ==> r->0 < self.entries@.len() && self.entries@[r->0 as int]@ == self@[path@],
            keyed(self@),
    {
        proof {
            lemma_map_of(views(self.entries@));
        }
        let target = String::from_str(path);
        let mut i: usize = 0;
        while i < self.entries.len()
            invariant
                i <= self.entries@.len(),
                target@ == path@,
                self.wf(),
                forall|j: int| 0 <= j < i ==> (#[trigger] views(self.entries@)[j]).path() != path@,
            decreases self.entries@.len() - i,
        {
            let same = *self.entries[i].get_path() == target;
            if same {
                proof {
                    lemma_map_of(views(self.entries@));
                }
                assert(views(self.entries@)[i as int].path() == path@);
                return Some(i);
            }
            i = i + 1;
        }
        None
    }

    /// Whether the index holds `path`.
    pub fn contains_key(&self, path: &str) -> (r: bool)
        requires
            self.wf(),
        ensures
            r == self@.contains_key(path@),
    {
        self.position(path).is_some()
    }

    /// The entry at `path`, if there is one.
    pub fn get(&self, path: &str) -> (r: Option<&Entry>)
        requires
            self.wf(),
        ensures
            r is Some <==> self@.contains_key(path@),
            r is Some ==> r->0@ == self@[path@],
    {
        match self.position(path) {
            Some(i) => Some(&self.entries[i]),
            None => None,
        }
    }

    /// Adds `entry` under its path, unless the path is taken already; tells
    /// whether it was added.
    pub fn insert(&mut self, entry: Entry) -> (r: bool)
        requires
            old(self).wf(),
        ensures
            final(self).wf(),
            final(self)@ == insert_first(old(self)@, entry@),
            r == !old(self)@.contains_key(entry@.path()),
    {
        let p = entry.get_path().clone();
        if self.contains_key(p.as_str()) {
            return false;
        }
        proof {
            lemma_map_of(views(self.entries@));
        }
        let ghost before = views(self.entries@);
        self.entries.push(entry);
        proof {
            let after = views(self.entries@);
            assert(after =~= before.push(entry@));
            assert(after.drop_last() =~= before);
            assert forall|i: int, j: int| 0 <= i < j < after.len() implies after[i].path()
                != after[j].path() by {
                if j == after.len() - 1 {
                    assert(after[i] == before[i]);
                    assert(map_of(before).contains_key(before[i].path()));
                }
            }
        }
        true
    }

    /// Adds the entries of `other` whose paths are not taken yet.
    pub fn merge(&mut self, other: Index)
        requires
            old(self).wf(),
            other.wf(),
        ensures
            final(self).wf(),
            final(self)@ == merge_first(old(self)@, other@),
    {
        let ghost all = views(other.entries@);
        let mut rest = other.entries;
        assert(merge_first(self@, map_of(all)) =~= merge_first(old(self)@, map_of(all)));
        while rest.len() > 0
            invariant
                self.wf(),
                merge_first(old(self)@, map_of(all)) == merge_first(self@, map_of(views(rest@))),
                distinct_paths(views(rest@)),
            decreases rest@.len(),
        {
            let ghost vs = views(rest@);
            let e = rest.pop().unwrap();
            proof {
                let t = views(rest@);
                assert(vs.drop_last() =~= t);
                assert(vs.last() == e@);
                assert(distinct_paths(t));
                lemma_map_of(t);
                assert(!map_of(t).contains_key(e@.path())) by {
                    if map_of(t).contains_key(e@.path()) {
                        let i = choose|i: int| 0 <= i < t.len() && #[trigger] t[i].path() == e@.path();
                        assert(vs[i].path() == vs[vs.len() - 1].path());
                    }
                }
                lemma_merge_step(self@, map_of(t), e@);
            }
            self.insert(e);
        }
        assert(merge_first(self@, map_of(views(rest@))) =~= self@);
    }

    /// The entries of kind `k`.
    fn of_kind(&self, k: EntryType) -> (r: Index)
        requires
            self.wf(),
        ensures
            r@ == of_kind(self@, k),
            r.wf(),
    {
        let ghost s = views(self.entries@);
        let mut r = Index::new();
        let mut i: usize = 0;
        while i < self.entries.len()
            invariant
                i <= self.entries@.len(),
                s == views(self.entries@),
                distinct_paths(s),
                r@ == of_kind(map_of(s.subrange(0, i as int)), k),
                r@.dom().subset_of(map_of(s.subrange(0, i as int)).dom()),
                r.wf(),
            decreases self.entries@.len() - i,
        {
            let ghost prev = s.subrange(0, i as int);
            let ghost next = s.subrange(0, i + 1);
            proof {
                assert(next.drop_last() =~= prev);
                assert(next.last() == s[i as int]);
                lemma_map_of(prev);
                assert(!map_of(prev).contains_key(s[i as int].path())) by {
                    if map_of(prev).contains_key(s[i as int].path()) {
                        let j = choose|j: int|
                            0 <= j < prev.len() && #[trigger] prev[j].path() == s[i as int].path();
                        assert(s[j].path() == s[i as int].path());
                    }
                }
            }
            if self.entries[i].get_type() == k {
                let e = self.entries[i].duplicate();
                r.insert(e);
                assert(r@ =~= of_kind(map_of(next), k));
            } else {
                assert(r@ =~= of_kind(map_of(next), k));
            }
            i = i + 1;
        }
        assert(s.subrange(0, i as int) =~= s);
        r
    }

    /// The directories of the index.
    pub fn directories(&self) -> (r: Index)
        requires
            self.wf(),
        ensures
            r@ == of_kind(self@, EntryType::Directory),
            r.wf(),
    {
        self.of_kind(EntryType::Directory)
    }

    /// The files of the index.
    pub fn files(&self) -> (r: Index)
        requires
            self.wf(),
        ensures
            r@ == of_kind(self@, EntryType::File),
            r.wf(),
    {
        self.of_kind(EntryType::File)
    }

    /// The links of the index.
    pub fn links(&self) -> (r: Index)
        requires
            self.wf(),
        ensures
            r@ == of_kind(self@, EntryType::Link),
            r.wf(),
    {
        self.of_kind(EntryType::Link)
    }

    /// The entries of the index, each path once.
    pub fn get_entries(&self) -> (r: &Vec<Entry>)
        requires
            self.wf(),
        ensures
            map_of(views(r@)) == self@,
            distinct_paths(views(r@)),
    {
        &self.entries
    }
}

} // verus!
