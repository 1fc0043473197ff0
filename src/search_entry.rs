use vstd::prelude::*;

use crate::error::FexplorerError;
use crate::file_system::{classify, kind_of, strings_view, EntryType, PathInfo};
use crate::paths::{file_name, file_name_of};

verus! {

/// Why a child list could not be changed, or a name not be had.
#[derive(Debug, Clone, PartialEq, Eq)]
pub enum SearchError {
    ChildNotFound(String),
    Generic(String),
}

/// A search entry, as a value.
pub struct SearchEntryView {
    pub entry_type: EntryType,
    pub path: Seq<char>,
    pub children: Seq<Seq<char>>,
}

/// A path with its kind and a list of children, each a path relative to it.
#[derive(Debug)]
pub struct SearchEntry {
    entry_type: EntryType,
    path: String,
    children: Vec<String>,
}

impl View for SearchEntry {
    type V = SearchEntryView;

    closed spec fn view(&self) -> SearchEntryView {
        SearchEntryView {
            entry_type: self.entry_type,
            path: self.path@,
            children: strings_view(self.children@),
        }
    }
}

impl SearchEntry {
    /// The entry for `path`, of the kind the filesystem reported, with no
    /// children; an error where the path does not exist.
    pub fn new(path: &str, info: &PathInfo) -> (r: Result<SearchEntry, FexplorerError>)
        ensures
            r is Ok <==> info.exists,
            r is Ok ==> r->Ok_0@ == (SearchEntryView {
                entry_type: kind_of(*info),
                path: path@,
                children: Seq::empty(),
            }),
            r is Err ==> (r->Err_0 matches FexplorerError::PathDoesNotExist(p) && p@ == path@),
    {
        if !info.exists {
            return Err(FexplorerError::PathDoesNotExist(String::from_str(path)));
        }
        let e = SearchEntry {
            entry_type: classify(info),
            path: String::from_str(path),
            children: Vec::new(),
        };
        assert(e@.children =~= Seq::empty());
        Ok(e)
    }

    /// The kind of the entry.
    pub fn get_type(&self) -> (r: EntryType)
        ensures
            r == self@.entry_type,
    {
        self.entry_type
    }

    /// The last component of the entry's path, if it has one.
    pub fn get_name(&self) -> (r: Option<String>)
        ensures
            r is Some <==> file_name_of(self@.path) is Some,
            r is Some ==> r->0@ == file_name_of(self@.path)->0,
    {
        file_name(self.path.as_str())
    }

    /// The path of the entry.
    pub fn get_path(&self) -> (r: String)
        ensures
            r@ == self@.path,
    {
        self.path.clone()
    }

    /// The path of the entry relative to its parent: its last component; an
    /// error where it has none.
    pub fn get_rel_path(&self) -> (r: Result<String, SearchError>)
        ensures
            r is Ok <==> file_name_of(self@.path) is Some,
            r is Ok ==> r->Ok_0@ == file_name_of(self@.path)->0,
            r is Err ==> (r->Err_0 matches SearchError::Generic(m) && m@ == "Could not get name!"@),
    {
        match self.get_name() {
            Some(name) => Ok(name),
            None => Err(SearchError::Generic(String::from_str("Could not get name!"))),
        }
    }

    /// Whether the entry has any child.
    pub fn has_children(&self) -> (r: bool)
        ensures
            r == (self@.children.len() > 0),
    {
        self.children.len() > 0
    }

    /// The children of the entry, in order.
    pub fn get_children(&self) -> (r: &Vec<String>)
        ensures
            strings_view(r@) == self@.children,
    {
        &self.children
    }

    /// Adds a child at the end; `child` is its path relative to the entry.
    pub fn add_child(&mut self, child: String)
        ensures
            final(self)@.children == old(self)@.children.push(child@),
            final(self)@.path == old(self)@.path,
            final(self)@.entry_type == old(self)@.entry_type,
    {
        self.children.push(child);
        assert(strings_view(self.children@) =~= strings_view(old(self).children@).push(child@));
    }

    /// Removes the `i`th child; the last child takes its place.
    pub fn remove_child(&mut self, i: usize)
        requires
            i < old(self)@.children.len(),
        ensures
            final(self)@.children == old(self)@.children.update(
                i as int,
                old(self)@.children.last(),
            ).drop_last(),
            final(self)@.path == old(self)@.path,
            final(self)@.entry_type == old(self)@.entry_type,
    {
        self.children.swap_remove(i);
        assert(strings_view(self.children@) =~= strings_view(old(self).children@).update(
            i as int,
            strings_view(old(self).children@).last(),
        ).drop_last());
    }

    /// Removes the first child equal to `path`, keeping the others in order;
    /// an error where there is none.
    pub fn remove_child_by_value(&mut self, path: &str) -> (r: Result<(), SearchError>)
        ensures
            r is Ok <==> old(self)@.children.contains(path@),
            r is Ok ==> exists|k: int|
                0 <= k < old(self)@.children.len() && old(self)@.children[k] == path@ && (forall|
                    j: int,
                | 0 <= j < k ==> old(self)@.children[j] != path@) && final(self)@.children == old(
                    self,
                )@.children.remove(k),
            r is Err ==> final(self)@.children == old(self)@.children,
            r is Err ==> (r->Err_0 matches SearchError::ChildNotFound(m) && m@
                == "Could not find child!"@),
            final(self)@.path == old(self)@.path,
            final(self)@.entry_type == old(self)@.entry_type,
    {
        let target = String::from_str(path);
        let mut i: usize = 0;
        while i < self.children.len()
            invariant
                i <= self.children@.len(),
                target@ == path@,
                self.children@ == old(self).children@,
                self.path == old(self).path,
                self.entry_type == old(self).entry_type,
                forall|j: int| 0 <= j < i ==> (#[trigger] strings_view(self.children@)[j]) != path@,
            decreases self.children@.len() - i,
        {
            if self.children[i] == target {
                let ghost before = strings_view(self.children@);
                assert(before[i as int] == path@);
                self.children.remove(i);
                assert(strings_view(self.children@) =~= before.remove(i as int));
                return Ok(());
            }
            i = i + 1;
        }
        assert(forall|j: int|
            0 <= j < self.children@.len() ==> (#[trigger] strings_view(self.children@)[j]) != path@);
        Err(SearchError::ChildNotFound(String::from_str("Could not find child!")))
    }
}

} // verus!
