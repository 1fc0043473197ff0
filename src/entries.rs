use vstd::prelude::*;

use crate::file_system::{is_directory, is_file, link_of, strings_view, EntryType, PathInfo};
use crate::paths::{get_path_name, join_of, join_path, name_of};

verus! {

broadcast use {
    vstd::seq_lib::group_seq_properties,
    vstd::seq::Seq::lemma_push_to_set_commute,
};

/// Why an entry could not be made from a path.
#[derive(Debug, Clone, PartialEq, Eq)]
pub enum Error {
    InvalidEntryType(String),
    IO(String),
}

/// The name of one child of a directory, relative to that directory.
#[derive(Debug)]
pub struct Child {
    dir_name: String,
}

/// The names held by a sequence of children, in order.
pub open spec fn child_names(children: Seq<Child>) -> Seq<Seq<char>> {
    children.map_values(|c: Child| c@)
}

/// The names held by a sequence of children, as a set.
pub open spec fn names_of(children: Seq<Child>) -> Set<Seq<char>> {
    child_names(children).to_set()
}

impl View for Child {
    type V = Seq<char>;

    closed spec fn view(&self) -> Seq<char> {
        self.dir_name@
    }
}

impl Child {
    /// A child named `dir_name`.
    pub fn new(dir_name: &str) -> (r: Child)
        ensures
            r@ == dir_name@,
    {
        Child { dir_name: String::from_str(dir_name) }
    }

    /// A child named `dir_name`.
    pub fn from_str(dir_name: &str) -> (r: Child)
        ensures
            r@ == dir_name@,
    {
        Self::new(dir_name)
    }

    /// The child that `path` names within its parent.
    pub fn from_path(path: &str) -> (r: Child)
        ensures
            r@ == name_of(path@),
    {
        let name = Self::get_name_from_path(path);
        Self::new(name.as_str())
    }

    /// The path of this child within `directory`.
    pub fn get_full_path(&self, directory: &Directory) -> (r: String)
        ensures
            r@ == join_of(directory@.path, self@),
    {
        join_path(directory.path.as_str(), self.dir_name.as_str())
    }

    fn get_name_from_path(path: &str) -> (r: String)
        ensures
            r@ == name_of(path@),
    {
        get_path_name(path)
    }

    /// The child's name.
    pub fn get_name(&self) -> (r: String)
        ensures
            r@ == self@,
    {
        self.dir_name.clone()
    }

    fn duplicate(&self) -> (r: Child)
        ensures
            r@ == self@,
    {
        Child { dir_name: self.dir_name.clone() }
    }
}

/// A directory: its path and the names of its children.
pub struct DirectoryView {
    pub path: Seq<char>,
    pub children: Set<Seq<char>>,
}

/// A directory and the names of its children.
#[derive(Debug)]
pub struct Directory {
    path: String,
    children: Vec<Child>,
}

impl View for Directory {
    type V = DirectoryView;

    closed spec fn view(&self) -> DirectoryView {
        DirectoryView { path: self.path@, children: names_of(self.children@) }
    }
}

impl Directory {
    /// The directory at `path`, with the given children or none; an error
    /// where `path` is no directory, or is a link.
    pub fn new(path: &str, info: &PathInfo, children: Option<Vec<Child>>) -> (r: Result<
        Directory,
        Error,
    >)
        ensures
            r is Ok <==> info.is_dir && !link_of(*info),
            r is Ok ==> r->Ok_0@.path == path@,
            r is Ok ==> r->Ok_0@.children == match children {
                Some(c) => names_of(c@),
                None => Set::empty(),
            },
            r is Err ==> (r->Err_0 matches Error::InvalidEntryType(m) && m@ == "Not a directory!"@),
    {
        if !is_directory(info) {
            return Err(Error::InvalidEntryType(String::from_str("Not a directory!")));
        }
        let children = match children {
            Some(children) => children,
            None => Vec::new(),
        };
        assert(names_of(Seq::<Child>::empty()) =~= Set::empty());
        Ok(Directory { path: String::from_str(path), children })
    }

    /// The directory at `path` with the children named in `names`.
    pub fn with_names(path: &str, names: &Vec<String>) -> (r: Directory)
        ensures
            r@.path == path@,
            r@.children == strings_view(names@).to_set(),
    {
        let mut children: Vec<Child> = Vec::new();
        let mut i: usize = 0;
        while i < names.len()
            invariant
                i <= names@.len(),
                child_names(children@) == strings_view(names@.subrange(0, i as int)),
            decreases names@.len() - i,
        {
            let c = Child::new(names[i].as_str());
            proof {
                let f = |n: String| n@;
                assert(names@.subrange(0, i + 1).map_values(f) =~= names@.subrange(
                    0,
                    i as int,
                ).map_values(f).push(f(names@[i as int])));
            }
            children.push(c);
            i = i + 1;
            assert(child_names(children@) =~= strings_view(names@.subrange(0, i as int)));
        }
        assert(names@.subrange(0, i as int) =~= names@);
        Directory { path: String::from_str(path), children }
    }

    /// The children of the directory.
    pub fn get_children(&self) -> (r: &Vec<Child>)
        ensures
            names_of(r@) == self@.children,
    {
        &self.children
    }

    /// The child named `name`, if the directory has one.
    pub fn get_child_by_string(&self, name: &str) -> (r: Option<&Child>)
        ensures
            r is Some <==> self@.children.contains(name@),
            r is Some ==> r->0@ == name@,
    {
        let target = String::from_str(name);
        let mut i: usize = 0;
        while i < self.children.len()
            invariant
                i <= self.children@.len(),
                target@ == name@,
                forall|j: int| 0 <= j < i ==> self.children@[j]@ != name@,
            decreases self.children@.len() - i,
        {
            let same = self.children[i].dir_name == target;
            if same {
                assert(self.children@[i as int]@ == name@);
                assert(child_names(self.children@)[i as int] == name@);
                return Some(&self.children[i]);
            }
            assert(self.children@[i as int]@ != name@);
            i = i + 1;
        }
        assert(forall|j: int|
            0 <= j < self.children@.len() ==> #[trigger] child_names(self.children@)[j]
                != name@);
        None
    }

    /// Adds the name of `name` as a child, where it is not one yet.
    fn add_name(&mut self, name: &str)
        ensures
            final(self)@.path == old(self)@.path,
            final(self)@.children == old(self)@.children.insert(name@),
    {
        if self.get_child_by_string(name).is_none() {
            let c = Child::new(name);
            self.children.push(c);
            assert(child_names(self.children@) =~= child_names(old(self).children@).push(name@));
        } else {
            assert(old(self)@.children.insert(name@) =~= old(self)@.children);
        }
    }

    /// Adds `directory` as a child, by its name.
    pub fn add_child(&mut self, directory: &Directory)
        ensures
            final(self)@.path == old(self)@.path,
            final(self)@.children == old(self)@.children.insert(name_of(directory@.path)),
    {
        let name = get_path_name(directory.path.as_str());
        self.add_name(name.as_str());
    }

    /// Adds each of `children` as a child, by its name.
    pub fn add_children(&mut self, children: Vec<Directory>)
        ensures
            final(self)@.path == old(self)@.path,
            final(self)@.children == old(self)@.children + children@.map_values(
                |d: Directory| name_of(d@.path),
            ).to_set(),
    {
        let mut i: usize = 0;
        while i < children.len()
            invariant
                i <= children@.len(),
                self@.path == old(self)@.path,
                self@.children == old(self)@.children + children@.subrange(0, i as int).map_values(
                    |d: Directory| name_of(d@.path),
                ).to_set(),
            decreases children@.len() - i,
        {
            proof {
                let f = |d: Directory| name_of(d@.path);
                assert(children@.subrange(0, i + 1).map_values(f) =~= children@.subrange(
                    0,
                    i as int,
                ).map_values(f).push(f(children@[i as int])));
            }
            self.add_child(&children[i]);
            i = i + 1;
            assert(self@.children =~= old(self)@.children + children@.subrange(
                0,
                i as int,
            ).map_values(|d: Directory| name_of(d@.path)).to_set());
        }
        assert(children@.subrange(0, i as int) =~= children@);
    }

    /// The path of the directory.
    pub fn get_path(&self) -> (r: &String)
        ensures
            r@ == self@.path,
    {
        &self.path
    }

    /// The name of the directory.
    pub fn get_name(&self) -> (r: String)
        ensures
            r@ == name_of(self@.path),
    {
        get_path_name(self.path.as_str())
    }

    fn duplicate(&self) -> (r: Directory)
        ensures
            r@ == self@,
    {
        let mut children: Vec<Child> = Vec::new();
        let mut i: usize = 0;
        while i < self.children.len()
            invariant
                i <= self.children@.len(),
                child_names(children@) == child_names(self.children@.subrange(0, i as int)),
            decreases self.children@.len() - i,
        {
            let c = self.children[i].duplicate();
            proof {
                let f = |c: Child| c@;
                assert(self.children@.subrange(0, i + 1).map_values(f) =~= self.children@.subrange(
                    0,
                    i as int,
                ).map_values(f).push(f(self.children@[i as int])));
            }
            children.push(c);
            i = i + 1;
            assert(child_names(children@) =~= child_names(self.children@.subrange(0, i as int)));
        }
        assert(self.children@.subrange(0, i as int) =~= self.children@);
        Directory { path: self.path.clone(), children }
    }
}

/// A regular file.
#[derive(Debug)]
pub struct File {
    path: String,
}

impl View for File {
    type V = Seq<char>;

    closed spec fn view(&self) -> Seq<char> {
        self.path@
    }
}

impl File {
    /// The file at `path`; an error where `path` is no regular file, or is a
    /// link.
    pub fn new(path: &str, info: &PathInfo) -> (r: Result<File, Error>)
        ensures
            r is Ok <==> info.is_file && !link_of(*info),
            r is Ok ==> r->Ok_0@ == path@,
            r is Err ==> (r->Err_0 matches Error::InvalidEntryType(m) && m@ == "Not a file!"@),
    {
        if !is_file(info) {
            return Err(Error::InvalidEntryType(String::from_str("Not a file!")));
        }
        Ok(File { path: String::from_str(path) })
    }

    /// The file at `path`, as recorded earlier.
    pub fn from_path(path: &str) -> (r: File)
        ensures
            r@ == path@,
    {
        File { path: String::from_str(path) }
    }

    /// The path of the file.
    pub fn get_path(&self) -> (r: &String)
        ensures
            r@ == self@,
    {
        &self.path
    }

    /// The name of the file.
    pub fn get_name(&self) -> (r: String)
        ensures
            r@ == name_of(self@),
    {
        get_path_name(self.path.as_str())
    }
}

/// A symbolic link and its raw target.
#[derive(Debug)]
pub struct Link {
    path: String,
    target: String,
}

impl View for Link {
    type V = (Seq<char>, Seq<char>);

    closed spec fn view(&self) -> (Seq<char>, Seq<char>) {
        (self.path@, self.target@)
    }
}

impl Link {
    /// The link at `path`, with the target read from it; an error where no
    /// target could be read.
    pub fn new(path: &str, info: &PathInfo) -> (r: Result<Link, Error>)
        ensures
            r is Ok <==> info.link_target is Ok,
            r is Ok ==> r->Ok_0@ == (path@, info.link_target->Ok_0@),
            r is Err ==> (r->Err_0 matches Error::InvalidEntryType(m) && m@ == "Not a link!"@),
    {
        match &info.link_target {
            Ok(t) => Ok(Link { path: String::from_str(path), target: t.clone() }),
            Err(_) => Err(Error::InvalidEntryType(String::from_str("Not a link!"))),
        }
    }

    /// The link at `path` with the raw target `target`, as recorded earlier.
    pub fn from_parts(path: &str, target: &str) -> (r: Link)
        ensures
            r@ == (path@, target@),
    {
        Link { path: String::from_str(path), target: String::from_str(target) }
    }

    /// The path of the link.
    pub fn get_path(&self) -> (r: &String)
        ensures
            r@ == self@.0,
    {
        &self.path
    }

    /// The raw target of the link.
    pub fn get_target(&self) -> (r: &String)
        ensures
            r@ == self@.1,
    {
        &self.target
    }

    /// The name of the link.
    pub fn get_name(&self) -> (r: String)
        ensures
            r@ == name_of(self@.0),
    {
        get_path_name(self.path.as_str())
    }
}

/// One entry of an index, as a value.
pub enum EntryView {
    Directory { path: Seq<char>, children: Set<Seq<char>> },
    File { path: Seq<char> },
    Link { path: Seq<char>, target: Seq<char> },
}

impl EntryView {
    /// The path of the entry.
    pub open spec fn path(self) -> Seq<char> {
        match self {
            EntryView::Directory { path, .. } => path,
            EntryView::File { path } => path,
            EntryView::Link { path, .. } => path,
        }
    }

    /// The kind of the entry.
    pub open spec fn kind(self) -> EntryType {
        match self {
            EntryView::Directory { .. } => EntryType::Directory,
            EntryView::File { .. } => EntryType::File,
            EntryView::Link { .. } => EntryType::Link,
        }
    }
}

/// One entry of an index: a directory, a file or a link.
#[derive(Debug)]
pub enum Entry {
    Directory(Directory),
    File(File),
    Link(Link),
}

impl View for Entry {
    type V = EntryView;

    open spec fn view(&self) -> EntryView {
        match self {
            Entry::Directory(d) => EntryView::Directory { path: d@.path, children: d@.children },
            Entry::File(f) => EntryView::File { path: f@ },
            Entry::Link(l) => EntryView::Link { path: l@.0, target: l@.1 },
        }
    }
}

impl Entry {
    /// The path of the entry.
    pub fn get_path(&self) -> (r: &String)
        ensures
            r@ == self@.path(),
    {
        match self {
            Entry::Directory(d) => d.get_path(),
            Entry::File(f) => f.get_path(),
            Entry::Link(l) => l.get_path(),
        }
    }

    /// The kind of the entry.
    pub fn get_type(&self) -> (r: EntryType)
        ensures
            r == self@.kind(),
    {
        match self {
            Entry::Directory(_) => EntryType::Directory,
            Entry::File(_) => EntryType::File,
            Entry::Link(_) => EntryType::Link,
        }
    }

    /// The name of the entry.
    pub fn get_name(&self) -> (r: String)
        ensures
            r@ == name_of(self@.path()),
    {
        get_path_name(self.get_path().as_str())
    }

    /// A copy of the entry.
    pub fn duplicate(&self) -> (r: Entry)
        ensures
            r@ == self@,
    {
        match self {
            Entry::Directory(d) => Entry::Directory(d.duplicate()),
            Entry::File(f) => Entry::File(File { path: f.path.clone() }),
            Entry::Link(l) => Entry::Link(Link { path: l.path.clone(), target: l.target.clone() }),
        }
    }
}

} // verus!
