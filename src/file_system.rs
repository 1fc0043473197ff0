use vstd::prelude::*;

use crate::error::{FexplorerError, FileSystemError};
use crate::paths::{join_of, join_path};

verus! {

/// The kind of a path.
#[derive(Debug, Clone, Copy, PartialEq, Eq, Structural)]
pub enum EntryType {
    Directory,
    File,
    Link,
    Unknown,
}

/// What the filesystem reported about one path, without following it where
/// it is a link (`exists`, `is_symlink`, `link_target`) and following it
/// (`is_dir`, `is_file`).
#[derive(Debug, PartialEq, Eq)]
pub struct PathInfo {
    /// The path itself can be stat'ed.
    pub exists: bool,
    /// The path resolves to a directory.
    pub is_dir: bool,
    /// The path resolves to a regular file.
    pub is_file: bool,
    /// The path's own metadata marks it as a symbolic link.
    pub is_symlink: bool,
    /// The raw target read from the link, or the message of the failed read.
    pub link_target: Result<String, String>,
}

impl PathInfo {
    /// A copy of the report.
    pub fn duplicate(&self) -> (r: PathInfo)
        ensures
            r == *self,
    {
        let link_target = match &self.link_target {
            Ok(t) => Ok(t.clone()),
            Err(e) => Err(e.clone()),
        };
        PathInfo {
            exists: self.exists,
            is_dir: self.is_dir,
            is_file: self.is_file,
            is_symlink: self.is_symlink,
            link_target,
        }
    }
}

/// A link: its target can be read, or its own metadata says so.
pub open spec fn link_of(info: PathInfo) -> bool {
    info.link_target is Ok || info.is_symlink
}

/// The kind of a path: a link first, whatever it points to.
pub open spec fn kind_of(info: PathInfo) -> EntryType {
    if link_of(info) {
        EntryType::Link
    } else if info.is_dir {
        EntryType::Directory
    } else if info.is_file {
        EntryType::File
    } else {
        EntryType::Unknown
    }
}

/// The label shown for a kind.
pub open spec fn label_of(t: EntryType) -> Seq<char> {
    match t {
        EntryType::Directory => "Directory"@,
        EntryType::File => "File"@,
        EntryType::Link => "Link"@,
        EntryType::Unknown => "Unknown"@,
    }
}

/// The paths of `es` whose kind is `k`, in their order.
pub open spec fn paths_of_kind(es: Seq<(Seq<char>, PathInfo)>, k: EntryType) -> Seq<Seq<char>>
    decreases es.len(),
{
    if es.len() == 0 {
        Seq::empty()
    } else {
        let r = paths_of_kind(es.drop_last(), k);
        if kind_of(es.last().1) == k {
            r.push(es.last().0)
        } else {
            r
        }
    }
}

/// The entries of a listing of `dir`, each name joined onto `dir`.
pub open spec fn joined(dir: Seq<char>, l: Seq<(String, PathInfo)>) -> Seq<(Seq<char>, PathInfo)> {
    l.map_values(|x: (String, PathInfo)| (join_of(dir, x.0@), x.1))
}

/// Path strings of a vector of pairs, with their infos.
pub open spec fn pairs_view(es: Seq<(String, PathInfo)>) -> Seq<(Seq<char>, PathInfo)> {
    es.map_values(|x: (String, PathInfo)| (x.0@, x.1))
}

/// The view of a vector of strings.
pub open spec fn strings_view(v: Seq<String>) -> Seq<Seq<char>> {
    v.map_values(|s: String| s@)
}

/// Classifies a path by what the filesystem reported of it.
pub fn classify(info: &PathInfo) -> (r: EntryType)
    ensures
        r == kind_of(*info),
{
    if is_link(info) {
        EntryType::Link
    } else if info.is_dir {
        EntryType::Directory
    } else if info.is_file {
        EntryType::File
    } else {
        EntryType::Unknown
    }
}

/// The label shown for a kind.
pub fn get_entry_type(entry_type: &EntryType) -> (r: String)
    ensures
        r@ == label_of(*entry_type),
{
    match entry_type {
        EntryType::Directory => String::from_str("Directory"),
        EntryType::File => String::from_str("File"),
        EntryType::Link => String::from_str("Link"),
        EntryType::Unknown => String::from_str("Unknown"),
    }
}

/// A directory that is not a link.
pub fn is_directory(info: &PathInfo) -> (r: bool)
    ensures
        r == (info.is_dir && !link_of(*info)),
{
    info.is_dir && !is_link(info)
}

/// A regular file that is not a link.
pub fn is_file(info: &PathInfo) -> (r: bool)
    ensures
        r == (info.is_file && !link_of(*info)),
{
    info.is_file && !is_link(info)
}

/// A symbolic link, dangling or not.
pub fn is_link(info: &PathInfo) -> (r: bool)
    ensures
        r == link_of(*info),
{
    match &info.link_target {
        Ok(_) => true,
        Err(_) => info.is_symlink,
    }
}

/// A link that resolves to a directory.
pub fn is_link_to_directory(info: &PathInfo) -> (r: bool)
    ensures
        r == (info.is_dir && link_of(*info)),
{
    info.is_dir && is_link(info)
}

/// A link that resolves to a regular file.
pub fn is_link_to_file(info: &PathInfo) -> (r: bool)
    ensures
        r == (info.is_file && link_of(*info)),
{
    info.is_file && is_link(info)
}

/// The raw target of a link, or the error of reading it.
pub fn get_link_target(info: &PathInfo) -> (r: Result<String, FexplorerError>)
    ensures
        info.link_target is Ok <==> r is Ok,
        r is Ok ==> r->Ok_0@ == info.link_target->Ok_0@,
        r is Err ==> r->Err_0 == FexplorerError::IO(info.link_target->Err_0),
{
    match &info.link_target {
        Ok(t) => Ok(t.clone()),
        Err(e) => Err(FexplorerError::IO(e.clone())),
    }
}

/// A link at `path`, told apart by what it resolves to.
#[derive(Debug, Clone, PartialEq, Eq)]
pub enum LinkType {
    File(String),
    Directory(String),
}

impl View for LinkType {
    /// Whether the link resolves to a directory, and its path.
    type V = (bool, Seq<char>);

    open spec fn view(&self) -> (bool, Seq<char>) {
        match self {
            LinkType::File(p) => (false, p@),
            LinkType::Directory(p) => (true, p@),
        }
    }
}

impl LinkType {
    /// The path of the link.
    pub fn get_path(&self) -> (r: String)
        ensures
            r@ == self@.1,
    {
        match self {
            LinkType::Directory(path) => path.clone(),
            LinkType::File(path) => path.clone(),
        }
    }
}

/// The link at `path` with what it resolves to; an error where `path` is no
/// link to a directory or a file.
pub fn get_link_type(path: &str, info: &PathInfo) -> (r: Result<LinkType, FexplorerError>)
    ensures
        info.is_dir && link_of(*info) ==> (r matches Ok(LinkType::Directory(p)) && p@ == path@),
        !info.is_dir && info.is_file && link_of(*info) ==> (r matches Ok(LinkType::File(p)) && p@
            == path@),
        !((info.is_dir || info.is_file) && link_of(*info)) ==> (r matches Err(
            FexplorerError::FileSystem(FileSystemError::NotALink(p)),
        ) && p@ == path@),
{
    if is_link_to_directory(info) {
        Ok(LinkType::Directory(String::from_str(path)))
    } else if is_link_to_file(info) {
        Ok(LinkType::File(String::from_str(path)))
    } else {
        Err(FexplorerError::FileSystem(FileSystemError::NotALink(String::from_str(path))))
    }
}

/// The paths of a listing of `path`: each name joined onto `path`, in order.
/// A failed listing gives its error.
pub fn get_entries(path: &str, listing: Result<Vec<String>, String>) -> (r: Result<
    Vec<String>,
    FexplorerError,
>)
    ensures
        listing is Ok <==> r is Ok,
        r is Ok ==> strings_view(r->Ok_0@) == listing->Ok_0@.map_values(
            |n: String| join_of(path@, n@),
        ),
        r is Err ==> r->Err_0 == FexplorerError::IO(listing->Err_0),
{
    let names = match listing {
        Ok(names) => names,
        Err(e) => return Err(FexplorerError::IO(e)),
    };
    let mut entries: Vec<String> = Vec::new();
    let mut i: usize = 0;
    while i < names.len()
        invariant
            i <= names@.len(),
            strings_view(entries@) == names@.subrange(0, i as int).map_values(
                |n: String| join_of(path@, n@),
            ),
        decreases names@.len() - i,
    {
        let p = join_path(path, names[i].as_str());
        proof {
            let f = |n: String| join_of(path@, n@);
            assert(names@.subrange(0, i + 1).map_values(f) =~= names@.subrange(
                0,
                i as int,
            ).map_values(f).push(f(names@[i as int])));
        }
        entries.push(p);
        i = i + 1;
        assert(strings_view(entries@) =~= names@.subrange(0, i as int).map_values(
            |n: String| join_of(path@, n@),
        ));
    }
    assert(names@.subrange(0, i as int) =~= names@);
    Ok(entries)
}

/// Splits paths into directories, files and links, each in the order given;
/// paths of no known kind are dropped.
pub fn sort_entries(entries: Vec<(String, PathInfo)>) -> (r: Result<
    (Vec<String>, Vec<String>, Vec<String>),
    FexplorerError,
>)
    ensures
        r is Ok,
        strings_view(r->Ok_0.0@) == paths_of_kind(pairs_view(entries@), EntryType::Directory),
        strings_view(r->Ok_0.1@) == paths_of_kind(pairs_view(entries@), EntryType::File),
        strings_view(r->Ok_0.2@) == paths_of_kind(pairs_view(entries@), EntryType::Link),
{
    let mut directories: Vec<String> = Vec::new();
    let mut files: Vec<String> = Vec::new();
    let mut links: Vec<String> = Vec::new();
    let mut i: usize = 0;
    while i < entries.len()
        invariant
            i <= entries@.len(),
            strings_view(directories@) == paths_of_kind(
                pairs_view(entries@.subrange(0, i as int)),
                EntryType::Directory,
            ),
            strings_view(files@) == paths_of_kind(
                pairs_view(entries@.subrange(0, i as int)),
                EntryType::File,
            ),
            strings_view(links@) == paths_of_kind(
                pairs_view(entries@.subrange(0, i as int)),
                EntryType::Link,
            ),
        decreases entries@.len() - i,
    {
        let ghost before = pairs_view(entries@.subrange(0, i as int));
        let ghost after = pairs_view(entries@.subrange(0, i + 1));
        assert(after.drop_last() =~= before);
        let (p, info) = (&entries[i].0, &entries[i].1);
        let k = classify(info);
        match k {
            EntryType::Directory => directories.push(p.clone()),
            EntryType::File => files.push(p.clone()),
            EntryType::Link => links.push(p.clone()),
            EntryType::Unknown => {},
        }
        i = i + 1;
        assert(strings_view(directories@) =~= paths_of_kind(after, EntryType::Directory));
        assert(strings_view(files@) =~= paths_of_kind(after, EntryType::File));
        assert(strings_view(links@) =~= paths_of_kind(after, EntryType::Link));
    }
    assert(entries@.subrange(0, i as int) =~= entries@);
    Ok((directories, files, links))
}

/// The listing of `path` split into directories, files and links, each name
/// joined onto `path`. A failed listing gives its error.
pub fn get_entries_sorted(path: &str, listing: Result<Vec<(String, PathInfo)>, String>) -> (r:
    Result<(Vec<String>, Vec<String>, Vec<String>), FexplorerError>)
    ensures
        listing is Ok <==> r is Ok,
        r is Ok ==> strings_view(r->Ok_0.0@) == paths_of_kind(
            joined(path@, listing->Ok_0@),
            EntryType::Directory,
        ),
        r is Ok ==> strings_view(r->Ok_0.1@) == paths_of_kind(
            joined(path@, listing->Ok_0@),
            EntryType::File,
        ),
        r is Ok ==> strings_view(r->Ok_0.2@) == paths_of_kind(
            joined(path@, listing->Ok_0@),
            EntryType::Link,
        ),
        r is Err ==> r->Err_0 == FexplorerError::IO(listing->Err_0),
{
    let items = match listing {
        Ok(items) => items,
        Err(e) => return Err(FexplorerError::IO(e)),
    };
    let mut entries: Vec<(String, PathInfo)> = Vec::new();
    let mut i: usize = 0;
    while i < items.len()
        invariant
            i <= items@.len(),
            pairs_view(entries@) == joined(path@, items@.subrange(0, i as int)),
        decreases items@.len() - i,
    {
        let p = join_path(path, items[i].0.as_str());
        let info = items[i].1.duplicate();
        proof {
            assert(joined(path@, items@.subrange(0, i + 1)) =~= joined(
                path@,
                items@.subrange(0, i as int),
            ).push((join_of(path@, items@[i as int].0@), items@[i as int].1)));
        }
        entries.push((p, info));
        i = i + 1;
        assert(pairs_view(entries@) =~= joined(path@, items@.subrange(0, i as int)));
    }
    assert(items@.subrange(0, i as int) =~= items@);
    sort_entries(entries)
}

} // verus!
