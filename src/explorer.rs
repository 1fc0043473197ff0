use vstd::prelude::*;

use crate::error::FexplorerError;
use crate::file_system::{
    get_entries_sorted, get_link_target, is_directory, is_file, is_link_to_directory,
    is_link_to_file, joined, link_of, paths_of_kind, strings_view, EntryType, PathInfo,
};
use crate::paths::{join_of, join_path, parent_of, parent_path};

verus! {

/// An explorer, as a value: the directory shown and its entries.
pub struct ExplorerView {
    pub path: Seq<char>,
    pub directories: Seq<Seq<char>>,
    pub files: Seq<Seq<char>>,
    pub links: Seq<Seq<char>>,
}

/// The entries of a listing of `dir` as an explorer shows them.
pub open spec fn shown(dir: Seq<char>, listing: Seq<(String, PathInfo)>) -> ExplorerView {
    ExplorerView {
        path: dir,
        directories: paths_of_kind(joined(dir, listing), EntryType::Directory),
        files: paths_of_kind(joined(dir, listing), EntryType::File),
        links: paths_of_kind(joined(dir, listing), EntryType::Link),
    }
}

/// The directory an explorer moves to, or the file it opens, when `path` is
/// chosen: a directory is entered, a link to one is followed to its raw
/// target, a file or a link to one is opened; anything else leaves it where
/// it is.
pub open spec fn navigation(current: Seq<char>, path: Seq<char>, info: PathInfo) -> Result<
    (Seq<char>, Option<Seq<char>>),
    FexplorerError,
> {
    if info.is_dir && !link_of(info) {
        Ok((path, None))
    } else if info.is_file && !link_of(info) {
        Ok((current, Some(path)))
    } else if info.is_dir && link_of(info) {
        match info.link_target {
            Ok(t) => Ok((t@, None)),
            Err(e) => Err(FexplorerError::IO(e)),
        }
    } else if info.is_file && link_of(info) {
        Ok((current, Some(path)))
    } else {
        Ok((current, None))
    }
}

/// A directory being explored and its entries, split by kind. Moving to
/// another path is decided here; the caller opens the files it is told to
/// open and lists the directory to show.
#[derive(Debug)]
pub struct Explorer {
    path: String,
    directories: Vec<String>,
    files: Vec<String>,
    links: Vec<String>,
}

impl View for Explorer {
    type V = ExplorerView;

    closed spec fn view(&self) -> ExplorerView {
        ExplorerView {
            path: self.path@,
            directories: strings_view(self.directories@),
            files: strings_view(self.files@),
            links: strings_view(self.links@),
        }
    }
}

impl Explorer {
    /// An explorer showing `path`, given its listing; the listing's error
    /// where it could not be read.
    pub fn new(path: &str, listing: Result<Vec<(String, PathInfo)>, String>) -> (r: Result<
        Explorer,
        FexplorerError,
    >)
        ensures
            listing is Ok <==> r is Ok,
            r is Ok ==> r->Ok_0@ == shown(path@, listing->Ok_0@),
            r is Err ==> r->Err_0 == FexplorerError::IO(listing->Err_0),
    {
        let (directories, files, links) = get_entries_sorted(path, listing)?;
        Ok(Explorer { path: String::from_str(path), directories, files, links })
    }

    /// The directory shown.
    pub fn get_path(&self) -> (r: &String)
        ensures
            r@ == self@.path,
    {
        &self.path
    }

    /// The directories, files and links shown.
    pub fn get_entries(&self) -> (r: (&Vec<String>, &Vec<String>, &Vec<String>))
        ensures
            strings_view(r.0@) == self@.directories,
            strings_view(r.1@) == self@.files,
            strings_view(r.2@) == self@.links,
    {
        (&self.directories, &self.files, &self.links)
    }

    /// Shows the entries of a new listing of the current directory; on the
    /// listing's error nothing changes.
    pub fn update_entries(&mut self, listing: Result<Vec<(String, PathInfo)>, String>) -> (r:
        Result<(), FexplorerError>)
        ensures
            listing is Ok <==> r is Ok,
            r is Ok ==> final(self)@ == shown(old(self)@.path, listing->Ok_0@),
            r is Err ==> r->Err_0 == FexplorerError::IO(listing->Err_0),
            r is Err ==> final(self)@ == old(self)@,
    {
        let (directories, files, links) = get_entries_sorted(self.path.as_str(), listing)?;
        self.directories = directories;
        self.files = files;
        self.links = links;
        Ok(())
    }

    /// Chooses `path`, given what the filesystem said of it: moves to it
    /// where it is a directory, to its raw target where it is a link to one,
    /// and returns the path to open where it is a file or a link to one. The
    /// entries shown stay until the caller lists the current directory again.
    pub fn set_path(&mut self, path: &str, info: &PathInfo) -> (r: Result<
        Option<String>,
        FexplorerError,
    >)
        ensures
            r is Ok <==> navigation(old(self)@.path, path@, *info) is Ok,
            r is Ok ==> final(self)@.path == navigation(old(self)@.path, path@, *info)->Ok_0.0,
            r is Ok ==> (r->Ok_0 is Some <==> navigation(old(self)@.path, path@, *info)->Ok_0.1 is Some),
            r is Ok && r->Ok_0 is Some ==> r->Ok_0->0@ == navigation(
                old(self)@.path,
                path@,
                *info,
            )->Ok_0.1->0,
            r is Err ==> r->Err_0 == navigation(old(self)@.path, path@, *info)->Err_0,
            r is Err ==> final(self)@.path == old(self)@.path,
            final(self)@.directories == old(self)@.directories,
            final(self)@.files == old(self)@.files,
            final(self)@.links == old(self)@.links,
    {
        if is_directory(info) {
            self.path = String::from_str(path);
            Ok(None)
        } else if is_file(info) {
            Ok(Some(String::from_str(path)))
        } else if is_link_to_directory(info) {
            let target = get_link_target(info)?;
            self.path = target;
            Ok(None)
        } else if is_link_to_file(info) {
            Ok(Some(String::from_str(path)))
        } else {
            Ok(None)
        }
    }

    /// Chooses the path `rel_path` below the current directory; see
    /// `set_path`. `info` is what the filesystem said of the joined path.
    pub fn add_path(&mut self, rel_path: &str, info: &PathInfo) -> (r: Result<
        Option<String>,
        FexplorerError,
    >)
        ensures
            ({
                let p = join_of(old(self)@.path, rel_path@);
                let n = navigation(old(self)@.path, p, *info);
                &&& r is Ok <==> n is Ok
                &&& r is Ok ==> final(self)@.path == n->Ok_0.0
                &&& r is Ok ==> (r->Ok_0 is Some <==> n->Ok_0.1 is Some)
                &&& r is Ok && r->Ok_0 is Some ==> r->Ok_0->0@ == n->Ok_0.1->0
                &&& r is Err ==> r->Err_0 == n->Err_0
                &&& r is Err ==> final(self)@.path == old(self)@.path
            }),
            final(self)@.directories == old(self)@.directories,
            final(self)@.files == old(self)@.files,
            final(self)@.links == old(self)@.links,
    {
        let p = join_path(self.path.as_str(), rel_path);
        self.set_path(p.as_str(), info)
    }

    /// The parent of the current directory, or the directory itself where it
    /// has none.
    pub fn get_parent(&self) -> (r: String)
        ensures
            r@ == match parent_of(self@.path) {
                Some(p) => p,
                None => self@.path,
            },
    {
        match parent_path(self.path.as_str()) {
            Some(p) => p,
            None => self.path.clone(),
        }
    }

    /// Moves up to the parent directory (see `get_parent`), in the canonical
    /// form the caller found for it where it found one; `info` is what the
    /// filesystem said of that path. See `set_path`.
    pub fn set_to_parent(&mut self, canonical: Option<String>, info: &PathInfo) -> (r: Result<
        Option<String>,
        FexplorerError,
    >)
        ensures
            ({
                let parent = match parent_of(old(self)@.path) {
                    Some(p) => p,
                    None => old(self)@.path,
                };
                let p = match canonical {
                    Some(c) => c@,
                    None => parent,
                };
                let n = navigation(old(self)@.path, p, *info);
                &&& r is Ok <==> n is Ok
                &&& r is Ok ==> final(self)@.path == n->Ok_0.0
                &&& r is Ok ==> (r->Ok_0 is Some <==> n->Ok_0.1 is Some)
                &&& r is Ok && r->Ok_0 is Some ==> r->Ok_0->0@ == n->Ok_0.1->0
                &&& r is Err ==> r->Err_0 == n->Err_0
                &&& r is Err ==> final(self)@.path == old(self)@.path
            }),
            final(self)@.directories == old(self)@.directories,
            final(self)@.files == old(self)@.files,
            final(self)@.links == old(self)@.links,
    {
        let path = match canonical {
            Some(c) => c,
            None => self.get_parent(),
        };
        self.set_path(path.as_str(), info)
    }
}

} // verus!
