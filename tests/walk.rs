use std::collections::HashMap;

use fexplorer::{
    Entry, EntryType, FexplorerError, FileSystemError, Index, Indexer, PathInfo, Report,
};

fn dir_info() -> PathInfo {
    PathInfo {
        exists: true,
        is_dir: true,
        is_file: false,
        is_symlink: false,
        link_target: Err(String::from("not a link")),
    }
}

fn file_info() -> PathInfo {
    PathInfo {
        exists: true,
        is_dir: false,
        is_file: true,
        is_symlink: false,
        link_target: Err(String::from("not a link")),
    }
}

fn link_info(target: &str, to_file: bool) -> PathInfo {
    PathInfo {
        exists: true,
        is_dir: false,
        is_file: to_file,
        is_symlink: true,
        link_target: Ok(String::from(target)),
    }
}

fn report(name: &str, info: PathInfo) -> Report {
    Report { name: String::from(name), info }
}

/// Walks from `root` over listings kept by directory path; a directory
/// without a listing cannot be read.
fn walk(root: &str, tree: &HashMap<String, Vec<(String, PathInfo)>>) -> Indexer {
    let mut indexer = Indexer::new(root, &dir_info()).unwrap();
    while let Some(dir) = indexer.next_directory() {
        let listing = match tree.get(dir) {
            Some(children) => Ok(children
                .iter()
                .map(|(n, i)| report(n, i.duplicate()))
                .collect()),
            None => Err(String::from("permission denied")),
        };
        indexer.record_listing(0, listing);
    }
    indexer
}

fn children_of(index: &Index, path: &str) -> Vec<String> {
    match index.get(path) {
        Some(Entry::Directory(d)) => {
            let mut names: Vec<String> = d.get_children().iter().map(|c| c.get_name()).collect();
            names.sort();
            names
        }
        _ => panic!("{} is no directory", path),
    }
}

#[test]
fn empty_root_gives_one_directory() {
    let mut tree = HashMap::new();
    tree.insert(String::from("/tmp/e"), Vec::new());
    let indexer = walk("/tmp/e", &tree);
    let index = indexer.index();
    assert_eq!(index.len(), 1);
    assert!(children_of(index, "/tmp/e").is_empty());
    assert!(indexer.is_done());
}

#[test]
fn scenario_directory_file_and_link() {
    let mut tree = HashMap::new();
    tree.insert(
        String::from("/tmp/t"),
        vec![
            (String::from("a"), dir_info()),
            (String::from("b.txt"), file_info()),
            (String::from("c"), link_info("b.txt", true)),
        ],
    );
    tree.insert(String::from("/tmp/t/a"), Vec::new());
    let indexer = walk("/tmp/t", &tree);
    let index = indexer.index();
    assert_eq!(index.len(), 4);
    assert_eq!(children_of(index, "/tmp/t"), vec!["a", "b.txt", "c"]);
    assert!(children_of(index, "/tmp/t/a").is_empty());
    assert!(matches!(index.get("/tmp/t/b.txt"), Some(Entry::File(_))));
    match index.get("/tmp/t/c") {
        Some(Entry::Link(l)) => assert_eq!(l.get_target(), "b.txt"),
        _ => panic!("/tmp/t/c is no link"),
    }
}

#[test]
fn dangling_link_is_kept() {
    let mut tree = HashMap::new();
    let dangling = PathInfo {
        exists: true,
        is_dir: false,
        is_file: false,
        is_symlink: true,
        link_target: Ok(String::from("/nonexistent")),
    };
    tree.insert(String::from("/r"), vec![(String::from("d"), dangling)]);
    let indexer = walk("/r", &tree);
    let index = indexer.index();
    assert_eq!(index.len(), 2);
    match index.get("/r/d") {
        Some(e) => {
            assert_eq!(e.get_type(), EntryType::Link);
            match e {
                Entry::Link(l) => assert_eq!(l.get_target(), "/nonexistent"),
                _ => panic!("/r/d is no link"),
            }
        }
        None => panic!("/r/d is missing"),
    }
    assert_eq!(children_of(index, "/r"), vec!["d"]);
}

#[test]
fn unreadable_subdirectory_is_empty() {
    let mut tree = HashMap::new();
    tree.insert(
        String::from("/r"),
        vec![
            (String::from("locked"), dir_info()),
            (String::from("open"), dir_info()),
            (String::from("f"), file_info()),
        ],
    );
    tree.insert(String::from("/r/open"), vec![(String::from("g"), file_info())]);
    let indexer = walk("/r", &tree);
    let index = indexer.index();
    assert!(children_of(index, "/r/locked").is_empty());
    assert_eq!(
        indexer.skipped(),
        &vec![(String::from("/r/locked"), String::from("permission denied"))]
    );
    assert_eq!(children_of(index, "/r/open"), vec!["g"]);
    assert!(index.contains_key("/r/open/g"));
    assert!(index.contains_key("/r/f"));
    assert_eq!(index.len(), 5);
}

#[test]
fn nested_directories_give_depth_plus_one() {
    let mut tree = HashMap::new();
    let mut path = String::from("/n");
    for _ in 0..3 {
        tree.insert(path.clone(), vec![(String::from("d"), dir_info())]);
        path = format!("{}/d", path);
    }
    tree.insert(path.clone(), Vec::new());
    let indexer = walk("/n", &tree);
    let index = indexer.index();
    assert_eq!(index.len(), 4);
    assert_eq!(indexer.index_directories().len(), 4);
    assert!(index.contains_key("/n/d/d/d"));
}

#[test]
fn listing_order_does_not_change_the_index() {
    let mut first = Indexer::new("/r", &dir_info()).unwrap();
    first.record_listing(
        0,
        Ok(vec![report("x", dir_info()), report("y", dir_info())]),
    );
    let mut second = Indexer::new("/r", &dir_info()).unwrap();
    second.record_listing(
        0,
        Ok(vec![report("x", dir_info()), report("y", dir_info())]),
    );
    assert_eq!(first.pending().len(), 2);
    first.record_listing(0, Ok(vec![report("f", file_info())]));
    first.record_listing(0, Ok(vec![report("g", file_info())]));
    second.record_listing(1, Ok(vec![report("g", file_info())]));
    second.record_listing(0, Ok(vec![report("f", file_info())]));
    let a = first.index();
    let b = second.index();
    assert_eq!(a.len(), b.len());
    for e in a.get_entries() {
        let other = b.get(e.get_path()).unwrap();
        assert_eq!(other.get_type(), e.get_type());
    }
    assert_eq!(children_of(a, "/r/x"), children_of(b, "/r/x"));
    assert_eq!(children_of(a, "/r/y"), children_of(b, "/r/y"));
}

#[test]
fn two_walks_agree() {
    let mut tree = HashMap::new();
    tree.insert(
        String::from("/w"),
        vec![
            (String::from("s"), dir_info()),
            (String::from("l"), link_info("s", false)),
        ],
    );
    tree.insert(String::from("/w/s"), vec![(String::from("f"), file_info())]);
    let a = walk("/w", &tree);
    let b = walk("/w", &tree);
    assert_eq!(a.index().len(), b.index().len());
    for e in a.index().get_entries() {
        assert_eq!(b.index().get(e.get_path()).unwrap().get_type(), e.get_type());
    }
}

#[test]
fn skipped_children() {
    let mut tree = HashMap::new();
    let unknown = PathInfo {
        exists: true,
        is_dir: false,
        is_file: false,
        is_symlink: false,
        link_target: Err(String::from("not a link")),
    };
    let unreadable_link = PathInfo {
        exists: true,
        is_dir: false,
        is_file: true,
        is_symlink: true,
        link_target: Err(String::from("permission denied")),
    };
    tree.insert(
        String::from("/s"),
        vec![(String::from("sock"), unknown), (String::from("l"), unreadable_link)],
    );
    let indexer = walk("/s", &tree);
    assert_eq!(indexer.index().len(), 1);
    assert_eq!(
        indexer.skipped(),
        &vec![(String::from("/s/l"), String::from("permission denied"))]
    );
    assert!(children_of(indexer.index(), "/s").is_empty());
}

#[test]
fn link_to_directory_is_not_followed() {
    let mut tree = HashMap::new();
    let to_dir = PathInfo {
        exists: true,
        is_dir: true,
        is_file: false,
        is_symlink: true,
        link_target: Ok(String::from("/elsewhere")),
    };
    tree.insert(String::from("/k"), vec![(String::from("up"), to_dir)]);
    let indexer = walk("/k", &tree);
    assert_eq!(indexer.index().len(), 2);
    assert_eq!(indexer.index_links().len(), 1);
    assert_eq!(indexer.index_directories().len(), 1);
    assert_eq!(indexer.index_files().len(), 0);
}

#[test]
fn root_must_be_a_directory() {
    let missing = PathInfo {
        exists: false,
        is_dir: false,
        is_file: false,
        is_symlink: false,
        link_target: Err(String::from("no such file")),
    };
    assert!(matches!(
        Indexer::new("/missing", &missing),
        Err(FexplorerError::PathDoesNotExist(p)) if p == "/missing"
    ));
    assert!(matches!(
        Indexer::new("/f", &file_info()),
        Err(FexplorerError::FileSystem(FileSystemError::NotADirectory(p))) if p == "/f"
    ));
    assert!(matches!(
        Indexer::new("/l", &link_info("/d", false)),
        Err(FexplorerError::FileSystem(FileSystemError::NotADirectory(_)))
    ));
    let indexer = Indexer::new("/d", &dir_info()).unwrap();
    assert_eq!(indexer.get_path(), "/d");
    assert_eq!(indexer.next_directory().map(|s| s.as_str()), Some("/d"));
}

#[test]
fn listing_helpers() {
    let reports = vec![
        report("a", dir_info()),
        report("b", file_info()),
        report("c", link_info("b", true)),
        report("d", link_info("a", false)),
    ];
    assert_eq!(Indexer::get_directories("/h", &reports), vec!["/h/a"]);
    assert_eq!(Indexer::get_files("/h", &reports), vec!["/h/b"]);
    let links = Indexer::get_links("/h", &reports);
    assert_eq!(links.len(), 1);
    assert_eq!(links[0], fexplorer::LinkType::File(String::from("/h/c")));
}
