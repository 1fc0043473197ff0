use fexplorer::{Entry, EntryType, File, Index, Link, PathInfo};

fn file(path: &str) -> Entry {
    let info = PathInfo {
        exists: true,
        is_dir: false,
        is_file: true,
        is_symlink: false,
        link_target: Err(String::from("Invalid argument")),
    };
    Entry::File(File::new(path, &info).unwrap())
}

fn link(path: &str, target: &str) -> Entry {
    let info = PathInfo {
        exists: true,
        is_dir: false,
        is_file: false,
        is_symlink: true,
        link_target: Ok(String::from(target)),
    };
    Entry::Link(Link::new(path, &info).unwrap())
}

#[test]
fn first_insert_wins() {
    let mut index = Index::new();
    assert!(index.insert(link("/p", "first")));
    assert!(!index.insert(link("/p", "second")));
    assert!(!index.insert(file("/p")));
    assert_eq!(index.len(), 1);
    match index.get("/p") {
        Some(Entry::Link(l)) => assert_eq!(l.get_target(), "first"),
        _ => panic!("the first entry was replaced"),
    }
    assert!(index.get("/q").is_none());
}

#[test]
fn merge_keeps_existing_entries() {
    let mut a = Index::new();
    a.insert(link("/x", "mine"));
    a.insert(file("/y"));
    let mut b = Index::new();
    b.insert(link("/x", "theirs"));
    b.insert(file("/z"));
    a.merge(b);
    assert_eq!(a.len(), 3);
    assert!(a.contains_key("/z"));
    match a.get("/x") {
        Some(Entry::Link(l)) => assert_eq!(l.get_target(), "mine"),
        _ => panic!("the existing entry was replaced"),
    }
}

#[test]
fn filters_by_kind() {
    let mut index = Index::new();
    index.insert(file("/f1"));
    index.insert(link("/l1", "f1"));
    index.insert(file("/f2"));
    let files = index.files();
    assert_eq!(files.len(), 2);
    assert!(files.contains_key("/f1") && files.contains_key("/f2"));
    assert_eq!(index.links().len(), 1);
    assert_eq!(index.directories().len(), 0);
    for e in files.get_entries() {
        assert_eq!(e.get_type(), EntryType::File);
    }
}

#[test]
fn rebuilding_from_entries_gives_the_same_index() {
    let mut index = Index::new();
    index.insert(file("/a"));
    index.insert(link("/b", "a"));
    let rebuilt = Index::from_entries(index.get_entries());
    assert_eq!(rebuilt.len(), 2);
    for e in index.get_entries() {
        assert_eq!(rebuilt.get(e.get_path()).unwrap().get_type(), e.get_type());
    }
    match rebuilt.get("/b") {
        Some(Entry::Link(l)) => assert_eq!(l.get_target(), "a"),
        _ => panic!("/b is no link"),
    }
    let dup = Index::from_entries(&vec![file("/x"), link("/x", "y")]);
    assert_eq!(dup.len(), 1);
    assert_eq!(dup.get("/x").unwrap().get_type(), EntryType::File);
}
