use fexplorer::{
    classify, get_entries, get_entries_sorted, get_entry_type, get_link_target, get_link_type,
    is_directory, is_file, is_link, is_link_to_directory, is_link_to_file, sort_entries,
    EntryType, FexplorerError, FileSystemError, LinkType, PathInfo,
};

fn info(is_dir: bool, is_file: bool, is_symlink: bool, target: Option<&str>) -> PathInfo {
    PathInfo {
        exists: true,
        is_dir,
        is_file,
        is_symlink,
        link_target: match target {
            Some(t) => Ok(String::from(t)),
            None => Err(String::from("Invalid argument")),
        },
    }
}

#[test]
fn classify_puts_links_first() {
    assert_eq!(classify(&info(true, false, false, None)), EntryType::Directory);
    assert_eq!(classify(&info(false, true, false, None)), EntryType::File);
    assert_eq!(classify(&info(true, false, true, Some("d"))), EntryType::Link);
    assert_eq!(classify(&info(false, false, true, None)), EntryType::Link);
    assert_eq!(classify(&info(false, false, false, Some("/nonexistent"))), EntryType::Link);
    assert_eq!(classify(&info(false, false, false, None)), EntryType::Unknown);
}

#[test]
fn kind_predicates() {
    let dir = info(true, false, false, None);
    let link_dir = info(true, false, true, Some("d"));
    let link_file = info(false, true, true, Some("f"));
    assert!(is_directory(&dir) && !is_directory(&link_dir));
    assert!(is_file(&info(false, true, false, None)) && !is_file(&link_file));
    assert!(is_link(&link_dir) && !is_link(&dir));
    assert!(is_link_to_directory(&link_dir) && !is_link_to_directory(&link_file));
    assert!(is_link_to_file(&link_file) && !is_link_to_file(&link_dir));
}

#[test]
fn entry_type_labels() {
    assert_eq!(get_entry_type(&EntryType::Directory), "Directory");
    assert_eq!(get_entry_type(&EntryType::File), "File");
    assert_eq!(get_entry_type(&EntryType::Link), "Link");
    assert_eq!(get_entry_type(&EntryType::Unknown), "Unknown");
}

#[test]
fn link_target_and_type() {
    assert_eq!(get_link_target(&info(false, true, true, Some("../x"))), Ok(String::from("../x")));
    assert_eq!(
        get_link_target(&info(false, true, false, None)),
        Err(FexplorerError::IO(String::from("Invalid argument")))
    );
    assert_eq!(
        get_link_type("/l", &info(true, false, true, Some("d"))),
        Ok(LinkType::Directory(String::from("/l")))
    );
    assert_eq!(
        get_link_type("/l", &info(false, true, true, Some("f"))),
        Ok(LinkType::File(String::from("/l")))
    );
    assert_eq!(
        get_link_type("/l", &info(false, true, false, None)),
        Err(FexplorerError::FileSystem(FileSystemError::NotALink(String::from("/l"))))
    );
    assert_eq!(LinkType::File(String::from("/p")).get_path(), "/p");
}

#[test]
fn entries_are_joined_onto_the_directory() {
    let names = vec![String::from("a"), String::from("b")];
    assert_eq!(get_entries("/d", Ok(names)), Ok(vec![String::from("/d/a"), String::from("/d/b")]));
    assert_eq!(
        get_entries("/d", Err(String::from("Permission denied"))),
        Err(FexplorerError::IO(String::from("Permission denied")))
    );
}

#[test]
fn sorting_splits_by_kind_in_order() {
    let entries = vec![
        (String::from("/d/f1"), info(false, true, false, None)),
        (String::from("/d/s"), info(true, false, false, None)),
        (String::from("/d/l"), info(true, false, true, Some("s"))),
        (String::from("/d/odd"), info(false, false, false, None)),
        (String::from("/d/f2"), info(false, true, false, None)),
    ];
    let (dirs, files, links) = sort_entries(entries).unwrap();
    assert_eq!(dirs, vec!["/d/s"]);
    assert_eq!(files, vec!["/d/f1", "/d/f2"]);
    assert_eq!(links, vec!["/d/l"]);
}

#[test]
fn sorted_listing() {
    let listing = vec![
        (String::from("x"), info(true, false, false, None)),
        (String::from("y"), info(false, true, false, None)),
    ];
    let (dirs, files, links) = get_entries_sorted("/top/", Ok(listing)).unwrap();
    assert_eq!(dirs, vec!["/top/x"]);
    assert_eq!(files, vec!["/top/y"]);
    assert!(links.is_empty());
    assert!(matches!(get_entries_sorted("/top", Err(String::from("gone"))), Err(FexplorerError::IO(m)) if m == "gone"));
}
