use fexplorer::entries::Error;
use fexplorer::{Child, Directory, Entry, File, Link, PathInfo};

fn info(is_dir: bool, is_file: bool, target: Option<&str>) -> PathInfo {
    PathInfo {
        exists: true,
        is_dir,
        is_file,
        is_symlink: target.is_some(),
        link_target: match target {
            Some(t) => Ok(String::from(t)),
            None => Err(String::from("Invalid argument")),
        },
    }
}

#[test]
fn child_paths() {
    let d = Directory::new("/home/u", &info(true, false, None), None).unwrap();
    let c = Child::from_str("notes");
    assert_eq!(c.get_full_path(&d), "/home/u/notes");
    assert_eq!(Child::from_path("/x/y/z.txt").get_name(), "z.txt");
    assert_eq!(Child::new("q").get_name(), "q");
}

#[test]
fn directory_new_checks_kind() {
    assert!(Directory::new("/d", &info(true, false, None), None).is_ok());
    assert_eq!(
        Directory::new("/f", &info(false, true, None), None).unwrap_err(),
        Error::InvalidEntryType(String::from("Not a directory!"))
    );
    assert!(Directory::new("/l", &info(true, false, Some("/d")), None).is_err());
    let d = Directory::new("/d", &info(true, false, None), Some(vec![Child::new("a")])).unwrap();
    assert!(d.get_child_by_string("a").is_some());
    assert!(d.get_child_by_string("b").is_none());
    assert_eq!(d.get_name(), "d");
    assert_eq!(d.get_path(), "/d");
}

#[test]
fn directory_children_are_a_set() {
    let mut d = Directory::new("/d", &info(true, false, None), None).unwrap();
    let a = Directory::new("/d/a", &info(true, false, None), None).unwrap();
    d.add_child(&a);
    d.add_child(&a);
    assert_eq!(d.get_children().len(), 1);
    let b = Directory::new("/d/b", &info(true, false, None), None).unwrap();
    let c = Directory::new("/elsewhere/c", &info(true, false, None), None).unwrap();
    d.add_children(vec![b, c]);
    assert_eq!(d.get_children().len(), 3);
    assert_eq!(d.get_child_by_string("c").unwrap().get_name(), "c");
    let w = Directory::with_names("/w", &vec![String::from("x"), String::from("y")]);
    assert_eq!(w.get_children().len(), 2);
}

#[test]
fn file_and_link_constructors() {
    let f = File::new("/a/f.txt", &info(false, true, None)).unwrap();
    assert_eq!(f.get_path(), "/a/f.txt");
    assert_eq!(f.get_name(), "f.txt");
    assert_eq!(
        File::new("/a", &info(true, false, None)).unwrap_err(),
        Error::InvalidEntryType(String::from("Not a file!"))
    );
    let l = Link::new("/a/l", &info(false, false, Some("../t"))).unwrap();
    assert_eq!(l.get_target(), "../t");
    assert_eq!(l.get_name(), "l");
    assert_eq!(
        Link::new("/a/f", &info(false, true, None)).unwrap_err(),
        Error::InvalidEntryType(String::from("Not a link!"))
    );
    let e = Entry::Link(l);
    assert_eq!(e.get_name(), "l");
    assert_eq!(e.duplicate().get_path(), "/a/l");
}
