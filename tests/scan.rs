use dotfiles_manager::dir::{DirError, Directory, Scanned};
use dotfiles_manager::file::{File, FileError, IoFault};

fn fault(m: &str) -> IoFault {
    IoFault { path: "/d".to_string(), message: m.to_string() }
}

fn file_entry(name: &str) -> Scanned {
    Scanned::File(name.to_string())
}

#[test]
fn file_from_path_takes_final_component() {
    let f = File::new("/etc/app/config/a.conf").unwrap();
    assert_eq!(f.path, "/etc/app/config/a.conf");
    assert_eq!(f.filename, "a.conf");
}

#[test]
fn file_without_parent_is_refused() {
    assert_eq!(File::new("/").unwrap_err(), FileError::NoParentDirError);
    assert_eq!(File::new("a.conf").unwrap_err(), FileError::NoParentDirError);
}

#[test]
fn file_without_name_is_refused() {
    assert_eq!(File::new("/etc/..").unwrap_err(), FileError::NoFileNameError);
}

#[test]
fn file_from_parts_checks_in_order() {
    let r = File::from_parts("x".to_string(), None, None);
    assert_eq!(r.unwrap_err(), FileError::NoParentDirError);
    let r = File::from_parts("x".to_string(), Some(String::new()), Some("x".to_string()));
    assert_eq!(r.unwrap_err(), FileError::NoParentDirError);
    let r = File::from_parts("/a/..".to_string(), Some("/a".to_string()), None);
    assert_eq!(r.unwrap_err(), FileError::NoFileNameError);
    let f = File::from_parts("/a/b".to_string(), Some("/a".to_string()), Some("b".to_string())).unwrap();
    assert_eq!(f.filename, "b");
}


#[test]
fn scan_sorts_entries_and_orders_faults() {
    let sub = Directory::new("/d/sub".to_string(), vec![file_entry("x")]);
    let entries = vec![
        file_entry("a"),
        Scanned::Undecodable,
        Scanned::Dir("sub2".to_string(), Err(DirError::DirIOError(fault("sub2")))),
        Scanned::NoMetadata(fault("meta")),
        Scanned::Dir("sub".to_string(), Ok(sub)),
        Scanned::Other("fifo".to_string()),
        Scanned::Unreadable(fault("read")),
        file_entry("b"),
    ];
    let d = Directory::new("/d".to_string(), entries);
    assert_eq!(d.path, "/d");
    let files: Vec<(&str, &str)> = d.files.iter().map(|f| (f.path.as_str(), f.filename.as_str())).collect();
    assert_eq!(files, vec![("/d/a", "a"), ("/d/b", "b")]);
    assert_eq!(d.directories.len(), 1);
    assert_eq!(d.directories[0].path, "/d/sub");
    assert_eq!(d.directories[0].files[0].path, "/d/sub/x");
    assert_eq!(
        d.errors,
        vec![
            DirError::DirIOError(fault("read")),
            DirError::DirIOError(fault("meta")),
            DirError::DirIOError(fault("sub2")),
            DirError::DirFileCopyError(FileError::FilenameInvalidUTFError),
            DirError::UnclassifiedEntry("fifo".to_string()),
        ]
    );
    assert_eq!(d.files.len() + d.directories.len() + d.errors.len(), 8);
}

#[test]
fn entry_of_neither_kind_is_recorded() {
    let d = Directory::new("/d".to_string(), vec![Scanned::Other("sock".to_string())]);
    assert!(d.files.is_empty() && d.directories.is_empty());
    assert_eq!(d.errors, vec![DirError::UnclassifiedEntry("sock".to_string())]);
    assert_eq!(d.errors[0].describe(), "neither a file nor a directory: sock");
}

#[test]
fn sub_directory_scanned_elsewhere_is_recorded() {
    let elsewhere = Directory::new("/tmp/other".to_string(), Vec::new());
    let d = Directory::new("/d".to_string(), vec![Scanned::Dir("sub".to_string(), Ok(elsewhere))]);
    assert!(d.directories.is_empty());
    assert_eq!(d.errors, vec![DirError::StrayDirectory("/tmp/other".to_string())]);
}

#[test]
fn scan_with_one_unreadable_child_keeps_the_rest() {
    let sub = Directory::new("/d/s".to_string(), vec![file_entry("inner")]);
    let entries = vec![
        file_entry("one"),
        Scanned::Unreadable(fault("permission denied")),
        Scanned::Dir("s".to_string(), Ok(sub)),
        file_entry("two"),
    ];
    let d = Directory::new("/d".to_string(), entries);
    assert_eq!(d.files.len(), 2);
    assert_eq!(d.files[0].filename, "one");
    assert_eq!(d.files[1].filename, "two");
    assert_eq!(d.directories.len(), 1);
    assert_eq!(d.errors.len(), 1);
    assert_eq!(d.errors[0], DirError::DirIOError(fault("permission denied")));
    assert_eq!(d.errors[0].describe(), "/d: permission denied");
}

#[test]
fn scan_with_one_failed_sub_directory_keeps_the_rest() {
    let entries = vec![
        file_entry("one"),
        Scanned::Dir("locked".to_string(), Err(DirError::DirIOError(fault("denied")))),
    ];
    let d = Directory::new("/d".to_string(), entries);
    assert_eq!(d.files.len(), 1);
    assert_eq!(d.errors.len(), 1);
}

#[test]
fn scan_of_empty_directory() {
    let d = Directory::new("/empty".to_string(), Vec::new());
    assert!(d.files.is_empty());
    assert!(d.directories.is_empty());
    assert!(d.errors.is_empty());
    assert!(d.tree_errors().is_empty());
}

#[test]
fn tree_errors_walk_sub_directories() {
    let inner = Directory::new("/d/s/t".to_string(), vec![Scanned::NoMetadata(fault("deep"))]);
    let sub = Directory::new(
        "/d/s".to_string(),
        vec![Scanned::Dir("t".to_string(), Ok(inner)), Scanned::Unreadable(fault("mid"))],
    );
    let d = Directory::new("/d".to_string(), vec![Scanned::Dir("s".to_string(), Ok(sub)), Scanned::Unreadable(fault("top"))]);
    assert_eq!(
        d.tree_errors(),
        vec![
            DirError::DirIOError(fault("top")),
            DirError::DirIOError(fault("mid")),
            DirError::DirIOError(fault("deep")),
        ]
    );
}

#[test]
fn errors_describe_their_cause() {
    let f = FileError::CopyError(IoFault { path: "/s/a".to_string(), message: "denied".to_string() });
    assert_eq!(f.describe(), "/s/a: denied");
    assert_eq!(FileError::FilenameInvalidUTFError.describe(), "Invalild UTF in filename");
    assert_eq!(DirError::NoDirectoryNameError.describe(), "Directory does not have a valid name");
    assert_eq!(FileError::NoParentDirError.describe(), "File does not have a parent directory");
}

#[test]
fn entry_listed_twice_is_recorded_once() {
    let sub = Directory::new("/d/a".to_string(), Vec::new());
    let entries = vec![file_entry("a"), Scanned::Dir("a".to_string(), Ok(sub)), file_entry("b"), file_entry("b")];
    let d = Directory::new("/d".to_string(), entries);
    let names: Vec<&str> = d.files.iter().map(|f| f.filename.as_str()).collect();
    assert_eq!(names, vec!["a", "b"]);
    assert!(d.directories.is_empty());
    assert_eq!(
        d.errors,
        vec![DirError::DuplicateEntry("a".to_string()), DirError::DuplicateEntry("b".to_string())]
    );
    assert_eq!(d.errors[1].describe(), "entry listed twice: b");
}
