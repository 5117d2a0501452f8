use dotfiles_manager::dir::{DirError, Directory, Scanned};
use dotfiles_manager::dot::{
    classify, classify_pair, Dotfile, DotfileError, EntityKind, ManagedDotfile, PairKind, Prepared, Probe,
};
use dotfiles_manager::driver::sort_dotfiles;
use dotfiles_manager::file::{FileError, IoFault};

fn fault(m: &str) -> IoFault {
    IoFault { path: "/p".to_string(), message: m.to_string() }
}

#[test]
fn classify_reads_metadata() {
    assert_eq!(classify(Probe::NotFound), Ok(EntityKind::Missing));
    assert_eq!(classify(Probe::Found { is_dir: true }), Ok(EntityKind::Directory));
    assert_eq!(classify(Probe::Found { is_dir: false }), Ok(EntityKind::File));
    assert_eq!(classify(Probe::Failed(fault("denied"))), Err(fault("denied")));
}

#[test]
fn pair_kind_follows_the_side_that_exists() {
    assert_eq!(classify_pair(EntityKind::Directory, EntityKind::Directory), Ok(PairKind::Directory));
    assert_eq!(classify_pair(EntityKind::File, EntityKind::File), Ok(PairKind::File));
    assert_eq!(classify_pair(EntityKind::Missing, EntityKind::Directory), Ok(PairKind::Directory));
    assert_eq!(classify_pair(EntityKind::Directory, EntityKind::Missing), Ok(PairKind::Directory));
    assert_eq!(classify_pair(EntityKind::Missing, EntityKind::File), Ok(PairKind::File));
    assert_eq!(classify_pair(EntityKind::File, EntityKind::Missing), Ok(PairKind::File));
}

#[test]
fn pair_kind_errors() {
    assert_eq!(classify_pair(EntityKind::Missing, EntityKind::Missing), Err(DotfileError::FilesDontExistError));
    assert_eq!(classify_pair(EntityKind::Directory, EntityKind::File), Err(DotfileError::MismatchedKinds));
    assert_eq!(classify_pair(EntityKind::File, EntityKind::Directory), Err(DotfileError::MismatchedKinds));
}

#[test]
fn plan_reports_unreadable_metadata_manager_first() {
    let r = ManagedDotfile::plan(Probe::Failed(fault("m")), Probe::Failed(fault("s")));
    assert_eq!(r, Err(DotfileError::DotfileIOError(fault("m"))));
    let r = ManagedDotfile::plan(Probe::NotFound, Probe::Failed(fault("s")));
    assert_eq!(r, Err(DotfileError::DotfileIOError(fault("s"))));
    let r = ManagedDotfile::plan(Probe::NotFound, Probe::Found { is_dir: true });
    assert_eq!(r, Ok(PairKind::Directory));
}

#[test]
fn pair_of_mismatched_sides_is_refused() {
    let d = Directory::new("/m/x".to_string(), Vec::new());
    let r = ManagedDotfile::new(Prepared::Dir(Ok(d)), Prepared::File("/etc/x".to_string()));
    assert_eq!(r.unwrap_err(), DotfileError::MismatchedKinds);
}

#[test]
fn pair_side_faults_are_the_pair_error() {
    let r = ManagedDotfile::new(
        Prepared::Dir(Err(DirError::DirIOError(fault("m")))),
        Prepared::Dir(Err(DirError::DirIOError(fault("s")))),
    );
    assert_eq!(r.unwrap_err(), DotfileError::DirectoryCopyError(DirError::DirIOError(fault("m"))));
    let r = ManagedDotfile::new(Prepared::File("/m/a".to_string()), Prepared::File("/".to_string()));
    assert_eq!(r.unwrap_err(), DotfileError::FileCopyError(FileError::NoParentDirError));
}

#[test]
fn pair_of_files_holds_both_nodes() {
    let p = ManagedDotfile::new(Prepared::File("/m/a".to_string()), Prepared::File("/etc/b".to_string())).unwrap();
    match (&p.manager_dotfile, &p.system_dotfile) {
        (Dotfile::File(m), Dotfile::File(s)) => {
            assert_eq!(m.filename, "a");
            assert_eq!(s.path, "/etc/b");
        }
        _ => panic!("expected two files"),
    }
    assert!(p.get_dir_errors().is_empty());
}

#[test]
fn manager_path_joins_under_root() {
    assert_eq!(ManagedDotfile::manager_path("/home/u/.dotfiles", "nvim"), "/home/u/.dotfiles/nvim");
    assert_eq!(ManagedDotfile::manager_path("/home/u/.dotfiles/", "a/b"), "/home/u/.dotfiles/a/b");
    assert_eq!(ManagedDotfile::manager_path("/root", "/abs"), "/abs");
    assert_eq!(ManagedDotfile::manager_path("", "rel"), "rel");
}

#[test]
fn dir_errors_of_both_sides() {
    let m = Directory::new("/m".to_string(), vec![Scanned::Unreadable(fault("m1"))]);
    let s = Directory::new("/s".to_string(), vec![Scanned::NoMetadata(fault("s1"))]);
    let p = ManagedDotfile::new(Prepared::Dir(Ok(m)), Prepared::Dir(Ok(s))).unwrap();
    assert_eq!(p.get_dir_errors(), vec![DirError::DirIOError(fault("m1")), DirError::DirIOError(fault("s1"))]);
}

#[test]
fn sorting_keeps_order_and_copies_faulty_scans_too() {
    let clean = |n: &str| {
        ManagedDotfile::new(
            Prepared::Dir(Ok(Directory::new(format!("/m/{}", n), Vec::new()))),
            Prepared::Dir(Ok(Directory::new(format!("/s/{}", n), Vec::new()))),
        )
    };
    let faulty = ManagedDotfile::new(
        Prepared::Dir(Ok(Directory::new("/m/f".to_string(), vec![Scanned::Unreadable(fault("x"))]))),
        Prepared::Dir(Ok(Directory::new("/s/f".to_string(), Vec::new()))),
    );
    let input = vec![
        clean("one"),
        Err(DotfileError::FilesDontExistError),
        faulty,
        clean("two"),
        Err(DotfileError::MismatchedKinds),
    ];
    let sorted = sort_dotfiles(input);
    let paths: Vec<String> = sorted
        .ready
        .iter()
        .map(|p| match &p.manager_dotfile {
            Dotfile::Dir(d) => d.path.clone(),
            Dotfile::File(f) => f.path.clone(),
        })
        .collect();
    assert_eq!(paths, vec!["/m/one".to_string(), "/m/f".to_string(), "/m/two".to_string()]);
    assert_eq!(sorted.ready[1].get_dir_errors().len(), 1);
    assert_eq!(sorted.failed, vec![DotfileError::FilesDontExistError, DotfileError::MismatchedKinds]);
}

#[test]
fn sorting_nothing() {
    let sorted = sort_dotfiles(Vec::new());
    assert!(sorted.ready.is_empty() && sorted.failed.is_empty());
}

#[test]
fn pair_errors_describe_their_cause() {
    assert_eq!(
        DotfileError::DotfileIOError(fault("denied")).describe(),
        "/p: denied"
    );
    assert_eq!(
        DotfileError::FilesDontExistError.describe(),
        "Neither file exists"
    );
}
