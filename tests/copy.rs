use std::collections::HashMap;

use dotfiles_manager::dir::{DirError, Directory, Scanned};
use dotfiles_manager::dot::{Dotfile, ManagedDotfile, Prepared};
use dotfiles_manager::file::{File, FileError, IoFault};
use dotfiles_manager::run::{CopyAction, CopyRun};

/// Runs a copy to its end; `fails` says which actions fail.
fn drive(mut run: CopyRun, fails: &dyn Fn(&CopyAction) -> bool) -> (Vec<CopyAction>, Vec<DirError>) {
    let mut done = Vec::new();
    while let Some(a) = run.next_action() {
        let outcome = if fails(&a) { Err(IoFault { path: "x".to_string(), message: "denied".to_string() }) } else { Ok(()) };
        run.record(outcome);
        done.push(a);
    }
    assert!(run.is_finished());
    (done, run.errors().clone())
}

/// Performs the actions on file contents held in memory.
fn perform(fs: &mut HashMap<String, Vec<u8>>, actions: &[CopyAction]) {
    for a in actions {
        if let CopyAction::CopyFile { from, to } = a {
            if let Some(bytes) = fs.get(from).cloned() {
                fs.insert(to.clone(), bytes);
            }
        }
    }
}

fn copy_file(from: &str, to: &str) -> CopyAction {
    CopyAction::CopyFile { from: from.to_string(), to: to.to_string() }
}

fn make_dir(p: &str) -> CopyAction {
    CopyAction::MakeDir { path: p.to_string() }
}

fn files_dir(path: &str, names: &[&str]) -> Directory {
    let entries = names.iter().map(|n| Scanned::File(n.to_string())).collect();
    Directory::new(path.to_string(), entries)
}

/// `/m/cfg` holding `a`, `b`, and `sub` with `c` and `deep` with `d`.
fn sample_tree() -> Directory {
    let deep = files_dir("/m/cfg/sub/deep", &["d"]);
    let mut sub_entries = vec![Scanned::File("c".to_string())];
    sub_entries.push(Scanned::Dir("deep".to_string(), Ok(deep)));
    let sub = Directory::new("/m/cfg/sub".to_string(), sub_entries);
    let entries = vec![
        Scanned::File("a".to_string()),
        Scanned::Dir("sub".to_string(), Ok(sub)),
        Scanned::File("b".to_string()),
    ];
    Directory::new("/m/cfg".to_string(), entries)
}

#[test]
fn directory_copy_files_first_then_each_sub_directory() {
    let (done, errors) = drive(sample_tree().copy("/s/cfg"), &|_| false);
    assert_eq!(
        done,
        vec![
            copy_file("/m/cfg/a", "/s/cfg/a"),
            copy_file("/m/cfg/b", "/s/cfg/b"),
            make_dir("/s/cfg/sub"),
            copy_file("/m/cfg/sub/c", "/s/cfg/sub/c"),
            make_dir("/s/cfg/sub/deep"),
            copy_file("/m/cfg/sub/deep/d", "/s/cfg/sub/deep/d"),
        ]
    );
    assert!(errors.is_empty());
}

#[test]
fn one_failed_nested_file_costs_one_error_only() {
    let (done, errors) = drive(sample_tree().copy("/s/cfg"), &|a| *a == copy_file("/m/cfg/sub/c", "/s/cfg/sub/c"));
    assert_eq!(done.len(), 6);
    assert_eq!(errors, vec![DirError::DirFileCopyError(FileError::CopyError(IoFault { path: "x".to_string(), message: "denied".to_string() }))]);
}

#[test]
fn failed_directory_creation_skips_only_its_contents() {
    let (done, errors) = drive(sample_tree().copy("/s/cfg"), &|a| *a == make_dir("/s/cfg/sub"));
    assert_eq!(
        done,
        vec![copy_file("/m/cfg/a", "/s/cfg/a"), copy_file("/m/cfg/b", "/s/cfg/b"), make_dir("/s/cfg/sub")]
    );
    assert_eq!(errors, vec![DirError::DirIOError(IoFault { path: "x".to_string(), message: "denied".to_string() })]);
}

#[test]
fn failed_deeper_directory_leaves_siblings_copied() {
    let (done, errors) = drive(sample_tree().copy("/s/cfg"), &|a| *a == make_dir("/s/cfg/sub/deep"));
    assert_eq!(done.len(), 5);
    assert_eq!(done[3], copy_file("/m/cfg/sub/c", "/s/cfg/sub/c"));
    assert_eq!(errors.len(), 1);
}

#[test]
fn sub_directory_without_name_is_one_error() {
    let mut d = Directory::new("/m".to_string(), vec![Scanned::File("x".to_string())]);
    d.directories.push(Directory::new("/".to_string(), Vec::new()));
    let (done, errors) = drive(d.copy("/s"), &|_| false);
    assert_eq!(done, vec![copy_file("/m/x", "/s/x")]);
    assert_eq!(errors, vec![DirError::NoDirectoryNameError]);
}

#[test]
fn copying_twice_gives_the_same_tree() {
    let mut fs: HashMap<String, Vec<u8>> = HashMap::new();
    for (p, b) in [("/m/cfg/a", "1"), ("/m/cfg/b", "2"), ("/m/cfg/sub/c", "3"), ("/m/cfg/sub/deep/d", "4")] {
        fs.insert(p.to_string(), b.as_bytes().to_vec());
    }
    fs.insert("/s/cfg/a".to_string(), b"old".to_vec());
    let tree = sample_tree();
    let (first, _) = drive(tree.copy("/s/cfg"), &|_| false);
    perform(&mut fs, &first);
    let once = fs.clone();
    let (second, _) = drive(tree.copy("/s/cfg"), &|_| false);
    perform(&mut fs, &second);
    assert_eq!(fs, once);
    assert_eq!(once["/s/cfg/a"], b"1".to_vec());
    assert_eq!(once["/s/cfg/sub/deep/d"], b"4".to_vec());
}

fn file_pair(m: &str, s: &str) -> ManagedDotfile {
    ManagedDotfile::new(Prepared::File(m.to_string()), Prepared::File(s.to_string())).unwrap()
}

#[test]
fn file_pair_round_trip_keeps_manager_bytes() {
    let pair = file_pair("/m/vimrc", "/home/u/.vimrc");
    let mut fs: HashMap<String, Vec<u8>> = HashMap::new();
    fs.insert("/m/vimrc".to_string(), b"set nu".to_vec());
    fs.insert("/home/u/.vimrc".to_string(), b"set nu".to_vec());
    let before = fs.clone();
    let (to_sys, e1) = drive(pair.copy_dotfile(true).unwrap(), &|_| false);
    assert_eq!(to_sys, vec![copy_file("/m/vimrc", "/home/u/.vimrc")]);
    perform(&mut fs, &to_sys);
    let (back, e2) = drive(pair.copy_dotfile(false).unwrap(), &|_| false);
    assert_eq!(back, vec![copy_file("/home/u/.vimrc", "/m/vimrc")]);
    perform(&mut fs, &back);
    assert!(e1.is_empty() && e2.is_empty());
    assert_eq!(fs, before);
}

#[test]
fn file_copy_failure_is_reported_not_fatal() {
    let pair = file_pair("/m/vimrc", "/home/u/.vimrc");
    let (done, errors) = drive(pair.copy_dotfile(true).unwrap(), &|_| true);
    assert_eq!(done.len(), 1);
    assert_eq!(errors, vec![DirError::DirFileCopyError(FileError::CopyError(IoFault { path: "x".to_string(), message: "denied".to_string() }))]);
}

#[test]
fn single_file_copy_overwrites_destination() {
    let f = File::new("/m/a.conf").unwrap();
    let (done, errors) = drive(f.copy("/s/a.conf"), &|_| false);
    assert_eq!(done, vec![copy_file("/m/a.conf", "/s/a.conf")]);
    assert!(errors.is_empty());
}

#[test]
fn app_config_directory_reaches_system_path() {
    let root = "/home/u/.dotfiles";
    let manager = ManagedDotfile::manager_path(root, "app/config");
    assert_eq!(manager, "/home/u/.dotfiles/app/config");
    let m = files_dir(&manager, &["a.conf", "b.conf"]);
    let s = Directory::new("/etc/app/config".to_string(), Vec::new());
    let pair = ManagedDotfile::new(Prepared::Dir(Ok(m)), Prepared::Dir(Ok(s))).unwrap();
    let mut fs: HashMap<String, Vec<u8>> = HashMap::new();
    fs.insert(format!("{}/a.conf", manager), b"alpha".to_vec());
    fs.insert(format!("{}/b.conf", manager), b"beta".to_vec());
    let (done, errors) = drive(pair.copy_dotfile(true).unwrap(), &|_| false);
    perform(&mut fs, &done);
    assert!(errors.is_empty());
    assert_eq!(fs["/etc/app/config/a.conf"], b"alpha".to_vec());
    assert_eq!(fs["/etc/app/config/b.conf"], b"beta".to_vec());
}

#[test]
fn missing_manager_directory_is_filled_from_system() {
    let sys = files_dir("/etc/tool", &["x", "y"]);
    let man = Directory::new("/m/tool".to_string(), Vec::new());
    let pair = ManagedDotfile::new(Prepared::Dir(Ok(man)), Prepared::Dir(Ok(sys))).unwrap();
    assert!(matches!(pair.manager_dotfile, Dotfile::Dir(_)));
    let (done, errors) = drive(pair.copy_dotfile(false).unwrap(), &|_| false);
    assert_eq!(done, vec![copy_file("/etc/tool/x", "/m/tool/x"), copy_file("/etc/tool/y", "/m/tool/y")]);
    assert!(errors.is_empty());
}
