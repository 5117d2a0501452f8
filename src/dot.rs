use vstd::prelude::*;

use crate::dir::{DirError, Directory, tree_errors_of};
use crate::file::{File, FileError, IoFault, file_outcome};
use crate::path::{join_path, path_file_name, path_join, path_parent};
use crate::plan::{StepView, dir_plan};
use crate::run::{CopyRun, RunView, run_wf};

verus! {

/// What reading a path's metadata gave.
#[derive(Debug, PartialEq, Eq)]
pub enum Probe {
    /// Nothing exists at the path.
    NotFound,
    /// Something exists there; `is_dir` tells whether it is a directory.
    Found { is_dir: bool },
    /// The metadata exists but could not be read.
    Failed(IoFault),
}

/// What a path denotes.
#[derive(Clone, Copy, Debug, PartialEq, Eq)]
pub enum EntityKind {
    Directory,
    File,
    Missing,
}

/// The kind shared by both sides of a pair.
#[derive(Clone, Copy, Debug, PartialEq, Eq)]
pub enum PairKind {
    Directory,
    File,
}

#[derive(Debug, PartialEq, Eq)]
pub enum DotfileError {
    DotfileIOError(IoFault),
    FilesDontExistError,
    MismatchedKinds,
    FileCopyError(FileError),
    DirectoryCopyError(DirError),
}

impl DotfileError {
    pub open spec fn text(&self) -> Seq<char> {
        match self {
            DotfileError::DotfileIOError(f) => f.text(),
            DotfileError::FilesDontExistError => "Neither file exists"@,
            DotfileError::MismatchedKinds => "one side is a file and the other a directory"@,
            DotfileError::FileCopyError(e) => e.text(),
            DotfileError::DirectoryCopyError(e) => e.text(),
        }
    }

    /// The error as text.
    pub fn describe(&self) -> (r: String)
        ensures
            r@ == self.text(),
    {
        match self {
            DotfileError::DotfileIOError(f) => f.describe(),
            DotfileError::FilesDontExistError => "Neither file exists".to_owned(),
            DotfileError::MismatchedKinds => "one side is a file and the other a directory".to_owned(),
            DotfileError::FileCopyError(e) => e.describe(),
            DotfileError::DirectoryCopyError(e) => e.describe(),
        }
    }
}

/// One side of a managed pair.
#[derive(Debug)]
pub enum Dotfile {
    File(File),
    Dir(Directory),
}

/// A side of a pair as the caller prepared it for the pair's kind: a
/// directory scanned (and created where it was absent), or a file's path
/// (its parent directory created where it was absent).
#[derive(Debug)]
pub enum Prepared {
    Dir(Result<Directory, DirError>),
    File(String),
}

/// A configured mapping with both of its sides resolved.
#[derive(Debug)]
pub struct ManagedDotfile {
    pub manager_dotfile: Dotfile,
    pub system_dotfile: Dotfile,
}

pub open spec fn classify_spec(p: Probe) -> Result<EntityKind, IoFault> {
    match p {
        Probe::NotFound => Ok(EntityKind::Missing),
        Probe::Found { is_dir } => Ok(if is_dir { EntityKind::Directory } else { EntityKind::File }),
        Probe::Failed(f) => Err(f),
    }
}

/// The kind of a pair from the kinds of its two sides: a side that exists
/// decides, two that exist must agree, and one of them must exist.
pub open spec fn pair_kind_spec(manager: EntityKind, system: EntityKind) -> Result<PairKind, DotfileError> {
    match (manager, system) {
        (EntityKind::Missing, EntityKind::Missing) => Err(DotfileError::FilesDontExistError),
        (EntityKind::Directory, EntityKind::File) => Err(DotfileError::MismatchedKinds),
        (EntityKind::File, EntityKind::Directory) => Err(DotfileError::MismatchedKinds),
        (EntityKind::Directory, _) => Ok(PairKind::Directory),
        (_, EntityKind::Directory) => Ok(PairKind::Directory),
        _ => Ok(PairKind::File),
    }
}

/// Tells what a path denotes from its metadata; a path that does not exist
/// is no fault.
pub fn classify(probe: Probe) -> (r: Result<EntityKind, IoFault>)
    ensures
        r == classify_spec(probe),
{
    match probe {
        Probe::NotFound => Ok(EntityKind::Missing),
        Probe::Found { is_dir } => Ok(if is_dir { EntityKind::Directory } else { EntityKind::File }),
        Probe::Failed(f) => Err(f),
    }
}

/// The kind of a pair whose sides denote `manager` and `system`.
pub fn classify_pair(manager: EntityKind, system: EntityKind) -> (r: Result<PairKind, DotfileError>)
    ensures
        r == pair_kind_spec(manager, system),
{
    match (manager, system) {
        (EntityKind::Missing, EntityKind::Missing) => Err(DotfileError::FilesDontExistError),
        (EntityKind::Directory, EntityKind::File) => Err(DotfileError::MismatchedKinds),
        (EntityKind::File, EntityKind::Directory) => Err(DotfileError::MismatchedKinds),
        (EntityKind::Directory, _) => Ok(PairKind::Directory),
        (_, EntityKind::Directory) => Ok(PairKind::Directory),
        _ => Ok(PairKind::File),
    }
}


pub open spec fn prepared_kind(p: Prepared) -> PairKind {
    match p {
        Prepared::Dir(_) => PairKind::Directory,
        Prepared::File(_) => PairKind::File,
    }
}

/// The fault that keeps a prepared side from becoming a node, if any.
pub open spec fn side_error(p: Prepared) -> Option<DotfileError> {
    match p {
        Prepared::Dir(Err(e)) => Some(DotfileError::DirectoryCopyError(e)),
        Prepared::Dir(Ok(_)) => None,
        Prepared::File(s) => match file_outcome(s@, path_parent(s@), path_file_name(s@)) {
            Err(e) => Some(DotfileError::FileCopyError(e)),
            Ok(_) => None,
        },
    }
}

/// The node is the one that the prepared side describes.
pub open spec fn side_matches(p: Prepared, d: Dotfile) -> bool {
    match (p, d) {
        (Prepared::Dir(Ok(x)), Dotfile::Dir(y)) => x == y,
        (Prepared::File(s), Dotfile::File(f)) => file_outcome(s@, path_parent(s@), path_file_name(s@))
            == Ok::<(Seq<char>, Seq<char>), FileError>((f.path@, f.filename@)),
        _ => false,
    }
}

pub open spec fn pair_new_spec(m: Prepared, s: Prepared, r: Result<ManagedDotfile, DotfileError>) -> bool {
    if prepared_kind(m) != prepared_kind(s) {
        r == Err::<ManagedDotfile, DotfileError>(DotfileError::MismatchedKinds)
    } else if side_error(m) is Some {
        r == Err::<ManagedDotfile, DotfileError>(side_error(m)->Some_0)
    } else if side_error(s) is Some {
        r == Err::<ManagedDotfile, DotfileError>(side_error(s)->Some_0)
    } else {
        r is Ok && side_matches(m, r->Ok_0.manager_dotfile) && side_matches(s, r->Ok_0.system_dotfile)
    }
}

/// The steps of a copy from one side to the other (`to_sys`: from the
/// manager side onto the system side), or nothing where the sides differ
/// in kind.
pub open spec fn pair_plan(p: ManagedDotfile, to_sys: bool) -> Option<Seq<StepView>> {
    let (src, dst) = if to_sys {
        (p.manager_dotfile, p.system_dotfile)
    } else {
        (p.system_dotfile, p.manager_dotfile)
    };
    match (src, dst) {
        (Dotfile::File(a), Dotfile::File(b)) => Some(seq![StepView::CopyFile(a.path@, b.path@, 0)]),
        (Dotfile::Dir(a), Dotfile::Dir(b)) => Some(dir_plan(a, b.path@, 0)),
        _ => None,
    }
}

pub open spec fn dotfile_tree_errors(d: Dotfile) -> Seq<DirError> {
    match d {
        Dotfile::Dir(x) => tree_errors_of(x),
        Dotfile::File(_) => Seq::empty(),
    }
}

/// Builds one side's node from what the caller prepared.
fn build_side(p: Prepared) -> (r: Result<Dotfile, DotfileError>)
    ensures
        side_error(p) is Some ==> r == Err::<Dotfile, DotfileError>(side_error(p)->Some_0),
        side_error(p) is None ==> r is Ok && side_matches(p, r->Ok_0),
{
    match p {
        Prepared::Dir(Ok(d)) => Ok(Dotfile::Dir(d)),
        Prepared::Dir(Err(e)) => Err(DotfileError::DirectoryCopyError(e)),
        Prepared::File(s) => match File::new(s.as_str()) {
            Ok(f) => Ok(Dotfile::File(f)),
            Err(e) => Err(DotfileError::FileCopyError(e)),
        },
    }
}

impl ManagedDotfile {
    /// The manager-side path of a mapping: `rel` under the manager root.
    pub fn manager_path(root: &str, rel: &str) -> (r: String)
        ensures
            r@ == path_join(root@, rel@),
    {
        join_path(root, rel)
    }

    /// The kind of a pair from the metadata read at its two paths. A fault
    /// reading either is the pair's error, the manager side's first.
    pub fn plan(manager: Probe, system: Probe) -> (r: Result<PairKind, DotfileError>)
        ensures
            classify_spec(manager) is Err ==> r == Err::<PairKind, DotfileError>(
                DotfileError::DotfileIOError(classify_spec(manager)->Err_0),
            ),
            classify_spec(manager) is Ok && classify_spec(system) is Err ==> r == Err::<
                PairKind,
                DotfileError,
            >(DotfileError::DotfileIOError(classify_spec(system)->Err_0)),
            classify_spec(manager) is Ok && classify_spec(system) is Ok ==> r == pair_kind_spec(
                classify_spec(manager)->Ok_0,
                classify_spec(system)->Ok_0,
            ),
    {
        let m = match classify(manager) {
            Ok(k) => k,
            Err(f) => {
                return Err(DotfileError::DotfileIOError(f));
            },
        };
        let s = match classify(system) {
            Ok(k) => k,
            Err(f) => {
                return Err(DotfileError::DotfileIOError(f));
            },
        };
        classify_pair(m, s)
    }

    /// The pair from its two prepared sides, which must be of one kind.
    pub fn new(manager: Prepared, system: Prepared) -> (r: Result<ManagedDotfile, DotfileError>)
        ensures
            pair_new_spec(manager, system, r),
    {
        let same = match (&manager, &system) {
            (Prepared::Dir(_), Prepared::Dir(_)) => true,
            (Prepared::File(_), Prepared::File(_)) => true,
            _ => false,
        };
        if !same {
            return Err(DotfileError::MismatchedKinds);
        }
        let manager_dotfile = match build_side(manager) {
            Ok(d) => d,
            Err(e) => {
                return Err(e);
            },
        };
        let system_dotfile = match build_side(system) {
            Ok(d) => d,
            Err(e) => {
                return Err(e);
            },
        };
        Ok(ManagedDotfile { manager_dotfile, system_dotfile })
    }

    /// Starts a copy of the pair in one direction (`to_sys`: from the
    /// manager side onto the system side).
    pub fn copy_dotfile(&self, to_sys: bool) -> (r: Result<CopyRun, DotfileError>)
        ensures
            pair_plan(*self, to_sys) is None ==> r == Err::<CopyRun, DotfileError>(
                DotfileError::MismatchedKinds,
            ),
            pair_plan(*self, to_sys) is Some ==> r is Ok && r->Ok_0@ == (RunView {
                steps: pair_plan(*self, to_sys)->Some_0,
                pos: 0,
                skip: None,
                awaiting: false,
                errors: Seq::empty(),
            }) && run_wf(r->Ok_0@),
    {
        let (src, dst) = if to_sys {
            (&self.manager_dotfile, &self.system_dotfile)
        } else {
            (&self.system_dotfile, &self.manager_dotfile)
        };
        match (src, dst) {
            (Dotfile::File(a), Dotfile::File(b)) => Ok(a.copy(b.path.as_str())),
            (Dotfile::Dir(a), Dotfile::Dir(b)) => Ok(a.copy(b.path.as_str())),
            _ => Err(DotfileError::MismatchedKinds),
        }
    }

    /// Every fault recorded while scanning the pair's directories: the
    /// manager side's, then the system side's.
    pub fn get_dir_errors(&self) -> (r: Vec<DirError>)
        ensures
            r@ == dotfile_tree_errors(self.manager_dotfile) + dotfile_tree_errors(self.system_dotfile),
    {
        let mut out = match &self.manager_dotfile {
            Dotfile::Dir(d) => d.tree_errors(),
            Dotfile::File(_) => Vec::new(),
        };
        let mut rest = match &self.system_dotfile {
            Dotfile::Dir(d) => d.tree_errors(),
            Dotfile::File(_) => Vec::new(),
        };
        out.append(&mut rest);
        out
    }
}

} // verus!
