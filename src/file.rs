use vstd::prelude::*;

use crate::path::{file_name_of, opt_view, parent_of, path_file_name, path_parent};

verus! {

/// A failed filesystem operation, as reported by the caller that ran it.
#[derive(Debug, PartialEq, Eq)]
pub struct IoFault {
    /// The path the operation was on.
    pub path: String,
    /// What the operating system reported.
    pub message: String,
}

/// A regular file on one side of a managed pair.
#[derive(Debug)]
pub struct File {
    pub path: String,
    pub filename: String,
}

#[derive(Debug, PartialEq, Eq)]
pub enum FileError {
    CopyError(IoFault),
    NoFileNameError,
    NoParentDirError,
    FilenameInvalidUTFError,
}

impl Clone for IoFault {
    fn clone(&self) -> (r: Self)
        ensures
            r == *self,
    {
        IoFault { path: self.path.clone(), message: self.message.clone() }
    }
}

impl Clone for FileError {
    fn clone(&self) -> (r: Self)
        ensures
            r == *self,
    {
        match self {
            FileError::CopyError(f) => FileError::CopyError(f.clone()),
            FileError::NoFileNameError => FileError::NoFileNameError,
            FileError::NoParentDirError => FileError::NoParentDirError,
            FileError::FilenameInvalidUTFError => FileError::FilenameInvalidUTFError,
        }
    }
}

impl IoFault {
    pub open spec fn text(&self) -> Seq<char> {
        self.path@ + ": "@ + self.message@
    }

    /// The fault as text: the path, then what went wrong there.
    pub fn describe(&self) -> (r: String)
        ensures
            r@ == self.text(),
    {
        self.path.clone().concat(": ").concat(self.message.as_str())
    }
}

impl FileError {
    pub open spec fn text(&self) -> Seq<char> {
        match self {
            FileError::CopyError(f) => f.text(),
            FileError::NoFileNameError => "File does not have a valid filename"@,
            FileError::NoParentDirError => "File does not have a parent directory"@,
            FileError::FilenameInvalidUTFError => "Invalild UTF in filename"@,
        }
    }

    /// The error as text.
    pub fn describe(&self) -> (r: String)
        ensures
            r@ == self.text(),
    {
        match self {
            FileError::CopyError(f) => f.describe(),
            FileError::NoFileNameError => "File does not have a valid filename".to_owned(),
            FileError::NoParentDirError => "File does not have a parent directory".to_owned(),
            FileError::FilenameInvalidUTFError => "Invalild UTF in filename".to_owned(),
        }
    }
}

/// What building a file node from `path` gives, when the path's parent and
/// final component are `parent` and `name`.
pub open spec fn file_outcome(
    path: Seq<char>,
    parent: Option<Seq<char>>,
    name: Option<Seq<char>>,
) -> Result<(Seq<char>, Seq<char>), FileError> {
    if parent is None || parent->Some_0.len() == 0 {
        Err(FileError::NoParentDirError)
    } else if name is None {
        Err(FileError::NoFileNameError)
    } else {
        Ok((path, name->Some_0))
    }
}

/// The view of a file-building result: path and file name, or the error.
pub open spec fn file_result_view(r: Result<File, FileError>) -> Result<(Seq<char>, Seq<char>), FileError> {
    match r {
        Ok(f) => Ok((f.path@, f.filename@)),
        Err(e) => Err(e),
    }
}

impl File {
    /// A file node for `path`. The path needs a non-empty parent and a final
    /// component; creating a missing parent directory is the caller's part.
    pub fn new(path: &str) -> (r: Result<File, FileError>)
        ensures
            file_result_view(r) == file_outcome(path@, path_parent(path@), path_file_name(path@)),
    {
        let parent = parent_of(path);
        let name = file_name_of(path);
        File::from_parts(path.to_owned(), parent, name)
    }

    /// A file node for `path`, given the parent and final component that the
    /// path has.
    pub fn from_parts(path: String, parent: Option<String>, name: Option<String>) -> (r: Result<
        File,
        FileError,
    >)
        ensures
            file_result_view(r) == file_outcome(path@, opt_view(parent), opt_view(name)),
    {
        match parent {
            None => Err(FileError::NoParentDirError),
            Some(p) => {
                if p.as_str().is_empty() {
                    Err(FileError::NoParentDirError)
                } else {
                    match name {
                        None => Err(FileError::NoFileNameError),
                        Some(n) => Ok(File { path, filename: n }),
                    }
                }
            },
        }
    }
}

} // verus!
