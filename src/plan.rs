use vstd::prelude::*;

use crate::dir::Directory;
use crate::file::File;
use crate::path::{file_name_of, join_path, path_file_name, path_join};

verus! {

/// One step of a recursive copy. `depth` counts the directories created
/// on the way down to the step's target.
#[derive(Debug)]
pub enum Step {
    /// Copy the file at `from` onto `to`, overwriting it.
    CopyFile { from: String, to: String, depth: usize },
    /// Create the directory `path` where it is absent; what follows at a
    /// greater depth lies inside it.
    MakeDir { path: String, depth: usize },
    /// A sub-directory whose path has no final component to name its copy.
    Unnamed { depth: usize },
}

/// The mathematical form of a step.
pub enum StepView {
    CopyFile(Seq<char>, Seq<char>, nat),
    MakeDir(Seq<char>, nat),
    Unnamed(nat),
}

impl StepView {
    pub open spec fn depth(self) -> nat {
        match self {
            StepView::CopyFile(_, _, d) => d,
            StepView::MakeDir(_, d) => d,
            StepView::Unnamed(d) => d,
        }
    }
}

impl View for Step {
    type V = StepView;

    open spec fn view(&self) -> StepView {
        match *self {
            Step::CopyFile { from, to, depth } => StepView::CopyFile(from@, to@, depth as nat),
            Step::MakeDir { path, depth } => StepView::MakeDir(path@, depth as nat),
            Step::Unnamed { depth } => StepView::Unnamed(depth as nat),
        }
    }
}

pub open spec fn steps_view(s: Seq<Step>) -> Seq<StepView> {
    s.map_values(|x: Step| x@)
}

/// One copy step per file of the directory, onto `dest` joined with the
/// file's name.
pub open spec fn file_steps(fs: Seq<File>, dest: Seq<char>, depth: nat) -> Seq<StepView> {
    fs.map_values(|f: File| StepView::CopyFile(f.path@, path_join(dest, f.filename@), depth))
}

/// The steps that copy the directory `d` into `dest`: its files first, then
/// each sub-directory in turn.
pub open spec fn dir_plan(d: Directory, dest: Seq<char>, depth: nat) -> Seq<StepView>
    decreases d, 1nat,
{
    file_steps(d.files@, dest, depth) + subdirs_plan(d.directories@, dest, depth)
}

pub open spec fn subdirs_plan(ds: Seq<Directory>, dest: Seq<char>, depth: nat) -> Seq<StepView>
    decreases ds, 0nat,
{
    if ds.len() == 0 {
        Seq::empty()
    } else {
        subdirs_plan(ds.drop_last(), dest, depth) + subdir_plan(ds.last(), dest, depth)
    }
}

/// A sub-directory is copied into `dest` joined with its own name, which is
/// created first.
pub open spec fn subdir_plan(d: Directory, dest: Seq<char>, depth: nat) -> Seq<StepView>
    decreases d, 2nat,
{
    match path_file_name(d.path@) {
        None => seq![StepView::Unnamed(depth)],
        Some(n) => seq![StepView::MakeDir(path_join(dest, n), depth)] + dir_plan(
            d,
            path_join(dest, n),
            depth + 1,
        ),
    }
}


proof fn lemma_subdirs_plan_step(ds: Seq<Directory>, i: int, dest: Seq<char>, depth: nat)
    requires
        0 <= i < ds.len(),
    ensures
        subdirs_plan(ds.subrange(0, i + 1), dest, depth) == subdirs_plan(ds.subrange(0, i), dest, depth)
            + subdir_plan(ds[i], dest, depth),
{
    assert(ds.subrange(0, i + 1).drop_last() =~= ds.subrange(0, i));
}

impl Directory {
    /// Appends to `steps` the steps that copy this directory into `dest`.
    pub(crate) fn add_plan(&self, dest: &str, depth: usize, steps: &mut Vec<Step>)
        requires
            depth <= old(steps)@.len(),
        ensures
            steps_view(final(steps)@) == steps_view(old(steps)@) + dir_plan(*self, dest@, depth as nat),
        decreases self,
    {
        let ghost start = steps_view(steps@);
        let mut i: usize = 0;
        while i < self.files.len()
            invariant
                i <= self.files@.len(),
                depth <= steps@.len(),
                steps_view(steps@) == start + file_steps(self.files@.subrange(0, i as int), dest@, depth as nat),
            decreases self.files@.len() - i,
        {
            let f = &self.files[i];
            let to = join_path(dest, f.filename.as_str());
            let ghost before = steps@;
            steps.push(Step::CopyFile { from: f.path.clone(), to, depth });
            proof {
                assert(steps_view(steps@) =~= steps_view(before).push(steps@.last()@));
                assert(file_steps(self.files@.subrange(0, i + 1), dest@, depth as nat) =~= file_steps(
                    self.files@.subrange(0, i as int),
                    dest@,
                    depth as nat,
                ).push(StepView::CopyFile(f.path@, path_join(dest@, f.filename@), depth as nat)));
            }
            i = i + 1;
        }
        proof {
            assert(self.files@.subrange(0, i as int) =~= self.files@);
        }
        let ghost mid = steps_view(steps@);
        let mut j: usize = 0;
        while j < self.directories.len()
            invariant
                j <= self.directories@.len(),
                depth <= steps@.len(),
                steps_view(steps@) == mid + subdirs_plan(self.directories@.subrange(0, j as int), dest@, depth as nat),
            decreases self.directories@.len() - j,
        {
            let d = &self.directories[j];
            proof {
                lemma_subdirs_plan_step(self.directories@, j as int, dest@, depth as nat);
            }
            let ghost before = steps_view(steps@);
            match file_name_of(d.path.as_str()) {
                None => {
                    let ghost b = steps@;
                    steps.push(Step::Unnamed { depth });
                    proof {
                        assert(steps_view(steps@) =~= steps_view(b).push(StepView::Unnamed(depth as nat)));
                    }
                },
                Some(n) => {
                    let sub = join_path(dest, n.as_str());
                    let ghost b = steps@;
                    steps.push(Step::MakeDir { path: sub.clone(), depth });
                    proof {
                        assert(steps_view(steps@) =~= steps_view(b).push(StepView::MakeDir(sub@, depth as nat)));
                    }
                    let len = steps.len();
                    assert(depth < len);
                    d.add_plan(sub.as_str(), depth + 1, steps);
                },
            }
            proof {
                assert(steps_view(steps@) =~= before + subdir_plan(*d, dest@, depth as nat));
            }
            j = j + 1;
        }
        proof {
            assert(self.directories@.subrange(0, j as int) =~= self.directories@);
        }
    }
}

} // verus!
