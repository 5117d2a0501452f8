use vstd::prelude::*;

use crate::dir::{DirError, Directory};
use crate::file::{File, FileError, IoFault};
use crate::plan::{Step, StepView, dir_plan, steps_view};

verus! {

/// Filesystem work that a copy run asks its caller to perform.
#[derive(Debug, PartialEq, Eq)]
pub enum CopyAction {
    /// Copy the file at `from` onto `to`, overwriting it.
    CopyFile { from: String, to: String },
    /// Create the directory `path` unless it exists.
    MakeDir { path: String },
}

/// A copy in progress: the planned steps, how far the run has come, and
/// the faults collected so far.
pub struct CopyRun {
    steps: Vec<Step>,
    pos: usize,
    skip: Option<usize>,
    awaiting: bool,
    errors: Vec<DirError>,
}

/// The mathematical form of a copy run.
pub struct RunView {
    pub steps: Seq<StepView>,
    pub pos: nat,
    /// Set after a directory at this depth could not be created: the steps
    /// that follow at a greater depth lie inside it and are passed over.
    pub skip: Option<nat>,
    /// An action has been handed out and its outcome is not yet recorded.
    pub awaiting: bool,
    pub errors: Seq<DirError>,
}

pub open spec fn skipped(s: StepView, skip: Option<nat>) -> bool {
    skip is Some && s.depth() > skip->Some_0
}

pub open spec fn is_action(s: StepView) -> bool {
    s is CopyFile || s is MakeDir
}

/// Whether the step is handed to the caller to perform.
pub open spec fn attempted(s: StepView, skip: Option<nat>) -> bool {
    !skipped(s, skip) && is_action(s)
}

/// What one step does to the skip mark and the collected faults, given the
/// fault its action met, if any.
pub open spec fn tick(s: StepView, skip: Option<nat>, errors: Seq<DirError>, failure: Option<IoFault>) -> (
    Option<nat>,
    Seq<DirError>,
) {
    if skipped(s, skip) {
        (skip, errors)
    } else {
        match s {
            StepView::Unnamed(_) => (None, errors.push(DirError::NoDirectoryNameError)),
            StepView::CopyFile(_, _, _) => (
                None,
                match failure {
                    Some(f) => errors.push(DirError::DirFileCopyError(FileError::CopyError(f))),
                    None => errors,
                },
            ),
            StepView::MakeDir(_, d) => match failure {
                Some(f) => (Some(d), errors.push(DirError::DirIOError(f))),
                None => (None, errors),
            },
        }
    }
}

/// The run after passing over the steps that need no work from the caller,
/// up to the next action or the end.
pub open spec fn settle(v: RunView) -> RunView
    decreases v.steps.len() - v.pos,
{
    if v.pos >= v.steps.len() || attempted(v.steps[v.pos as int], v.skip) {
        RunView { awaiting: v.pos < v.steps.len(), ..v }
    } else {
        let t = tick(v.steps[v.pos as int], v.skip, v.errors, None);
        settle(RunView { pos: v.pos + 1, skip: t.0, errors: t.1, ..v })
    }
}

/// The run after the outcome of the awaited action is recorded.
pub open spec fn after(v: RunView, outcome: Result<(), IoFault>) -> RunView {
    let failure = match outcome {
        Ok(_) => None,
        Err(f) => Some(f),
    };
    let t = tick(v.steps[v.pos as int], v.skip, v.errors, failure);
    RunView { steps: v.steps, pos: v.pos + 1, skip: t.0, awaiting: false, errors: t.1 }
}

/// The action that a step asks for.
pub open spec fn action_for(a: CopyAction, s: StepView) -> bool {
    match (a, s) {
        (CopyAction::CopyFile { from, to }, StepView::CopyFile(f, t, _)) => from@ == f && to@ == t,
        (CopyAction::MakeDir { path }, StepView::MakeDir(p, _)) => path@ == p,
        _ => false,
    }
}

/// A run that its methods can continue.
pub open spec fn run_wf(v: RunView) -> bool {
    &&& v.pos <= v.steps.len()
    &&& v.awaiting ==> v.pos < v.steps.len() && attempted(v.steps[v.pos as int], v.skip)
}

/// A run carried to its end when the actions at the positions in `fails`
/// fail with `fault` and all others succeed: the final state, and the
/// positions whose actions were handed out, in order.
pub open spec fn trace(v: RunView, fails: Set<nat>, fault: IoFault) -> (RunView, Seq<nat>)
    decreases v.steps.len() - v.pos,
{
    if v.pos >= v.steps.len() {
        (RunView { awaiting: false, ..v }, Seq::empty())
    } else {
        let s = v.steps[v.pos as int];
        let failure = if fails.contains(v.pos) {
            Some(fault)
        } else {
            None
        };
        let t = tick(s, v.skip, v.errors, failure);
        let rest = trace(
            RunView { steps: v.steps, pos: v.pos + 1, skip: t.0, awaiting: false, errors: t.1 },
            fails,
            fault,
        );
        (rest.0, if attempted(s, v.skip) {
            seq![v.pos] + rest.1
        } else {
            rest.1
        })
    }
}

/// The outcome that `fails` assigns to the action at `pos`.
pub open spec fn outcome_at(pos: nat, fails: Set<nat>, fault: IoFault) -> Result<(), IoFault> {
    if fails.contains(pos) {
        Err(fault)
    } else {
        Ok(())
    }
}

/// Passing over the steps that need no work changes nothing of where the
/// run ends or of which actions it hands out.
pub proof fn lemma_settle_keeps_trace(v: RunView, fails: Set<nat>, fault: IoFault)
    ensures
        trace(settle(v), fails, fault) == trace(v, fails, fault),
    decreases v.steps.len() - v.pos,
{
    if v.pos < v.steps.len() && !attempted(v.steps[v.pos as int], v.skip) {
        let s = v.steps[v.pos as int];
        let t = tick(s, v.skip, v.errors, None);
        assert(tick(s, v.skip, v.errors, Some(fault)) == t);
        let w = RunView { pos: v.pos + 1, skip: t.0, errors: t.1, ..v };
        lemma_settle_keeps_trace(w, fails, fault);
        assert(trace(w, fails, fault) == trace(RunView { awaiting: false, ..w }, fails, fault));
    }
}

/// Recording the outcome that `fails` assigns to the awaited action hands
/// out that action and leaves the rest of the run as `trace` has it.
pub proof fn lemma_record_follows_trace(v: RunView, fails: Set<nat>, fault: IoFault)
    requires
        run_wf(v),
        v.awaiting,
    ensures
        trace(v, fails, fault).0 == trace(after(v, outcome_at(v.pos, fails, fault)), fails, fault).0,
        trace(v, fails, fault).1 == seq![v.pos] + trace(after(v, outcome_at(v.pos, fails, fault)), fails, fault).1,
{
}

/// The positions from `pos` to the end.
pub open spec fn positions(pos: nat, end: nat) -> Seq<nat> {
    Seq::new((end - pos) as nat, |i: int| (pos + i) as nat)
}

/// The file-copy faults that the positions in `fails` from `pos` on give.
pub open spec fn file_faults(pos: nat, end: nat, fails: Set<nat>, fault: IoFault) -> Seq<DirError>
    decreases end - pos,
{
    if pos >= end {
        Seq::empty()
    } else {
        let rest = file_faults(pos + 1, end, fails, fault);
        if fails.contains(pos) {
            seq![DirError::DirFileCopyError(FileError::CopyError(fault))] + rest
        } else {
            rest
        }
    }
}

proof fn lemma_trace_without_dir_faults(v: RunView, fails: Set<nat>, fault: IoFault)
    requires
        v.pos <= v.steps.len(),
        v.skip is None,
        forall|i: int| 0 <= i < v.steps.len() ==> is_action(#[trigger] v.steps[i]),
        forall|i: nat| #[trigger] fails.contains(i) && i < v.steps.len() ==> v.steps[i as int] is CopyFile,
    ensures
        trace(v, fails, fault).0.errors == v.errors + file_faults(v.pos, v.steps.len(), fails, fault),
        trace(v, fails, fault).1 == positions(v.pos, v.steps.len()),
    decreases v.steps.len() - v.pos,
{
    if v.pos >= v.steps.len() {
        assert(positions(v.pos, v.steps.len()) =~= Seq::<nat>::empty());
        assert(v.errors + Seq::<DirError>::empty() =~= v.errors);
    } else {
        let s = v.steps[v.pos as int];
        assert(is_action(s));
        let failure = if fails.contains(v.pos) {
            Some(fault)
        } else {
            None
        };
        let t = tick(s, v.skip, v.errors, failure);
        let w = RunView { steps: v.steps, pos: v.pos + 1, skip: t.0, awaiting: false, errors: t.1 };
        lemma_trace_without_dir_faults(w, fails, fault);
        assert(positions(v.pos, v.steps.len()) =~= seq![v.pos] + positions(v.pos + 1, v.steps.len()));
        if fails.contains(v.pos) {
            assert(s is CopyFile);
            assert(t.1 + file_faults(v.pos + 1, v.steps.len(), fails, fault) =~= v.errors + file_faults(
                v.pos,
                v.steps.len(),
                fails,
                fault,
            ));
        } else {
            assert(t.1 == v.errors);
        }
    }
}

/// A copy whose steps all ask for work, and in which one file copy fails,
/// hands out every step all the same, and ends with exactly one fault: that
/// file's.
pub proof fn lemma_one_failed_file(steps: Seq<StepView>, k: nat, fault: IoFault)
    requires
        k < steps.len(),
        steps[k as int] is CopyFile,
        forall|i: int| 0 <= i < steps.len() ==> is_action(#[trigger] steps[i]),
    ensures
        ({
            let r = trace(
                RunView { steps, pos: 0, skip: None, awaiting: false, errors: Seq::empty() },
                set![k],
                fault,
            );
            &&& r.0.errors == seq![DirError::DirFileCopyError(FileError::CopyError(fault))]
            &&& r.1 == positions(0, steps.len())
        }),
{
    let v = RunView { steps, pos: 0, skip: None, awaiting: false, errors: Seq::empty() };
    lemma_trace_without_dir_faults(v, set![k], fault);
    lemma_one_fault_position(0, steps.len(), k, fault);
    assert(Seq::<DirError>::empty() + seq![DirError::DirFileCopyError(FileError::CopyError(fault))]
        =~= seq![DirError::DirFileCopyError(FileError::CopyError(fault))]);
}

proof fn lemma_one_fault_position(pos: nat, end: nat, k: nat, fault: IoFault)
    requires
        pos <= k < end,
    ensures
        file_faults(pos, end, set![k], fault) == seq![DirError::DirFileCopyError(FileError::CopyError(fault))],
    decreases end - pos,
{
    if pos < k {
        lemma_one_fault_position(pos + 1, end, k, fault);
    } else {
        lemma_no_fault_positions(pos + 1, end, k, fault);
        assert(seq![DirError::DirFileCopyError(FileError::CopyError(fault))] + Seq::<DirError>::empty()
            =~= seq![DirError::DirFileCopyError(FileError::CopyError(fault))]);
    }
}

proof fn lemma_no_fault_positions(pos: nat, end: nat, k: nat, fault: IoFault)
    requires
        k < pos,
    ensures
        file_faults(pos, end, set![k], fault) == Seq::<DirError>::empty(),
    decreases end - pos,
{
    if pos < end {
        lemma_no_fault_positions(pos + 1, end, k, fault);
    }
}

/// A copy in which nothing fails hands out every step, in order, and ends
/// without a fault.
pub proof fn lemma_no_failures(steps: Seq<StepView>, fault: IoFault)
    requires
        forall|i: int| 0 <= i < steps.len() ==> is_action(#[trigger] steps[i]),
    ensures
        ({
            let r = trace(
                RunView { steps, pos: 0, skip: None, awaiting: false, errors: Seq::empty() },
                Set::empty(),
                fault,
            );
            &&& r.0.errors == Seq::<DirError>::empty()
            &&& r.1 == positions(0, steps.len())
        }),
{
    let v = RunView { steps, pos: 0, skip: None, awaiting: false, errors: Seq::empty() };
    lemma_trace_without_dir_faults(v, Set::empty(), fault);
    lemma_empty_faults(0, steps.len(), fault);
    assert(Seq::<DirError>::empty() + Seq::<DirError>::empty() =~= Seq::<DirError>::empty());
}

proof fn lemma_empty_faults(pos: nat, end: nat, fault: IoFault)
    ensures
        file_faults(pos, end, Set::empty(), fault) == Seq::<DirError>::empty(),
    decreases end - pos,
{
    if pos < end {
        lemma_empty_faults(pos + 1, end, fault);
    }
}

impl View for CopyRun {
    type V = RunView;

    closed spec fn view(&self) -> RunView {
        RunView {
            steps: steps_view(self.steps@),
            pos: self.pos as nat,
            skip: match self.skip {
                Some(d) => Some(d as nat),
                None => None,
            },
            awaiting: self.awaiting,
            errors: self.errors@,
        }
    }
}

impl File {
    /// Starts copying this file onto `dest`, overwriting it.
    pub fn copy(&self, dest: &str) -> (r: CopyRun)
        ensures
            r@ == (RunView {
                steps: seq![StepView::CopyFile(self.path@, dest@, 0)],
                pos: 0,
                skip: None,
                awaiting: false,
                errors: Seq::empty(),
            }),
            run_wf(r@),
    {
        let mut steps: Vec<Step> = Vec::new();
        steps.push(Step::CopyFile { from: self.path.clone(), to: dest.to_owned(), depth: 0 });
        proof {
            assert(steps_view(steps@) =~= seq![StepView::CopyFile(self.path@, dest@, 0)]);
        }
        CopyRun::start(steps)
    }
}

impl Directory {
    /// Starts copying this directory's contents into the existing directory
    /// `dest`: files onto `dest` joined with their names, sub-directories
    /// into `dest` joined with their own names, created where absent.
    pub fn copy(&self, dest: &str) -> (r: CopyRun)
        ensures
            r@ == (RunView {
                steps: dir_plan(*self, dest@, 0),
                pos: 0,
                skip: None,
                awaiting: false,
                errors: Seq::empty(),
            }),
            run_wf(r@),
    {
        let mut steps: Vec<Step> = Vec::new();
        self.add_plan(dest, 0, &mut steps);
        proof {
            assert(steps_view(Seq::<Step>::empty()) =~= Seq::<StepView>::empty());
        }
        CopyRun::start(steps)
    }
}


impl CopyRun {
    /// A run over the given steps, from the start.
    pub(crate) fn start(steps: Vec<Step>) -> (r: CopyRun)
        ensures
            r@ == (RunView {
                steps: steps_view(steps@),
                pos: 0,
                skip: None,
                awaiting: false,
                errors: Seq::empty(),
            }),
            run_wf(r@),
    {
        CopyRun { steps, pos: 0, skip: None, awaiting: false, errors: Vec::new() }
    }

    /// Passes over the steps that need no work from the caller (those inside
    /// a directory that could not be created, and unnamed sub-directories,
    /// which are recorded as faults), and hands out the next action, or
    /// nothing once every step is done.
    pub fn next_action(&mut self) -> (r: Option<CopyAction>)
        requires
            run_wf(old(self)@),
            !old(self)@.awaiting,
        ensures
            final(self)@ == settle(old(self)@),
            run_wf(final(self)@),
            r is Some <==> final(self)@.awaiting,
            r is Some ==> action_for(r->Some_0, final(self)@.steps[final(self)@.pos as int]),
    {
        while self.pos < self.steps.len()
            invariant
                run_wf(self@),
                !self@.awaiting,
                settle(self@) == settle(old(self)@),
            decreases self.steps@.len() - self.pos,
        {
            let ghost v = self@;
            let p = self.pos;
            let (depth, kind): (usize, u8) = match &self.steps[p] {
                Step::CopyFile { depth, .. } => (*depth, 0),
                Step::MakeDir { depth, .. } => (*depth, 1),
                Step::Unnamed { depth } => (*depth, 2),
            };
            assert(v.steps[p as int] == self.steps@[p as int]@);
            let passed = match self.skip {
                Some(d) => depth > d,
                None => false,
            };
            if passed {
                self.pos = p + 1;
                assert(self@ == (RunView { pos: v.pos + 1, ..v }));
            } else if kind == 2 {
                self.errors.push(DirError::NoDirectoryNameError);
                self.skip = None;
                self.pos = p + 1;
                assert(self@ =~= (RunView {
                    pos: v.pos + 1,
                    skip: None,
                    errors: v.errors.push(DirError::NoDirectoryNameError),
                    ..v
                }));
            } else {
                self.awaiting = true;
                let a = match &self.steps[p] {
                    Step::CopyFile { from, to, .. } => CopyAction::CopyFile { from: from.clone(), to: to.clone() },
                    Step::MakeDir { path, .. } => CopyAction::MakeDir { path: path.clone() },
                    Step::Unnamed { .. } => CopyAction::MakeDir { path: String::new() },
                };
                assert(self@ == (RunView { awaiting: true, ..v }));
                return Some(a);
            }
        }
        None
    }

    /// Records the outcome of the action last handed out. A failed action
    /// becomes one fault; a directory that could not be created also has
    /// what lies inside it passed over. Nothing else is dropped.
    pub fn record(&mut self, outcome: Result<(), IoFault>)
        requires
            run_wf(old(self)@),
            old(self)@.awaiting,
        ensures
            final(self)@ == after(old(self)@, outcome),
            run_wf(final(self)@),
    {
        let ghost v = self@;
        let p = self.pos;
        let n = self.steps.len();
        assert(v.steps.len() == n);
        assert(v.steps[p as int] == self.steps@[p as int]@);
        let (depth, is_dir): (usize, bool) = match &self.steps[p] {
            Step::CopyFile { depth, .. } => (*depth, false),
            Step::MakeDir { depth, .. } => (*depth, true),
            Step::Unnamed { depth } => (*depth, false),
        };
        match outcome {
            Ok(_) => {
                self.skip = None;
            },
            Err(f) => {
                if is_dir {
                    self.errors.push(DirError::DirIOError(f));
                    self.skip = Some(depth);
                } else {
                    self.errors.push(DirError::DirFileCopyError(FileError::CopyError(f)));
                    self.skip = None;
                }
            },
        }
        self.pos = p + 1;
        self.awaiting = false;
        assert(self@.errors =~= after(v, outcome).errors);
    }

    /// The faults collected so far, in the order they arose.
    pub fn errors(&self) -> (r: &Vec<DirError>)
        ensures
            r@ == self@.errors,
    {
        &self.errors
    }

    /// Whether every step has been done.
    pub fn is_finished(&self) -> (r: bool)
        ensures
            r == (self@.pos >= self@.steps.len() && !self@.awaiting),
    {
        self.pos >= self.steps.len() && !self.awaiting
    }
}

} // verus!
