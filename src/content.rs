//! What a copy does to file contents, and the laws that follow.
use vstd::prelude::*;

use crate::dot::{EntityKind, ManagedDotfile, PairKind, Probe, classify_spec, pair_kind_spec, pair_plan};
use crate::path::path_join;
use crate::plan::dir_plan;
use crate::plan::StepView;

verus! {

/// The effect of one step on the contents of files, keyed by path: a file
/// copy whose source exists overwrites its target with the source's bytes.
pub open spec fn apply_step(fs: Map<Seq<char>, Seq<u8>>, s: StepView) -> Map<Seq<char>, Seq<u8>> {
    match s {
        StepView::CopyFile(from, to, _) => if fs.dom().contains(from) {
            fs.insert(to, fs[from])
        } else {
            fs
        },
        _ => fs,
    }
}

/// The effect of steps performed in order, each one succeeding where its
/// source exists.
pub open spec fn apply_steps(fs: Map<Seq<char>, Seq<u8>>, steps: Seq<StepView>) -> Map<Seq<char>, Seq<u8>>
    decreases steps.len(),
{
    if steps.len() == 0 {
        fs
    } else {
        apply_step(apply_steps(fs, steps.drop_last()), steps.last())
    }
}

/// The path a step reads, if any.
pub open spec fn read_by(s: StepView) -> Option<Seq<char>> {
    match s {
        StepView::CopyFile(f, _, _) => Some(f),
        _ => None,
    }
}

/// The file a step writes, if any.
pub open spec fn written_by(s: StepView) -> Option<Seq<char>> {
    match s {
        StepView::CopyFile(_, t, _) => Some(t),
        _ => None,
    }
}

pub open spec fn is_source(steps: Seq<StepView>, p: Seq<char>) -> bool {
    exists|i: int| 0 <= i < steps.len() && read_by(#[trigger] steps[i]) == Some(p)
}

pub open spec fn is_target(steps: Seq<StepView>, p: Seq<char>) -> bool {
    exists|i: int| 0 <= i < steps.len() && written_by(#[trigger] steps[i]) == Some(p)
}

/// No step writes where a step reads.
pub open spec fn sources_untouched(steps: Seq<StepView>) -> bool {
    forall|p: Seq<char>| is_source(steps, p) ==> !is_target(steps, p)
}

/// The writes that the steps make, reading every source from `fs`.
pub open spec fn writes(fs: Map<Seq<char>, Seq<u8>>, steps: Seq<StepView>) -> Map<Seq<char>, Seq<u8>>
    decreases steps.len(),
{
    if steps.len() == 0 {
        Map::empty()
    } else {
        let w = writes(fs, steps.drop_last());
        match steps.last() {
            StepView::CopyFile(from, to, _) => if fs.dom().contains(from) {
                w.insert(to, fs[from])
            } else {
                w
            },
            _ => w,
        }
    }
}

proof fn lemma_prefix_roles(steps: Seq<StepView>, p: Seq<char>)
    requires
        steps.len() > 0,
    ensures
        is_source(steps.drop_last(), p) ==> is_source(steps, p),
        is_target(steps.drop_last(), p) ==> is_target(steps, p),
{
    if is_source(steps.drop_last(), p) {
        let i = choose|i: int| 0 <= i < steps.drop_last().len() && read_by(#[trigger] steps.drop_last()[i]) == Some(p);
        assert(steps[i] == steps.drop_last()[i]);
    }
    if is_target(steps.drop_last(), p) {
        let i = choose|i: int| 0 <= i < steps.drop_last().len() && written_by(#[trigger] steps.drop_last()[i]) == Some(p);
        assert(steps[i] == steps.drop_last()[i]);
    }
}

proof fn lemma_writes_only_targets(fs: Map<Seq<char>, Seq<u8>>, steps: Seq<StepView>, p: Seq<char>)
    ensures
        writes(fs, steps).dom().contains(p) ==> is_target(steps, p),
    decreases steps.len(),
{
    if steps.len() > 0 {
        lemma_writes_only_targets(fs, steps.drop_last(), p);
        lemma_prefix_roles(steps, p);
        let k = steps.len() - 1;
        assert(steps.last() == steps[k]);
    }
}

proof fn lemma_apply_is_writes(fs: Map<Seq<char>, Seq<u8>>, steps: Seq<StepView>)
    requires
        sources_untouched(steps),
    ensures
        apply_steps(fs, steps) == fs.union_prefer_right(writes(fs, steps)),
    decreases steps.len(),
{
    if steps.len() == 0 {
        assert(fs.union_prefer_right(Map::empty()) =~= fs);
    } else {
        let pre = steps.drop_last();
        assert forall|p: Seq<char>| is_source(pre, p) implies !is_target(pre, p) by {
            lemma_prefix_roles(steps, p);
        }
        lemma_apply_is_writes(fs, pre);
        let w = writes(fs, pre);
        let k = steps.len() - 1;
        assert(steps.last() == steps[k]);
        match steps.last() {
            StepView::CopyFile(from, to, _) => {
                assert(read_by(steps[k]) == Some(from));
                assert(is_source(steps, from));
                lemma_writes_only_targets(fs, pre, from);
                lemma_prefix_roles(steps, from);
                assert(!w.dom().contains(from));
                if fs.dom().contains(from) {
                    assert(fs.union_prefer_right(w).insert(to, fs[from]) =~= fs.union_prefer_right(
                        w.insert(to, fs[from]),
                    ));
                }
            },
            _ => {},
        }
    }
}

/// The two content maps hold the same at every path that the steps read.
pub open spec fn agree_on_sources(
    g1: Map<Seq<char>, Seq<u8>>,
    g2: Map<Seq<char>, Seq<u8>>,
    steps: Seq<StepView>,
) -> bool {
    forall|p: Seq<char>|
        #[trigger] is_source(steps, p) ==> (g1.dom().contains(p) == g2.dom().contains(p) && (
        g1.dom().contains(p) ==> g1[p] == g2[p]))
}

proof fn lemma_writes_read_sources(
    g1: Map<Seq<char>, Seq<u8>>,
    g2: Map<Seq<char>, Seq<u8>>,
    steps: Seq<StepView>,
)
    requires
        agree_on_sources(g1, g2, steps),
    ensures
        writes(g1, steps) == writes(g2, steps),
    decreases steps.len(),
{
    if steps.len() > 0 {
        assert forall|p: Seq<char>| #[trigger] is_source(steps.drop_last(), p) implies (g1.dom().contains(p)
            == g2.dom().contains(p) && (g1.dom().contains(p) ==> g1[p] == g2[p])) by {
            lemma_prefix_roles(steps, p);
        }
        lemma_writes_read_sources(g1, g2, steps.drop_last());
        let k = steps.len() - 1;
        assert(steps.last() == steps[k]);
        match steps.last() {
            StepView::CopyFile(from, to, _) => {
                assert(read_by(steps[k]) == Some(from));
                assert(is_source(steps, from));
            },
            _ => {},
        }
    }
}

/// Performing a copy a second time changes nothing, where no step writes
/// where a step reads: the second pass reads the same sources and writes
/// the same targets.
pub proof fn lemma_copy_idempotent(fs: Map<Seq<char>, Seq<u8>>, steps: Seq<StepView>)
    requires
        sources_untouched(steps),
    ensures
        apply_steps(apply_steps(fs, steps), steps) == apply_steps(fs, steps),
{
    let h = apply_steps(fs, steps);
    lemma_apply_is_writes(fs, steps);
    lemma_apply_is_writes(h, steps);
    assert forall|p: Seq<char>| #[trigger] is_source(steps, p) implies (h.dom().contains(p) == fs.dom().contains(p)
        && (h.dom().contains(p) ==> h[p] == fs[p])) by {
        lemma_writes_only_targets(fs, steps, p);
    }
    lemma_writes_read_sources(h, fs, steps);
    let w = writes(fs, steps);
    assert(h.union_prefer_right(w) =~= h);
}

/// Copying a pair in one direction twice over gives what copying it once
/// gives, where the copy writes nowhere it reads.
pub proof fn lemma_pair_copy_idempotent(p: ManagedDotfile, to_sys: bool, fs: Map<Seq<char>, Seq<u8>>)
    requires
        pair_plan(p, to_sys) is Some,
        sources_untouched(pair_plan(p, to_sys)->Some_0),
    ensures
        ({
            let steps = pair_plan(p, to_sys)->Some_0;
            apply_steps(apply_steps(fs, steps), steps) == apply_steps(fs, steps)
        }),
{
    lemma_copy_idempotent(fs, pair_plan(p, to_sys)->Some_0);
}

proof fn lemma_single_step(fs: Map<Seq<char>, Seq<u8>>, s: StepView)
    ensures
        apply_steps(fs, seq![s]) == apply_step(fs, s),
{
    assert(seq![s].drop_last() =~= Seq::<StepView>::empty());
    assert(apply_steps(fs, Seq::<StepView>::empty()) == fs);
}

/// A file copied onto another path and then back leaves the first file as
/// it was and the second holding the first file's bytes; where the two held
/// the same bytes, every file is as it was. These are the steps that
/// `File::copy` plans.
pub proof fn lemma_file_copy_round_trip(a: Seq<char>, b: Seq<char>, fs: Map<Seq<char>, Seq<u8>>)
    requires
        fs.dom().contains(a),
    ensures
        ({
            let once = apply_steps(fs, seq![StepView::CopyFile(a, b, 0)]);
            let back = apply_steps(once, seq![StepView::CopyFile(b, a, 0)]);
            &&& back.dom().contains(a) && back[a] == fs[a]
            &&& back.dom().contains(b) && back[b] == fs[a]
            &&& (fs.dom().contains(b) && fs[b] == fs[a]) ==> back == fs
        }),
{
    lemma_single_step(fs, StepView::CopyFile(a, b, 0));
    let once = apply_steps(fs, seq![StepView::CopyFile(a, b, 0)]);
    lemma_single_step(once, StepView::CopyFile(b, a, 0));
    if fs.dom().contains(b) && fs[b] == fs[a] {
        assert(fs.insert(b, fs[a]) =~= fs);
        assert(fs.insert(a, fs[a]) =~= fs);
    }
}

/// A file pair copied from the manager side onto the system side and then
/// back leaves the manager file as it was and the system file holding the
/// manager file's bytes; where the two files held the same bytes, every
/// file is as it was.
pub proof fn lemma_file_round_trip(p: ManagedDotfile, fs: Map<Seq<char>, Seq<u8>>)
    requires
        p.manager_dotfile is File,
        p.system_dotfile is File,
        fs.dom().contains(p.manager_dotfile->File_0.path@),
    ensures
        ({
            let m = p.manager_dotfile->File_0.path@;
            let s = p.system_dotfile->File_0.path@;
            let once = apply_steps(fs, pair_plan(p, true)->Some_0);
            let back = apply_steps(once, pair_plan(p, false)->Some_0);
            &&& back.dom().contains(m) && back[m] == fs[m]
            &&& back.dom().contains(s) && back[s] == fs[m]
            &&& (fs.dom().contains(s) && fs[s] == fs[m]) ==> back == fs
        }),
{
    let m = p.manager_dotfile->File_0.path@;
    let s = p.system_dotfile->File_0.path@;
    lemma_single_step(fs, StepView::CopyFile(m, s, 0));
    let once = apply_steps(fs, pair_plan(p, true)->Some_0);
    lemma_single_step(once, StepView::CopyFile(s, m, 0));
    if fs.dom().contains(s) && fs[s] == fs[m] {
        assert(fs.insert(s, fs[m]) =~= fs);
        assert(fs.insert(m, fs[m]) =~= fs);
    }
}

/// No two steps write the same file.
pub open spec fn targets_distinct(steps: Seq<StepView>) -> bool {
    forall|i: int, j: int|
        0 <= i < j < steps.len() && (#[trigger] written_by(steps[i])) is Some ==> written_by(steps[i])
            != #[trigger] written_by(steps[j])
}

proof fn lemma_write_lands(fs: Map<Seq<char>, Seq<u8>>, steps: Seq<StepView>, i: int)
    requires
        0 <= i < steps.len(),
        targets_distinct(steps),
        steps[i] is CopyFile,
        fs.dom().contains(read_by(steps[i])->Some_0),
    ensures
        writes(fs, steps).dom().contains(written_by(steps[i])->Some_0),
        writes(fs, steps)[written_by(steps[i])->Some_0] == fs[read_by(steps[i])->Some_0],
    decreases steps.len(),
{
    let k = steps.len() - 1;
    assert(steps.last() == steps[k]);
    if i < k {
        let pre = steps.drop_last();
        assert(pre[i] == steps[i]);
        assert forall|a: int, b: int|
            0 <= a < b < pre.len() && (#[trigger] written_by(pre[a])) is Some implies written_by(pre[a])
                != #[trigger] written_by(pre[b]) by {
            assert(pre[a] == steps[a] && pre[b] == steps[b]);
        }
        lemma_write_lands(fs, pre, i);
        assert(written_by(steps[i]) != written_by(steps[k]));
    }
}

/// Where no step writes where a step reads and no two steps write the same
/// file, a copy leaves each target holding the bytes of its source.
pub proof fn lemma_targets_hold_sources(fs: Map<Seq<char>, Seq<u8>>, steps: Seq<StepView>, i: int)
    requires
        sources_untouched(steps),
        targets_distinct(steps),
        0 <= i < steps.len(),
        steps[i] is CopyFile,
        fs.dom().contains(read_by(steps[i])->Some_0),
    ensures
        apply_steps(fs, steps).dom().contains(written_by(steps[i])->Some_0),
        apply_steps(fs, steps)[written_by(steps[i])->Some_0] == fs[read_by(steps[i])->Some_0],
{
    lemma_apply_is_writes(fs, steps);
    lemma_write_lands(fs, steps, i);
}

/// A pair whose manager path does not exist and whose system path is a
/// directory is classified (as `ManagedDotfile::plan` does) as a directory
/// pair. Copied from the system side onto the
/// manager directory, each file of the system directory lands in the
/// manager directory under its own name with the same bytes, and so does
/// every file deeper down, where no copy writes where a copy reads and no
/// two copies write the same file.
pub proof fn lemma_missing_manager_side(
    manager_probe: Probe,
    system_probe: Probe,
    p: ManagedDotfile,
    fs: Map<Seq<char>, Seq<u8>>,
    i: int,
)
    requires
        manager_probe == Probe::NotFound,
        system_probe == (Probe::Found { is_dir: true }),
        p.manager_dotfile is Dir,
        p.system_dotfile is Dir,
        sources_untouched(pair_plan(p, false)->Some_0),
        targets_distinct(pair_plan(p, false)->Some_0),
    ensures
        classify_spec(manager_probe) == Ok::<EntityKind, crate::file::IoFault>(EntityKind::Missing),
        classify_spec(system_probe) == Ok::<EntityKind, crate::file::IoFault>(EntityKind::Directory),
        pair_kind_spec(classify_spec(manager_probe)->Ok_0, classify_spec(system_probe)->Ok_0) == Ok::<
            PairKind,
            crate::dot::DotfileError,
        >(PairKind::Directory),
        ({
            let sys = p.system_dotfile->Dir_0;
            let man = p.manager_dotfile->Dir_0.path@;
            let steps = pair_plan(p, false)->Some_0;
            &&& steps == dir_plan(sys, man, 0)
            &&& (0 <= i < sys.files@.len() && fs.dom().contains(sys.files@[i].path@)) ==> ({
                let f = sys.files@[i];
                &&& apply_steps(fs, steps).dom().contains(path_join(man, f.filename@))
                &&& apply_steps(fs, steps)[path_join(man, f.filename@)] == fs[f.path@]
            })
            &&& (0 <= i < steps.len() && steps[i] is CopyFile && fs.dom().contains(read_by(steps[i])->Some_0))
                ==> apply_steps(fs, steps)[written_by(steps[i])->Some_0] == fs[read_by(steps[i])->Some_0]
        }),
{
    let sys = p.system_dotfile->Dir_0;
    let man = p.manager_dotfile->Dir_0.path@;
    let steps = pair_plan(p, false)->Some_0;
    if 0 <= i < sys.files@.len() && fs.dom().contains(sys.files@[i].path@) {
        assert(steps[i] == StepView::CopyFile(sys.files@[i].path@, path_join(man, sys.files@[i].filename@), 0));
        lemma_targets_hold_sources(fs, steps, i);
    }
    if 0 <= i < steps.len() && steps[i] is CopyFile && fs.dom().contains(read_by(steps[i])->Some_0) {
        lemma_targets_hold_sources(fs, steps, i);
    }
}

} // verus!
