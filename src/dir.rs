use vstd::prelude::*;

use crate::file::{File, FileError, IoFault};
use crate::path::{join_path, path_join, same_text};

verus! {

#[derive(Debug, PartialEq, Eq)]
pub enum DirError {
    DirIOError(IoFault),
    DirFileCopyError(FileError),
    NoDirectoryNameError,
    /// An entry that is neither a regular file nor a directory; its name.
    UnclassifiedEntry(String),
    /// A scanned sub-directory whose path is not its parent's path joined
    /// with its name; that path.
    StrayDirectory(String),
    /// An entry whose place in the tree an earlier entry already took; its
    /// name.
    DuplicateEntry(String),
}

impl Clone for DirError {
    fn clone(&self) -> (r: Self)
        ensures
            r == *self,
    {
        match self {
            DirError::DirIOError(f) => DirError::DirIOError(f.clone()),
            DirError::DirFileCopyError(e) => DirError::DirFileCopyError(e.clone()),
            DirError::NoDirectoryNameError => DirError::NoDirectoryNameError,
            DirError::UnclassifiedEntry(n) => DirError::UnclassifiedEntry(n.clone()),
            DirError::StrayDirectory(p) => DirError::StrayDirectory(p.clone()),
            DirError::DuplicateEntry(n) => DirError::DuplicateEntry(n.clone()),
        }
    }
}

impl DirError {
    pub open spec fn text(&self) -> Seq<char> {
        match self {
            DirError::DirIOError(f) => f.text(),
            DirError::DirFileCopyError(e) => e.text(),
            DirError::NoDirectoryNameError => "Directory does not have a valid name"@,
            DirError::UnclassifiedEntry(n) => "neither a file nor a directory: "@ + n@,
            DirError::StrayDirectory(p) => "scanned directory lies outside its parent: "@ + p@,
            DirError::DuplicateEntry(n) => "entry listed twice: "@ + n@,
        }
    }

    /// The error as text.
    pub fn describe(&self) -> (r: String)
        ensures
            r@ == self.text(),
    {
        match self {
            DirError::DirIOError(f) => f.describe(),
            DirError::DirFileCopyError(e) => e.describe(),
            DirError::NoDirectoryNameError => "Directory does not have a valid name".to_owned(),
            DirError::UnclassifiedEntry(n) => "neither a file nor a directory: ".to_owned().concat(n.as_str()),
            DirError::StrayDirectory(p) => "scanned directory lies outside its parent: ".to_owned().concat(
                p.as_str(),
            ),
            DirError::DuplicateEntry(n) => "entry listed twice: ".to_owned().concat(n.as_str()),
        }
    }
}

/// A directory and everything one scan of it found: its files, its
/// sub-directories (each scanned in turn) and the faults met on the way.
#[derive(Debug)]
pub struct Directory {
    pub files: Vec<File>,
    pub directories: Vec<Directory>,
    pub path: String,
    pub errors: Vec<DirError>,
}

/// One entry of a directory listing, as the scan saw it.
#[derive(Debug)]
pub enum Scanned {
    /// The listing reported a fault in place of the entry.
    Unreadable(IoFault),
    /// The entry's metadata could not be read.
    NoMetadata(IoFault),
    /// A sub-directory: its name, and the outcome of scanning it.
    Dir(String, Result<Directory, DirError>),
    /// A regular file: its name.
    File(String),
    /// An entry whose name is not valid text.
    Undecodable,
    /// An entry that is neither a regular file nor a directory: its name.
    Other(String),
    /// An entry whose place in the tree an earlier entry already took: its
    /// name.
    Repeated(String),
}

/// The concatenation of `f` over the entries, in order.
pub open spec fn gather<A>(es: Seq<Scanned>, f: spec_fn(Scanned) -> Seq<A>) -> Seq<A>
    decreases es.len(),
{
    if es.len() == 0 {
        Seq::empty()
    } else {
        gather(es.drop_last(), f) + f(es.last())
    }
}

pub open spec fn read_error_of(e: Scanned) -> Seq<DirError> {
    match e {
        Scanned::Unreadable(f) => seq![DirError::DirIOError(f)],
        _ => Seq::empty(),
    }
}

pub open spec fn metadata_error_of(e: Scanned) -> Seq<DirError> {
    match e {
        Scanned::NoMetadata(f) => seq![DirError::DirIOError(f)],
        _ => Seq::empty(),
    }
}

/// `p` is `dir` joined with some name.
pub open spec fn is_child_of(dir: Seq<char>, p: Seq<char>) -> bool {
    exists|m: Seq<char>| p == #[trigger] path_join(dir, m)
}

/// A sub-directory of `dir` is taken in where its scan succeeded at the
/// path `dir` joined with its name.
pub open spec fn placed(dir: Seq<char>, name: String, d: Directory) -> bool {
    d.path@ == path_join(dir, name@)
}

pub open spec fn subdir_error_of(dir: Seq<char>, e: Scanned) -> Seq<DirError> {
    match e {
        Scanned::Dir(_, Err(d)) => seq![d],
        Scanned::Dir(n, Ok(d)) => if placed(dir, n, d) {
            Seq::empty()
        } else {
            seq![DirError::StrayDirectory(d.path)]
        },
        _ => Seq::empty(),
    }
}

pub open spec fn file_error_of(e: Scanned) -> Seq<DirError> {
    match e {
        Scanned::Undecodable => seq![DirError::DirFileCopyError(FileError::FilenameInvalidUTFError)],
        _ => Seq::empty(),
    }
}

pub open spec fn unclassified_of(e: Scanned) -> Seq<DirError> {
    match e {
        Scanned::Other(n) => seq![DirError::UnclassifiedEntry(n)],
        _ => Seq::empty(),
    }
}

/// A listed file of `dir`: its path (`dir` joined with its name) and name.
pub open spec fn file_of(dir: Seq<char>, e: Scanned) -> Seq<(Seq<char>, Seq<char>)> {
    match e {
        Scanned::File(n) => seq![(path_join(dir, n@), n@)],
        _ => Seq::empty(),
    }
}

pub open spec fn subdir_of(dir: Seq<char>, e: Scanned) -> Seq<Directory> {
    match e {
        Scanned::Dir(n, Ok(d)) => if placed(dir, n, d) {
            seq![d]
        } else {
            Seq::empty()
        },
        _ => Seq::empty(),
    }
}

pub open spec fn repeat_error_of(e: Scanned) -> Seq<DirError> {
    match e {
        Scanned::Repeated(n) => seq![DirError::DuplicateEntry(n)],
        _ => Seq::empty(),
    }
}

/// The faults of one scan of `dir`, in the order: unreadable entries,
/// unreadable metadata, failed sub-directories, files whose names are not
/// text, entries of neither kind, entries listed twice.
pub open spec fn scan_errors(dir: Seq<char>, es: Seq<Scanned>) -> Seq<DirError> {
    gather(es, |e| read_error_of(e)) + gather(es, |e| metadata_error_of(e)) + gather(
        es,
        |e| subdir_error_of(dir, e),
    ) + gather(es, |e| file_error_of(e)) + gather(es, |e| unclassified_of(e)) + gather(
        es,
        |e| repeat_error_of(e),
    )
}

/// The path that an entry would hold in the tree of `dir`: a file's is
/// `dir` joined with its name, a placed sub-directory's is its own.
pub open spec fn node_path(dir: Seq<char>, e: Scanned) -> Option<Seq<char>> {
    match e {
        Scanned::File(n) => Some(path_join(dir, n@)),
        Scanned::Dir(n, Ok(d)) => if placed(dir, n, d) {
            Some(d.path@)
        } else {
            None
        },
        _ => None,
    }
}

/// The entry at `k` would take a path that an earlier entry takes.
pub open spec fn repeats(dir: Seq<char>, es: Seq<Scanned>, k: int) -> bool {
    &&& node_path(dir, es[k]) is Some
    &&& exists|j: int| 0 <= j < k && #[trigger] node_path(dir, es[j]) == node_path(dir, es[k])
}

/// The entries as a scan takes them in: one that repeats an earlier
/// entry's path counts as repeated.
pub open spec fn marked(dir: Seq<char>, es: Seq<Scanned>) -> Seq<Scanned> {
    Seq::new(
        es.len(),
        |k: int|
            if repeats(dir, es, k) {
                match es[k] {
                    Scanned::File(n) => Scanned::Repeated(n),
                    Scanned::Dir(n, _) => Scanned::Repeated(n),
                    other => other,
                }
            } else {
                es[k]
            },
    )
}

/// Path and name of each file node.
pub open spec fn files_view(fs: Seq<File>) -> Seq<(Seq<char>, Seq<char>)> {
    fs.map_values(|f: File| (f.path@, f.filename@))
}

proof fn lemma_gather_push<A>(es: Seq<Scanned>, e: Scanned, f: spec_fn(Scanned) -> Seq<A>)
    ensures
        gather(es.push(e), f) == gather(es, f) + f(e),
{
    assert(es.push(e).drop_last() =~= es);
}

proof fn lemma_gather_concat<A>(a: Seq<Scanned>, b: Seq<Scanned>, f: spec_fn(Scanned) -> Seq<A>)
    ensures
        gather(a + b, f) == gather(a, f) + gather(b, f),
    decreases b.len(),
{
    if b.len() == 0 {
        assert(a + b =~= a);
        assert(gather(b, f) =~= Seq::<A>::empty());
        assert(gather(a, f) + gather(b, f) =~= gather(a, f));
    } else {
        lemma_gather_concat(a, b.drop_last(), f);
        assert((a + b).drop_last() =~= a + b.drop_last());
        assert((a + b).last() == b.last());
        assert(gather(a + b, f) =~= gather(a, f) + gather(b, f));
    }
}

proof fn lemma_gather_single<A>(x: Scanned, f: spec_fn(Scanned) -> Seq<A>)
    ensures
        gather(seq![x], f) == f(x),
{
    assert(seq![x].drop_last() =~= Seq::<Scanned>::empty());
    assert(gather(Seq::<Scanned>::empty(), f) =~= Seq::<A>::empty());
    assert(gather(seq![x], f) =~= f(x));
}

proof fn lemma_gather_none<A>(a: Seq<Scanned>, f: spec_fn(Scanned) -> Seq<A>)
    requires
        forall|i: int| 0 <= i < a.len() ==> f(#[trigger] a[i]).len() == 0,
    ensures
        gather(a, f).len() == 0,
    decreases a.len(),
{
    if a.len() > 0 {
        assert forall|i: int| 0 <= i < a.drop_last().len() implies f(#[trigger] a.drop_last()[i]).len() == 0 by {
            assert(a.drop_last()[i] == a[i]);
        }
        lemma_gather_none(a.drop_last(), f);
        assert(f(a[a.len() - 1]).len() == 0);
    }
}


/// An entry that a scan takes in without a fault.
pub open spec fn sound_entry(dir: Seq<char>, e: Scanned) -> bool {
    match e {
        Scanned::Dir(n, Ok(d)) => placed(dir, n, d),
        Scanned::File(_) => true,
        _ => false,
    }
}

/// What one entry adds to the faults of a scan.
pub open spec fn entry_errors(dir: Seq<char>, x: Scanned) -> Seq<DirError> {
    read_error_of(x) + metadata_error_of(x) + subdir_error_of(dir, x) + file_error_of(x) + unclassified_of(x)
        + repeat_error_of(x)
}

proof fn lemma_sound_entries_no_errors(dir: Seq<char>, a: Seq<Scanned>)
    requires
        forall|i: int| 0 <= i < a.len() ==> sound_entry(dir, #[trigger] a[i]),
    ensures
        scan_errors(dir, a).len() == 0,
{
    lemma_gather_none(a, |e| read_error_of(e));
    lemma_gather_none(a, |e| metadata_error_of(e));
    lemma_gather_none(a, |e| subdir_error_of(dir, e));
    lemma_gather_none(a, |e| file_error_of(e));
    lemma_gather_none(a, |e| unclassified_of(e));
    lemma_gather_none(a, |e| repeat_error_of(e));
}

proof fn lemma_one_unsound_entry(dir: Seq<char>, es: Seq<Scanned>, k: int)
    requires
        0 <= k < es.len(),
        !sound_entry(dir, es[k]),
        forall|i: int| 0 <= i < es.len() && i != k ==> sound_entry(dir, #[trigger] es[i]),
    ensures
        scan_errors(dir, es).len() == 1,
        scan_errors(dir, es.remove(k)).len() == 0,
        gather(es, |e| file_of(dir, e)) == gather(es.remove(k), |e| file_of(dir, e)),
        gather(es, |e| subdir_of(dir, e)) == gather(es.remove(k), |e| subdir_of(dir, e)),
{
    let a = es.subrange(0, k);
    let b = es.subrange(k + 1, es.len() as int);
    let x = es[k];
    assert(es =~= a + seq![x] + b);
    assert(es.remove(k) =~= a + b);
    assert forall|i: int| 0 <= i < (a + b).len() implies sound_entry(dir, #[trigger] (a + b)[i]) by {
        if i < a.len() {
            assert((a + b)[i] == es[i]);
        } else {
            assert((a + b)[i] == es[i + 1]);
        }
    }
    assert forall|i: int| 0 <= i < a.len() implies sound_entry(dir, #[trigger] a[i]) by {
        assert(a[i] == es[i]);
    }
    assert forall|i: int| 0 <= i < b.len() implies sound_entry(dir, #[trigger] b[i]) by {
        assert(b[i] == es[i + k + 1]);
    }
    lemma_sound_entries_no_errors(dir, a + b);
    lemma_sound_entries_no_errors(dir, a);
    lemma_sound_entries_no_errors(dir, b);
    lemma_gather_single(x, |e| file_of(dir, e));
    lemma_gather_single(x, |e| subdir_of(dir, e));
    lemma_gather_single(x, |e| read_error_of(e));
    lemma_gather_single(x, |e| metadata_error_of(e));
    lemma_gather_single(x, |e| subdir_error_of(dir, e));
    lemma_gather_single(x, |e| file_error_of(e));
    lemma_gather_single(x, |e| unclassified_of(e));
    lemma_gather_single(x, |e| repeat_error_of(e));
    assert(entry_errors(dir, x).len() == 1);
    lemma_gather_concat(a + seq![x], b, |e| file_of(dir, e));
    lemma_gather_concat(a, seq![x], |e| file_of(dir, e));
    lemma_gather_concat(a, b, |e| file_of(dir, e));
    lemma_gather_concat(a + seq![x], b, |e| subdir_of(dir, e));
    lemma_gather_concat(a, seq![x], |e| subdir_of(dir, e));
    lemma_gather_concat(a, b, |e| subdir_of(dir, e));
    lemma_gather_concat(a + seq![x], b, |e| read_error_of(e));
    lemma_gather_concat(a, seq![x], |e| read_error_of(e));
    lemma_gather_concat(a + seq![x], b, |e| metadata_error_of(e));
    lemma_gather_concat(a, seq![x], |e| metadata_error_of(e));
    lemma_gather_concat(a + seq![x], b, |e| subdir_error_of(dir, e));
    lemma_gather_concat(a, seq![x], |e| subdir_error_of(dir, e));
    lemma_gather_concat(a + seq![x], b, |e| file_error_of(e));
    lemma_gather_concat(a, seq![x], |e| file_error_of(e));
    lemma_gather_concat(a + seq![x], b, |e| unclassified_of(e));
    lemma_gather_concat(a, seq![x], |e| unclassified_of(e));
    lemma_gather_concat(a + seq![x], b, |e| repeat_error_of(e));
    lemma_gather_concat(a, seq![x], |e| repeat_error_of(e));
    assert(gather(es, |e| file_of(dir, e)) =~= gather(es.remove(k), |e| file_of(dir, e)));
    assert(gather(es, |e| subdir_of(dir, e)) =~= gather(es.remove(k), |e| subdir_of(dir, e)));
}

proof fn lemma_unrepeated_unmarked(dir: Seq<char>, es: Seq<Scanned>)
    requires
        forall|i: int| 0 <= i < es.len() ==> !repeats(dir, es, i),
    ensures
        marked(dir, es) == es,
{
    assert(marked(dir, es) =~= es);
}

/// A scan that meets one entry it cannot take in (one that cannot be
/// listed, has no readable metadata, failed to be scanned, has a name that
/// is not text, or is of neither kind), all others being sound and no entry
/// repeating another's place, still holds every other file and
/// sub-directory, exactly as a scan without that entry would, and records
/// exactly one fault.
pub proof fn lemma_one_unreadable_entry(dir: Seq<char>, es: Seq<Scanned>, k: int)
    requires
        0 <= k < es.len(),
        !sound_entry(dir, es[k]),
        forall|i: int| 0 <= i < es.len() && i != k ==> sound_entry(dir, #[trigger] es[i]),
        forall|i: int| 0 <= i < es.len() ==> !repeats(dir, es, i),
    ensures
        scan_errors(dir, marked(dir, es)).len() == 1,
        scan_errors(dir, marked(dir, es.remove(k))).len() == 0,
        gather(marked(dir, es), |e| file_of(dir, e)) == gather(marked(dir, es.remove(k)), |e| file_of(dir, e)),
        gather(marked(dir, es), |e| subdir_of(dir, e)) == gather(marked(dir, es.remove(k)), |e| subdir_of(dir, e)),
{
    let r = es.remove(k);
    assert forall|i: int| 0 <= i < r.len() implies !repeats(dir, r, i) by {
        let ii = if i < k { i } else { i + 1 };
        assert(r[i] == es[ii]);
        if repeats(dir, r, i) {
            let j = choose|j: int| 0 <= j < i && #[trigger] node_path(dir, r[j]) == node_path(dir, r[i]);
            let jj = if j < k { j } else { j + 1 };
            assert(r[j] == es[jj]);
            assert(node_path(dir, es[jj]) == node_path(dir, es[ii]));
            assert(repeats(dir, es, ii));
        }
    }
    lemma_unrepeated_unmarked(dir, es);
    lemma_unrepeated_unmarked(dir, r);
    lemma_one_unsound_entry(dir, es, k);
}

/// No two children share a path.
pub open spec fn distinct_children(files: Seq<File>, dirs: Seq<Directory>) -> bool {
    &&& forall|i: int, j: int| 0 <= i < j < files.len() ==> (#[trigger] files[i]).path@ != (#[trigger] files[j]).path@
    &&& forall|i: int, j: int| 0 <= i < j < dirs.len() ==> (#[trigger] dirs[i]).path@ != (#[trigger] dirs[j]).path@
    &&& forall|i: int, j: int| 0 <= i < files.len() && 0 <= j < dirs.len() ==> (#[trigger] files[i]).path@ != (#[trigger] dirs[j]).path@
}

/// `p` is among the paths in `seen`.
pub open spec fn in_seen(seen: Seq<String>, p: Seq<char>) -> bool {
    exists|s: int| 0 <= s < seen.len() && (#[trigger] seen[s])@ == p
}

spec fn children_seen(seen: Seq<String>, files: Seq<File>, dirs: Seq<Directory>) -> bool {
    &&& forall|i: int| 0 <= i < files.len() ==> in_seen(seen, (#[trigger] files[i]).path@)
    &&& forall|i: int| 0 <= i < dirs.len() ==> in_seen(seen, (#[trigger] dirs[i]).path@)
}

/// The paths in `seen` are exactly those that the first `k` entries take.
spec fn seen_matches(dir: Seq<char>, es: Seq<Scanned>, k: int, seen: Seq<String>) -> bool {
    &&& forall|s: int|
        0 <= s < seen.len() ==> exists|j: int| 0 <= j < k && #[trigger] node_path(dir, es[j]) == Some((#[trigger] seen[s])@)
    &&& forall|j: int| 0 <= j < k && (#[trigger] node_path(dir, es[j])) is Some ==> in_seen(seen, node_path(dir, es[j])->Some_0)
}

proof fn lemma_seen_repeats(dir: Seq<char>, es: Seq<Scanned>, k: int, seen: Seq<String>)
    requires
        0 <= k < es.len(),
        seen_matches(dir, es, k, seen),
    ensures
        node_path(dir, es[k]) is Some ==> (repeats(dir, es, k) <==> in_seen(seen, node_path(dir, es[k])->Some_0)),
{
    if node_path(dir, es[k]) is Some {
        let p = node_path(dir, es[k])->Some_0;
        if in_seen(seen, p) {
            let s = choose|s: int| 0 <= s < seen.len() && (#[trigger] seen[s])@ == p;
            let j = choose|j: int| 0 <= j < k && #[trigger] node_path(dir, es[j]) == Some(seen[s]@);
            assert(node_path(dir, es[j]) == node_path(dir, es[k]));
        }
        if repeats(dir, es, k) {
            let j = choose|j: int| 0 <= j < k && #[trigger] node_path(dir, es[j]) == node_path(dir, es[k]);
            assert(node_path(dir, es[j]) is Some);
        }
    }
}

proof fn lemma_seen_next(dir: Seq<char>, es: Seq<Scanned>, k: int, before: Seq<String>, seen: Seq<String>)
    requires
        0 <= k < es.len(),
        seen_matches(dir, es, k, before),
        before.len() <= seen.len(),
        forall|s: int| 0 <= s < before.len() ==> seen[s] == before[s],
        forall|s: int| before.len() <= s < seen.len() ==> node_path(dir, es[k]) == Some((#[trigger] seen[s])@),
        node_path(dir, es[k]) is Some ==> in_seen(seen, node_path(dir, es[k])->Some_0),
    ensures
        seen_matches(dir, es, k + 1, seen),
{
    assert forall|s: int| 0 <= s < seen.len() implies exists|j: int| 0 <= j < k + 1 && #[trigger] node_path(dir, es[j]) == Some((#[trigger] seen[s])@) by {
        if s < before.len() {
            assert(seen[s] == before[s]);
            let j = choose|j: int| 0 <= j < k && #[trigger] node_path(dir, es[j]) == Some(before[s]@);
            assert(node_path(dir, es[j]) == Some(seen[s]@));
        } else {
            assert(node_path(dir, es[k]) == Some(seen[s]@));
        }
    }
    assert forall|j: int| 0 <= j < k + 1 && (#[trigger] node_path(dir, es[j])) is Some implies in_seen(seen, node_path(dir, es[j])->Some_0) by {
        if j < k {
            let p = node_path(dir, es[j])->Some_0;
            assert(in_seen(before, p));
            let s = choose|s: int| 0 <= s < before.len() && (#[trigger] before[s])@ == p;
            assert(seen[s] == before[s]);
        }
    }
}

proof fn lemma_new_dir_child(
    before_seen: Seq<String>,
    seen: Seq<String>,
    files: Seq<File>,
    before: Seq<Directory>,
    dirs: Seq<Directory>,
    p: Seq<char>,
)
    requires
        distinct_children(files, before),
        children_seen(before_seen, files, before),
        !in_seen(before_seen, p),
        seen.len() == before_seen.len() + 1,
        forall|s: int| 0 <= s < before_seen.len() ==> seen[s] == before_seen[s],
        seen[before_seen.len() as int]@ == p,
        dirs.len() == before.len() + 1,
        forall|i: int| 0 <= i < before.len() ==> dirs[i] == before[i],
        dirs[before.len() as int].path@ == p,
    ensures
        distinct_children(files, dirs),
        children_seen(seen, files, dirs),
{
    assert forall|q: Seq<char>| in_seen(before_seen, q) implies in_seen(seen, q) by {
        let s = choose|s: int| 0 <= s < before_seen.len() && (#[trigger] before_seen[s])@ == q;
        assert(seen[s] == before_seen[s]);
    }
    assert(in_seen(seen, p));
    assert forall|i: int, j: int| 0 <= i < j < dirs.len() implies (#[trigger] dirs[i]).path@ != (#[trigger] dirs[j]).path@ by {
        assert(dirs[i] == before[i]);
        if j < before.len() {
            assert(dirs[j] == before[j]);
        } else {
            assert(in_seen(before_seen, before[i].path@));
        }
    }
    assert forall|i: int, j: int| 0 <= i < files.len() && 0 <= j < dirs.len() implies (#[trigger] files[i]).path@ != (#[trigger] dirs[j]).path@ by {
        if j < before.len() {
            assert(dirs[j] == before[j]);
        } else {
            assert(in_seen(before_seen, files[i].path@));
        }
    }
    assert forall|i: int| 0 <= i < dirs.len() implies in_seen(seen, (#[trigger] dirs[i]).path@) by {
        if i < before.len() {
            assert(dirs[i] == before[i]);
            assert(in_seen(before_seen, before[i].path@));
        }
    }
    assert forall|i: int| 0 <= i < files.len() implies in_seen(seen, (#[trigger] files[i]).path@) by {
        assert(in_seen(before_seen, files[i].path@));
    }
}

proof fn lemma_new_file_child(
    before_seen: Seq<String>,
    seen: Seq<String>,
    before: Seq<File>,
    files: Seq<File>,
    dirs: Seq<Directory>,
    p: Seq<char>,
)
    requires
        distinct_children(before, dirs),
        children_seen(before_seen, before, dirs),
        !in_seen(before_seen, p),
        seen.len() == before_seen.len() + 1,
        forall|s: int| 0 <= s < before_seen.len() ==> seen[s] == before_seen[s],
        seen[before_seen.len() as int]@ == p,
        files.len() == before.len() + 1,
        forall|i: int| 0 <= i < before.len() ==> files[i] == before[i],
        files[before.len() as int].path@ == p,
    ensures
        distinct_children(files, dirs),
        children_seen(seen, files, dirs),
{
    assert forall|q: Seq<char>| in_seen(before_seen, q) implies in_seen(seen, q) by {
        let s = choose|s: int| 0 <= s < before_seen.len() && (#[trigger] before_seen[s])@ == q;
        assert(seen[s] == before_seen[s]);
    }
    assert(in_seen(seen, p));
    assert forall|i: int, j: int| 0 <= i < j < files.len() implies (#[trigger] files[i]).path@ != (#[trigger] files[j]).path@ by {
        assert(files[i] == before[i]);
        if j < before.len() {
            assert(files[j] == before[j]);
        } else {
            assert(in_seen(before_seen, before[i].path@));
        }
    }
    assert forall|i: int, j: int| 0 <= i < files.len() && 0 <= j < dirs.len() implies (#[trigger] files[i]).path@ != (#[trigger] dirs[j]).path@ by {
        if i < before.len() {
            assert(files[i] == before[i]);
        } else {
            assert(in_seen(before_seen, dirs[j].path@));
        }
    }
    assert forall|i: int| 0 <= i < files.len() implies in_seen(seen, (#[trigger] files[i]).path@) by {
        if i < before.len() {
            assert(files[i] == before[i]);
            assert(in_seen(before_seen, before[i].path@));
        }
    }
    assert forall|i: int| 0 <= i < dirs.len() implies in_seen(seen, (#[trigger] dirs[i]).path@) by {
        assert(in_seen(before_seen, dirs[i].path@));
    }
}

/// Whether `p` is among the paths in `seen`.
fn contains_text(seen: &Vec<String>, p: &str) -> (r: bool)
    ensures
        r == in_seen(seen@, p@),
{
    let mut i: usize = 0;
    while i < seen.len()
        invariant
            i <= seen@.len(),
            forall|s: int| 0 <= s < i ==> (#[trigger] seen@[s])@ != p@,
        decreases seen@.len() - i,
    {
        if same_text(seen[i].as_str(), p) {
            return true;
        }
        i = i + 1;
    }
    false
}

/// Every fault recorded while scanning the tree rooted at `d`: its own,
/// then those of each sub-directory's tree in turn.
pub open spec fn tree_errors_of(d: Directory) -> Seq<DirError>
    decreases d, 1nat,
{
    d.errors@ + subtrees_errors(d.directories@)
}

pub open spec fn subtrees_errors(ds: Seq<Directory>) -> Seq<DirError>
    decreases ds, 0nat,
{
    if ds.len() == 0 {
        Seq::empty()
    } else {
        subtrees_errors(ds.drop_last()) + tree_errors_of(ds.last())
    }
}

impl Directory {
    /// Appends every fault recorded in this tree to `out`.
    fn add_tree_errors(&self, out: &mut Vec<DirError>)
        ensures
            final(out)@ == old(out)@ + tree_errors_of(*self),
        decreases self,
    {
        let ghost start = out@;
        let mut i: usize = 0;
        while i < self.errors.len()
            invariant
                i <= self.errors@.len(),
                out@ == start + self.errors@.subrange(0, i as int),
            decreases self.errors@.len() - i,
        {
            out.push(self.errors[i].clone());
            proof {
                assert(self.errors@.subrange(0, i + 1) =~= self.errors@.subrange(0, i as int).push(
                    self.errors@[i as int],
                ));
            }
            i = i + 1;
        }
        proof {
            assert(self.errors@.subrange(0, i as int) =~= self.errors@);
        }
        let ghost mid = out@;
        let mut j: usize = 0;
        while j < self.directories.len()
            invariant
                j <= self.directories@.len(),
                out@ == mid + subtrees_errors(self.directories@.subrange(0, j as int)),
            decreases self.directories@.len() - j,
        {
            proof {
                assert(self.directories@.subrange(0, j + 1).drop_last() =~= self.directories@.subrange(
                    0,
                    j as int,
                ));
            }
            self.directories[j].add_tree_errors(out);
            j = j + 1;
        }
        proof {
            assert(self.directories@.subrange(0, j as int) =~= self.directories@);
            assert(out@ =~= start + tree_errors_of(*self));
        }
    }

    /// Every fault recorded while scanning this tree, its own first.
    pub fn tree_errors(&self) -> (r: Vec<DirError>)
        ensures
            r@ == tree_errors_of(*self),
    {
        let mut out: Vec<DirError> = Vec::new();
        self.add_tree_errors(&mut out);
        proof {
            assert(out@ =~= tree_errors_of(*self));
        }
        out
    }

    /// The directory at `path`, from the entries that one scan of it listed.
    /// Every entry becomes exactly one file, sub-directory or fault: none is
    /// dropped. Each file's path is `path` joined with its name, and so is
    /// each sub-directory's; no two children share a path, an entry that
    /// would take an earlier one's path being a fault.
    pub fn new(path: String, entries: Vec<Scanned>) -> (r: Directory)
        ensures
            r.path@ == path@,
            files_view(r.files@) == gather(marked(path@, entries@), |e| file_of(path@, e)),
            r.directories@ == gather(marked(path@, entries@), |e| subdir_of(path@, e)),
            r.errors@ == scan_errors(path@, marked(path@, entries@)),
            r.files@.len() + r.directories@.len() + r.errors@.len() == entries@.len(),
            forall|i: int| 0 <= i < r.files@.len() ==> (#[trigger] r.files@[i]).path@ == path_join(path@, r.files@[i].filename@),
            forall|i: int| 0 <= i < r.directories@.len() ==> is_child_of(path@, (#[trigger] r.directories@[i]).path@),
            distinct_children(r.files@, r.directories@),
    {
        let ghost es = entries@;
        let ghost dir = path@;
        let ghost ms = marked(dir, es);
        let n: usize = entries.len();
        let mut rest = entries;
        let mut files: Vec<File> = Vec::new();
        let mut directories: Vec<Directory> = Vec::new();
        let mut seen: Vec<String> = Vec::new();
        let mut read_errors: Vec<DirError> = Vec::new();
        let mut metadata_errors: Vec<DirError> = Vec::new();
        let mut dir_errors: Vec<DirError> = Vec::new();
        let mut file_errors: Vec<DirError> = Vec::new();
        let mut other_errors: Vec<DirError> = Vec::new();
        let mut repeat_errors: Vec<DirError> = Vec::new();
        let mut k: usize = 0;
        while rest.len() > 0
            invariant
                k <= es.len(),
                es.len() == n,
                dir == path@,
                ms == marked(dir, es),
                rest@ == es.subrange(k as int, es.len() as int),
                files_view(files@) == gather(ms.subrange(0, k as int), |e| file_of(dir, e)),
                directories@ == gather(ms.subrange(0, k as int), |e| subdir_of(dir, e)),
                read_errors@ == gather(ms.subrange(0, k as int), |e| read_error_of(e)),
                metadata_errors@ == gather(ms.subrange(0, k as int), |e| metadata_error_of(e)),
                dir_errors@ == gather(ms.subrange(0, k as int), |e| subdir_error_of(dir, e)),
                file_errors@ == gather(ms.subrange(0, k as int), |e| file_error_of(e)),
                other_errors@ == gather(ms.subrange(0, k as int), |e| unclassified_of(e)),
                repeat_errors@ == gather(ms.subrange(0, k as int), |e| repeat_error_of(e)),
                files@.len() + directories@.len() + read_errors@.len() + metadata_errors@.len()
                    + dir_errors@.len() + file_errors@.len() + other_errors@.len() + repeat_errors@.len() == k,
                forall|i: int| 0 <= i < files@.len() ==> (#[trigger] files@[i]).path@ == path_join(dir, files@[i].filename@),
                forall|i: int| 0 <= i < directories@.len() ==> is_child_of(dir, (#[trigger] directories@[i]).path@),
                distinct_children(files@, directories@),
                children_seen(seen@, files@, directories@),
                seen_matches(dir, es, k as int, seen@),
            decreases rest.len(),
        {
            let e = rest.remove(0);
            proof {
                assert(e == es[k as int]);
                assert(rest@ =~= es.subrange(k + 1, es.len() as int));
                lemma_seen_repeats(dir, es, k as int, seen@);
            }
            let ghost m = ms[k as int];
            let ghost before_seen = seen@;
            match e {
                Scanned::Unreadable(f) => {
                    read_errors.push(DirError::DirIOError(f));
                },
                Scanned::NoMetadata(f) => {
                    metadata_errors.push(DirError::DirIOError(f));
                },
                Scanned::Dir(name, Ok(d)) => {
                    let expected = join_path(path.as_str(), name.as_str());
                    if !same_text(d.path.as_str(), expected.as_str()) {
                        dir_errors.push(DirError::StrayDirectory(d.path));
                    } else if contains_text(&seen, d.path.as_str()) {
                        repeat_errors.push(DirError::DuplicateEntry(name));
                    } else {
                        let ghost before = directories@;
                        seen.push(d.path.clone());
                        directories.push(d);
                        proof {
                            assert(d.path@ == path_join(dir, name@));
                            assert(is_child_of(dir, d.path@));
                            lemma_new_dir_child(before_seen, seen@, files@, before, directories@, d.path@);
                        }
                    }
                },
                Scanned::Dir(_, Err(de)) => {
                    dir_errors.push(de);
                },
                Scanned::File(name) => {
                    let file_path = join_path(path.as_str(), name.as_str());
                    if contains_text(&seen, file_path.as_str()) {
                        repeat_errors.push(DirError::DuplicateEntry(name));
                    } else {
                        let f = File { path: file_path, filename: name };
                        let ghost before = files@;
                        seen.push(f.path.clone());
                        files.push(f);
                        proof {
                            assert(files_view(files@) =~= files_view(before).push((f.path@, f.filename@)));
                            assert forall|i: int| 0 <= i < files@.len() implies (#[trigger] files@[i]).path@ == path_join(dir, files@[i].filename@) by {
                                if i < before.len() {
                                    assert(files@[i] == before[i]);
                                }
                            }
                            lemma_new_file_child(before_seen, seen@, before, files@, directories@, f.path@);
                        }
                    }
                },
                Scanned::Undecodable => {
                    file_errors.push(DirError::DirFileCopyError(FileError::FilenameInvalidUTFError));
                },
                Scanned::Other(name) => {
                    other_errors.push(DirError::UnclassifiedEntry(name));
                },
                Scanned::Repeated(name) => {
                    repeat_errors.push(DirError::DuplicateEntry(name));
                },
            }
            proof {
                assert(ms.subrange(0, k + 1) =~= ms.subrange(0, k as int).push(m));
                lemma_gather_push(ms.subrange(0, k as int), m, |e| file_of(dir, e));
                lemma_gather_push(ms.subrange(0, k as int), m, |e| subdir_of(dir, e));
                lemma_gather_push(ms.subrange(0, k as int), m, |e| read_error_of(e));
                lemma_gather_push(ms.subrange(0, k as int), m, |e| metadata_error_of(e));
                lemma_gather_push(ms.subrange(0, k as int), m, |e| subdir_error_of(dir, e));
                lemma_gather_push(ms.subrange(0, k as int), m, |e| file_error_of(e));
                lemma_gather_push(ms.subrange(0, k as int), m, |e| unclassified_of(e));
                lemma_gather_push(ms.subrange(0, k as int), m, |e| repeat_error_of(e));
                lemma_seen_next(dir, es, k as int, before_seen, seen@);
            }
            k = k + 1;
        }
        proof {
            assert(ms.subrange(0, k as int) =~= ms);
        }
        let mut errors = read_errors;
        errors.append(&mut metadata_errors);
        errors.append(&mut dir_errors);
        errors.append(&mut file_errors);
        errors.append(&mut other_errors);
        errors.append(&mut repeat_errors);
        Directory { files, directories, path, errors }
    }
}

} // verus!
