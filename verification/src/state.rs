//! Comparing a freshly downloaded index with the one installed: which files
//! changed, and which installed files are no longer wanted.

use vstd::prelude::*;
use crate::config::{stored_path, FileConfig, Index, IndexConfig};

verus! {

/// The index that is installed, if any, beside the one just downloaded.
pub struct IndexState {
    pub current: Option<Index>,
    pub index: Index,
}

/// `files[i]` is the first file of `files` called `name`.
pub open spec fn is_first_named(files: Seq<FileConfig>, i: int, name: Seq<char>) -> bool {
    &&& 0 <= i < files.len()
    &&& files[i].name@ == name
    &&& forall|j: int| 0 <= j < i ==> files[j].name@ != name
}

/// Some file of `files` is called `name`.
pub open spec fn has_named(files: Seq<FileConfig>, name: Seq<char>) -> bool {
    exists|j: int| 0 <= j < files.len() && files[j].name@ == name
}

/// `file` must be fetched against the installed `files`: no installed file
/// has its name, or the first one that does has another checksum.
pub open spec fn differs(file: FileConfig, files: Seq<FileConfig>) -> bool {
    forall|i: int| is_first_named(files, i, file.name@) ==> files[i].md5@ != file.md5@
}

/// The files of `files` that differ from the installed `current`, in order.
pub open spec fn diff_files(files: Seq<FileConfig>, current: Seq<FileConfig>) -> Seq<FileConfig> {
    files.filter(|f: FileConfig| differs(f, current))
}

/// For an installed file, the path to delete when the new index no longer
/// names it.
pub open spec fn outdated_path(directory: Seq<char>, reffiles: Seq<FileConfig>, f: FileConfig) -> Option<Seq<char>> {
    if has_named(reffiles, f.name@) {
        None
    } else {
        Some(stored_path(directory, f.md5@, f.name@))
    }
}

/// The paths of the installed files `current` that the new file list
/// `reffiles` no longer names, in order.
pub open spec fn outdated_paths(directory: Seq<char>, reffiles: Seq<FileConfig>, current: Seq<FileConfig>) -> Seq<Seq<char>> {
    current.filter_map(|f: FileConfig| outdated_path(directory, reffiles, f))
}

/// The views of a list of strings.
pub open spec fn string_views(v: Seq<String>) -> Seq<Seq<char>> {
    v.map_values(|s: String| s@)
}

impl IndexState {
    /// There is something to update: nothing is installed, or some file of the
    /// new index differs from the installed ones.
    pub open spec fn has_diffs_spec(self) -> bool {
        match self.current {
            None => true,
            Some(c) => exists|i: int| 0 <= i < self.index.files.len() && differs(self.index.files@[i], c.files@),
        }
    }

    /// Whether the new index asks for anything that is not installed.
    pub fn has_diffs(&self) -> (d: bool)
        ensures
            d == self.has_diffs_spec(),
    {
        match &self.current {
            None => true,
            Some(current) => {
                let mut i: usize = 0;
                while i < self.index.files.len()
                    invariant
                        self.current == Some(*current),
                        i <= self.index.files.len(),
                        forall|k: int| 0 <= k < i ==> !differs(self.index.files@[k], current.files@),
                    decreases self.index.files.len() - i,
                {
                    if exists_diff(&self.index.files[i], current) {
                        return true;
                    }
                    i = i + 1;
                }
                false
            },
        }
    }
}

/// Whether `file` must be fetched against the installed index `current`.
pub fn exists_diff(file: &FileConfig, current: &Index) -> (d: bool)
    ensures
        d == differs(*file, current.files@),
{
    let mut j: usize = 0;
    while j < current.files.len()
        invariant
            j <= current.files.len(),
            forall|k: int| 0 <= k < j ==> current.files@[k].name@ != file.name@,
        decreases current.files.len() - j,
    {
        if current.files[j].name == file.name {
            let same = current.files[j].md5 == file.md5;
            proof {
                assert(is_first_named(current.files@, j as int, file.name@));
                assert forall|i: int| is_first_named(current.files@, i, file.name@) implies i == j by {
                    if i < j {
                    } else if i > j {
                        assert(current.files@[j as int].name@ == file.name@);
                    }
                }
            }
            return !same;
        }
        j = j + 1;
    }
    true
}

/// The files of `reffiles` that differ from the installed index `current`,
/// in their order.
pub fn filter_diffs(reffiles: Vec<FileConfig>, current: &Index) -> (kept: Vec<FileConfig>)
    ensures
        kept@ == diff_files(reffiles@, current.files@),
{
    let ghost all = reffiles@;
    let ghost pred = |f: FileConfig| differs(f, current.files@);
    let mut kept: Vec<FileConfig> = Vec::new();
    for file in it: reffiles.into_iter()
        invariant
            it.seq() == all,
            pred == (|f: FileConfig| differs(f, current.files@)),
            kept@ == all.take(it.index()).filter(pred),
    {
        proof {
            all.take(it.index()).lemma_filter_push(file, pred);
            assert(all.take(it.index() + 1) =~= all.take(it.index()).push(file));
        }
        if exists_diff(&file, current) {
            kept.push(file);
        }
    }
    proof {
        assert(all.take(all.len() as int) =~= all);
    }
    kept
}

/// Whether some file of `files` is called like `file`.
fn has_file_named(files: &Vec<FileConfig>, file: &FileConfig) -> (found: bool)
    ensures
        found == has_named(files@, file.name@),
{
    let mut i: usize = 0;
    while i < files.len()
        invariant
            i <= files.len(),
            forall|k: int| 0 <= k < i ==> files@[k].name@ != file.name@,
        decreases files.len() - i,
    {
        if files[i].name == file.name {
            return true;
        }
        i = i + 1;
    }
    false
}

/// The paths of the installed files of `current` that `reffiles` no longer
/// names, in order.
pub fn get_outdated_files(index_config: &IndexConfig, reffiles: &Vec<FileConfig>, current: &Index) -> (paths: Vec<String>)
    ensures
        string_views(paths@) == outdated_paths(index_config.directory@, reffiles@, current.files@),
{
    let ghost f = |x: FileConfig| outdated_path(index_config.directory@, reffiles@, x);
    let mut paths: Vec<String> = Vec::new();
    let mut i: usize = 0;
    while i < current.files.len()
        invariant
            i <= current.files.len(),
            f == (|x: FileConfig| outdated_path(index_config.directory@, reffiles@, x)),
            string_views(paths@) == current.files@.take(i as int).filter_map(f),
        decreases current.files.len() - i,
    {
        proof {
            current.files@.lemma_filter_map_take_succ(f, i as int);
        }
        let file = &current.files[i];
        if !has_file_named(reffiles, file) {
            let path = index_config.relativize(file);
            let ghost before = paths@;
            paths.push(path);
            assert(string_views(paths@) =~= string_views(before) + seq![path@]);
        }
        i = i + 1;
    }
    proof {
        assert(current.files@.take(current.files.len() as int) =~= current.files@);
    }
    paths
}

/// No two files of `files` share a name.
pub open spec fn names_distinct(files: Seq<FileConfig>) -> bool {
    forall|i: int, j: int| 0 <= i < j < files.len() ==> files[i].name@ != files[j].name@
}

/// A file that the update skips is installed already: some installed file
/// has its name and its checksum.
pub proof fn lemma_skipped_file_is_installed(file: FileConfig, current: Seq<FileConfig>)
    requires
        !differs(file, current),
    ensures
        exists|j: int| 0 <= j < current.len() && current[j].name@ == file.name@ && current[j].md5@ == file.md5@,
{
    let i = choose|i: int| is_first_named(current, i, file.name@) && current[i].md5@ == file.md5@;
    assert(0 <= i < current.len() && current[i].name@ == file.name@ && current[i].md5@ == file.md5@);
}

/// A file of the new index that is not installed under its name, or whose
/// installed namesake has another checksum, is fetched.
pub proof fn lemma_new_or_changed_file_is_fetched(file: FileConfig, current: Seq<FileConfig>)
    requires
        !has_named(current, file.name@) || exists|i: int|
            is_first_named(current, i, file.name@) && current[i].md5@ != file.md5@,
    ensures
        differs(file, current),
{
    if has_named(current, file.name@) {
        let i = choose|i: int| is_first_named(current, i, file.name@) && current[i].md5@ != file.md5@;
        assert forall|k: int| is_first_named(current, k, file.name@) implies current[k].md5@ != file.md5@ by {
            if k < i {
                assert(current[k].name@ != file.name@);
            } else if k > i {
                assert(current[i].name@ == file.name@);
            }
        }
    }
}

/// There is something to update exactly when nothing is installed or the
/// list of files to fetch is not empty.
pub proof fn lemma_has_diffs_iff_files_to_fetch(state: IndexState)
    ensures
        state.has_diffs_spec() == match state.current {
            None => true,
            Some(c) => diff_files(state.index.files@, c.files@).len() > 0,
        },
{
    broadcast use vstd::seq_lib::group_filter_ensures;
    if let Some(c) = state.current {
        let files = state.index.files@;
        let pred = |f: FileConfig| differs(f, c.files@);
        if state.has_diffs_spec() {
            let i = choose|i: int| 0 <= i < files.len() && differs(files[i], c.files@);
            files.lemma_filter_contains(pred, i);
        }
        if diff_files(files, c.files@).len() > 0 {
            files.lemma_filter_pred(pred, 0);
            let x = files.filter(pred)[0];
            assert(files.filter(pred).contains(x));
            files.lemma_filter_contains_rev(pred, x);
            let i = choose|i: int| 0 <= i < files.len() && files[i] == x;
            assert(differs(files[i], c.files@));
        }
    }
}

/// An index compared with itself, its file names being distinct, asks for
/// no file.
pub proof fn lemma_index_has_no_diffs_with_itself(files: Seq<FileConfig>)
    requires
        names_distinct(files),
    ensures
        forall|i: int| 0 <= i < files.len() ==> !differs(#[trigger] files[i], files),
        diff_files(files, files).len() == 0,
{
    broadcast use vstd::seq_lib::group_filter_ensures;
    assert forall|i: int| 0 <= i < files.len() implies !differs(#[trigger] files[i], files) by {
        assert(is_first_named(files, i, files[i].name@));
    }
    let pred = |f: FileConfig| differs(f, files);
    if diff_files(files, files).len() > 0 {
        files.lemma_filter_pred(pred, 0);
        let x = files.filter(pred)[0];
        assert(files.filter(pred).contains(x));
        files.lemma_filter_contains_rev(pred, x);
    }
}

/// Once the new index is installed, running again finds nothing to update:
/// a state whose installed index is the downloaded one, with distinct file
/// names, has no diffs.
pub proof fn lemma_installed_index_is_up_to_date(state: IndexState)
    requires
        state.current == Some(state.index),
        names_distinct(state.index.files@),
    ensures
        !state.has_diffs_spec(),
{
    lemma_index_has_no_diffs_with_itself(state.index.files@);
}

/// `filter_map` keeps nothing when every element maps to `None`.
proof fn lemma_filter_map_all_none<A, B>(s: Seq<A>, f: spec_fn(A) -> Option<B>)
    requires
        forall|i: int| 0 <= i < s.len() ==> f(#[trigger] s[i]) is None,
    ensures
        s.filter_map(f).len() == 0,
    decreases s.len(),
{
    if s.len() > 0 {
        let rest = s.drop_last();
        assert forall|i: int| 0 <= i < rest.len() implies f(#[trigger] rest[i]) is None by {
            assert(rest[i] == s[i]);
        }
        lemma_filter_map_all_none(rest, f);
        assert(f(s.last()) is None);
    }
}

/// `filter_map` keeps the image of every element that maps to `Some`.
proof fn lemma_filter_map_keeps<A, B>(s: Seq<A>, f: spec_fn(A) -> Option<B>, i: int)
    requires
        0 <= i < s.len(),
        f(s[i]) is Some,
    ensures
        s.filter_map(f).contains(f(s[i])->0),
    decreases s.len(),
{
    let rest = s.drop_last();
    if i == s.len() - 1 {
        let out = s.filter_map(f);
        assert(out[out.len() - 1] == f(s[i])->0);
    } else {
        assert(rest[i] == s[i]);
        lemma_filter_map_keeps(rest, f, i);
        let j = choose|j: int| 0 <= j < rest.filter_map(f).len() && rest.filter_map(f)[j] == f(s[i])->0;
        let out = s.filter_map(f);
        match f(s.last()) {
            Some(x) => assert(out[j] == rest.filter_map(f)[j]),
            None => assert(out[j] == rest.filter_map(f)[j]),
        }
    }
}

/// An installed index compared with itself leaves nothing to delete.
pub proof fn lemma_nothing_outdated_against_itself(directory: Seq<char>, files: Seq<FileConfig>)
    ensures
        outdated_paths(directory, files, files).len() == 0,
{
    let f = |x: FileConfig| outdated_path(directory, files, x);
    assert forall|i: int| 0 <= i < files.len() implies f(#[trigger] files[i]) is None by {
        assert(has_named(files, files[i].name@));
    }
    lemma_filter_map_all_none(files, f);
}

/// What is deleted is exactly the stored paths of the installed files that
/// the new file list no longer names.
pub proof fn lemma_outdated_paths_are_unnamed_files(directory: Seq<char>, reffiles: Seq<FileConfig>, current: Seq<FileConfig>)
    ensures
        forall|p: Seq<char>| outdated_paths(directory, reffiles, current).contains(p) ==> exists|j: int|
            0 <= j < current.len() && !has_named(reffiles, #[trigger] current[j].name@)
                && p == stored_path(directory, current[j].md5@, current[j].name@),
        forall|j: int| 0 <= j < current.len() && !has_named(reffiles, #[trigger] current[j].name@)
            ==> outdated_paths(directory, reffiles, current).contains(
                stored_path(directory, current[j].md5@, current[j].name@)),
{
    let f = |x: FileConfig| outdated_path(directory, reffiles, x);
    assert forall|p: Seq<char>| outdated_paths(directory, reffiles, current).contains(p) implies exists|j: int|
            0 <= j < current.len() && !has_named(reffiles, #[trigger] current[j].name@)
                && p == stored_path(directory, current[j].md5@, current[j].name@) by {
        current.lemma_filter_map_contains(f, p);
        let t = choose|t: FileConfig| current.contains(t) && f(t) == Some(p);
        let j = choose|j: int| 0 <= j < current.len() && current[j] == t;
        assert(!has_named(reffiles, current[j].name@));
    }
    assert forall|j: int| 0 <= j < current.len() && !has_named(reffiles, #[trigger] current[j].name@)
        implies outdated_paths(directory, reffiles, current).contains(
                stored_path(directory, current[j].md5@, current[j].name@)) by {
        lemma_filter_map_keeps(current, f, j);
    }
}

/// Filtering twice by the same predicate keeps what filtering once keeps.
proof fn lemma_filter_idempotent<A>(s: Seq<A>, pred: spec_fn(A) -> bool)
    ensures
        s.filter(pred).filter(pred) == s.filter(pred),
    decreases s.len(),
{
    reveal(Seq::filter);
    if s.len() > 0 {
        lemma_filter_idempotent(s.drop_last(), pred);
        let sub = s.drop_last().filter(pred);
        if pred(s.last()) {
            sub.lemma_filter_push(s.last(), pred);
        }
    }
}

/// Filtering by a predicate that every element meets keeps everything.
proof fn lemma_filter_all<A>(s: Seq<A>, pred: spec_fn(A) -> bool)
    requires
        forall|i: int| 0 <= i < s.len() ==> pred(#[trigger] s[i]),
    ensures
        s.filter(pred) == s,
    decreases s.len(),
{
    reveal(Seq::filter);
    if s.len() > 0 {
        let rest = s.drop_last();
        assert forall|i: int| 0 <= i < rest.len() implies pred(#[trigger] rest[i]) by {
            assert(rest[i] == s[i]);
        }
        lemma_filter_all(rest, pred);
        assert(pred(s[s.len() - 1]));
        assert(rest.push(s.last()) =~= s);
    }
}

/// Keeping the files that differ, then again those that differ, keeps the
/// same files: `filter_diffs` is idempotent.
pub proof fn lemma_filter_diffs_idempotent(files: Seq<FileConfig>, current: Seq<FileConfig>)
    ensures
        diff_files(diff_files(files, current), current) == diff_files(files, current),
{
    lemma_filter_idempotent(files, |f: FileConfig| differs(f, current));
}

/// The files of two lists that differ are those of the first list, then
/// those of the second.
pub proof fn lemma_filter_diffs_concat(a: Seq<FileConfig>, b: Seq<FileConfig>, current: Seq<FileConfig>)
    ensures
        diff_files(a + b, current) == diff_files(a, current) + diff_files(b, current),
{
    Seq::filter_distributes_over_add(a, b, |f: FileConfig| differs(f, current));
}

/// Against an empty installed index every file differs.
pub proof fn lemma_filter_diffs_against_nothing(files: Seq<FileConfig>)
    ensures
        diff_files(files, Seq::<FileConfig>::empty()) == files,
{
    let pred = |f: FileConfig| differs(f, Seq::<FileConfig>::empty());
    assert forall|i: int| 0 <= i < files.len() implies pred(#[trigger] files[i]) by {
        assert forall|k: int| is_first_named(Seq::<FileConfig>::empty(), k, files[i].name@) implies false by {
        }
    }
    lemma_filter_all(files, pred);
}

/// The stored paths of all the files of `files`, in order.
pub open spec fn stored_paths(directory: Seq<char>, files: Seq<FileConfig>) -> Seq<Seq<char>> {
    files.map_values(|f: FileConfig| stored_path(directory, f.md5@, f.name@))
}

/// When the new file list is empty, every installed file is deleted.
pub proof fn lemma_outdated_against_empty_list(directory: Seq<char>, current: Seq<FileConfig>)
    ensures
        outdated_paths(directory, Seq::<FileConfig>::empty(), current) == stored_paths(directory, current),
    decreases current.len(),
{
    if current.len() > 0 {
        let rest = current.drop_last();
        lemma_outdated_against_empty_list(directory, rest);
        assert(!has_named(Seq::<FileConfig>::empty(), current.last().name@));
        assert(stored_paths(directory, current) =~= stored_paths(directory, rest) + seq![
            stored_path(directory, current.last().md5@, current.last().name@)]);
    }
}

/// What is deleted depends on the new file list only through the names it
/// holds: two lists that name the same files give the same paths.
pub proof fn lemma_outdated_depends_on_names_only(
    directory: Seq<char>,
    reffiles1: Seq<FileConfig>,
    reffiles2: Seq<FileConfig>,
    current: Seq<FileConfig>,
)
    requires
        forall|name: Seq<char>| has_named(reffiles1, name) == has_named(reffiles2, name),
    ensures
        outdated_paths(directory, reffiles1, current) == outdated_paths(directory, reffiles2, current),
{
    let f1 = |x: FileConfig| outdated_path(directory, reffiles1, x);
    let f2 = |x: FileConfig| outdated_path(directory, reffiles2, x);
    assert forall|x: FileConfig| #[trigger] f1(x) == f2(x) by {
        assert(has_named(reffiles1, x.name@) == has_named(reffiles2, x.name@));
    }
    assert(f1 =~= f2);
}

/// At most one path is deleted per installed file.
pub proof fn lemma_outdated_at_most_installed(directory: Seq<char>, reffiles: Seq<FileConfig>, current: Seq<FileConfig>)
    ensures
        outdated_paths(directory, reffiles, current).len() <= current.len(),
    decreases current.len(),
{
    if current.len() > 0 {
        lemma_outdated_at_most_installed(directory, reffiles, current.drop_last());
    }
}

/// When the new file list names every installed file, nothing is deleted.
pub proof fn lemma_nothing_outdated_when_all_named(directory: Seq<char>, reffiles: Seq<FileConfig>, current: Seq<FileConfig>)
    requires
        forall|j: int| 0 <= j < current.len() ==> has_named(reffiles, #[trigger] current[j].name@),
    ensures
        outdated_paths(directory, reffiles, current).len() == 0,
{
    let f = |x: FileConfig| outdated_path(directory, reffiles, x);
    assert forall|i: int| 0 <= i < current.len() implies f(#[trigger] current[i]) is None by {
        assert(has_named(reffiles, current[i].name@));
    }
    lemma_filter_map_all_none(current, f);
}

/// `files[i]` carries the name and checksum of `file` and is the first
/// file of `files` with that name.
pub open spec fn first_namesake_has_same_md5(file: FileConfig, files: Seq<FileConfig>, i: int) -> bool {
    &&& 0 <= i < files.len()
    &&& files[i].name@ == file.name@
    &&& files[i].md5@ == file.md5@
    &&& forall|j: int| 0 <= j < i ==> files[j].name@ != file.name@
}

/// A file whose name and checksum are those of the first installed file of
/// that name is not fetched, whatever its source, size, action or platform.
pub proof fn lemma_unchanged_file_is_not_fetched(file: FileConfig, current: Seq<FileConfig>, i: int)
    requires
        first_namesake_has_same_md5(file, current, i),
    ensures
        !differs(file, current),
{
    assert(is_first_named(current, i, file.name@));
}

/// When every file of the new index has the name and checksum of the first
/// installed file of that name, there is nothing to update and nothing to
/// fetch, whatever the files' other fields.
pub proof fn lemma_unchanged_index_has_no_diffs(state: IndexState)
    requires
        state.current is Some,
        forall|k: int| 0 <= k < state.index.files.len() ==> exists|i: int|
            first_namesake_has_same_md5(#[trigger] state.index.files@[k], state.current->0.files@, i),
    ensures
        !state.has_diffs_spec(),
        diff_files(state.index.files@, state.current->0.files@).len() == 0,
{
    broadcast use vstd::seq_lib::group_filter_ensures;
    let c = state.current->0.files@;
    let files = state.index.files@;
    assert forall|k: int| 0 <= k < files.len() implies !differs(#[trigger] files[k], c) by {
        let i = choose|i: int| first_namesake_has_same_md5(files[k], c, i);
        lemma_unchanged_file_is_not_fetched(files[k], c, i);
    }
    let pred = |f: FileConfig| differs(f, c);
    if diff_files(files, c).len() > 0 {
        files.lemma_filter_pred(pred, 0);
        let x = files.filter(pred)[0];
        assert(files.filter(pred).contains(x));
        files.lemma_filter_contains_rev(pred, x);
    }
}

} // verus!
