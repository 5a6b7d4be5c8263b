//! Deciding what an update does: which files to fetch, which to delete,
//! what to do with each file, and when to report download progress.

use vstd::prelude::*;
use crate::command::CommandConfig;
use crate::config::{stored_path, FileConfig, IndexConfig};
use crate::state::{
    diff_files, differs, filter_diffs, first_namesake_has_same_md5, get_outdated_files, has_named,
    is_first_named, lemma_outdated_paths_are_unnamed_files, lemma_unchanged_file_is_not_fetched, outdated_paths,
    string_views, IndexState,
};
use crate::text::str_eq;

verus! {

/// What an update does: fetch `files_to_update`, then install the new
/// index, then delete `files_to_delete`, then run `command`.
pub struct UpdatePlan {
    pub command: CommandConfig,
    pub files_to_update: Vec<FileConfig>,
    pub files_to_delete: Vec<String>,
}

/// The plan for bringing the installation described by `state` up to date.
pub open spec fn plan_spec(directory: Seq<char>, state: IndexState, plan: UpdatePlan) -> bool {
    &&& plan.command == state.index.command
    &&& match state.current {
        Some(c) => {
            &&& plan.files_to_update@ == diff_files(state.index.files@, c.files@)
            &&& string_views(plan.files_to_delete@) == outdated_paths(directory, state.index.files@, c.files@)
        },
        None => {
            &&& plan.files_to_update@ == state.index.files@
            &&& plan.files_to_delete@.len() == 0
        },
    }
}

/// The update that `index_state` calls for: with an installed index, the
/// files that differ from it are fetched and the installed files that the
/// new index no longer names are deleted; with none, every file is fetched
/// and nothing is deleted. The command to run is that of the new index.
pub fn process_update(index_config: &IndexConfig, index_state: IndexState) -> (plan: UpdatePlan)
    ensures
        plan_spec(index_config.directory@, index_state, plan),
{
    let IndexState { current, index } = index_state;
    let command = index.command;
    let files = index.files;
    match current {
        Some(current) => {
            let files_to_delete = get_outdated_files(index_config, &files, &current);
            let files_to_update = filter_diffs(files, &current);
            UpdatePlan { command, files_to_update, files_to_delete }
        },
        None => UpdatePlan { command, files_to_update: files, files_to_delete: Vec::new() },
    }
}

/// Where a file with checksum `md5` and name `name` is stored under
/// `directory`, written out.
pub open spec fn stored_path_chars(directory: Seq<char>, md5: Seq<char>, name: Seq<char>) -> Seq<char> {
    directory + seq!['/', 'f', 'i', 'l', 'e', 's', '/'] + md5 + seq!['-'] + name
}

/// The plan's command is the new index's. Without an installed index it
/// fetches every new file and deletes nothing. With one, it deletes the
/// stored path of every installed file that no file of the new index names,
/// and deletes nothing else; it fetches a new file exactly when no installed
/// file has its name or the first that does has another checksum.
pub proof fn lemma_plan_meaning(directory: Seq<char>, state: IndexState, plan: UpdatePlan)
    requires
        plan_spec(directory, state, plan),
    ensures
        plan.command == state.index.command,
        state.current is None ==> plan.files_to_update@ == state.index.files@ && plan.files_to_delete@.len() == 0,
        state.current matches Some(c) ==> {
            &&& forall|j: int| 0 <= j < c.files@.len() && (forall|k: int| 0 <= k < state.index.files@.len()
                ==> state.index.files@[k].name@ != c.files@[j].name@)
                ==> string_views(plan.files_to_delete@).contains(
                    stored_path_chars(directory, #[trigger] c.files@[j].md5@, c.files@[j].name@))
            &&& forall|p: Seq<char>| string_views(plan.files_to_delete@).contains(p) ==> exists|j: int|
                0 <= j < c.files@.len() && (forall|k: int| 0 <= k < state.index.files@.len()
                    ==> state.index.files@[k].name@ != c.files@[j].name@)
                && p == stored_path_chars(directory, #[trigger] c.files@[j].md5@, c.files@[j].name@)
            &&& forall|x: FileConfig| plan.files_to_update@.contains(x) ==> state.index.files@.contains(x)
                && !(exists|i: int| first_namesake_has_same_md5(x, c.files@, i))
            &&& forall|k: int| 0 <= k < state.index.files@.len()
                && !(exists|i: int| first_namesake_has_same_md5(#[trigger] state.index.files@[k], c.files@, i))
                ==> plan.files_to_update@.contains(state.index.files@[k])
        },
{
    broadcast use vstd::seq_lib::group_filter_ensures;
    reveal_strlit("/files/");
    reveal_strlit("-");
    assert("/files/"@ =~= seq!['/', 'f', 'i', 'l', 'e', 's', '/']);
    assert("-"@ =~= seq!['-']);
    if let Some(c) = state.current {
        let files = state.index.files@;
        let cur = c.files@;
        lemma_outdated_paths_are_unnamed_files(directory, files, cur);
        assert forall|j: int| 0 <= j < cur.len() && (forall|k: int| 0 <= k < files.len()
                ==> files[k].name@ != cur[j].name@)
                implies string_views(plan.files_to_delete@).contains(
                    stored_path_chars(directory, #[trigger] cur[j].md5@, cur[j].name@)) by {
            assert(!has_named(files, cur[j].name@));
            assert(stored_path_chars(directory, cur[j].md5@, cur[j].name@) == stored_path(directory, cur[j].md5@, cur[j].name@));
        }
        assert forall|p: Seq<char>| string_views(plan.files_to_delete@).contains(p) implies exists|j: int|
                0 <= j < cur.len() && (forall|k: int| 0 <= k < files.len()
                    ==> files[k].name@ != cur[j].name@)
                && p == stored_path_chars(directory, #[trigger] cur[j].md5@, cur[j].name@) by {
            let j = choose|j: int| 0 <= j < cur.len() && !has_named(files, #[trigger] cur[j].name@)
                && p == stored_path(directory, cur[j].md5@, cur[j].name@);
            assert(stored_path_chars(directory, cur[j].md5@, cur[j].name@) == stored_path(directory, cur[j].md5@, cur[j].name@));
        }
        let pred = |f: FileConfig| differs(f, cur);
        assert forall|x: FileConfig| plan.files_to_update@.contains(x) implies files.contains(x)
                && !(exists|i: int| first_namesake_has_same_md5(x, cur, i)) by {
            files.lemma_filter_contains_rev(pred, x);
            if exists|i: int| first_namesake_has_same_md5(x, cur, i) {
                let i = choose|i: int| first_namesake_has_same_md5(x, cur, i);
                lemma_unchanged_file_is_not_fetched(x, cur, i);
            }
        }
        assert forall|k: int| 0 <= k < files.len()
                && !(exists|i: int| first_namesake_has_same_md5(#[trigger] files[k], cur, i))
                implies plan.files_to_update@.contains(files[k]) by {
            assert forall|i: int| is_first_named(cur, i, files[k].name@) implies cur[i].md5@ != files[k].md5@ by {
                if cur[i].md5@ == files[k].md5@ {
                    assert(first_namesake_has_same_md5(files[k], cur, i));
                }
            }
            files.lemma_filter_contains(pred, k);
        }
    }
}

/// The action that an index gives a file to have it unpacked once fetched.
pub open spec fn unzip_action() -> Seq<char> {
    "unzip"@
}

/// The file is to be unpacked once it is in place.
pub open spec fn unzip_required_spec(file: FileConfig) -> bool {
    match file.action {
        Some(a) => a@ == unzip_action(),
        None => false,
    }
}

/// Whether the file is to be unpacked once it is in place.
pub fn unzip_required(file: &FileConfig) -> (u: bool)
    ensures
        u == unzip_required_spec(*file),
{
    match &file.action {
        Some(a) => str_eq(a.as_str(), "unzip"),
        None => false,
    }
}

/// What the update does with one file.
pub struct FileStep {
    /// Where the file is stored.
    pub target: String,
    /// The file must be downloaded, its checksum checked.
    pub fetch: bool,
    /// The file is unpacked once it is in place.
    pub unzip: bool,
}

/// What the update does with `file`, given whether its stored path exists
/// already: a file already in place is not downloaded again.
pub fn file_step(index_config: &IndexConfig, file: &FileConfig, target_exists: bool) -> (step: FileStep)
    ensures
        step.target@ == stored_path(index_config.directory@, file.md5@, file.name@),
        step.fetch == !target_exists,
        step.unzip == unzip_required_spec(*file),
{
    FileStep {
        target: index_config.relativize(file),
        fetch: !target_exists,
        unzip: unzip_required(file),
    }
}

/// The percentage of the file read so far, rounded down.
pub open spec fn progress_percent(read: u64, size: u64) -> int {
    (read * 100) / (size as int)
}

/// After `read` bytes of a file of `size` bytes, with progress shown up to
/// `shown` percent, the new percentage to show: a multiple of ten above
/// `shown`, or `None` when there is nothing new to show.
pub open spec fn progress_mark_spec(read: u64, size: u64, shown: u64) -> Option<u64> {
    let p = progress_percent(read, size);
    if p % 10 == 0 && p > shown {
        Some(p as u64)
    } else {
        None
    }
}

/// Download progress, shown in steps of ten percent.
pub fn progress_mark(read: u64, size: u64, shown: u64) -> (mark: Option<u64>)
    requires
        size > 0,
        read * 100 <= u64::MAX,
    ensures
        mark == progress_mark_spec(read, size, shown),
{
    let progress = read * 100 / size;
    if progress % 10 == 0 && progress > shown {
        Some(progress)
    } else {
        None
    }
}

/// Each mark shown is above the one before: progress never goes back.
pub proof fn lemma_progress_marks_increase(read: u64, size: u64, shown: u64)
    requires
        size > 0,
        read * 100 <= u64::MAX,
        progress_mark_spec(read, size, shown) is Some,
    ensures
        progress_mark_spec(read, size, shown)->0 > shown,
        progress_mark_spec(read, size, shown)->0 % 10 == 0,
{
    let p = progress_percent(read, size);
    assert(0 <= p <= read * 100) by (nonlinear_arith)
        requires
            p == (read * 100) / (size as int),
            size > 0,
            read >= 0,
    ;
}

/// Where applying an update stands.
pub enum UpdatePhase {
    /// The file of this position in the list to fetch is being handled.
    Files(usize),
    /// The new index is being installed.
    InstallIndex,
    /// The path of this position in the list to delete is being deleted.
    Delete(usize),
    /// Nothing is left to do.
    Finished,
}

/// What the caller does next while applying an update.
pub enum UpdateAction<E> {
    /// Bring the file of this position in the list to fetch into place.
    HandleFile(usize),
    /// Install the new index in place of the current one.
    InstallIndex,
    /// Delete the path of this position in the list to delete.
    Delete(usize),
    /// The update is complete.
    Done,
    /// The update stops with this error.
    Fail(E),
}

/// The phase in which the update goes on once every file before position
/// `i` is in place: the next file, or the installation of the index.
pub open spec fn phase_from_file(i: int, n_files: int) -> UpdatePhase {
    if 0 <= i < n_files {
        UpdatePhase::Files(i as usize)
    } else {
        UpdatePhase::InstallIndex
    }
}

/// The phase in which the update goes on once every path before position
/// `j` is deleted: the next deletion, or the end.
pub open spec fn phase_from_delete(j: int, n_deletes: int) -> UpdatePhase {
    if 0 <= j < n_deletes {
        UpdatePhase::Delete(j as usize)
    } else {
        UpdatePhase::Finished
    }
}

/// The action that a phase calls for.
pub open spec fn action_of<E>(phase: UpdatePhase) -> UpdateAction<E> {
    match phase {
        UpdatePhase::Files(i) => UpdateAction::HandleFile(i),
        UpdatePhase::InstallIndex => UpdateAction::InstallIndex,
        UpdatePhase::Delete(j) => UpdateAction::Delete(j),
        UpdatePhase::Finished => UpdateAction::Done,
    }
}

/// The phase that follows `phase` when its action succeeded: the files in
/// order, then the index, then the deletions in order.
pub open spec fn next_phase(phase: UpdatePhase, n_files: int, n_deletes: int) -> UpdatePhase {
    match phase {
        UpdatePhase::Files(i) => phase_from_file(i + 1, n_files),
        UpdatePhase::InstallIndex => phase_from_delete(0, n_deletes),
        UpdatePhase::Delete(j) => phase_from_delete(j + 1, n_deletes),
        UpdatePhase::Finished => UpdatePhase::Finished,
    }
}

/// The first phase of an update that fetches `n_files` files and deletes
/// `n_deletes` paths, and what it calls for.
pub fn update_start<E>(n_files: usize, n_deletes: usize) -> (next: (UpdatePhase, UpdateAction<E>))
    ensures
        next.0 == phase_from_file(0, n_files as int),
        next.1 == action_of::<E>(next.0),
{
    if n_files > 0 {
        (UpdatePhase::Files(0), UpdateAction::HandleFile(0))
    } else {
        (UpdatePhase::InstallIndex, UpdateAction::InstallIndex)
    }
}

/// Takes the outcome of the action of `phase`. A success moves on: each
/// file in order, then the index, then each deletion in order. A failure
/// ends the update with its error, so that the index is installed only once
/// every file is in place, and nothing is deleted before the index is.
pub fn update_step<E>(n_files: usize, n_deletes: usize, phase: UpdatePhase, outcome: Result<(), E>) -> (next: (UpdatePhase, UpdateAction<E>))
    requires
        !(phase is Finished),
        phase matches UpdatePhase::Files(i) ==> i < n_files,
        phase matches UpdatePhase::Delete(j) ==> j < n_deletes,
    ensures
        match outcome {
            Ok(()) => {
                &&& next.0 == next_phase(phase, n_files as int, n_deletes as int)
                &&& next.1 == action_of::<E>(next.0)
            },
            Err(e) => next.0 == UpdatePhase::Finished && next.1 == UpdateAction::<E>::Fail(e),
        },
{
    match outcome {
        Err(e) => (UpdatePhase::Finished, UpdateAction::Fail(e)),
        Ok(()) => match phase {
            UpdatePhase::Files(i) => {
                if i + 1 < n_files {
                    (UpdatePhase::Files(i + 1), UpdateAction::HandleFile(i + 1))
                } else {
                    (UpdatePhase::InstallIndex, UpdateAction::InstallIndex)
                }
            },
            UpdatePhase::InstallIndex | UpdatePhase::Delete(_) => {
                let j: usize = match phase {
                    UpdatePhase::Delete(j) => j + 1,
                    _ => 0,
                };
                if j < n_deletes {
                    (UpdatePhase::Delete(j), UpdateAction::Delete(j))
                } else {
                    (UpdatePhase::Finished, UpdateAction::Done)
                }
            },
            UpdatePhase::Finished => (UpdatePhase::Finished, UpdateAction::Done),
        },
    }
}

/// The phase reached after `k` successful actions from the start.
pub open spec fn phase_after_successes(k: nat, n_files: int, n_deletes: int) -> UpdatePhase
    decreases k,
{
    if k == 0 {
        phase_from_file(0, n_files)
    } else {
        next_phase(phase_after_successes((k - 1) as nat, n_files, n_deletes), n_files, n_deletes)
    }
}

/// When every action succeeds, an update handles each file in order, then
/// installs the index, then deletes each outdated path in order, then ends.
pub proof fn lemma_successful_update_order(k: nat, n_files: nat, n_deletes: nat)
    requires
        n_files <= usize::MAX,
        n_deletes <= usize::MAX,
    ensures
        phase_after_successes(k, n_files as int, n_deletes as int) == if k < n_files {
            UpdatePhase::Files(k as usize)
        } else if k == n_files {
            UpdatePhase::InstallIndex
        } else if k <= n_files + n_deletes {
            UpdatePhase::Delete((k - n_files - 1) as usize)
        } else {
            UpdatePhase::Finished
        },
    decreases k,
{
    if k > 0 {
        lemma_successful_update_order((k - 1) as nat, n_files, n_deletes);
    }
}

} // verus!
