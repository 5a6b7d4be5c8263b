//! The decisions of one launch: fetch the index, update what changed, run
//! the application; fall back on the installed index when the fetch fails.
//! The caller performs each action and hands back what came of it.

use vstd::prelude::*;
use crate::command::CommandConfig;
use crate::config::{FileConfig, Index, IndexConfig};
use crate::state::{IndexState};
use crate::update::{plan_spec, process_update, UpdatePlan};

verus! {

/// Where a launch stands.
pub enum LaunchState {
    /// The index is being fetched; a launch starts here.
    Fetching,
    /// The fetch failed; the installed index is being read.
    LoadingLocal,
    /// The update is being applied; this command runs once it is done.
    Updating(CommandConfig),
    /// Nothing is left to decide.
    Done,
}

/// What came of the last action.
pub enum LaunchEvent<E> {
    /// The fetched index, beside the installed one, or why the fetch failed.
    IndexFetched(Result<IndexState, E>),
    /// The installed index, if there is one, or why it could not be read.
    LocalIndexLoaded(Result<Option<Index>, E>),
    /// Whether the update was applied.
    UpdateApplied(Result<(), E>),
}

/// What the caller does next.
pub enum LaunchAction<E> {
    /// Read the installed index.
    LoadLocalIndex,
    /// Fetch these files, install the new index, then delete these paths.
    ApplyUpdate(Vec<FileConfig>, Vec<String>),
    /// Run this command.
    Execute(CommandConfig),
    /// Stop without running anything.
    Stop,
    /// Stop with this error.
    Fail(E),
}

/// The event is an answer to the action that `state` is waiting on.
pub open spec fn event_fits<E>(state: LaunchState, event: LaunchEvent<E>) -> bool {
    match state {
        LaunchState::Fetching => event is IndexFetched,
        LaunchState::LoadingLocal => event is LocalIndexLoaded,
        LaunchState::Updating(_) => event is UpdateApplied,
        LaunchState::Done => false,
    }
}

/// Decides the next step of a launch. A failed fetch falls back on the
/// installed index, whose command runs if there is one. A fetched index
/// with something to update leads to the update, after which the new
/// command runs, or the update's error ends the launch. A fetched index
/// with nothing to update runs its command at once.
pub fn launch_step<E>(index_config: &IndexConfig, state: LaunchState, event: LaunchEvent<E>) -> (next: (LaunchState, LaunchAction<E>))
    requires
        event_fits(state, event),
    ensures
        match event {
            LaunchEvent::IndexFetched(Err(_)) => next.0 == LaunchState::LoadingLocal && next.1 is LoadLocalIndex,
            LaunchEvent::IndexFetched(Ok(s)) => if s.has_diffs_spec() {
                next.0 == LaunchState::Updating(s.index.command) && exists|plan: UpdatePlan| {
                    &&& plan_spec(index_config.directory@, s, plan)
                    &&& next.1 == LaunchAction::<E>::ApplyUpdate(plan.files_to_update, plan.files_to_delete)
                }
            } else {
                next.0 == LaunchState::Done && next.1 == LaunchAction::<E>::Execute(s.index.command)
            },
            LaunchEvent::LocalIndexLoaded(Ok(Some(index))) => next.0 == LaunchState::Done
                && next.1 == LaunchAction::<E>::Execute(index.command),
            LaunchEvent::LocalIndexLoaded(_) => next.0 == LaunchState::Done && next.1 is Stop,
            LaunchEvent::UpdateApplied(Ok(())) => next.0 == LaunchState::Done
                && next.1 == LaunchAction::<E>::Execute(state->Updating_0),
            LaunchEvent::UpdateApplied(Err(e)) => next.0 == LaunchState::Done
                && next.1 == LaunchAction::<E>::Fail(e),
        },
{
    match event {
        LaunchEvent::IndexFetched(Err(_)) => (LaunchState::LoadingLocal, LaunchAction::LoadLocalIndex),
        LaunchEvent::IndexFetched(Ok(s)) => {
            if s.has_diffs() {
                let plan = process_update(index_config, s);
                let UpdatePlan { command, files_to_update, files_to_delete } = plan;
                (LaunchState::Updating(command), LaunchAction::ApplyUpdate(files_to_update, files_to_delete))
            } else {
                (LaunchState::Done, LaunchAction::Execute(s.index.command))
            }
        },
        LaunchEvent::LocalIndexLoaded(Ok(Some(index))) => (LaunchState::Done, LaunchAction::Execute(index.command)),
        LaunchEvent::LocalIndexLoaded(_) => (LaunchState::Done, LaunchAction::Stop),
        LaunchEvent::UpdateApplied(r) => {
            match state {
                LaunchState::Updating(command) => match r {
                    Ok(()) => (LaunchState::Done, LaunchAction::Execute(command)),
                    Err(e) => (LaunchState::Done, LaunchAction::Fail(e)),
                },
                _ => (LaunchState::Done, LaunchAction::Stop),
            }
        },
    }
}

} // verus!
