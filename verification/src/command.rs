//! The command that the launcher runs once the application is up to date.

use std::collections::HashMap;
use vstd::prelude::*;
use crate::text::{contains, contains_seq, occurs_at};

verus! {

/// A program to start, with its arguments and extra environment variables.
pub struct CommandConfig {
    pub command: String,
    pub args: Vec<String>,
    pub env: Option<HashMap<String, String>>,
}

/// Environment variables whose name mentions `PATH` are only passed on
/// when the directory they name exists.
pub open spec fn env_entry_applies_spec(key: Seq<char>, value_exists: bool) -> bool {
    !contains_seq(key, "PATH"@) || value_exists
}

impl CommandConfig {
    /// Whether the environment entry named `key` is handed to the command,
    /// given whether the path in its value exists on disk.
    pub fn env_entry_applies(key: &str, value_exists: bool) -> (applies: bool)
        ensures
            applies == env_entry_applies_spec(key@, value_exists),
    {
        !contains(key, "PATH") || value_exists
    }
}

/// An environment entry is dropped exactly when its name holds the four
/// characters `PATH` somewhere and its value is not an existing path.
pub proof fn lemma_path_entries_need_existing_value(key: Seq<char>, value_exists: bool)
    ensures
        env_entry_applies_spec(key, value_exists) <==> (value_exists || !exists|i: int|
            0 <= i && i + 4 <= key.len() && #[trigger] key.subrange(i, i + 4) == seq!['P', 'A', 'T', 'H']),
{
    reveal_strlit("PATH");
    let p = seq!['P', 'A', 'T', 'H'];
    assert("PATH"@ =~= p);
    if contains_seq(key, "PATH"@) {
        let i = choose|i: int| occurs_at(key, "PATH"@, i);
        assert(0 <= i && i + 4 <= key.len() && key.subrange(i, i + 4) == p);
    }
    if exists|i: int| 0 <= i && i + 4 <= key.len() && #[trigger] key.subrange(i, i + 4) == p {
        let i = choose|i: int| 0 <= i && i + 4 <= key.len() && #[trigger] key.subrange(i, i + 4) == p;
        assert(occurs_at(key, "PATH"@, i));
    }
}

} // verus!
