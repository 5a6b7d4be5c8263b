//! What the launcher reads from its configuration and from an index: where
//! the application lives, where its index comes from, and which files make
//! it up.

use vstd::prelude::*;
use crate::command::CommandConfig;
use crate::text::{replace_all, replaced, str_eq, with_tmp_suffix};

verus! {

/// Where the application is installed, where its current index is kept,
/// and where a fresh index is downloaded from.
pub struct IndexConfig {
    pub directory: String,
    pub file: String,
    pub source: String,
}

/// One file of the application, as an index lists it.
pub struct FileConfig {
    pub name: String,
    pub md5: String,
    pub source: String,
    pub size: u64,
    pub action: Option<String>,
    pub os: Option<String>,
    pub arch: Option<String>,
}

/// An index: the command that starts the application and the files it needs.
pub struct Index {
    pub command: CommandConfig,
    pub files: Vec<FileConfig>,
}

/// Where a file with the given checksum and name is stored under `directory`:
/// `<directory>/files/<md5>-<name>`.
pub open spec fn stored_path(directory: Seq<char>, md5: Seq<char>, name: Seq<char>) -> Seq<char> {
    directory + "/files/"@ + md5 + "-"@ + name
}

/// The placeholder that configuration texts use for the user's home directory.
pub open spec fn home_placeholder() -> Seq<char> {
    "${user_home}"@
}

impl IndexConfig {
    /// Where a freshly downloaded index waits before it replaces the current one.
    pub fn tmpfile(&self) -> (t: String)
        ensures
            t@ == self.file@ + ".tmp"@,
    {
        with_tmp_suffix(self.file.as_str())
    }

    /// Where `file` is stored on disk.
    pub fn relativize(&self, file: &FileConfig) -> (path: String)
        ensures
            path@ == stored_path(self.directory@, file.md5@, file.name@),
    {
        let mut path = String::from_str(self.directory.as_str());
        path.append("/files/");
        path.append(file.md5.as_str());
        path.append("-");
        path.append(file.name.as_str());
        path
    }
}

/// An optional constraint is met when it is absent or names exactly `actual`.
pub open spec fn constraint_met(constraint: Option<String>, actual: Seq<char>) -> bool {
    match constraint {
        Some(c) => c@ == actual,
        None => true,
    }
}

impl FileConfig {
    /// The file is meant for the platform with operating system `os` and
    /// architecture `arch`.
    pub open spec fn runs_on(self, os: Seq<char>, arch: Seq<char>) -> bool {
        constraint_met(self.os, os) && constraint_met(self.arch, arch)
    }

    /// Whether the file is meant for the given operating system and architecture.
    pub fn is_current_arch_os(&self, os: &str, arch: &str) -> (ok: bool)
        ensures
            ok == self.runs_on(os@, arch@),
    {
        let os_ok = match &self.os {
            Some(o) => str_eq(o.as_str(), os),
            None => true,
        };
        let arch_ok = match &self.arch {
            Some(a) => str_eq(a.as_str(), arch),
            None => true,
        };
        os_ok && arch_ok
    }
}

/// The files among `files` that are meant for the platform `os`/`arch`, in order.
pub open spec fn platform_files(files: Seq<FileConfig>, os: Seq<char>, arch: Seq<char>) -> Seq<FileConfig> {
    files.filter(|f: FileConfig| f.runs_on(os, arch))
}

/// The index with only the files meant for the platform `os`/`arch`; the
/// command is kept as it is.
pub fn filter_index_for_platform(index: Index, os: &str, arch: &str) -> (filtered: Index)
    ensures
        filtered.command == index.command,
        filtered.files@ == platform_files(index.files@, os@, arch@),
{
    let Index { command, files } = index;
    let ghost all = files@;
    let ghost pred = |f: FileConfig| f.runs_on(os@, arch@);
    let mut kept: Vec<FileConfig> = Vec::new();
    for file in it: files.into_iter()
        invariant
            it.seq() == all,
            pred == (|f: FileConfig| f.runs_on(os@, arch@)),
            kept@ == all.take(it.index()).filter(pred),
    {
        proof {
            all.take(it.index()).lemma_filter_push(file, pred);
            assert(all.take(it.index() + 1) =~= all.take(it.index()).push(file));
        }
        let ghost before = kept@;
        let ok = file.is_current_arch_os(os, arch);
        if ok {
            kept.push(file);
            assert(kept@ == before.push(file));
        }
    }
    proof {
        assert(all.take(all.len() as int) =~= all);
    }
    Index { command, files: kept }
}

/// `text` with every `${user_home}` replaced by `home`.
pub fn inject_vars(text: &str, home: &str) -> (out: String)
    ensures
        out@ == replaced(text@, home_placeholder(), home@),
{
    proof {
        reveal_strlit("${user_home}");
    }
    replace_all(text, "${user_home}", home)
}

/// A home directory as it is written into a configuration text: each
/// backslash doubled, so that the text still reads back the same path.
pub fn escape_backslashes(dir: &str) -> (out: String)
    ensures
        out@ == replaced(dir@, seq!['\\'], seq!['\\', '\\']),
{
    proof {
        reveal_strlit("\\");
        reveal_strlit("\\\\");
        assert("\\"@ =~= seq!['\\']);
        assert("\\\\"@ =~= seq!['\\', '\\']);
    }
    replace_all(dir, "\\", "\\\\")
}

/// A file is meant for a platform exactly when each constraint it carries
/// names that platform's value, character for character.
pub proof fn lemma_runs_on_exact(f: FileConfig, os: Seq<char>, arch: Seq<char>)
    ensures
        f.runs_on(os, arch) <==> ((f.os is None || f.os->0@ == os) && (f.arch is None || f.arch->0@ == arch)),
{
}

/// The platform filter keeps exactly the files whose constraints are absent
/// or name the platform's values exactly.
pub proof fn lemma_platform_files_exact(files: Seq<FileConfig>, os: Seq<char>, arch: Seq<char>)
    ensures
        forall|x: FileConfig| platform_files(files, os, arch).contains(x) ==> (x.os is None || x.os->0@ == os)
            && (x.arch is None || x.arch->0@ == arch),
        forall|k: int| 0 <= k < files.len() && (files[k].os is None || files[k].os->0@ == os)
            && (files[k].arch is None || files[k].arch->0@ == arch)
            ==> platform_files(files, os, arch).contains(#[trigger] files[k]),
{
    broadcast use vstd::seq_lib::group_filter_ensures;
    let pred = |f: FileConfig| f.runs_on(os, arch);
    assert forall|x: FileConfig| platform_files(files, os, arch).contains(x) implies (x.os is None || x.os->0@ == os)
            && (x.arch is None || x.arch->0@ == arch) by {
        files.lemma_filter_contains_rev(pred, x);
    }
    assert forall|k: int| 0 <= k < files.len() && (files[k].os is None || files[k].os->0@ == os)
            && (files[k].arch is None || files[k].arch->0@ == arch)
            implies platform_files(files, os, arch).contains(#[trigger] files[k]) by {
        files.lemma_filter_contains(pred, k);
    }
}

} // verus!
