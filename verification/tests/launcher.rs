use launcher::command::CommandConfig;
use launcher::config::{
    escape_backslashes, filter_index_for_platform, inject_vars, FileConfig, Index, IndexConfig,
};
use launcher::digest::{check_md5, CopyAction, CopyProgress, ReadEvent};
use launcher::error::{box_err, BasicError};
use launcher::launch::{launch_step, LaunchAction, LaunchEvent, LaunchState};
use launcher::state::{exists_diff, filter_diffs, get_outdated_files, IndexState};
use launcher::text::{contains, replace_all, str_eq, with_tmp_suffix};
use launcher::archive::{is_directory_entry, join_entry_path, Unzipper};
use launcher::update::{
    file_step, process_update, progress_mark, unzip_required, update_start, update_step,
    UpdateAction, UpdatePhase,
};
use std::io::Write;
use std::collections::HashMap;

fn file(name: &str, md5: &str) -> FileConfig {
    FileConfig {
        name: name.to_string(),
        md5: md5.to_string(),
        source: format!("http://example.org/{}", name),
        size: 100,
        action: None,
        os: None,
        arch: None,
    }
}

fn command(name: &str) -> CommandConfig {
    CommandConfig { command: name.to_string(), args: vec!["-x".to_string()], env: None }
}

fn index(cmd: &str, files: Vec<FileConfig>) -> Index {
    Index { command: command(cmd), files }
}

fn config() -> IndexConfig {
    IndexConfig {
        directory: "/opt/app".to_string(),
        file: "/opt/app/index.toml".to_string(),
        source: "http://example.org/index.toml".to_string(),
    }
}

fn names(files: &[FileConfig]) -> Vec<String> {
    files.iter().map(|f| f.name.clone()).collect()
}

#[test]
fn tmpfile_appends_tmp_suffix() {
    assert_eq!(config().tmpfile(), "/opt/app/index.toml.tmp");
    assert_eq!(with_tmp_suffix("a/b"), "a/b.tmp");
    assert_eq!(with_tmp_suffix(""), ".tmp");
}

#[test]
fn relativize_builds_stored_path() {
    assert_eq!(config().relativize(&file("x.zip", "abc")), "/opt/app/files/abc-x.zip");
}

#[test]
fn platform_constraints() {
    let mut f = file("a", "1");
    assert!(f.is_current_arch_os("linux", "x86_64"));
    f.os = Some("linux".to_string());
    assert!(f.is_current_arch_os("linux", "x86_64"));
    assert!(!f.is_current_arch_os("windows", "x86_64"));
    f.arch = Some("aarch64".to_string());
    assert!(!f.is_current_arch_os("linux", "x86_64"));
    assert!(f.is_current_arch_os("linux", "aarch64"));
}

#[test]
fn platform_filter_keeps_order_and_command() {
    let mut a = file("a", "1");
    a.os = Some("windows".to_string());
    let b = file("b", "2");
    let mut c = file("c", "3");
    c.os = Some("linux".to_string());
    let filtered = filter_index_for_platform(index("run", vec![a, b, c]), "linux", "x86_64");
    assert_eq!(names(&filtered.files), vec!["b", "c"]);
    assert_eq!(filtered.command.command, "run");
}

#[test]
fn inject_vars_replaces_every_placeholder() {
    assert_eq!(inject_vars("dir=${user_home}/app", "/home/u"), "dir=/home/u/app");
    assert_eq!(inject_vars("${user_home}:${user_home}", "H"), "H:H");
    assert_eq!(inject_vars("no placeholder here", "H"), "no placeholder here");
    assert_eq!(inject_vars("${user_home", "H"), "${user_home");
    assert_eq!(inject_vars("", "H"), "");
}

#[test]
fn escape_backslashes_doubles_them() {
    assert_eq!(escape_backslashes("C:\\Users\\me"), "C:\\\\Users\\\\me");
    assert_eq!(escape_backslashes("/home/me"), "/home/me");
}

#[test]
fn replace_all_matches_std_replace() {
    for (s, p, r) in [
        ("aaa", "aa", "b"),
        ("abcabc", "bc", ""),
        ("héllo wörld", "ö", "o"),
        ("xyz", "xyzw", "q"),
        ("aaaa", "a", "aa"),
    ] {
        assert_eq!(replace_all(s, p, r), s.replace(p, r));
    }
}

#[test]
fn contains_and_str_eq() {
    assert!(contains("LD_LIBRARY_PATH", "PATH"));
    assert!(!contains("HOME", "PATH"));
    assert!(contains("abc", ""));
    assert!(str_eq("héllo", "héllo"));
    assert!(!str_eq("héllo", "hello"));
    assert!(!str_eq("ab", "abc"));
}

#[test]
fn env_entries_with_path_need_an_existing_value() {
    assert!(CommandConfig::env_entry_applies("HOME", false));
    assert!(CommandConfig::env_entry_applies("JAVA_PATH", true));
    assert!(!CommandConfig::env_entry_applies("JAVA_PATH", false));
}

#[test]
fn exists_diff_cases() {
    let current = index("run", vec![file("a", "1"), file("b", "2"), file("b", "3")]);
    assert!(exists_diff(&file("c", "1"), &current));
    assert!(!exists_diff(&file("a", "1"), &current));
    assert!(exists_diff(&file("a", "9"), &current));
    // The first file of a name decides.
    assert!(!exists_diff(&file("b", "2"), &current));
    assert!(exists_diff(&file("b", "3"), &current));
}

#[test]
fn has_diffs_cases() {
    let fresh = IndexState { current: None, index: index("run", vec![]) };
    assert!(fresh.has_diffs());
    let same = IndexState {
        current: Some(index("run", vec![file("a", "1"), file("b", "2")])),
        index: index("run", vec![file("b", "2"), file("a", "1")]),
    };
    assert!(!same.has_diffs());
    let changed = IndexState {
        current: Some(index("run", vec![file("a", "1")])),
        index: index("run", vec![file("a", "2")]),
    };
    assert!(changed.has_diffs());
}

#[test]
fn installed_index_is_up_to_date() {
    let files = vec![file("a", "1"), file("b", "2"), file("c", "3")];
    let copy = files.iter().map(|f| file(&f.name, &f.md5)).collect();
    let state = IndexState { current: Some(index("run", files)), index: index("run", copy) };
    assert!(!state.has_diffs());
}

#[test]
fn filter_diffs_keeps_changed_files_in_order() {
    let current = index("run", vec![file("a", "1"), file("b", "2")]);
    let kept = filter_diffs(
        vec![file("c", "0"), file("a", "1"), file("b", "9"), file("d", "4")],
        &current,
    );
    assert_eq!(names(&kept), vec!["c", "b", "d"]);
    assert!(filter_diffs(vec![], &current).is_empty());
}

#[test]
fn outdated_files_are_those_no_longer_named() {
    let current = index("run", vec![file("a", "1"), file("old", "2"), file("b", "3")]);
    let reffiles = vec![file("a", "7"), file("b", "3")];
    assert_eq!(get_outdated_files(&config(), &reffiles, &current), vec!["/opt/app/files/2-old"]);
    assert!(get_outdated_files(&config(), &current.files, &current).is_empty());
}

#[test]
fn process_update_without_installed_index_fetches_everything() {
    let state = IndexState { current: None, index: index("new", vec![file("a", "1"), file("b", "2")]) };
    let plan = process_update(&config(), state);
    assert_eq!(plan.command.command, "new");
    assert_eq!(names(&plan.files_to_update), vec!["a", "b"]);
    assert!(plan.files_to_delete.is_empty());
}

#[test]
fn process_update_with_installed_index() {
    let state = IndexState {
        current: Some(index("old", vec![file("a", "1"), file("gone", "5")])),
        index: index("new", vec![file("a", "1"), file("b", "2")]),
    };
    let plan = process_update(&config(), state);
    assert_eq!(plan.command.command, "new");
    assert_eq!(names(&plan.files_to_update), vec!["b"]);
    assert_eq!(plan.files_to_delete, vec!["/opt/app/files/5-gone"]);
}

#[test]
fn file_steps() {
    let mut f = file("x.zip", "abc");
    assert!(!unzip_required(&f));
    f.action = Some("unzip".to_string());
    assert!(unzip_required(&f));
    let step = file_step(&config(), &f, false);
    assert_eq!(step.target, "/opt/app/files/abc-x.zip");
    assert!(step.fetch);
    assert!(step.unzip);
    f.action = Some("run".to_string());
    let step = file_step(&config(), &f, true);
    assert!(!step.fetch);
    assert!(!step.unzip);
}

#[test]
fn zip_directory_entries() {
    assert!(is_directory_entry("lib/"));
    assert!(!is_directory_entry("lib/a.so"));
    assert!(!is_directory_entry(""));
}

#[test]
fn progress_marks() {
    assert_eq!(progress_mark(10, 100, 0), Some(10));
    assert_eq!(progress_mark(15, 100, 10), None);
    assert_eq!(progress_mark(20, 100, 20), None);
    assert_eq!(progress_mark(100, 100, 90), Some(100));
    assert_eq!(progress_mark(0, 100, 0), None);
    assert_eq!(progress_mark(333, 1000, 20), None);
    assert_eq!(progress_mark(300, 1000, 20), Some(30));
}

#[test]
fn progress_marks_only_increase() {
    let mut shown = 0;
    let mut marks = vec![];
    for read in (0..=1000u64).step_by(7) {
        if let Some(m) = progress_mark(read, 1000, shown) {
            assert!(m > shown && m % 10 == 0);
            shown = m;
            marks.push(m);
        }
    }
    assert_eq!(marks, vec![10, 20, 30, 40, 50, 60, 70, 80, 90]);
}

fn finish(mut c: CopyProgress) -> (u64, String) {
    match c.step(ReadEvent::EndOfStream) {
        CopyAction::Finished(n, md5) => (n, md5),
        _ => panic!("copy did not finish"),
    }
}

#[test]
fn copy_counts_and_hashes_every_byte() {
    let mut c = CopyProgress::new();
    assert!(matches!(c.step(ReadEvent::Chunk(b"ab".to_vec())), CopyAction::Report(2)));
    assert!(matches!(c.step(ReadEvent::Interrupted), CopyAction::Retry));
    assert!(matches!(c.step(ReadEvent::Chunk(b"c".to_vec())), CopyAction::Report(3)));
    assert_eq!(c.written(), 3);
    assert_eq!(finish(c), (3, "900150983cd24fb0d6963f7d28e17f72".to_string()));
}

#[test]
fn copy_of_nothing() {
    assert_eq!(finish(CopyProgress::new()), (0, "d41d8cd98f00b204e9800998ecf8427e".to_string()));
}

#[test]
fn check_md5_cases() {
    assert_eq!(check_md5(None, "abc"), Ok(()));
    assert_eq!(check_md5(Some("abc"), "abc"), Ok(()));
    assert_eq!(
        check_md5(Some("abc"), "def"),
        Err("Md5 mismatch: expecting abc got def".to_string())
    );
}

#[test]
fn basic_error_reads_description_then_causes() {
    let e = BasicError {
        description: "failed: ".to_string(),
        errs: vec!["one".to_string(), "two".to_string()],
    };
    assert_eq!(e.message(), "failed: onetwo");
    assert_eq!(e.description(), "failed: ");
    assert_eq!(e.cause(), Some(&"one".to_string()));
    let lone = BasicError { description: "x".to_string(), errs: vec![] };
    assert_eq!(lone.cause(), None);
}

#[test]
fn box_err_cases() {
    assert!(matches!(box_err::<u8>(Ok(3)), Ok(3)));
    match box_err::<u8>(Err("boom".to_string())) {
        Err(e) => {
            assert_eq!(e.message(), "boom");
            assert!(e.cause().is_none());
        },
        Ok(_) => panic!("expected an error"),
    }
}

#[test]
fn launch_fetch_failure_falls_back_on_installed_index() {
    let (state, action) =
        launch_step::<String>(&config(), LaunchState::Fetching, LaunchEvent::IndexFetched(Err("down".to_string())));
    assert!(matches!(state, LaunchState::LoadingLocal));
    assert!(matches!(action, LaunchAction::LoadLocalIndex));
    let (state, action) = launch_step::<String>(
        &config(),
        LaunchState::LoadingLocal,
        LaunchEvent::LocalIndexLoaded(Ok(Some(index("installed", vec![])))),
    );
    assert!(matches!(state, LaunchState::Done));
    assert!(matches!(action, LaunchAction::Execute(c) if c.command == "installed"));
    let (_, action) =
        launch_step::<String>(&config(), LaunchState::LoadingLocal, LaunchEvent::LocalIndexLoaded(Ok(None)));
    assert!(matches!(action, LaunchAction::Stop));
    let (_, action) = launch_step::<String>(
        &config(),
        LaunchState::LoadingLocal,
        LaunchEvent::LocalIndexLoaded(Err("unreadable".to_string())),
    );
    assert!(matches!(action, LaunchAction::Stop));
}

#[test]
fn launch_up_to_date_runs_at_once() {
    let state = IndexState {
        current: Some(index("old", vec![file("a", "1")])),
        index: index("new", vec![file("a", "1")]),
    };
    let (next, action) = launch_step::<String>(&config(), LaunchState::Fetching, LaunchEvent::IndexFetched(Ok(state)));
    assert!(matches!(next, LaunchState::Done));
    assert!(matches!(action, LaunchAction::Execute(c) if c.command == "new"));
}

#[test]
fn launch_with_update() {
    let state = IndexState {
        current: Some(index("old", vec![file("a", "1"), file("gone", "2")])),
        index: index("new", vec![file("a", "9")]),
    };
    let (next, action) = launch_step::<String>(&config(), LaunchState::Fetching, LaunchEvent::IndexFetched(Ok(state)));
    match action {
        LaunchAction::ApplyUpdate(fetch, delete) => {
            assert_eq!(names(&fetch), vec!["a"]);
            assert_eq!(delete, vec!["/opt/app/files/2-gone"]);
        },
        _ => panic!("expected an update"),
    }
    let (done, action) = launch_step::<String>(&config(), next, LaunchEvent::UpdateApplied(Ok(())));
    assert!(matches!(done, LaunchState::Done));
    assert!(matches!(action, LaunchAction::Execute(c) if c.command == "new"));
    let (_, action) = launch_step::<String>(
        &config(),
        LaunchState::Updating(command("new")),
        LaunchEvent::UpdateApplied(Err("disk full".to_string())),
    );
    assert!(matches!(action, LaunchAction::Fail(e) if e == "disk full"));
}

#[test]
fn command_env_is_carried() {
    let mut env = HashMap::new();
    env.insert("PATH".to_string(), "/bin".to_string());
    let c = CommandConfig { command: "run".to_string(), args: vec![], env: Some(env) };
    let i = Index { command: c, files: vec![] };
    let f = filter_index_for_platform(i, "linux", "x86_64");
    assert_eq!(f.command.env.unwrap().get("PATH").map(|s| s.as_str()), Some("/bin"));
}

fn zip_bytes() -> Vec<u8> {
    let mut w = zip::ZipWriter::new(std::io::Cursor::new(Vec::new()));
    w.add_directory("lib/", zip::write::FileOptions::default()).unwrap();
    w.start_file("lib/a.txt", zip::write::FileOptions::default()).unwrap();
    w.write_all(b"hello").unwrap();
    w.start_file("b.bin", zip::write::FileOptions::default()).unwrap();
    w.write_all(&[0u8, 1, 2, 255]).unwrap();
    w.finish().unwrap().into_inner()
}

#[test]
fn unzip_steps_follow_entries_in_order() {
    let mut u = Unzipper::open("/opt/app/files", zip_bytes()).unwrap();
    assert_eq!(u.len(), 3);
    let s0 = u.step(0).unwrap();
    assert_eq!(s0.path, "/opt/app/files/lib/");
    assert!(s0.is_dir);
    assert!(s0.content.is_empty());
    let s1 = u.step(1).unwrap();
    assert_eq!(s1.path, "/opt/app/files/lib/a.txt");
    assert!(!s1.is_dir);
    assert_eq!(s1.content, b"hello".to_vec());
    let s2 = u.step(2).unwrap();
    assert_eq!(s2.path, "/opt/app/files/b.bin");
    assert_eq!(s2.content, vec![0u8, 1, 2, 255]);
    assert!(u.step(3).is_err());
}

#[test]
fn unzip_refuses_a_corrupt_archive() {
    assert!(Unzipper::open("/opt", b"not a zip archive".to_vec()).is_err());
    assert!(Unzipper::open("/opt", vec![]).is_err());
}

#[test]
fn unzip_of_empty_archive_has_no_steps() {
    let w = zip::ZipWriter::new(std::io::Cursor::new(Vec::new()));
    let bytes = { let mut w = w; w.finish().unwrap().into_inner() };
    assert_eq!(Unzipper::open("/opt", bytes).unwrap().len(), 0);
}

#[test]
fn entry_paths_join_like_pathbuf_push() {
    assert_eq!(join_entry_path("/opt/app", "a/b"), "/opt/app/a/b");
    assert_eq!(join_entry_path("/", "a"), "/a");
    assert_eq!(join_entry_path("", "a"), "a");
    assert_eq!(join_entry_path("/opt", "/etc/x"), "/etc/x");
    for (p, n) in [("/opt/app", "a/b"), ("/", "a"), ("", "a"), ("/opt", "/etc/x")] {
        let mut b = std::path::PathBuf::from(p);
        b.push(n);
        assert_eq!(join_entry_path(p, n), b.to_string_lossy());
    }
}

fn run_update(n_files: usize, n_deletes: usize, fail_at: Option<usize>) -> Vec<String> {
    let mut log = vec![];
    let (mut phase, mut action) = update_start::<String>(n_files, n_deletes);
    let mut k = 0;
    loop {
        let outcome = if fail_at == Some(k) { Err(format!("failed at {}", k)) } else { Ok(()) };
        match &action {
            UpdateAction::HandleFile(i) => log.push(format!("file {}", i)),
            UpdateAction::InstallIndex => log.push("index".to_string()),
            UpdateAction::Delete(j) => log.push(format!("delete {}", j)),
            UpdateAction::Done => {
                log.push("done".to_string());
                return log;
            },
            UpdateAction::Fail(e) => {
                log.push(e.clone());
                return log;
            },
        }
        let (p, a) = update_step(n_files, n_deletes, phase, outcome);
        phase = p;
        action = a;
        k += 1;
    }
}

#[test]
fn update_order_files_then_index_then_deletions() {
    assert_eq!(run_update(2, 1, None), vec!["file 0", "file 1", "index", "delete 0", "done"]);
    assert_eq!(run_update(0, 0, None), vec!["index", "done"]);
    assert_eq!(run_update(0, 2, None), vec!["index", "delete 0", "delete 1", "done"]);
}

#[test]
fn update_stops_at_first_failure() {
    assert_eq!(run_update(3, 1, Some(1)), vec!["file 0", "file 1", "failed at 1"]);
    assert_eq!(run_update(1, 2, Some(1)), vec!["file 0", "index", "failed at 1"]);
    assert!(matches!(
        update_step::<String>(1, 0, UpdatePhase::InstallIndex, Ok(())),
        (UpdatePhase::Finished, UpdateAction::Done)
    ));
}

#[test]
fn finished_copy_digest_is_lowercase_hex() {
    let mut c = CopyProgress::new();
    c.step(ReadEvent::Chunk(vec![0xffu8; 5000]));
    let (n, md5) = finish(c);
    assert_eq!(n, 5000);
    assert_eq!(md5.len(), 32);
    assert!(md5.chars().all(|ch| ch.is_ascii_digit() || ('a'..='f').contains(&ch)));
}

#[test]
fn filter_diffs_laws_on_values() {
    let current = index("run", vec![file("a", "1"), file("b", "2")]);
    let list = || vec![file("c", "0"), file("a", "1"), file("b", "9")];
    let once = filter_diffs(list(), &current);
    let twice = filter_diffs(filter_diffs(list(), &current), &current);
    assert_eq!(names(&once), names(&twice));
    let empty = index("run", vec![]);
    assert_eq!(names(&filter_diffs(list(), &empty)), vec!["c", "a", "b"]);
    let mut joined = list();
    joined.extend(vec![file("d", "4"), file("a", "2")]);
    let mut parts = names(&filter_diffs(list(), &current));
    parts.extend(names(&filter_diffs(vec![file("d", "4"), file("a", "2")], &current)));
    assert_eq!(names(&filter_diffs(joined, &current)), parts);
}

#[test]
fn outdated_laws_on_values() {
    let current = index("run", vec![file("a", "1"), file("b", "2")]);
    assert_eq!(
        get_outdated_files(&config(), &vec![], &current),
        vec!["/opt/app/files/1-a", "/opt/app/files/2-b"]
    );
    let r1 = vec![file("b", "x"), file("b", "y")];
    let r2 = vec![file("b", "z")];
    assert_eq!(get_outdated_files(&config(), &r1, &current), get_outdated_files(&config(), &r2, &current));
    let all = vec![file("b", "0"), file("a", "0")];
    assert!(get_outdated_files(&config(), &all, &current).is_empty());
}

#[test]
fn unzip_reports_an_unflagged_aes_entry_as_an_error() {
    let mut w = zip::ZipWriter::new(std::io::Cursor::new(Vec::new()));
    let options = zip::write::FileOptions::default().compression_method(zip::CompressionMethod::Stored);
    w.start_file_with_extra_data("aes.bin", options).unwrap();
    // An extra field of kind 0xbeef, later renamed into the AES kind 0x9901:
    // length 7, version AE-1, vendor "AE", strength 128 bits, inner method
    // stored. The writer refuses to write the AES kind itself.
    w.write_all(&[0xef, 0xbe, 7, 0, 1, 0, 0x41, 0x45, 1, 0, 0]).unwrap();
    w.end_extra_data().unwrap();
    w.write_all(b"data").unwrap();
    let mut bytes = w.finish().unwrap().into_inner();
    let mut renamed = 0;
    for i in 0..bytes.len() - 3 {
        if bytes[i..i + 4] == [0xef, 0xbe, 7, 0] {
            bytes[i] = 0x01;
            bytes[i + 1] = 0x99;
            renamed += 1;
        }
    }
    assert_eq!(renamed, 2);
    let mut u = Unzipper::open("/opt", bytes).unwrap();
    assert_eq!(u.len(), 1);
    assert!(u.step(0).is_err());
}
