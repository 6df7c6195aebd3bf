use term_launcher::config::App;
use term_launcher::launcher::{
    dir_world_writable, is_allowed_path, is_executable, probe_paths, probe_paths_for_app,
    resolve_app, resolve_command, trusted_directories, Environment,
};
use term_launcher::snapshot::{FileMeta, FsSnapshot};

fn s(x: &str) -> String {
    x.to_string()
}

fn env(home: Option<&str>, path: Option<&str>) -> Environment {
    Environment { home: home.map(s), path: path.map(s) }
}

fn dir(fs: &mut FsSnapshot, path: &str, mode: u32) {
    fs.record(s(path), Some(FileMeta { is_file: false, mode }), Some(s(path)));
}

fn file(fs: &mut FsSnapshot, path: &str, mode: u32, canonical: &str) {
    fs.record(s(path), Some(FileMeta { is_file: true, mode }), Some(s(canonical)));
}

/// The system's binary directories, owned by root and closed to others.
fn system() -> FsSnapshot {
    let mut fs = FsSnapshot::new();
    dir(&mut fs, "/usr/bin", 0o40755);
    dir(&mut fs, "/usr/local/bin", 0o40755);
    dir(&mut fs, "/bin", 0o40755);
    fs
}

fn app(cmd: &str, args: Option<Vec<&str>>) -> App {
    App {
        name: s("entry"),
        cmd: s(cmd),
        key: s("e"),
        args: args.map(|a| a.into_iter().map(s).collect()),
    }
}

#[test]
fn writable_dir_earlier_in_path_is_skipped() {
    let mut fs = system();
    dir(&mut fs, "/tmp", 0o41777);
    file(&mut fs, "/tmp/ls", 0o755, "/tmp/ls");
    file(&mut fs, "/usr/bin/ls", 0o755, "/usr/bin/ls");
    let e = env(None, Some("/tmp:/usr/bin"));
    assert_eq!(resolve_command("ls", &e, &fs), Some(s("/usr/bin/ls")));
}

#[test]
fn absolute_path_outside_allowlist_is_refused() {
    let mut fs = system();
    dir(&mut fs, "/opt/custom", 0o40755);
    file(&mut fs, "/opt/custom/tool", 0o777, "/opt/custom/tool");
    let e = env(Some("/home/u"), Some("/usr/bin"));
    assert_eq!(resolve_command("/opt/custom/tool", &e, &fs), None);
}

#[test]
fn absolute_path_inside_allowlist_is_accepted() {
    let mut fs = system();
    file(&mut fs, "/usr/bin/vim", 0o755, "/usr/bin/vim");
    let e = env(None, None);
    assert_eq!(resolve_command("/usr/bin/vim", &e, &fs), Some(s("/usr/bin/vim")));
}

#[test]
fn absolute_path_is_returned_in_canonical_form() {
    let mut fs = system();
    file(&mut fs, "/usr/bin/../bin/vim", 0o755, "/usr/bin/vim");
    file(&mut fs, "/usr/bin/vi", 0o755, "/usr/bin/vim");
    let e = env(None, None);
    assert_eq!(resolve_command("/usr/bin/../bin/vim", &e, &fs), Some(s("/usr/bin/vim")));
    assert_eq!(resolve_command("/usr/bin/vi", &e, &fs), Some(s("/usr/bin/vim")));
}

#[test]
fn bare_name_resolves_in_first_searchable_dir() {
    let mut fs = system();
    file(&mut fs, "/usr/local/bin/tool", 0o755, "/usr/local/bin/tool");
    file(&mut fs, "/usr/bin/tool", 0o755, "/usr/bin/tool");
    let e = env(None, Some("/usr/local/bin:/usr/bin"));
    assert_eq!(resolve_command("tool", &e, &fs), Some(s("/usr/local/bin/tool")));
    let e = env(None, Some("/usr/bin:/usr/local/bin"));
    assert_eq!(resolve_command("tool", &e, &fs), Some(s("/usr/bin/tool")));
}

#[test]
fn hit_only_in_writable_dir_fails() {
    let mut fs = system();
    dir(&mut fs, "/tmp", 0o41777);
    file(&mut fs, "/tmp/ls", 0o755, "/tmp/ls");
    dir(&mut fs, "/srv/shared", 0o40775);
    file(&mut fs, "/srv/shared/ls", 0o755, "/usr/bin/ls");
    let e = env(None, Some("/tmp:/srv/shared:/usr/bin"));
    assert_eq!(resolve_command("ls", &e, &fs), None);
}

#[test]
fn symlink_escaping_trusted_dir_is_refused() {
    let mut fs = system();
    file(&mut fs, "/usr/bin/evil", 0o755, "/tmp/evil");
    let e = env(None, Some("/usr/bin"));
    assert_eq!(resolve_command("/usr/bin/evil", &e, &fs), None);
    assert_eq!(resolve_command("evil", &e, &fs), None);
}

#[test]
fn symlink_into_trusted_dir_is_accepted() {
    let mut fs = system();
    file(&mut fs, "/usr/bin/python", 0o755, "/usr/bin/python3.12");
    let e = env(None, Some("/usr/bin"));
    assert_eq!(resolve_command("python", &e, &fs), Some(s("/usr/bin/python3.12")));
}

#[test]
fn lookalike_directory_is_not_trusted() {
    let mut fs = system();
    dir(&mut fs, "/usr/bin-evil", 0o40755);
    file(&mut fs, "/usr/bin-evil/x", 0o755, "/usr/bin-evil/x");
    let e = env(None, Some("/usr/bin-evil"));
    assert_eq!(resolve_command("/usr/bin-evil/x", &e, &fs), None);
    assert_eq!(resolve_command("x", &e, &fs), None);
}

#[test]
fn resolving_twice_gives_the_same_result() {
    let mut fs = system();
    file(&mut fs, "/usr/bin/ls", 0o755, "/usr/bin/ls");
    let e = env(None, Some("/usr/bin"));
    let first = resolve_command("ls", &e, &fs);
    let second = resolve_command("ls", &e, &fs);
    assert_eq!(first, second);
    assert_eq!(first, Some(s("/usr/bin/ls")));
}

#[test]
fn missing_path_fails_only_bare_names() {
    let mut fs = system();
    file(&mut fs, "/usr/bin/ls", 0o755, "/usr/bin/ls");
    let e = env(None, None);
    assert_eq!(resolve_command("ls", &e, &fs), None);
    assert_eq!(resolve_command("/usr/bin/ls", &e, &fs), Some(s("/usr/bin/ls")));
}

#[test]
fn relative_and_empty_path_entries_are_skipped() {
    let mut fs = system();
    dir(&mut fs, "bin", 0o40755);
    file(&mut fs, "bin/ls", 0o755, "/usr/bin/ls");
    dir(&mut fs, "", 0o40755);
    file(&mut fs, "ls", 0o755, "/usr/bin/ls");
    let e = env(None, Some("bin::."));
    assert_eq!(resolve_command("ls", &e, &fs), None);
}

#[test]
fn unreadable_dir_is_skipped_not_fatal() {
    let mut fs = system();
    fs.record(s("/opt/bin"), None, None);
    file(&mut fs, "/opt/bin/ls", 0o755, "/usr/bin/ls");
    file(&mut fs, "/usr/bin/ls", 0o755, "/usr/bin/ls");
    let e = env(None, Some("/opt/bin:/usr/bin"));
    assert_eq!(resolve_command("ls", &e, &fs), Some(s("/usr/bin/ls")));
    let e = env(None, Some("/opt/bin"));
    assert_eq!(resolve_command("ls", &e, &fs), None);
}

#[test]
fn not_executable_or_not_a_file_is_refused() {
    let mut fs = system();
    file(&mut fs, "/usr/bin/notes", 0o644, "/usr/bin/notes");
    dir(&mut fs, "/usr/bin/subdir", 0o40755);
    let e = env(None, Some("/usr/bin"));
    assert_eq!(resolve_command("notes", &e, &fs), None);
    assert_eq!(resolve_command("/usr/bin/notes", &e, &fs), None);
    assert_eq!(resolve_command("subdir", &e, &fs), None);
}

#[test]
fn execute_bit_of_group_or_others_suffices() {
    let mut fs = system();
    file(&mut fs, "/usr/bin/g", 0o610, "/usr/bin/g");
    file(&mut fs, "/usr/bin/o", 0o601, "/usr/bin/o");
    let e = env(None, Some("/usr/bin"));
    assert_eq!(resolve_command("g", &e, &fs), Some(s("/usr/bin/g")));
    assert_eq!(resolve_command("o", &e, &fs), Some(s("/usr/bin/o")));
}

#[test]
fn unrecorded_path_is_not_found() {
    let fs = system();
    let e = env(None, Some("/usr/bin"));
    assert_eq!(resolve_command("ls", &e, &fs), None);
    assert_eq!(resolve_command("/usr/bin/ls", &e, &fs), None);
}

#[test]
fn home_bin_is_trusted_when_home_is_set() {
    let mut fs = system();
    dir(&mut fs, "/home/u/.local/bin", 0o40755);
    file(&mut fs, "/home/u/.local/bin/mine", 0o755, "/home/u/.local/bin/mine");
    let e = env(Some("/home/u"), Some("/home/u/.local/bin"));
    assert_eq!(resolve_command("mine", &e, &fs), Some(s("/home/u/.local/bin/mine")));
    let e = env(None, Some("/home/u/.local/bin"));
    assert_eq!(resolve_command("mine", &e, &fs), None);
    let e = env(Some(""), Some("/home/u/.local/bin"));
    assert_eq!(resolve_command("mine", &e, &fs), None);
}

#[test]
fn trusted_dir_that_cannot_be_canonicalized_is_ignored() {
    let mut fs = FsSnapshot::new();
    fs.record(s("/usr/bin"), None, None);
    dir(&mut fs, "/bin", 0o40755);
    file(&mut fs, "/usr/bin/ls", 0o755, "/usr/bin/ls");
    file(&mut fs, "/bin/ls", 0o755, "/bin/ls");
    let e = env(None, Some("/usr/bin:/bin"));
    assert_eq!(resolve_command("ls", &e, &fs), Some(s("/bin/ls")));
}

#[test]
fn first_record_of_a_path_counts() {
    let mut fs = system();
    file(&mut fs, "/usr/bin/ls", 0o644, "/usr/bin/ls");
    file(&mut fs, "/usr/bin/ls", 0o755, "/usr/bin/ls");
    let e = env(None, Some("/usr/bin"));
    assert_eq!(resolve_command("ls", &e, &fs), None);
}

#[test]
fn trusted_directories_follow_home() {
    assert_eq!(trusted_directories(&None), vec![s("/usr/bin"), s("/usr/local/bin"), s("/bin")]);
    assert_eq!(
        trusted_directories(&Some(s("/home/u"))),
        vec![s("/usr/bin"), s("/usr/local/bin"), s("/bin"), s("/home/u/.local/bin")]
    );
    assert_eq!(
        trusted_directories(&Some(s("/home/u/"))),
        vec![s("/usr/bin"), s("/usr/local/bin"), s("/bin"), s("/home/u/.local/bin")]
    );
    assert_eq!(trusted_directories(&Some(s(""))).len(), 3);
}

#[test]
fn permission_predicates() {
    assert!(is_executable(0o100));
    assert!(is_executable(0o755));
    assert!(!is_executable(0o644));
    assert!(!dir_world_writable(Some(FileMeta { is_file: false, mode: 0o40755 })));
    assert!(dir_world_writable(Some(FileMeta { is_file: false, mode: 0o40775 })));
    assert!(dir_world_writable(Some(FileMeta { is_file: false, mode: 0o40757 })));
    assert!(dir_world_writable(None));
}

#[test]
fn allowlist_uses_canonical_forms() {
    let mut fs = FsSnapshot::new();
    fs.record(s("/usr/bin"), None, Some(s("/usr/lib/bin")));
    file(&mut fs, "/usr/bin/a", 0o755, "/usr/lib/bin/a");
    file(&mut fs, "/usr/lib/bin/b", 0o755, "/usr/lib/bin/b");
    let trusted = vec![s("/usr/bin")];
    assert!(is_allowed_path(&fs, &trusted, "/usr/bin/a"));
    assert!(is_allowed_path(&fs, &trusted, "/usr/lib/bin/b"));
    assert!(!is_allowed_path(&fs, &trusted, "/usr/bin/missing"));
}

#[test]
fn fallback_puts_inferred_arguments_before_explicit_ones() {
    let mut fs = system();
    file(&mut fs, "/usr/bin/myapp", 0o755, "/usr/bin/myapp");
    let e = env(None, Some("/usr/bin"));
    let r = resolve_app(&app("myapp --verbose", Some(vec!["--extra"])), &e, &fs).unwrap();
    assert_eq!(r.executable_path, s("/usr/bin/myapp"));
    assert_eq!(r.arguments, vec![s("--verbose"), s("--extra")]);
}

#[test]
fn direct_resolution_keeps_explicit_arguments() {
    let mut fs = system();
    file(&mut fs, "/usr/bin/htop", 0o755, "/usr/bin/htop");
    let e = env(None, Some("/usr/bin"));
    let r = resolve_app(&app("htop", Some(vec!["-d", "10"])), &e, &fs).unwrap();
    assert_eq!(r.executable_path, s("/usr/bin/htop"));
    assert_eq!(r.arguments, vec![s("-d"), s("10")]);
    let r = resolve_app(&app("htop", None), &e, &fs).unwrap();
    assert!(r.arguments.is_empty());
}

#[test]
fn direct_resolution_wins_over_fallback() {
    let mut fs = system();
    file(&mut fs, "/usr/bin/my app", 0o755, "/usr/bin/my app");
    file(&mut fs, "/usr/bin/my", 0o755, "/usr/bin/my");
    let e = env(None, Some("/usr/bin"));
    let r = resolve_app(&app("my app", None), &e, &fs).unwrap();
    assert_eq!(r.executable_path, s("/usr/bin/my app"));
    assert!(r.arguments.is_empty());
}

#[test]
fn fallback_needs_two_words_and_a_resolvable_first_word() {
    let mut fs = system();
    file(&mut fs, "/usr/bin/myapp", 0o755, "/usr/bin/myapp");
    let e = env(None, Some("/usr/bin"));
    assert!(resolve_app(&app("  myapp  ", None), &e, &fs).is_none());
    assert!(resolve_app(&app("other --flag", None), &e, &fs).is_none());
    let r = resolve_app(&app("myapp\t-a  -b ", None), &e, &fs).unwrap();
    assert_eq!(r.arguments, vec![s("-a"), s("-b")]);
}

#[test]
fn fallback_never_bypasses_the_allowlist() {
    let mut fs = system();
    dir(&mut fs, "/opt", 0o40755);
    file(&mut fs, "/opt/tool", 0o755, "/opt/tool");
    let e = env(None, Some("/opt:/usr/bin"));
    assert!(resolve_app(&app("/opt/tool --x", None), &e, &fs).is_none());
    assert!(resolve_app(&app("tool --x", None), &e, &fs).is_none());
}

#[test]
fn probe_paths_list_what_resolution_reads() {
    let e = env(None, Some("/usr/bin::/tmp/"));
    assert_eq!(
        probe_paths("ls", &e),
        vec![
            s("/usr/bin"),
            s("/usr/local/bin"),
            s("/bin"),
            s("/usr/bin"),
            s(""),
            s("/tmp/"),
            s("/usr/bin/ls"),
            s("ls"),
            s("/tmp/ls"),
        ]
    );
    assert_eq!(
        probe_paths("/opt/x", &e),
        vec![s("/usr/bin"), s("/usr/local/bin"), s("/bin"), s("/opt/x")]
    );
    assert_eq!(probe_paths("ls", &env(None, None)).len(), 3);
}

#[test]
fn probe_paths_for_app_cover_the_fallback() {
    let e = env(None, Some("/usr/bin"));
    let p = probe_paths_for_app(&app("vim -R", None), &e);
    assert_eq!(p.len(), 10);
    assert!(p.contains(&s("/usr/bin/vim -R")));
    assert!(p.contains(&s("/usr/bin/vim")));
    let p = probe_paths_for_app(&app("vim", None), &e);
    assert_eq!(p.len(), 5);
}
