use vstd::prelude::*;

use crate::config::App;
use crate::paths::{
    is_absolute, is_absolute_spec, is_proper_ancestor, is_proper_ancestor_spec, join, join_spec,
};
use crate::snapshot::{canonical_of, meta_of, opt_view, FactsView, FileMeta, FsSnapshot};
use crate::text::{split_on, split_spec, split_words, views, words_spec};

verus! {

/// The two environment variables that resolution reads.
#[derive(Debug)]
pub struct Environment {
    pub home: Option<String>,
    pub path: Option<String>,
}

/// The directories from which executables may come: the system's binary
/// directories, and the user's own when `HOME` is set and not empty.
pub open spec fn trusted_directories_spec(home: Option<Seq<char>>) -> Seq<Seq<char>> {
    let system = seq!["/usr/bin"@, "/usr/local/bin"@, "/bin"@];
    match home {
        Some(h) => if h.len() > 0 {
            system.push(join_spec(h, ".local/bin"@))
        } else {
            system
        },
        None => system,
    }
}

/// The trusted directories for the value of `HOME`.
pub fn trusted_directories(home: &Option<String>) -> (r: Vec<String>)
    ensures
        views(r@) == trusted_directories_spec(opt_view(*home)),
{
    let mut dirs: Vec<String> = Vec::new();
    dirs.push(String::from_str("/usr/bin"));
    dirs.push(String::from_str("/usr/local/bin"));
    dirs.push(String::from_str("/bin"));
    let ghost system = views(dirs@);
    assert(system =~= seq!["/usr/bin"@, "/usr/local/bin"@, "/bin"@]);
    match home {
        Some(h) => {
            if h.as_str().unicode_len() > 0 {
                let personal = join(h.as_str(), ".local/bin");
                dirs.push(personal);
                assert(views(dirs@) =~= system.push(personal@));
            }
        },
        None => {},
    }
    dirs
}

/// Some execute bit is set: the owner's, the group's or the others'.
pub open spec fn is_executable_spec(mode: u32) -> bool {
    mode & 0o111u32 != 0
}

/// Whether the permission bits `mode` let the file be executed.
pub fn is_executable(mode: u32) -> (r: bool)
    ensures
        r == is_executable_spec(mode),
{
    mode & 0o111u32 != 0
}

/// A directory is unsafe to take executables from when its group or others
/// may write to it, or when its metadata could not be read.
pub open spec fn dir_world_writable_spec(meta: Option<FileMeta>) -> bool {
    match meta {
        Some(m) => m.mode & 0o022u32 != 0,
        None => true,
    }
}

/// Whether a directory with metadata `meta` is writable by others than its
/// owner; unreadable metadata counts as writable.
pub fn dir_world_writable(meta: Option<FileMeta>) -> (r: bool)
    ensures
        r == dir_world_writable_spec(meta),
{
    match meta {
        Some(m) => m.mode & 0o022u32 != 0,
        None => true,
    }
}

/// The canonical path `c` lies below the canonical form of one of the
/// trusted directories.
pub open spec fn within_trusted(fs: Seq<FactsView>, trusted: Seq<Seq<char>>, c: Seq<char>) -> bool {
    exists|k: int|
        0 <= k < trusted.len() && #[trigger] canonical_of(fs, trusted[k]) is Some
            && is_proper_ancestor_spec(canonical_of(fs, trusted[k])->0, c)
}

/// `path` has a canonical form, and it lies below a trusted directory.
pub open spec fn is_allowed_path_spec(fs: Seq<FactsView>, trusted: Seq<Seq<char>>, path: Seq<char>) -> bool {
    match canonical_of(fs, path) {
        Some(c) => within_trusted(fs, trusted, c),
        None => false,
    }
}

/// Whether `path`, symlinks and `..` resolved, lies below one of the
/// `trusted` directories, themselves taken in canonical form.
pub fn is_allowed_path(fs: &FsSnapshot, trusted: &Vec<String>, path: &str) -> (r: bool)
    ensures
        r == is_allowed_path_spec(fs@, views(trusted@), path@),
{
    let canon = match fs.canonical_of(path) {
        Some(c) => c,
        None => return false,
    };
    let mut k: usize = 0;
    while k < trusted.len()
        invariant
            k <= trusted@.len(),
            canonical_of(fs@, path@) == Some(canon@),
            forall|j: int| 0 <= j < k ==> !(#[trigger] canonical_of(fs@, views(trusted@)[j]) is Some
                && is_proper_ancestor_spec(canonical_of(fs@, views(trusted@)[j])->0, canon@)),
        decreases trusted.len() - k,
    {
        assert(views(trusted@)[k as int] == trusted@[k as int]@);
        match fs.canonical_of(trusted[k].as_str()) {
            Some(base) => {
                if is_proper_ancestor(base.as_str(), canon.as_str()) {
                    return true;
                }
            },
            None => {},
        }
        k = k + 1;
    }
    false
}

/// A regular, executable file whose canonical form lies below a trusted
/// directory.
pub open spec fn is_valid_candidate(fs: Seq<FactsView>, trusted: Seq<Seq<char>>, path: Seq<char>) -> bool {
    match meta_of(fs, path) {
        Some(m) => m.is_file && is_executable_spec(m.mode) && is_allowed_path_spec(fs, trusted, path),
        None => false,
    }
}

fn is_valid_candidate_exec(fs: &FsSnapshot, trusted: &Vec<String>, path: &str) -> (r: bool)
    ensures
        r == is_valid_candidate(fs@, views(trusted@), path@),
{
    match fs.meta_of(path) {
        Some(m) => m.is_file && is_executable(m.mode) && is_allowed_path(fs, trusted, path),
        None => false,
    }
}

/// A `PATH` entry that may be searched: absolute, and not writable by
/// others than its owner.
pub open spec fn is_searchable_dir(fs: Seq<FactsView>, dir: Seq<char>) -> bool {
    is_absolute_spec(dir) && !dir_world_writable_spec(meta_of(fs, dir))
}

/// The canonical form of `cmd` in the first searchable directory of `dirs`
/// that holds a valid candidate of that name.
pub open spec fn search_spec(
    fs: Seq<FactsView>,
    trusted: Seq<Seq<char>>,
    dirs: Seq<Seq<char>>,
    cmd: Seq<char>,
) -> Option<Seq<char>>
    decreases dirs.len(),
{
    if dirs.len() == 0 {
        None
    } else if is_searchable_dir(fs, dirs[0]) && is_valid_candidate(fs, trusted, join_spec(dirs[0], cmd)) {
        canonical_of(fs, join_spec(dirs[0], cmd))
    } else {
        search_spec(fs, trusted, dirs.drop_first(), cmd)
    }
}

/// What `cmd` resolves to, given the file system `fs`, the trusted
/// directories and the value of `PATH`. An absolute path is taken as it is
/// and must be a valid candidate itself; any other name is looked up in the
/// directories of `PATH`, in order.
pub open spec fn resolve_spec(
    fs: Seq<FactsView>,
    trusted: Seq<Seq<char>>,
    cmd: Seq<char>,
    path_var: Option<Seq<char>>,
) -> Option<Seq<char>> {
    if is_absolute_spec(cmd) {
        if is_valid_candidate(fs, trusted, cmd) {
            canonical_of(fs, cmd)
        } else {
            None
        }
    } else {
        match path_var {
            Some(pv) => search_spec(fs, trusted, split_spec(pv, ':'), cmd),
            None => None,
        }
    }
}

/// What `cmd` resolves to in the environment `env`.
pub open spec fn resolve_in(fs: Seq<FactsView>, env: Environment, cmd: Seq<char>) -> Option<Seq<char>> {
    resolve_spec(fs, trusted_directories_spec(opt_view(env.home)), cmd, opt_view(env.path))
}

/// Resolves `cmd` to the canonical path of one executable that is safe to
/// run, or to nothing. The trusted directories are derived from `env` anew
/// on every call.
pub fn resolve_command(cmd: &str, env: &Environment, fs: &FsSnapshot) -> (r: Option<String>)
    ensures
        opt_view(r) == resolve_in(fs@, *env, cmd@),
{
    let trusted = trusted_directories(&env.home);
    if is_absolute(cmd) {
        if is_valid_candidate_exec(fs, &trusted, cmd) {
            return fs.canonical_of(cmd);
        }
        return None;
    }
    let path_var = match &env.path {
        Some(p) => p,
        None => return None,
    };
    let dirs = split_on(path_var.as_str(), ':');
    let ghost all = views(dirs@);
    let mut i: usize = 0;
    assert(all.skip(0) =~= all);
    assert(resolve_in(fs@, *env, cmd@) == search_spec(fs@, views(trusted@), all, cmd@));
    while i < dirs.len()
        invariant
            i <= dirs@.len(),
            all == views(dirs@),
            resolve_in(fs@, *env, cmd@) == search_spec(fs@, views(trusted@), all, cmd@),
            views(trusted@) == trusted_directories_spec(opt_view(env.home)),
            search_spec(fs@, views(trusted@), all, cmd@) == search_spec(
                fs@,
                views(trusted@),
                all.skip(i as int),
                cmd@,
            ),
        decreases dirs.len() - i,
    {
        let dir = dirs[i].as_str();
        assert(all.skip(i as int).drop_first() =~= all.skip(i + 1));
        assert(all.skip(i as int)[0] == dir@);
        if is_absolute(dir) && !dir_world_writable(fs.meta_of(dir)) {
            let candidate = join(dir, cmd);
            if is_valid_candidate_exec(fs, &trusted, candidate.as_str()) {
                return fs.canonical_of(candidate.as_str());
            }
        }
        i = i + 1;
    }
    None
}

/// A command that was accepted for launch: the canonical path of the program and
/// the arguments to hand to it, word for word.
#[derive(Debug)]
pub struct ResolvedCommand {
    pub executable_path: String,
    pub arguments: Vec<String>,
}

impl View for ResolvedCommand {
    type V = (Seq<char>, Seq<Seq<char>>);

    open spec fn view(&self) -> (Seq<char>, Seq<Seq<char>>) {
        (self.executable_path@, views(self.arguments@))
    }
}

/// The explicit arguments of an entry; none when it gives no list.
pub open spec fn explicit_args_spec(args: Option<Vec<String>>) -> Seq<Seq<char>> {
    match args {
        Some(a) => views(a@),
        None => seq![],
    }
}

/// How an entry with command `cmd` and explicit arguments `explicit` is
/// launched. The command is resolved as it stands; only where that fails,
/// and the command holds two words or more, is its first word resolved
/// instead, the other words then coming before the explicit arguments.
pub open spec fn launch_spec(
    fs: Seq<FactsView>,
    env: Environment,
    cmd: Seq<char>,
    explicit: Seq<Seq<char>>,
) -> Option<(Seq<char>, Seq<Seq<char>>)> {
    match resolve_in(fs, env, cmd) {
        Some(p) => Some((p, explicit)),
        None => {
            let w = words_spec(cmd);
            if w.len() >= 2 {
                match resolve_in(fs, env, w[0]) {
                    Some(p) => Some((p, w.skip(1) + explicit)),
                    None => None,
                }
            } else {
                None
            }
        },
    }
}

fn copy_strings(src: &Vec<String>, dst: &mut Vec<String>, from: usize)
    requires
        from <= src@.len(),
    ensures
        views(final(dst)@) == views(old(dst)@) + views(src@).skip(from as int),
{
    let mut i: usize = from;
    while i < src.len()
        invariant
            from <= i <= src@.len(),
            views(dst@) == views(old(dst)@) + views(src@).subrange(from as int, i as int),
        decreases src.len() - i,
    {
        let ghost before = dst@;
        dst.push(src[i].clone());
        assert(views(dst@) =~= views(before).push(src@[i as int]@));
        assert(views(src@).subrange(from as int, i + 1) =~= views(src@).subrange(from as int, i as int).push(
            src@[i as int]@,
        ));
        i = i + 1;
    }
}

/// Resolves the entry `app` into the program to start and its arguments, or
/// refuses it.
pub fn resolve_app(app: &App, env: &Environment, fs: &FsSnapshot) -> (r: Option<ResolvedCommand>)
    ensures
        match r {
            Some(rc) => launch_spec(fs@, *env, app.cmd@, explicit_args_spec(app.args)) == Some(rc@),
            None => launch_spec(fs@, *env, app.cmd@, explicit_args_spec(app.args)) is None,
        },
{
    let mut arguments: Vec<String> = Vec::new();
    let executable_path = match resolve_command(app.cmd.as_str(), env, fs) {
        Some(p) => p,
        None => {
            let words = split_words(app.cmd.as_str());
            if words.len() < 2 {
                return None;
            }
            assert(views(words@)[0] == words@[0]@);
            match resolve_command(words[0].as_str(), env, fs) {
                Some(p) => {
                    copy_strings(&words, &mut arguments, 1);
                    p
                },
                None => return None,
            }
        },
    };
    match &app.args {
        Some(a) => copy_strings(a, &mut arguments, 0),
        None => {},
    }
    assert(views(arguments@) =~= match resolve_in(fs@, *env, app.cmd@) {
        Some(_) => explicit_args_spec(app.args),
        None => words_spec(app.cmd@).skip(1) + explicit_args_spec(app.args),
    });
    Some(ResolvedCommand { executable_path, arguments })
}

/// The paths whose facts resolving `cmd` consults: the trusted
/// directories, then `cmd` itself when absolute, or else every directory of
/// `PATH` followed by `cmd` inside each of them.
pub open spec fn probes_spec(env: Environment, cmd: Seq<char>) -> Seq<Seq<char>> {
    let trusted = trusted_directories_spec(opt_view(env.home));
    if is_absolute_spec(cmd) {
        trusted.push(cmd)
    } else {
        match opt_view(env.path) {
            Some(pv) => {
                let dirs = split_spec(pv, ':');
                trusted + dirs + dirs.map_values(|d: Seq<char>| join_spec(d, cmd))
            },
            None => trusted,
        }
    }
}

/// The paths whose facts launching an entry with command `cmd` consults:
/// those of the command, then those of its first word where it has two
/// words or more.
pub open spec fn launch_probes_spec(env: Environment, cmd: Seq<char>) -> Seq<Seq<char>> {
    let w = words_spec(cmd);
    if w.len() >= 2 {
        probes_spec(env, cmd) + probes_spec(env, w[0])
    } else {
        probes_spec(env, cmd)
    }
}

/// The paths that must be looked at on the file system before `cmd` can be
/// resolved in `env`.
pub fn probe_paths(cmd: &str, env: &Environment) -> (r: Vec<String>)
    ensures
        views(r@) == probes_spec(*env, cmd@),
{
    let mut r = trusted_directories(&env.home);
    if is_absolute(cmd) {
        let ghost before = r@;
        r.push(String::from_str(cmd));
        assert(views(r@) =~= views(before).push(cmd@));
        return r;
    }
    let path_var = match &env.path {
        Some(p) => p,
        None => return r,
    };
    let dirs = split_on(path_var.as_str(), ':');
    copy_strings(&dirs, &mut r, 0);
    assert(views(dirs@).skip(0) =~= views(dirs@));
    let ghost prefix = views(r@);
    let mut i: usize = 0;
    while i < dirs.len()
        invariant
            i <= dirs@.len(),
            views(r@) == prefix + views(dirs@).take(i as int).map_values(
                |d: Seq<char>| join_spec(d, cmd@),
            ),
        decreases dirs.len() - i,
    {
        let ghost before = r@;
        let candidate = join(dirs[i].as_str(), cmd);
        r.push(candidate);
        assert(views(r@) =~= views(before).push(candidate@));
        assert(views(dirs@).take(i + 1).map_values(|d: Seq<char>| join_spec(d, cmd@)) =~= views(
            dirs@,
        ).take(i as int).map_values(|d: Seq<char>| join_spec(d, cmd@)).push(
            join_spec(dirs@[i as int]@, cmd@),
        ));
        i = i + 1;
    }
    assert(views(dirs@).take(i as int) =~= views(dirs@));
    r
}

/// The paths that must be looked at on the file system before the entry
/// `app` can be resolved in `env`.
pub fn probe_paths_for_app(app: &App, env: &Environment) -> (r: Vec<String>)
    ensures
        views(r@) == launch_probes_spec(*env, app.cmd@),
{
    let mut r = probe_paths(app.cmd.as_str(), env);
    let words = split_words(app.cmd.as_str());
    if words.len() >= 2 {
        let more = probe_paths(words[0].as_str(), env);
        assert(views(words@)[0] == words@[0]@);
        copy_strings(&more, &mut r, 0);
        assert(views(more@).skip(0) =~= views(more@));
    }
    r
}

} // verus!
