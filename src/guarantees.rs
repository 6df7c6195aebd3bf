use vstd::prelude::*;

use crate::launcher::{
    dir_world_writable_spec, is_searchable_dir, is_valid_candidate, launch_probes_spec, launch_spec,
    probes_spec, resolve_in, search_spec, trusted_directories_spec, within_trusted, Environment,
};
use crate::paths::{is_absolute_spec, is_proper_ancestor_spec, join_spec};
use crate::snapshot::{canonical_of, find, meta_of, opt_view, FactsView};
use crate::text::{split_spec, words_spec};

verus! {

/// Searching `dirs` yields the hit of the first searchable directory that
/// holds a valid candidate.
proof fn lemma_search_first_hit(
    fs: Seq<FactsView>,
    trusted: Seq<Seq<char>>,
    dirs: Seq<Seq<char>>,
    cmd: Seq<char>,
    i: int,
)
    requires
        0 <= i < dirs.len(),
        is_searchable_dir(fs, dirs[i]),
        is_valid_candidate(fs, trusted, join_spec(dirs[i], cmd)),
        forall|j: int|
            0 <= j < i ==> !(is_searchable_dir(fs, #[trigger] dirs[j]) && is_valid_candidate(
                fs,
                trusted,
                join_spec(dirs[j], cmd),
            )),
    ensures
        search_spec(fs, trusted, dirs, cmd) == canonical_of(fs, join_spec(dirs[i], cmd)),
    decreases i,
{
    if i > 0 {
        assert(!(is_searchable_dir(fs, dirs[0]) && is_valid_candidate(fs, trusted, join_spec(dirs[0], cmd))));
        let rest = dirs.drop_first();
        assert forall|j: int| 0 <= j < i - 1 implies !(is_searchable_dir(fs, #[trigger] rest[j])
            && is_valid_candidate(fs, trusted, join_spec(rest[j], cmd))) by {
            assert(rest[j] == dirs[j + 1]);
        }
        lemma_search_first_hit(fs, trusted, rest, cmd, i - 1);
    }
}

/// A search returns only the hit of a searchable directory.
proof fn lemma_search_hit_origin(
    fs: Seq<FactsView>,
    trusted: Seq<Seq<char>>,
    dirs: Seq<Seq<char>>,
    cmd: Seq<char>,
)
    ensures
        search_spec(fs, trusted, dirs, cmd) is Some ==> exists|i: int|
            0 <= i < dirs.len() && is_searchable_dir(fs, #[trigger] dirs[i]) && is_valid_candidate(
                fs,
                trusted,
                join_spec(dirs[i], cmd),
            ) && search_spec(fs, trusted, dirs, cmd) == canonical_of(fs, join_spec(dirs[i], cmd)),
    decreases dirs.len(),
{
    if dirs.len() > 0 {
        let rest = dirs.drop_first();
        lemma_search_hit_origin(fs, trusted, rest, cmd);
        if is_searchable_dir(fs, dirs[0]) && is_valid_candidate(fs, trusted, join_spec(dirs[0], cmd)) {
            assert(is_searchable_dir(fs, dirs[0]));
        } else if search_spec(fs, trusted, dirs, cmd) is Some {
            let i = choose|i: int|
                0 <= i < rest.len() && is_searchable_dir(fs, #[trigger] rest[i])
                    && is_valid_candidate(fs, trusted, join_spec(rest[i], cmd)) && search_spec(
                    fs,
                    trusted,
                    rest,
                    cmd,
                ) == canonical_of(fs, join_spec(rest[i], cmd));
            assert(dirs[i + 1] == rest[i]);
        }
    }
}

/// Whatever `resolve` returns is the canonical form of a valid candidate
/// that `cmd` names: `cmd` itself when absolute, else `cmd` inside a
/// searchable directory of `PATH`.
proof fn lemma_resolved_is_valid_candidate(fs: Seq<FactsView>, env: Environment, cmd: Seq<char>)
    ensures
        resolve_in(fs, env, cmd) is Some ==> exists|q: Seq<char>|
            #[trigger] is_valid_candidate(fs, trusted_directories_spec(opt_view(env.home)), q)
                && canonical_of(fs, q) == resolve_in(fs, env, cmd),
{
    let trusted = trusted_directories_spec(opt_view(env.home));
    if !is_absolute_spec(cmd) && opt_view(env.path) is Some {
        let dirs = split_spec(opt_view(env.path)->0, ':');
        lemma_search_hit_origin(fs, trusted, dirs, cmd);
        if resolve_in(fs, env, cmd) is Some {
            let i = choose|i: int|
                0 <= i < dirs.len() && is_searchable_dir(fs, #[trigger] dirs[i])
                    && is_valid_candidate(fs, trusted, join_spec(dirs[i], cmd)) && search_spec(
                    fs,
                    trusted,
                    dirs,
                    cmd,
                ) == canonical_of(fs, join_spec(dirs[i], cmd));
            assert(is_valid_candidate(fs, trusted, join_spec(dirs[i], cmd)));
        }
    } else if resolve_in(fs, env, cmd) is Some {
        assert(is_valid_candidate(fs, trusted, cmd));
    }
}

/// An absolute path whose canonical form lies below no trusted directory is
/// refused, whatever its permissions.
pub proof fn lemma_absolute_outside_allowlist_refused(fs: Seq<FactsView>, env: Environment, p: Seq<char>)
    requires
        is_absolute_spec(p),
        canonical_of(fs, p) is Some ==> !within_trusted(
            fs,
            trusted_directories_spec(opt_view(env.home)),
            canonical_of(fs, p)->0,
        ),
    ensures
        resolve_in(fs, env, p) is None,
{
}

/// A bare name found as a valid candidate in a searchable `PATH` directory
/// resolves to the canonical form of that file, provided no earlier
/// directory of `PATH` already holds a valid candidate of that name.
pub proof fn lemma_path_hit_resolves(fs: Seq<FactsView>, env: Environment, n: Seq<char>, i: int)
    requires
        !is_absolute_spec(n),
        env.path is Some,
        0 <= i < split_spec(env.path->0@, ':').len(),
        is_searchable_dir(fs, split_spec(env.path->0@, ':')[i]),
        is_valid_candidate(
            fs,
            trusted_directories_spec(opt_view(env.home)),
            join_spec(split_spec(env.path->0@, ':')[i], n),
        ),
        forall|j: int|
            0 <= j < i ==> !(is_searchable_dir(fs, #[trigger] split_spec(env.path->0@, ':')[j])
                && is_valid_candidate(
                fs,
                trusted_directories_spec(opt_view(env.home)),
                join_spec(split_spec(env.path->0@, ':')[j], n),
            )),
    ensures
        resolve_in(fs, env, n) == canonical_of(fs, join_spec(split_spec(env.path->0@, ':')[i], n)),
        resolve_in(fs, env, n) is Some,
{
    lemma_search_first_hit(
        fs,
        trusted_directories_spec(opt_view(env.home)),
        split_spec(env.path->0@, ':'),
        n,
        i,
    );
}

/// A bare name whose only valid candidates sit in `PATH` directories that
/// others than their owner may write to is refused altogether: none of
/// those candidates is ever used.
pub proof fn lemma_writable_dirs_never_used(fs: Seq<FactsView>, env: Environment, n: Seq<char>)
    requires
        !is_absolute_spec(n),
        env.path is Some,
        forall|i: int|
            0 <= i < split_spec(env.path->0@, ':').len() && is_valid_candidate(
                fs,
                trusted_directories_spec(opt_view(env.home)),
                join_spec(#[trigger] split_spec(env.path->0@, ':')[i], n),
            ) ==> dir_world_writable_spec(meta_of(fs, split_spec(env.path->0@, ':')[i])),
    ensures
        resolve_in(fs, env, n) is None,
{
    let dirs = split_spec(env.path->0@, ':');
    lemma_search_hit_origin(fs, trusted_directories_spec(opt_view(env.home)), dirs, n);
}

/// Every resolved path lies, in canonical form, below a trusted directory.
pub proof fn lemma_resolved_within_trusted(fs: Seq<FactsView>, env: Environment, cmd: Seq<char>)
    ensures
        resolve_in(fs, env, cmd) is Some ==> within_trusted(
            fs,
            trusted_directories_spec(opt_view(env.home)),
            resolve_in(fs, env, cmd)->0,
        ),
{
    lemma_resolved_is_valid_candidate(fs, env, cmd);
}

/// A link whose target lies outside every trusted directory is refused, and
/// no command, however named, resolves to that target.
pub proof fn lemma_escaping_link_refused(
    fs: Seq<FactsView>,
    env: Environment,
    link: Seq<char>,
    target: Seq<char>,
)
    requires
        is_absolute_spec(link),
        canonical_of(fs, link) == Some(target),
        !within_trusted(fs, trusted_directories_spec(opt_view(env.home)), target),
    ensures
        resolve_in(fs, env, link) is None,
        forall|cmd: Seq<char>| #[trigger] resolve_in(fs, env, cmd) != Some(target),
{
    assert forall|cmd: Seq<char>| #[trigger] resolve_in(fs, env, cmd) != Some(target) by {
        lemma_resolved_within_trusted(fs, env, cmd);
    }
}

/// Two resolutions of the same command against the same file system and
/// environment give the same result.
pub proof fn lemma_resolve_repeatable(
    fs: Seq<FactsView>,
    env: Environment,
    cmd: Seq<char>,
    first: Option<String>,
    second: Option<String>,
)
    requires
        opt_view(first) == resolve_in(fs, env, cmd),
        opt_view(second) == resolve_in(fs, env, cmd),
    ensures
        opt_view(first) == opt_view(second),
{
}


/// The two records of the file system give the same facts for every path
/// of `paths`.
pub open spec fn agree_on(fs1: Seq<FactsView>, fs2: Seq<FactsView>, paths: Seq<Seq<char>>) -> bool {
    forall|q: Seq<char>| #[trigger] paths.contains(q) ==> find(fs1, q) == find(fs2, q)
}

proof fn lemma_agree_on_parts(
    fs1: Seq<FactsView>,
    fs2: Seq<FactsView>,
    a: Seq<Seq<char>>,
    b: Seq<Seq<char>>,
)
    requires
        agree_on(fs1, fs2, a + b),
    ensures
        agree_on(fs1, fs2, a),
        agree_on(fs1, fs2, b),
{
    assert forall|q: Seq<char>| #[trigger] a.contains(q) implies find(fs1, q) == find(fs2, q) by {
        let i = choose|i: int| 0 <= i < a.len() && a[i] == q;
        assert((a + b)[i] == q);
        assert((a + b).contains(q));
    }
    assert forall|q: Seq<char>| #[trigger] b.contains(q) implies find(fs1, q) == find(fs2, q) by {
        let i = choose|i: int| 0 <= i < b.len() && b[i] == q;
        assert((a + b)[a.len() + i] == q);
        assert((a + b).contains(q));
    }
}

proof fn lemma_candidate_frame(
    fs1: Seq<FactsView>,
    fs2: Seq<FactsView>,
    trusted: Seq<Seq<char>>,
    q: Seq<char>,
)
    requires
        agree_on(fs1, fs2, trusted),
        find(fs1, q) == find(fs2, q),
    ensures
        is_valid_candidate(fs1, trusted, q) == is_valid_candidate(fs2, trusted, q),
{
    assert forall|k: int| 0 <= k < trusted.len() implies canonical_of(fs1, #[trigger] trusted[k])
        == canonical_of(fs2, trusted[k]) by {
        assert(trusted.contains(trusted[k]));
    }
    if canonical_of(fs1, q) is Some {
        let c = canonical_of(fs1, q)->0;
        if within_trusted(fs1, trusted, c) {
            let k = choose|k: int|
                0 <= k < trusted.len() && #[trigger] canonical_of(fs1, trusted[k]) is Some
                    && is_proper_ancestor_spec(canonical_of(fs1, trusted[k])->0, c);
            assert(canonical_of(fs2, trusted[k]) is Some);
        }
        if within_trusted(fs2, trusted, c) {
            let k = choose|k: int|
                0 <= k < trusted.len() && #[trigger] canonical_of(fs2, trusted[k]) is Some
                    && is_proper_ancestor_spec(canonical_of(fs2, trusted[k])->0, c);
            assert(canonical_of(fs1, trusted[k]) is Some);
        }
    }
}

proof fn lemma_search_frame(
    fs1: Seq<FactsView>,
    fs2: Seq<FactsView>,
    trusted: Seq<Seq<char>>,
    dirs: Seq<Seq<char>>,
    cmd: Seq<char>,
)
    requires
        agree_on(fs1, fs2, trusted),
        agree_on(fs1, fs2, dirs),
        agree_on(fs1, fs2, dirs.map_values(|d: Seq<char>| join_spec(d, cmd))),
    ensures
        search_spec(fs1, trusted, dirs, cmd) == search_spec(fs2, trusted, dirs, cmd),
    decreases dirs.len(),
{
    if dirs.len() > 0 {
        let joined = dirs.map_values(|d: Seq<char>| join_spec(d, cmd));
        assert(dirs.contains(dirs[0]));
        assert(joined[0] == join_spec(dirs[0], cmd));
        assert(joined.contains(joined[0]));
        lemma_candidate_frame(fs1, fs2, trusted, join_spec(dirs[0], cmd));
        let rest = dirs.drop_first();
        assert(dirs =~= seq![dirs[0]] + rest);
        lemma_agree_on_parts(fs1, fs2, seq![dirs[0]], rest);
        assert(joined =~= seq![joined[0]] + rest.map_values(|d: Seq<char>| join_spec(d, cmd)));
        lemma_agree_on_parts(fs1, fs2, seq![joined[0]], rest.map_values(|d: Seq<char>| join_spec(d, cmd)));
        lemma_search_frame(fs1, fs2, trusted, rest, cmd);
    }
}

/// Resolving `cmd` depends only on the facts of the paths that
/// `probe_paths` lists: two records of the file system that agree on those
/// give the same result.
pub proof fn lemma_probes_suffice(fs1: Seq<FactsView>, fs2: Seq<FactsView>, env: Environment, cmd: Seq<char>)
    requires
        agree_on(fs1, fs2, probes_spec(env, cmd)),
    ensures
        resolve_in(fs1, env, cmd) == resolve_in(fs2, env, cmd),
{
    let trusted = trusted_directories_spec(opt_view(env.home));
    if is_absolute_spec(cmd) {
        assert(trusted.push(cmd) =~= trusted + seq![cmd]);
        lemma_agree_on_parts(fs1, fs2, trusted, seq![cmd]);
        assert(seq![cmd][0] == cmd);
        assert(seq![cmd].contains(cmd));
        lemma_candidate_frame(fs1, fs2, trusted, cmd);
    } else if opt_view(env.path) is Some {
        let dirs = split_spec(opt_view(env.path)->0, ':');
        let joined = dirs.map_values(|d: Seq<char>| join_spec(d, cmd));
        lemma_agree_on_parts(fs1, fs2, trusted + dirs, joined);
        lemma_agree_on_parts(fs1, fs2, trusted, dirs);
        lemma_search_frame(fs1, fs2, trusted, dirs, cmd);
    }
}

/// Launching an entry depends only on the facts of the paths that
/// `probe_paths_for_app` lists.
pub proof fn lemma_launch_probes_suffice(
    fs1: Seq<FactsView>,
    fs2: Seq<FactsView>,
    env: Environment,
    cmd: Seq<char>,
    explicit: Seq<Seq<char>>,
)
    requires
        agree_on(fs1, fs2, launch_probes_spec(env, cmd)),
    ensures
        launch_spec(fs1, env, cmd, explicit) == launch_spec(fs2, env, cmd, explicit),
{
    let w = words_spec(cmd);
    if w.len() >= 2 {
        lemma_agree_on_parts(fs1, fs2, probes_spec(env, cmd), probes_spec(env, w[0]));
        lemma_probes_suffice(fs1, fs2, env, w[0]);
    }
    lemma_probes_suffice(fs1, fs2, env, cmd);
}

} // verus!
