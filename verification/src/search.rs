//! The search for `cli-templates.toml`: which paths are tried, in which
//! order, and what is answered.
use vstd::prelude::*;
use crate::candidates::{
    fallback_candidates_spec, is_set, lemma_windows_fallbacks, opt_view,
    platform_fallback_candidates, push_some, strings_view, FallbackEnv,
};
use crate::error::TemplatesError;
use crate::paths::{join_all_spec, join_path, join_spec, Platform};
use crate::probe::{probe_path, ProbeAnswer};

verus! {

/// The location of the file relative to a directory.
pub open spec fn relative_file() -> Seq<char> {
    "config/cli-templates.toml"@
}

/// Every path where the file is looked for when no override is given, in
/// order: beside the executable (when its directory is known), under the
/// development manifest directory, then the platform fallbacks.
pub open spec fn search_candidates_spec(
    exe_dir: Option<Seq<char>>,
    manifest_dir: Seq<char>,
    platform: Platform,
    env: FallbackEnv,
) -> Seq<Seq<char>> {
    push_some(
        Seq::empty(),
        match exe_dir {
            Some(d) => Some(join_spec(d, relative_file(), platform)),
            None => None,
        },
    ).push(join_spec(manifest_dir, relative_file(), platform)) + fallback_candidates_spec(
        platform,
        env,
    )
}

/// The index of the first `true` in `exists`, if any.
pub open spec fn first_hit(exists: Seq<bool>) -> Option<int>
    decreases exists.len(),
{
    if exists.len() == 0 {
        None
    } else {
        match first_hit(exists.drop_last()) {
            Some(i) => Some(i),
            None => if exists.last() {
                Some(exists.len() - 1)
            } else {
                None
            },
        }
    }
}

/// The first of `candidates` whose entry in `exists` is `true`; entries
/// beyond the end of `exists` count as absent.
pub open spec fn first_existing_spec(candidates: Seq<Seq<char>>, exists: Seq<bool>) -> Option<
    Seq<char>,
> {
    match first_hit(exists) {
        Some(i) => Some(candidates[i]),
        None => None,
    }
}

proof fn lemma_first_hit_push(exists: Seq<bool>, b: bool)
    ensures
        first_hit(exists.push(b)) == (match first_hit(exists) {
            Some(i) => Some(i),
            None => if b {
                Some(exists.len() as int)
            } else {
                None
            },
        }),
{
    assert(exists.push(b).drop_last() =~= exists);
}

proof fn lemma_first_hit_bounds(exists: Seq<bool>)
    ensures
        first_hit(exists) matches Some(i) ==> 0 <= i < exists.len() && exists[i] && forall|j: int|
            0 <= j < i ==> !exists[j],
        first_hit(exists) is None ==> forall|j: int| 0 <= j < exists.len() ==> !exists[j],
    decreases exists.len(),
{
    if exists.len() > 0 {
        lemma_first_hit_bounds(exists.drop_last());
        assert forall|j: int| 0 <= j < exists.len() - 1 implies exists[j] == exists.drop_last()[j] by {}
    }
}

/// The answers of a probe of `candidates`: the answer at position `j` is
/// about `candidates[j]`; every answer but the last reports nothing found;
/// the probe ends before the last candidate only on a find.
pub open spec fn probed(candidates: Seq<Seq<char>>, answers: Seq<ProbeAnswer>) -> bool {
    &&& answers.len() <= candidates.len()
    &&& forall|j: int| 0 <= j < answers.len() ==> (#[trigger] answers[j]).asked() == candidates[j]
    &&& forall|j: int| 0 <= j < answers.len() - 1 ==> !(#[trigger] answers[j]).was_found()
    &&& answers.len() < candidates.len() ==> answers.len() > 0 && answers.last().was_found()
}

/// Whether each answer found something.
pub open spec fn found_flags(answers: Seq<ProbeAnswer>) -> Seq<bool> {
    answers.map_values(|a: ProbeAnswer| a.was_found())
}

/// Asks the file system about `candidates` in order and stops at the first
/// where something exists; the answers are returned in order, each about
/// its candidate.
pub fn probe_candidates(candidates: &[String]) -> (answers: Vec<ProbeAnswer>)
    ensures
        probed(strings_view(candidates@), answers@),
{
    let ghost cands = strings_view(candidates@);
    let mut answers: Vec<ProbeAnswer> = Vec::new();
    let mut i: usize = 0;
    while i < candidates.len()
        invariant
            cands == strings_view(candidates@),
            i <= candidates@.len(),
            answers@.len() == i,
            forall|j: int| 0 <= j < i ==> (#[trigger] answers@[j]).asked() == cands[j],
            forall|j: int| 0 <= j < i ==> !(#[trigger] answers@[j]).was_found(),
        decreases candidates@.len() - i,
    {
        let answer = probe_path(candidates[i].as_str());
        let hit = answer.found();
        answers.push(answer);
        if hit {
            return answers;
        }
        i = i + 1;
    }
    answers
}

/// Whether each answer found something, in order.
pub fn answer_flags(answers: &[ProbeAnswer]) -> (flags: Vec<bool>)
    ensures
        flags@ == found_flags(answers@),
{
    let mut flags: Vec<bool> = Vec::new();
    for i in 0..answers.len()
        invariant
            flags@ == found_flags(answers@.take(i as int)),
    {
        flags.push(answers[i].found());
        assert(found_flags(answers@.take(i + 1)) =~= found_flags(answers@.take(i as int)).push(
            answers@[i as int].was_found(),
        ));
    }
    assert(answers@.take(answers@.len() as int) =~= answers@);
    flags
}

/// The first of `candidates` whose entry in `exists` is `true`.
pub fn first_existing(candidates: &[String], exists: &[bool]) -> (r: Option<String>)
    requires
        exists@.len() <= candidates@.len(),
    ensures
        opt_view(r) == first_existing_spec(strings_view(candidates@), exists@),
{
    let mut i: usize = 0;
    while i < exists.len()
        invariant
            i <= exists@.len(),
            exists@.len() <= candidates@.len(),
            first_hit(exists@.take(i as int)) is None,
        decreases exists@.len() - i,
    {
        proof {
            assert(exists@.take(i as int).push(exists@[i as int]) =~= exists@.take(i + 1));
            lemma_first_hit_push(exists@.take(i as int), exists@[i as int]);
        }
        if exists[i] {
            proof {
                lemma_first_hit_prefix(exists@, i as int + 1);
            }
            return Some(candidates[i].clone());
        }
        i = i + 1;
    }
    proof {
        assert(exists@.take(exists@.len() as int) =~= exists@);
    }
    None
}

proof fn lemma_first_hit_prefix(exists: Seq<bool>, n: int)
    requires
        0 <= n <= exists.len(),
        first_hit(exists.take(n)) is Some,
    ensures
        first_hit(exists) == first_hit(exists.take(n)),
    decreases exists.len() - n,
{
    if n < exists.len() {
        lemma_first_hit_push(exists.take(n), exists[n]);
        assert(exists.take(n).push(exists[n]) =~= exists.take(n + 1));
        lemma_first_hit_prefix(exists, n + 1);
    } else {
        assert(exists.take(n) =~= exists);
    }
}

/// The first of `candidates` that exists on disk, trying them in order,
/// together with the answers of the file system that decided it: each
/// candidate is asked about in turn until something is found, and the
/// candidate of the first find is returned; `None` when every candidate was
/// asked about and none was found.
pub fn find_first_existing_probed(candidates: &[String]) -> (r: (Option<String>, Vec<ProbeAnswer>))
    ensures
        probed(strings_view(candidates@), r.1@),
        opt_view(r.0) == first_existing_spec(strings_view(candidates@), found_flags(r.1@)),
{
    let answers = probe_candidates(candidates);
    let flags = answer_flags(answers.as_slice());
    let found = first_existing(candidates, flags.as_slice());
    (found, answers)
}

/// The first of `candidates` that exists on disk, trying them in order:
/// the file system is asked about each candidate in turn until something
/// is found, and the candidate of the first find is returned; `None` when
/// every candidate was asked about and none was found.
pub fn find_first_existing(candidates: &[String]) -> (r: Option<String>)
    ensures
        exists|answers: Seq<ProbeAnswer>|
            #[trigger] probed(strings_view(candidates@), answers) && opt_view(r)
                == first_existing_spec(strings_view(candidates@), found_flags(answers)),
        r matches Some(p) ==> strings_view(candidates@).contains(p@),
{
    let (r, answers) = find_first_existing_probed(candidates);
    proof {
        let flags = found_flags(answers@);
        lemma_first_hit_bounds(flags);
        if r is Some {
            let i = first_hit(flags)->0;
            assert(strings_view(candidates@)[i] == r->0@);
        }
        assert(probed(strings_view(candidates@), answers@));
    }
    r
}

/// Every path where the file is looked for when no override is given.
pub fn template_search_candidates(
    exe_dir: &Option<String>,
    manifest_dir: &str,
    platform: Platform,
    env: &FallbackEnv,
) -> (out: Vec<String>)
    ensures
        strings_view(out@) == search_candidates_spec(opt_view(*exe_dir), manifest_dir@, platform, *env),
{
    let mut out: Vec<String> = Vec::new();
    if let Some(d) = exe_dir {
        out.push(join_path(d.as_str(), "config/cli-templates.toml", platform));
    }
    out.push(join_path(manifest_dir, "config/cli-templates.toml", platform));
    let ghost head = strings_view(out@);
    assert(head =~= push_some(
        Seq::empty(),
        match opt_view(*exe_dir) {
            Some(d) => Some(join_spec(d, relative_file(), platform)),
            None => None,
        },
    ).push(join_spec(manifest_dir@, relative_file(), platform)));
    let mut fallback = platform_fallback_candidates(platform, env);
    let ghost tail = strings_view(fallback@);
    out.append(&mut fallback);
    assert(strings_view(out@) =~= head + tail);
    out
}

/// The answer to a search over `candidates` whose existence on disk is
/// `exists`: the first that exists, or an error listing every candidate.
pub fn select_templates_path(candidates: Vec<String>, exists: &[bool]) -> (r: Result<
    String,
    TemplatesError,
>)
    requires
        exists@.len() <= candidates@.len(),
    ensures
        match r {
            Ok(p) => first_existing_spec(strings_view(candidates@), exists@) == Some(p@),
            Err(e) => first_existing_spec(strings_view(candidates@), exists@) is None
                && e.searched_view() == strings_view(candidates@),
        },
{
    match first_existing(candidates.as_slice(), exists) {
        Some(p) => Ok(p),
        None => Err(TemplatesError::NotFound { searched: candidates }),
    }
}

/// Where `cli-templates.toml` is read from, together with the answers of the
/// file system that decided it. An override (the value of
/// `DISPATCH_AGENT_TEMPLATES`) is taken as it stands, whether or not a file
/// is there, and nothing is asked. Otherwise the file system is asked about
/// the candidates in order and the first where something is found is
/// answered; when nothing is found at any of them, the error lists all of
/// them.
pub fn resolve_templates_path_probed(
    override_path: Option<String>,
    exe_dir: &Option<String>,
    manifest_dir: &str,
    platform: Platform,
    env: &FallbackEnv,
) -> (r: (Result<String, TemplatesError>, Vec<ProbeAnswer>))
    ensures
        override_path matches Some(o) ==> r.0 matches Ok(p) && p@ == o@ && r.1@.len() == 0,
        override_path is None ==> {
            let chain = search_candidates_spec(opt_view(*exe_dir), manifest_dir@, platform, *env);
            &&& probed(chain, r.1@)
            &&& match r.0 {
                Ok(p) => first_existing_spec(chain, found_flags(r.1@)) == Some(p@),
                Err(e) => first_existing_spec(chain, found_flags(r.1@)) is None && e.searched_view()
                    == chain,
            }
        },
{
    if let Some(o) = override_path {
        return (Ok(o), Vec::new());
    }
    let candidates = template_search_candidates(exe_dir, manifest_dir, platform, env);
    let answers = probe_candidates(candidates.as_slice());
    let flags = answer_flags(answers.as_slice());
    let r = select_templates_path(candidates, flags.as_slice());
    (r, answers)
}

/// Where `cli-templates.toml` is read from. An override (the value of
/// `DISPATCH_AGENT_TEMPLATES`) is taken as it stands, whether or not a file
/// is there. Otherwise the file system is asked about the candidates in
/// order and the first where something is found is answered; when nothing is
/// found at any of them, the error lists all of them.
pub fn resolve_templates_path(
    override_path: Option<String>,
    exe_dir: &Option<String>,
    manifest_dir: &str,
    platform: Platform,
    env: &FallbackEnv,
) -> (r: Result<String, TemplatesError>)
    ensures
        override_path matches Some(o) ==> r matches Ok(p) && p@ == o@,
        override_path is None ==> exists|answers: Seq<ProbeAnswer>|
            #[trigger] probed(
                search_candidates_spec(opt_view(*exe_dir), manifest_dir@, platform, *env),
                answers,
            ) && match r {
                Ok(p) => first_existing_spec(
                    search_candidates_spec(opt_view(*exe_dir), manifest_dir@, platform, *env),
                    found_flags(answers),
                ) == Some(p@),
                Err(e) => first_existing_spec(
                    search_candidates_spec(opt_view(*exe_dir), manifest_dir@, platform, *env),
                    found_flags(answers),
                ) is None && e.searched_view() == search_candidates_spec(
                    opt_view(*exe_dir),
                    manifest_dir@,
                    platform,
                    *env,
                ),
            },
        override_path is None ==> match r {
            Ok(p) => search_candidates_spec(opt_view(*exe_dir), manifest_dir@, platform, *env).contains(p@),
            Err(e) => e.searched_view() == search_candidates_spec(
                opt_view(*exe_dir),
                manifest_dir@,
                platform,
                *env,
            ),
        },
{
    let ghost was_override = override_path is Some;
    let (r, answers) = resolve_templates_path_probed(override_path, exe_dir, manifest_dir, platform, env);
    proof {
        if !was_override {
            let chain = search_candidates_spec(opt_view(*exe_dir), manifest_dir@, platform, *env);
            let flags = found_flags(answers@);
            lemma_first_hit_bounds(flags);
            if r is Ok {
                let i = first_hit(flags)->0;
                assert(chain[i] == r->Ok_0@);
            }
            assert(probed(chain, answers@));
        }
    }
    r
}

/// The outcome of a probe: a chosen candidate was found and nothing was
/// found at any candidate before it; when none is chosen, every candidate
/// was asked about and nothing was found at any of them.
pub proof fn lemma_probe_outcome(candidates: Seq<Seq<char>>, answers: Seq<ProbeAnswer>)
    requires
        probed(candidates, answers),
    ensures
        first_existing_spec(candidates, found_flags(answers)) matches Some(p) ==> exists|i: int|
            0 <= i < answers.len() && (#[trigger] answers[i]).was_found() && answers[i].asked() == p
                && candidates[i] == p && forall|j: int| 0 <= j < i ==> !answers[j].was_found(),
        first_existing_spec(candidates, found_flags(answers)) is None ==> answers.len()
            == candidates.len() && forall|j: int|
            0 <= j < answers.len() ==> #[trigger] answers[j].asked() == candidates[j]
                && !answers[j].was_found(),
{
    let flags = found_flags(answers);
    lemma_first_hit_bounds(flags);
    if first_hit(flags) is Some {
        let i = first_hit(flags)->0;
        assert(flags[i] == answers[i].was_found());
        assert forall|j: int| 0 <= j < i implies !answers[j].was_found() by {
            assert(flags[j] == answers[j].was_found());
        }
    } else {
        assert forall|j: int| 0 <= j < answers.len() implies !answers[j].was_found() by {
            assert(flags[j] == answers[j].was_found());
        }
        if answers.len() < candidates.len() {
            assert(flags[answers.len() - 1] == answers.last().was_found());
        }
    }
}

/// The chosen candidate is the earliest one reported to exist: every
/// candidate before it was reported absent. When none is chosen, every
/// candidate asked about was reported absent.
pub proof fn lemma_first_existing_is_earliest(candidates: Seq<Seq<char>>, exists: Seq<bool>)
    requires
        exists.len() <= candidates.len(),
    ensures
        first_existing_spec(candidates, exists) matches Some(p) ==> exists|i: int|
            0 <= i < exists.len() && #[trigger] exists[i] && candidates[i] == p && forall|j: int|
                0 <= j < i ==> !exists[j],
        first_existing_spec(candidates, exists) is None ==> forall|j: int|
            0 <= j < exists.len() ==> !exists[j],
{
    lemma_first_hit_bounds(exists);
    if first_hit(exists) is Some {
        let i = first_hit(exists)->0;
        assert(exists[i]);
    }
}

/// The search order: the file beside the executable (when its directory is
/// known), then the one under the manifest directory, then exactly the
/// platform fallback locations in their own order, and nothing else.
pub proof fn lemma_search_order(
    exe_dir: Option<Seq<char>>,
    manifest_dir: Seq<char>,
    platform: Platform,
    env: FallbackEnv,
)
    ensures
        ({
            let c = search_candidates_spec(exe_dir, manifest_dir, platform, env);
            let f = fallback_candidates_spec(platform, env);
            let k: int = if exe_dir is Some {
                1
            } else {
                0
            };
            &&& c.len() == k + 1 + f.len()
            &&& exe_dir matches Some(d) ==> c[0] == join_spec(
                d,
                "config/cli-templates.toml"@,
                platform,
            )
            &&& c[k] == join_spec(manifest_dir, "config/cli-templates.toml"@, platform)
            &&& forall|i: int| 0 <= i < f.len() ==> c[k + 1 + i] == #[trigger] f[i]
        }),
{
    let c = search_candidates_spec(exe_dir, manifest_dir, platform, env);
    let f = fallback_candidates_spec(platform, env);
    let k: int = if exe_dir is Some {
        1
    } else {
        0
    };
    let head = push_some(
        Seq::empty(),
        match exe_dir {
            Some(d) => Some(join_spec(d, relative_file(), platform)),
            None => None,
        },
    ).push(join_spec(manifest_dir, relative_file(), platform));
    assert(head.len() == k + 1);
    assert(c == head + f);
    assert forall|i: int| 0 <= i < f.len() implies c[k + 1 + i] == #[trigger] f[i] by {
        assert(c[head.len() + i] == f[i]);
    }
}

/// On Windows the wenget install under `%USERPROFILE%` is searched whenever
/// `USERPROFILE` is set and not empty, after the executable and manifest
/// locations.
pub proof fn lemma_windows_profile_install_searched(
    exe_dir: Option<Seq<char>>,
    manifest_dir: Seq<char>,
    env: FallbackEnv,
)
    requires
        is_set(env.user_profile),
    ensures
        ({
            let c = search_candidates_spec(exe_dir, manifest_dir, Platform::Windows, env);
            let k: int = if exe_dir is Some {
                1
            } else {
                0
            };
            c[k + 1] == join_all_spec(
                env.user_profile->0@,
                seq![".wenget"@, "apps"@, "dispatch-agent"@, "config"@, "cli-templates.toml"@],
                Platform::Windows,
            )
        }),
{
    lemma_search_order(exe_dir, manifest_dir, Platform::Windows, env);
    lemma_windows_fallbacks(env);
    let f = fallback_candidates_spec(Platform::Windows, env);
    assert(f.len() > 0);
    let k: int = if exe_dir is Some {
        1
    } else {
        0
    };
    let c = search_candidates_spec(exe_dir, manifest_dir, Platform::Windows, env);
    assert(c[k + 1 + 0] == f[0]);
}

} // verus!
