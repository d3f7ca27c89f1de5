//! The places where `cli-templates.toml` is looked for.
use vstd::prelude::*;
use crate::paths::{
    ends_with, is_bare_drive, is_plain_name, is_verbatim, join_all_spec, join_spec,
    lemma_join_all_concat, lemma_push_plain_after_tail, lemma_push_plain_name, push_segment,
    separator, str_views, Platform,
};

verus! {

/// The text of an optional string.
pub open spec fn opt_view(o: Option<String>) -> Option<Seq<char>> {
    match o {
        Some(s) => Some(s@),
        None => None,
    }
}

/// The texts of a sequence of strings.
pub open spec fn strings_view(v: Seq<String>) -> Seq<Seq<char>> {
    v.map_values(|s: String| s@)
}

/// `s` with `o` appended when there is one.
pub open spec fn push_some(s: Seq<Seq<char>>, o: Option<Seq<char>>) -> Seq<Seq<char>> {
    match o {
        Some(x) => s.push(x),
        None => s,
    }
}

/// The path built from the value of an environment variable: none when the
/// variable is unset or empty, otherwise its value extended by `segments`.
pub open spec fn candidate_spec(
    value: Option<Seq<char>>,
    segments: Seq<Seq<char>>,
    platform: Platform,
) -> Option<Seq<char>> {
    match value {
        Some(v) => if v.len() > 0 {
            Some(join_all_spec(v, segments, platform))
        } else {
            None
        },
        None => None,
    }
}

/// The values of the environment variables that the fallback locations are
/// built from; `None` stands for a variable that is unset.
pub struct FallbackEnv {
    /// `HOME` (Unix).
    pub home: Option<String>,
    /// `USERPROFILE` (Windows).
    pub user_profile: Option<String>,
    /// `LOCALAPPDATA` (Windows).
    pub local_app_data: Option<String>,
    /// `ProgramW6432` (Windows).
    pub program_w6432: Option<String>,
    /// `ProgramFiles` (Windows).
    pub program_files: Option<String>,
}

/// The relative segments under `$HOME` of the wenget install.
pub open spec fn home_wenget_segments() -> Seq<Seq<char>> {
    seq![".wenget"@, "apps"@, "dispatch-agent"@, "config"@, "cli-templates.toml"@]
}

/// The relative segments under `$HOME` of the `~/.local/bin` install.
pub open spec fn home_local_segments() -> Seq<Seq<char>> {
    seq![".local"@, "bin"@, "config"@, "cli-templates.toml"@]
}

/// The fixed wenget location on Unix.
pub open spec fn opt_wenget_path() -> Seq<char> {
    "/opt/wenget/apps/dispatch-agent/config/cli-templates.toml"@
}

/// The fixed `/usr/local/bin` location on Unix.
pub open spec fn usr_local_path() -> Seq<char> {
    "/usr/local/bin/config/cli-templates.toml"@
}

/// The relative segments under `%USERPROFILE%`.
pub open spec fn user_profile_segments() -> Seq<Seq<char>> {
    seq![".wenget"@, "apps"@, "dispatch-agent"@, "config"@, "cli-templates.toml"@]
}

/// The relative segments under `%LOCALAPPDATA%`.
pub open spec fn local_app_data_segments() -> Seq<Seq<char>> {
    seq!["Programs"@, "dispatch-agent"@, "config"@, "cli-templates.toml"@]
}

/// The relative segments under `%ProgramW6432%`.
pub open spec fn program_w6432_segments() -> Seq<Seq<char>> {
    seq!["wenget"@, "app"@, "dispatch-agent"@, "config"@, "cli-templates.toml"@]
}

/// The relative segments under `%ProgramFiles%`.
pub open spec fn program_files_segments() -> Seq<Seq<char>> {
    seq!["gpinstall"@, "config"@, "cli-templates.toml"@]
}

/// The platform-specific locations, in the order they are tried.
pub open spec fn fallback_candidates_spec(platform: Platform, env: FallbackEnv) -> Seq<Seq<char>> {
    match platform {
        Platform::Unix => push_some(
            push_some(
                Seq::empty(),
                candidate_spec(opt_view(env.home), home_wenget_segments(), platform),
            ),
            candidate_spec(opt_view(env.home), home_local_segments(), platform),
        ) + seq![opt_wenget_path(), usr_local_path()],
        Platform::Windows => push_some(
            push_some(
                push_some(
                    push_some(
                        Seq::empty(),
                        candidate_spec(opt_view(env.user_profile), user_profile_segments(), platform),
                    ),
                    candidate_spec(
                        opt_view(env.local_app_data),
                        local_app_data_segments(),
                        platform,
                    ),
                ),
                candidate_spec(opt_view(env.program_w6432), program_w6432_segments(), platform),
            ),
            candidate_spec(opt_view(env.program_files), program_files_segments(), platform),
        ),
        Platform::Other => Seq::empty(),
    }
}

/// The path under the directory held by an environment variable: `None` when
/// the variable (whose value is `value`) is unset or empty, otherwise its value
/// extended by each segment of `suffix` in turn.
pub fn candidate_from_env(value: &Option<String>, suffix: &[&str], platform: Platform) -> (c:
    Option<String>)
    ensures
        opt_view(c) == candidate_spec(opt_view(*value), str_views(suffix@), platform),
{
    match value {
        None => None,
        Some(base) => {
            if base.as_str().unicode_len() == 0 {
                return None;
            }
            let mut p = base.clone();
            let ghost segs = str_views(suffix@);
            for i in 0..suffix.len()
                invariant
                    segs == str_views(suffix@),
                    p@ == join_all_spec(base@, segs.take(i as int), platform),
            {
                proof {
                    assert(segs.take(i + 1).drop_last() =~= segs.take(i as int));
                }
                push_segment(&mut p, suffix[i], platform);
            }
            proof {
                assert(segs.take(suffix@.len() as int) =~= segs);
            }
            Some(p)
        },
    }
}

fn push_candidate(out: &mut Vec<String>, c: Option<String>)
    ensures
        strings_view(final(out)@) == push_some(strings_view(old(out)@), opt_view(c)),
{
    if let Some(p) = c {
        out.push(p);
        proof {
            assert(strings_view(out@) =~= strings_view(old(out)@).push(p@));
        }
    }
}

/// The platform-specific fallback locations of `cli-templates.toml`, in the
/// order they are tried. A location built from an environment variable is
/// left out when the variable is unset or empty.
pub fn platform_fallback_candidates(platform: Platform, env: &FallbackEnv) -> (out: Vec<String>)
    ensures
        strings_view(out@) == fallback_candidates_spec(platform, *env),
{
    let mut out: Vec<String> = Vec::new();
    match platform {
        Platform::Unix => {
            let a = [".wenget", "apps", "dispatch-agent", "config", "cli-templates.toml"];
            assert(str_views(a@) =~= home_wenget_segments());
            push_candidate(&mut out, candidate_from_env(&env.home, &a, platform));
            let b = [".local", "bin", "config", "cli-templates.toml"];
            assert(str_views(b@) =~= home_local_segments());
            push_candidate(&mut out, candidate_from_env(&env.home, &b, platform));
            let ghost before = strings_view(out@);
            out.push("/opt/wenget/apps/dispatch-agent/config/cli-templates.toml".to_owned());
            out.push("/usr/local/bin/config/cli-templates.toml".to_owned());
            assert(strings_view(out@) =~= before + seq![opt_wenget_path(), usr_local_path()]);
        },
        Platform::Windows => {
            let a = [".wenget", "apps", "dispatch-agent", "config", "cli-templates.toml"];
            assert(str_views(a@) =~= user_profile_segments());
            push_candidate(&mut out, candidate_from_env(&env.user_profile, &a, platform));
            let b = ["Programs", "dispatch-agent", "config", "cli-templates.toml"];
            assert(str_views(b@) =~= local_app_data_segments());
            push_candidate(&mut out, candidate_from_env(&env.local_app_data, &b, platform));
            let c = ["wenget", "app", "dispatch-agent", "config", "cli-templates.toml"];
            assert(str_views(c@) =~= program_w6432_segments());
            push_candidate(&mut out, candidate_from_env(&env.program_w6432, &c, platform));
            let d = ["gpinstall", "config", "cli-templates.toml"];
            assert(str_views(d@) =~= program_files_segments());
            push_candidate(&mut out, candidate_from_env(&env.program_files, &d, platform));
        },
        Platform::Other => {
            assert(strings_view(out@) =~= Seq::empty());
        },
    }
    out
}

/// The last two components every fallback location ends with: the file
/// `cli-templates.toml` in a directory named `config`.
pub open spec fn config_file_tail(platform: Platform) -> Seq<char> {
    seq![separator(platform)] + "config"@ + seq![separator(platform)] + "cli-templates.toml"@
}

proof fn lemma_config_file_tail(x: Seq<char>, word: Seq<char>, platform: Platform)
    requires
        is_plain_name(word),
    ensures
        ends_with(
            join_spec(
                join_spec(join_spec(x, word, platform), "config"@, platform),
                "cli-templates.toml"@,
                platform,
            ),
            config_file_tail(platform),
        ),
{
    reveal_strlit("config");
    reveal_strlit("cli-templates.toml");
    let cfg = "config"@;
    let file = "cli-templates.toml"@;
    assert(is_plain_name(cfg));
    assert(is_plain_name(file));
    let t = config_file_tail(platform);
    lemma_push_plain_name(x, word, platform);
    let a = join_spec(x, word, platform);
    assert(a.last() == a.subrange(a.len() - word.len(), a.len() as int).last());
    assert(a.last() == word[word.len() - 1]);
    lemma_push_plain_name(a, cfg, platform);
    let b = join_spec(a, cfg, platform);
    if platform == Platform::Windows && is_verbatim(a) {
        lemma_push_plain_after_tail(b, cfg, file);
        assert(t =~= seq!['\\'] + cfg + seq!['\\'] + file);
    } else {
        assert(!is_bare_drive(a, platform));
        assert(b == a + seq![separator(platform)] + cfg);
        if platform == Platform::Windows {
            if a.len() == 3 {
                assert(a =~= a.subrange(a.len() - word.len(), a.len() as int));
                assert(a[0] == word[0]);
            }
            assert(b[0] == a[0]);
            assert(!is_verbatim(b));
        }
        lemma_push_plain_name(b, file, platform);
        assert(!is_bare_drive(b, platform));
        assert(b.last() == 'g');
        let c = join_spec(b, file, platform);
        assert(c == b + seq![separator(platform)] + file);
        assert(c.subrange(c.len() - t.len(), c.len() as int) =~= t);
    }
}

proof fn lemma_candidate_tail(value: Option<Seq<char>>, segments: Seq<Seq<char>>, platform: Platform)
    requires
        segments.len() >= 3,
        segments[segments.len() - 2] == "config"@,
        segments[segments.len() - 1] == "cli-templates.toml"@,
        is_plain_name(segments[segments.len() - 3]),
    ensures
        candidate_spec(value, segments, platform) matches Some(p) ==> ends_with(
            p,
            config_file_tail(platform),
        ),
{
    if let Some(v) = value {
        let n = segments.len();
        let s1 = segments.drop_last();
        let s2 = s1.drop_last();
        let s3 = s2.drop_last();
        assert(s1.last() == segments[n - 2]);
        assert(s2.last() == segments[n - 3]);
        lemma_config_file_tail(join_all_spec(v, s3, platform), s2.last(), platform);
        assert(join_all_spec(v, s2, platform) == join_spec(
            join_all_spec(v, s3, platform),
            s2.last(),
            platform,
        ));
        assert(join_all_spec(v, s1, platform) == join_spec(
            join_all_spec(v, s2, platform),
            s1.last(),
            platform,
        ));
        assert(join_all_spec(v, segments, platform) == join_spec(
            join_all_spec(v, s1, platform),
            segments.last(),
            platform,
        ));
    }
}

proof fn lemma_push_some_tail(s: Seq<Seq<char>>, o: Option<Seq<char>>, t: Seq<char>)
    requires
        forall|i: int| 0 <= i < s.len() ==> ends_with(#[trigger] s[i], t),
        o matches Some(p) ==> ends_with(p, t),
    ensures
        forall|i: int| 0 <= i < push_some(s, o).len() ==> ends_with(#[trigger] push_some(s, o)[i], t),
{
    if let Some(p) = o {
        assert forall|i: int| 0 <= i < push_some(s, o).len() implies ends_with(
            #[trigger] push_some(s, o)[i],
            t,
        ) by {
            if i < s.len() {
                assert(push_some(s, o)[i] == s[i]);
            }
        }
    }
}

/// Every fallback location names the file `cli-templates.toml` inside a
/// directory named `config`, whatever the environment holds.
pub proof fn lemma_fallback_candidates_name_config_file(platform: Platform, env: FallbackEnv)
    ensures
        forall|i: int|
            0 <= i < fallback_candidates_spec(platform, env).len() ==> ends_with(
                #[trigger] fallback_candidates_spec(platform, env)[i],
                config_file_tail(platform),
            ),
{
    reveal_strlit("config");
    reveal_strlit("cli-templates.toml");
    reveal_strlit(".wenget");
    reveal_strlit("apps");
    reveal_strlit("dispatch-agent");
    reveal_strlit(".local");
    reveal_strlit("bin");
    reveal_strlit("Programs");
    reveal_strlit("wenget");
    reveal_strlit("app");
    reveal_strlit("gpinstall");
    let t = config_file_tail(platform);
    let e: Seq<Seq<char>> = Seq::empty();
    match platform {
        Platform::Unix => {
            let sw = home_wenget_segments();
            let sl = home_local_segments();
            assert(is_plain_name(sw[2]));
            assert(is_plain_name(sl[1]));
            let a = candidate_spec(opt_view(env.home), sw, platform);
            let b = candidate_spec(opt_view(env.home), sl, platform);
            lemma_candidate_tail(opt_view(env.home), sw, platform);
            lemma_candidate_tail(opt_view(env.home), sl, platform);
            lemma_push_some_tail(e, a, t);
            lemma_push_some_tail(push_some(e, a), b, t);
            let head = push_some(push_some(e, a), b);
            reveal_strlit("/opt/wenget/apps/dispatch-agent/config/cli-templates.toml");
            reveal_strlit("/usr/local/bin/config/cli-templates.toml");
            let o = opt_wenget_path();
            let u = usr_local_path();
            assert(o.subrange(o.len() - t.len(), o.len() as int) =~= t);
            assert(u.subrange(u.len() - t.len(), u.len() as int) =~= t);
            let all = head + seq![o, u];
            assert forall|i: int| 0 <= i < all.len() implies ends_with(#[trigger] all[i], t) by {
                if i < head.len() {
                    assert(all[i] == head[i]);
                }
            }
        },
        Platform::Windows => {
            let su = user_profile_segments();
            let sa = local_app_data_segments();
            let sp = program_w6432_segments();
            let sf = program_files_segments();
            assert(is_plain_name(su[2]));
            assert(is_plain_name(sa[1]));
            assert(is_plain_name(sp[2]));
            assert(is_plain_name(sf[0]));
            let a = candidate_spec(opt_view(env.user_profile), su, platform);
            let b = candidate_spec(opt_view(env.local_app_data), sa, platform);
            let c = candidate_spec(opt_view(env.program_w6432), sp, platform);
            let d = candidate_spec(opt_view(env.program_files), sf, platform);
            lemma_candidate_tail(opt_view(env.user_profile), su, platform);
            lemma_candidate_tail(opt_view(env.local_app_data), sa, platform);
            lemma_candidate_tail(opt_view(env.program_w6432), sp, platform);
            lemma_candidate_tail(opt_view(env.program_files), sf, platform);
            lemma_push_some_tail(e, a, t);
            lemma_push_some_tail(push_some(e, a), b, t);
            lemma_push_some_tail(push_some(push_some(e, a), b), c, t);
            lemma_push_some_tail(push_some(push_some(push_some(e, a), b), c), d, t);
        },
        Platform::Other => {},
    }
}

/// Building a candidate from a list of segments made of two lists is
/// building it from the first list and then pushing the second.
pub proof fn lemma_candidate_concat(
    value: Option<Seq<char>>,
    a: Seq<Seq<char>>,
    b: Seq<Seq<char>>,
    platform: Platform,
)
    ensures
        candidate_spec(value, a + b, platform) == match candidate_spec(value, a, platform) {
            Some(p) => Some(join_all_spec(p, b, platform)),
            None => None,
        },
{
    if let Some(v) = value {
        lemma_join_all_concat(v, a, b, platform);
    }
}

/// Whether an environment variable is set to a non-empty value.
pub open spec fn is_set(value: Option<String>) -> bool {
    value matches Some(v) && v@.len() > 0
}

/// 1 when the variable is set to a non-empty value, 0 otherwise.
pub open spec fn count_set(value: Option<String>) -> int {
    if is_set(value) {
        1
    } else {
        0
    }
}

/// On Windows there is one fallback location per variable that is set and
/// not empty, each built from that variable's own value, in the order
/// `USERPROFILE`, `LOCALAPPDATA`, `ProgramW6432`, `ProgramFiles`:
/// `%USERPROFILE%\.wenget\apps\dispatch-agent\config\cli-templates.toml`,
/// `%LOCALAPPDATA%\Programs\dispatch-agent\config\cli-templates.toml`,
/// `%ProgramW6432%\wenget\app\dispatch-agent\config\cli-templates.toml` and
/// `%ProgramFiles%\gpinstall\config\cli-templates.toml`.
pub proof fn lemma_windows_fallbacks(env: FallbackEnv)
    ensures
        ({
            let f = fallback_candidates_spec(Platform::Windows, env);
            let n_up = count_set(env.user_profile);
            let n_la = count_set(env.local_app_data);
            let n_pw = count_set(env.program_w6432);
            let n_pf = count_set(env.program_files);
            &&& f.len() == n_up + n_la + n_pw + n_pf
            &&& is_set(env.user_profile) ==> f[0] == join_all_spec(
                env.user_profile->0@,
                seq![".wenget"@, "apps"@, "dispatch-agent"@, "config"@, "cli-templates.toml"@],
                Platform::Windows,
            )
            &&& is_set(env.local_app_data) ==> f[n_up] == join_all_spec(
                env.local_app_data->0@,
                seq!["Programs"@, "dispatch-agent"@, "config"@, "cli-templates.toml"@],
                Platform::Windows,
            )
            &&& is_set(env.program_w6432) ==> f[n_up + n_la] == join_all_spec(
                env.program_w6432->0@,
                seq!["wenget"@, "app"@, "dispatch-agent"@, "config"@, "cli-templates.toml"@],
                Platform::Windows,
            )
            &&& is_set(env.program_files) ==> f[n_up + n_la + n_pw] == join_all_spec(
                env.program_files->0@,
                seq!["gpinstall"@, "config"@, "cli-templates.toml"@],
                Platform::Windows,
            )
        }),
{
}

/// On Unix the fallback locations are, when `HOME` is set and not empty,
/// `$HOME/.wenget/apps/dispatch-agent/config/cli-templates.toml` and
/// `$HOME/.local/bin/config/cli-templates.toml`, always followed by
/// `/opt/wenget/apps/dispatch-agent/config/cli-templates.toml` and
/// `/usr/local/bin/config/cli-templates.toml`.
pub proof fn lemma_unix_fallbacks(env: FallbackEnv)
    ensures
        ({
            let f = fallback_candidates_spec(Platform::Unix, env);
            let h = 2 * count_set(env.home);
            &&& f.len() == h + 2
            &&& is_set(env.home) ==> f[0] == join_all_spec(
                env.home->0@,
                seq![".wenget"@, "apps"@, "dispatch-agent"@, "config"@, "cli-templates.toml"@],
                Platform::Unix,
            ) && f[1] == join_all_spec(
                env.home->0@,
                seq![".local"@, "bin"@, "config"@, "cli-templates.toml"@],
                Platform::Unix,
            )
            &&& f[h] == "/opt/wenget/apps/dispatch-agent/config/cli-templates.toml"@
            &&& f[h + 1] == "/usr/local/bin/config/cli-templates.toml"@
        }),
{
}

/// On a platform that is neither Unix nor Windows there is no fallback
/// location.
pub proof fn lemma_other_fallbacks(env: FallbackEnv)
    ensures
        fallback_candidates_spec(Platform::Other, env).len() == 0,
{
}

} // verus!
