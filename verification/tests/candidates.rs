use dispatch_agent::candidates::{candidate_from_env, platform_fallback_candidates, FallbackEnv};
use dispatch_agent::paths::{join_path, Platform};

fn env_with_home(home: Option<&str>) -> FallbackEnv {
    FallbackEnv {
        home: home.map(|s| s.to_string()),
        user_profile: None,
        local_app_data: None,
        program_w6432: None,
        program_files: None,
    }
}

#[test]
fn platform_fallback_candidates_unix_uses_home_and_absolutes() {
    let dir = tempfile::tempdir().unwrap();
    let home = dir.path().to_str().unwrap().to_string();
    let candidates = platform_fallback_candidates(Platform::Unix, &env_with_home(Some(&home)));

    let expected_home_wenget = dir
        .path()
        .join(".wenget/apps/dispatch-agent/config/cli-templates.toml")
        .to_str()
        .unwrap()
        .to_string();
    let expected_home_local =
        dir.path().join(".local/bin/config/cli-templates.toml").to_str().unwrap().to_string();
    let expected_opt = "/opt/wenget/apps/dispatch-agent/config/cli-templates.toml".to_string();
    let expected_usr = "/usr/local/bin/config/cli-templates.toml".to_string();

    assert!(candidates.contains(&expected_home_wenget), "missing {} in {:?}", expected_home_wenget, candidates);
    assert!(candidates.contains(&expected_home_local));
    assert!(candidates.contains(&expected_opt));
    assert!(candidates.contains(&expected_usr));

    let pos = |needle: &String| candidates.iter().position(|c| c == needle).unwrap();
    assert!(pos(&expected_home_wenget) < pos(&expected_opt));
    assert!(pos(&expected_home_local) < pos(&expected_opt));
    assert!(pos(&expected_opt) < pos(&expected_usr));
}

#[test]
fn platform_fallback_candidates_unix_skips_when_home_unset() {
    let candidates = platform_fallback_candidates(Platform::Unix, &env_with_home(Some("")));
    assert!(candidates.iter().any(|c| c.starts_with("/opt/wenget")));
    assert!(candidates.iter().any(|c| c.starts_with("/usr/local/bin")));
    assert!(
        !candidates.iter().any(|c| c.starts_with(".wenget")),
        "candidates leaked relative HOME path: {:?}",
        candidates
    );
    assert_eq!(
        candidates,
        vec![
            "/opt/wenget/apps/dispatch-agent/config/cli-templates.toml".to_string(),
            "/usr/local/bin/config/cli-templates.toml".to_string(),
        ]
    );
    let unset = platform_fallback_candidates(Platform::Unix, &env_with_home(None));
    assert_eq!(unset, candidates);
}

#[test]
fn platform_fallback_candidates_unix_exact_list() {
    let candidates = platform_fallback_candidates(Platform::Unix, &env_with_home(Some("/home/u")));
    assert_eq!(
        candidates,
        vec![
            "/home/u/.wenget/apps/dispatch-agent/config/cli-templates.toml".to_string(),
            "/home/u/.local/bin/config/cli-templates.toml".to_string(),
            "/opt/wenget/apps/dispatch-agent/config/cli-templates.toml".to_string(),
            "/usr/local/bin/config/cli-templates.toml".to_string(),
        ]
    );
}

#[test]
fn platform_fallback_candidates_windows_uses_env_vars() {
    let base = "C:\\Users\\me\\tmp";
    let env = FallbackEnv {
        home: None,
        user_profile: Some(base.to_string()),
        local_app_data: Some(base.to_string()),
        program_w6432: Some(base.to_string()),
        program_files: Some(base.to_string()),
    };
    let candidates = platform_fallback_candidates(Platform::Windows, &env);

    let exp_userprofile = format!("{}\\.wenget\\apps\\dispatch-agent\\config\\cli-templates.toml", base);
    let exp_localappdata = format!("{}\\Programs\\dispatch-agent\\config\\cli-templates.toml", base);
    let exp_progw6432 = format!("{}\\wenget\\app\\dispatch-agent\\config\\cli-templates.toml", base);
    let exp_progfiles = format!("{}\\gpinstall\\config\\cli-templates.toml", base);

    assert!(candidates.contains(&exp_userprofile));
    assert!(candidates.contains(&exp_localappdata));
    assert!(candidates.contains(&exp_progw6432));
    assert!(candidates.contains(&exp_progfiles));

    let pos = |needle: &String| candidates.iter().position(|c| c == needle).unwrap();
    assert!(pos(&exp_userprofile) < pos(&exp_localappdata));
    assert!(pos(&exp_localappdata) < pos(&exp_progw6432));
    assert!(pos(&exp_progw6432) < pos(&exp_progfiles));
}

#[test]
fn platform_fallback_candidates_windows_skips_unset_vars() {
    let env = FallbackEnv {
        home: Some("/home/u".to_string()),
        user_profile: Some(String::new()),
        local_app_data: Some(String::new()),
        program_w6432: Some(String::new()),
        program_files: Some(String::new()),
    };
    let candidates = platform_fallback_candidates(Platform::Windows, &env);
    assert!(candidates.is_empty(), "expected empty, got {:?}", candidates);
}

#[test]
fn platform_fallback_candidates_windows_partial() {
    let env = FallbackEnv {
        home: None,
        user_profile: None,
        local_app_data: Some("D:\\Local\\".to_string()),
        program_w6432: None,
        program_files: Some("C:\\Program Files".to_string()),
    };
    let candidates = platform_fallback_candidates(Platform::Windows, &env);
    assert_eq!(
        candidates,
        vec![
            "D:\\Local\\Programs\\dispatch-agent\\config\\cli-templates.toml".to_string(),
            "C:\\Program Files\\gpinstall\\config\\cli-templates.toml".to_string(),
        ]
    );
}

#[test]
fn platform_fallback_candidates_other_is_empty() {
    let candidates = platform_fallback_candidates(Platform::Other, &env_with_home(Some("/home/u")));
    assert!(candidates.is_empty());
}

#[test]
fn candidate_from_env_returns_none_when_unset() {
    let result = candidate_from_env(&None, &["sub", "file.toml"], Platform::Unix);
    assert!(result.is_none());
}

#[test]
fn candidate_from_env_returns_none_when_empty() {
    let result = candidate_from_env(&Some(String::new()), &["x"], Platform::Unix);
    assert!(result.is_none());
}

#[test]
fn candidate_from_env_joins_suffix() {
    let dir = tempfile::tempdir().unwrap();
    let base = dir.path().to_str().unwrap().to_string();
    let result = candidate_from_env(&Some(base), &["a", "b.toml"], Platform::Unix).unwrap();
    assert_eq!(result, dir.path().join("a").join("b.toml").to_str().unwrap());
}

#[test]
fn candidate_from_env_without_suffix_is_base() {
    let result = candidate_from_env(&Some("/srv".to_string()), &[], Platform::Unix);
    assert_eq!(result.as_deref(), Some("/srv"));
}

#[test]
fn join_path_inserts_separator_once() {
    assert_eq!(join_path("/a", "b", Platform::Unix), "/a/b");
    assert_eq!(join_path("/a/", "b", Platform::Unix), "/a/b");
    assert_eq!(join_path("/", "b", Platform::Unix), "/b");
    assert_eq!(join_path("", "b", Platform::Unix), "b");
    assert_eq!(join_path("a\\", "b", Platform::Unix), "a\\/b");
}

#[test]
fn join_path_windows_rules() {
    assert_eq!(join_path("C:\\a", "b", Platform::Windows), "C:\\a\\b");
    assert_eq!(join_path("C:\\a\\", "b", Platform::Windows), "C:\\a\\b");
    assert_eq!(join_path("C:/a/", "b", Platform::Windows), "C:/a/b");
    assert_eq!(join_path("C:", "b", Platform::Windows), "C:b");
    assert_eq!(join_path("1:", "b", Platform::Windows), "1:\\b");
}

fn std_join(base: &str, seg: &str) -> String {
    std::path::Path::new(base).join(seg).to_str().unwrap().to_string()
}

#[test]
fn join_path_unix_matches_std() {
    let bases = ["", "/", "/a", "/a/", "a", "a//", "/a/b"];
    let segs = ["", "b", "b/c", "/b", "/", "./x", "../y", "b/"];
    for base in bases {
        for seg in segs {
            assert_eq!(join_path(base, seg, Platform::Unix), std_join(base, seg), "{:?} + {:?}", base, seg);
        }
    }
}

#[test]
fn candidate_from_env_absolute_segment_replaces() {
    let result = candidate_from_env(&Some("/a".to_string()), &["/b"], Platform::Unix);
    assert_eq!(result.as_deref(), Some("/b"));
    let result = candidate_from_env(&Some("/a".to_string()), &["x", "/b", "c"], Platform::Unix);
    assert_eq!(result.as_deref(), Some("/b/c"));
}

#[test]
fn join_path_windows_prefixed_and_rooted_segments() {
    assert_eq!(join_path("C:\\a", "D:\\b", Platform::Windows), "D:\\b");
    assert_eq!(join_path("C:\\a", "\\\\srv\\share\\x", Platform::Windows), "\\\\srv\\share\\x");
    assert_eq!(join_path("C:\\a", "\\b", Platform::Windows), "C:\\b");
    assert_eq!(join_path("\\\\srv\\share\\a", "/b", Platform::Windows), "\\\\srv\\share/b");
    assert_eq!(join_path("a", "\\b", Platform::Windows), "\\b");
}

#[test]
fn join_path_windows_verbatim_rebuilds() {
    assert_eq!(
        join_path("\\\\?\\C:\\x", "config/cli-templates.toml", Platform::Windows),
        "\\\\?\\C:\\x\\config\\cli-templates.toml"
    );
    assert_eq!(join_path("\\\\?\\C:\\x\\", "y", Platform::Windows), "\\\\?\\C:\\x\\y");
    assert_eq!(join_path("\\\\?\\C:\\x\\y", "..\\z", Platform::Windows), "\\\\?\\C:\\x\\z");
    assert_eq!(join_path("\\\\?\\C:\\x", ".\\z", Platform::Windows), "\\\\?\\C:\\x\\z");
    assert_eq!(join_path("\\\\?\\C:\\x", "\\z", Platform::Windows), "\\\\?\\C:\\z");
    assert_eq!(join_path("\\\\?\\C:", "z", Platform::Windows), "\\\\?\\C:\\z");
    assert_eq!(
        join_path("\\\\?\\UNC\\srv\\share", "z", Platform::Windows),
        "\\\\?\\UNC\\srv\\share\\z"
    );
}

#[test]
fn platform_fallback_candidates_windows_verbatim_profile() {
    let env = FallbackEnv {
        home: None,
        user_profile: Some("\\\\?\\C:\\Users\\me".to_string()),
        local_app_data: None,
        program_w6432: None,
        program_files: None,
    };
    let candidates = platform_fallback_candidates(Platform::Windows, &env);
    assert_eq!(
        candidates,
        vec!["\\\\?\\C:\\Users\\me\\.wenget\\apps\\dispatch-agent\\config\\cli-templates.toml".to_string()]
    );
}
