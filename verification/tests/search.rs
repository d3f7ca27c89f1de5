use dispatch_agent::candidates::{platform_fallback_candidates, FallbackEnv};
use dispatch_agent::error::{format_not_found_error, TemplatesError};
use dispatch_agent::paths::Platform;
use dispatch_agent::search::{
    answer_flags, find_first_existing, find_first_existing_probed, first_existing,
    probe_candidates, resolve_templates_path, resolve_templates_path_probed,
    select_templates_path, template_search_candidates,
};
use std::path::Path;

fn s(p: &Path) -> String {
    p.to_str().unwrap().to_string()
}

fn make_dir(parent: &Path, name: &str) -> tempfile::TempDir {
    tempfile::Builder::new().prefix(name).rand_bytes(0).tempdir_in(parent).unwrap()
}

fn make_file(parent: &Path, name: &str) -> tempfile::NamedTempFile {
    tempfile::Builder::new().prefix(name).rand_bytes(0).tempfile_in(parent).unwrap()
}

fn home_env(home: &str) -> FallbackEnv {
    FallbackEnv {
        home: Some(home.to_string()),
        user_profile: None,
        local_app_data: None,
        program_w6432: None,
        program_files: None,
    }
}

#[test]
fn resolve_templates_path_uses_unix_fallback() {
    let dir = tempfile::tempdir().unwrap();
    let d1 = make_dir(dir.path(), ".wenget");
    let d2 = make_dir(d1.path(), "apps");
    let d3 = make_dir(d2.path(), "dispatch-agent");
    let d4 = make_dir(d3.path(), "config");
    let f = make_file(d4.path(), "cli-templates.toml");
    let target = s(f.path());
    let env = home_env(&s(dir.path()));

    let got = find_first_existing(&platform_fallback_candidates(Platform::Unix, &env))
        .expect("expected fallback hit");
    assert_eq!(got, target);

    let missing_manifest = s(&dir.path().join("no-manifest"));
    let resolved = resolve_templates_path(None, &None, &missing_manifest, Platform::Unix, &env);
    assert_eq!(resolved.ok(), Some(target));
}

#[test]
fn resolve_templates_path_error_lists_paths() {
    let msg = format_not_found_error(&[
        "/tmp/a/cli-templates.toml".to_string(),
        "/tmp/b/cli-templates.toml".to_string(),
    ]);
    assert!(msg.contains("/tmp/a/cli-templates.toml"));
    assert!(msg.contains("/tmp/b/cli-templates.toml"));
    assert!(msg.contains("DISPATCH_AGENT_TEMPLATES"));
}

#[test]
fn not_found_message_exact_text() {
    let msg = format_not_found_error(&["/x".to_string(), "/y".to_string()]);
    assert_eq!(
        msg,
        "cli-templates.toml not found. Set DISPATCH_AGENT_TEMPLATES to override. Searched:\n  /x\n  /y\n"
    );
    let empty = format_not_found_error(&[]);
    assert_eq!(
        empty,
        "cli-templates.toml not found. Set DISPATCH_AGENT_TEMPLATES to override. Searched:\n"
    );
}

#[test]
fn find_first_existing_returns_first_hit() {
    let dir = tempfile::tempdir().unwrap();
    let a = make_file(dir.path(), "a.toml");
    let b = make_file(dir.path(), "b.toml");
    let result = find_first_existing(&[s(a.path()), s(b.path())]);
    assert_eq!(result, Some(s(a.path())), "should return first existing in order");
}

#[test]
fn find_first_existing_skips_missing_then_returns_existing() {
    let dir = tempfile::tempdir().unwrap();
    let a = s(&dir.path().join("a.toml"));
    let b = make_file(dir.path(), "b.toml");
    let result = find_first_existing(&[a, s(b.path())]);
    assert_eq!(result, Some(s(b.path())));
}

#[test]
fn find_first_existing_returns_none_when_no_match() {
    let dir = tempfile::tempdir().unwrap();
    let a = s(&dir.path().join("a.toml"));
    let b = s(&dir.path().join("b.toml"));
    let result = find_first_existing(&[a, b]);
    assert_eq!(result, None);
}

#[test]
fn first_existing_follows_the_answers() {
    let c = vec!["p".to_string(), "q".to_string(), "r".to_string()];
    assert_eq!(first_existing(&c, &[false, true, true]), Some("q".to_string()));
    assert_eq!(first_existing(&c, &[true, true, true]), Some("p".to_string()));
    assert_eq!(first_existing(&c, &[false, false]), None);
    assert_eq!(first_existing(&c, &[]), None);
}

#[test]
fn select_templates_path_reports_all_candidates() {
    let c = vec!["p".to_string(), "q".to_string()];
    match select_templates_path(c.clone(), &[false, false]) {
        Err(TemplatesError::NotFound { searched }) => assert_eq!(searched, c),
        Ok(p) => panic!("unexpected {}", p),
    }
    assert_eq!(select_templates_path(c.clone(), &[false, true]).ok(), Some("q".to_string()));
}

#[test]
fn templates_override_is_taken_even_if_missing() {
    let env = home_env("/nonexistent-home");
    let r = resolve_templates_path(
        Some("/nonexistent/path/cli-templates.toml".to_string()),
        &None,
        "/nonexistent-manifest",
        Platform::Unix,
        &env,
    );
    assert_eq!(r.ok(), Some("/nonexistent/path/cli-templates.toml".to_string()));
}

#[test]
fn search_candidates_order() {
    let env = home_env("/h");
    let c = template_search_candidates(&Some("/bin/dir".to_string()), "/src/proj", Platform::Unix, &env);
    assert_eq!(
        c,
        vec![
            "/bin/dir/config/cli-templates.toml".to_string(),
            "/src/proj/config/cli-templates.toml".to_string(),
            "/h/.wenget/apps/dispatch-agent/config/cli-templates.toml".to_string(),
            "/h/.local/bin/config/cli-templates.toml".to_string(),
            "/opt/wenget/apps/dispatch-agent/config/cli-templates.toml".to_string(),
            "/usr/local/bin/config/cli-templates.toml".to_string(),
        ]
    );
    let no_exe = template_search_candidates(&None, "/src/proj", Platform::Other, &env);
    assert_eq!(no_exe, vec!["/src/proj/config/cli-templates.toml".to_string()]);
}

#[test]
fn resolve_not_found_lists_every_candidate() {
    let dir = tempfile::tempdir().unwrap();
    let root = s(dir.path());
    let r = resolve_templates_path(None, &Some(root.clone()), &root, Platform::Other, &home_env(&root));
    match r {
        Err(e) => {
            let TemplatesError::NotFound { searched } = &e;
            let expected = format!("{}/config/cli-templates.toml", root);
            assert_eq!(searched, &vec![expected.clone(), expected.clone()]);
            let msg = e.message();
            assert!(msg.contains(&expected));
            assert!(msg.starts_with("cli-templates.toml not found."));
        }
        Ok(p) => panic!("unexpected {}", p),
    }
}

#[test]
fn resolve_prefers_exe_dir_over_manifest() {
    let exe = tempfile::tempdir().unwrap();
    let man = tempfile::tempdir().unwrap();
    let c1 = make_dir(exe.path(), "config");
    let f1 = make_file(c1.path(), "cli-templates.toml");
    let c2 = make_dir(man.path(), "config");
    let _f2 = make_file(c2.path(), "cli-templates.toml");
    let r = resolve_templates_path(None, &Some(s(exe.path())), &s(man.path()), Platform::Other, &home_env("/h"));
    assert_eq!(r.ok(), Some(s(f1.path())));
}

#[test]
fn probe_candidates_stops_at_first_find() {
    let dir = tempfile::tempdir().unwrap();
    let a = s(&dir.path().join("missing.toml"));
    let b = make_file(dir.path(), "b.toml");
    let c = make_file(dir.path(), "c.toml");
    let answers = probe_candidates(&[a.clone(), s(b.path()), s(c.path())]);
    assert_eq!(answer_flags(&answers), vec![false, true]);
    let none = probe_candidates(&[a.clone(), a]);
    assert_eq!(answer_flags(&none), vec![false, false]);
    assert!(probe_candidates(&[]).is_empty());
}

#[test]
fn probed_variants_return_their_answers() {
    let dir = tempfile::tempdir().unwrap();
    let a = s(&dir.path().join("missing.toml"));
    let b = make_file(dir.path(), "b.toml");
    let (hit, answers) = find_first_existing_probed(&[a.clone(), s(b.path())]);
    assert_eq!(hit, Some(s(b.path())));
    assert_eq!(answer_flags(&answers), vec![false, true]);

    let (r, answers) = resolve_templates_path_probed(
        Some("/x".to_string()),
        &None,
        "/m",
        Platform::Unix,
        &home_env("/h"),
    );
    assert_eq!(r.ok(), Some("/x".to_string()));
    assert!(answers.is_empty());

    let root = s(dir.path());
    let (r, answers) =
        resolve_templates_path_probed(None, &None, &root, Platform::Other, &home_env(&root));
    assert!(r.is_err());
    assert_eq!(answer_flags(&answers), vec![false]);
}

#[test]
fn search_candidates_verbatim_exe_dir() {
    let c = template_search_candidates(
        &Some("\\\\?\\C:\\x".to_string()),
        "C:\\src",
        Platform::Windows,
        &home_env("/h"),
    );
    assert_eq!(c[0], "\\\\?\\C:\\x\\config\\cli-templates.toml");
    assert_eq!(c[1], "C:\\src\\config/cli-templates.toml");
}
