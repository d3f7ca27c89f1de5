use dispatch_agent::templates::{apply_version_flag_default, strip_bom, Template};
use indexmap::IndexMap;

fn template(prompt: Option<&str>, version: Option<&str>) -> Template {
    Template {
        prompt_flag: prompt.map(|s| s.to_string()),
        version_flag: version.map(|s| s.to_string()),
        extra_args: None,
    }
}

#[test]
fn version_flag_default_applied() {
    let mut map: IndexMap<String, Template> = IndexMap::new();
    map.insert("cli".to_string(), template(Some("-p"), None));
    apply_version_flag_default(&mut map);
    assert_eq!(map["cli"].version_flag.as_deref(), Some("--version"));
    assert_eq!(map["cli"].prompt_flag.as_deref(), Some("-p"));
}

#[test]
fn version_flag_explicit_not_overwritten() {
    let mut map: IndexMap<String, Template> = IndexMap::new();
    map.insert("cli".to_string(), template(Some("-p"), Some("")));
    apply_version_flag_default(&mut map);
    assert_eq!(map["cli"].version_flag.as_deref(), Some(""));
}

#[test]
fn version_flag_other_value_kept() {
    let mut map: IndexMap<String, Template> = IndexMap::new();
    map.insert("x".to_string(), template(None, Some("-V")));
    map.insert("y".to_string(), template(None, None));
    apply_version_flag_default(&mut map);
    assert_eq!(map["x"].version_flag.as_deref(), Some("-V"));
    assert_eq!(map["x"].prompt_flag, None);
    assert_eq!(map["y"].version_flag.as_deref(), Some("--version"));
    assert_eq!(map["y"].prompt_flag, None);
    assert_eq!(map.len(), 2);
}

#[test]
fn version_flag_default_on_empty_map() {
    let mut map: IndexMap<String, Template> = IndexMap::new();
    apply_version_flag_default(&mut map);
    assert!(map.is_empty());
}

#[test]
fn insertion_order_preserved() {
    let toml_text =
        "[b]\nprompt_flag = \"-p\"\n[a]\nprompt_flag = \"-p\"\n[c]\nprompt_flag = \"-p\"\n";
    let parsed: IndexMap<String, toml::Table> = toml::from_str(strip_bom(toml_text)).unwrap();
    let mut map: IndexMap<String, Template> = parsed
        .into_iter()
        .map(|(name, table)| {
            let prompt = table.get("prompt_flag").and_then(|v| v.as_str());
            let version = table.get("version_flag").and_then(|v| v.as_str());
            (name, template(prompt, version))
        })
        .collect();
    apply_version_flag_default(&mut map);
    let keys: Vec<&String> = map.keys().collect();
    assert_eq!(keys, vec!["b", "a", "c"]);
    assert_eq!(map["b"].version_flag.as_deref(), Some("--version"));
    assert_eq!(map["a"].prompt_flag.as_deref(), Some("-p"));
}

#[test]
fn bom_stripped() {
    let content = "\u{FEFF}[cli]\nprompt_flag = \"-p\"\n";
    let stripped = strip_bom(content);
    assert_eq!(stripped, "[cli]\nprompt_flag = \"-p\"\n");
    let table: toml::Table = toml::from_str(stripped).unwrap();
    assert!(table.contains_key("cli"));
}

#[test]
fn text_without_bom_unchanged() {
    assert_eq!(strip_bom("[cli]\n"), "[cli]\n");
    assert_eq!(strip_bom(""), "");
}

#[test]
fn only_one_bom_stripped() {
    assert_eq!(strip_bom("\u{FEFF}\u{FEFF}x"), "\u{FEFF}x");
    assert_eq!(strip_bom("x\u{FEFF}"), "x\u{FEFF}");
}

#[test]
fn version_flag_default_keeps_extra_args() {
    let mut map: IndexMap<String, Template> = IndexMap::new();
    let mut t = template(Some("-p"), None);
    t.extra_args = Some(vec!["--yolo".to_string(), "-q".to_string()]);
    map.insert("gemini-npx".to_string(), t);
    apply_version_flag_default(&mut map);
    assert_eq!(map["gemini-npx"].version_flag.as_deref(), Some("--version"));
    assert_eq!(
        map["gemini-npx"].extra_args,
        Some(vec!["--yolo".to_string(), "-q".to_string()])
    );
}
