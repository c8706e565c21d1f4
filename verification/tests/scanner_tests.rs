use config_installer::component::ComponentType;
use config_installer::component::HookConfig;
use config_installer::component::InstallStatus;
use config_installer::component::parse_hook_manifest;
use config_installer::json::Json;
use config_installer::scanner::artifact_path;
use config_installer::scanner::classify;
use config_installer::scanner::component_for;
use config_installer::scanner::kind_ending;
use config_installer::scanner::same_bytes;
use config_installer::scanner::scan_components;
use config_installer::scanner::settings_status;
use config_installer::scanner::SourceFile;

fn file(kind: ComponentType, name: &str, content: &[u8], dest: Option<&[u8]>) -> SourceFile {
    SourceFile {
        kind,
        name: name.to_string(),
        content: content.to_vec(),
        dest_content: dest.map(|d| d.to_vec()),
        manifest: None,
        text: String::from_utf8(content.to_vec()).ok(),
        dest_text: dest.and_then(|d| String::from_utf8(d.to_vec()).ok()),
    }
}

#[test]
fn classify_new_unchanged_modified() {
    assert_eq!(classify(&b"abc".to_vec(), &None), InstallStatus::New);
    assert_eq!(classify(&b"abc".to_vec(), &Some(b"abc".to_vec())), InstallStatus::Unchanged);
    assert_eq!(classify(&b"abc".to_vec(), &Some(b"abd".to_vec())), InstallStatus::Modified);
    assert_eq!(classify(&b"abc".to_vec(), &Some(b"ab".to_vec())), InstallStatus::Modified);
    assert_eq!(classify(&Vec::new(), &Some(Vec::new())), InstallStatus::Unchanged);
    assert!(same_bytes(&vec![1, 2], &vec![1, 2]));
    assert!(!same_bytes(&vec![1, 2], &vec![1, 2, 3]));
}

#[test]
fn copy_of_unchanged_leaves_content() {
    let source = b"same".to_vec();
    let dest = Some(b"same".to_vec());
    assert_eq!(classify(&source, &dest), InstallStatus::Unchanged);
    let after_copy = Some(source.clone());
    assert_eq!(after_copy, dest);
    assert_eq!(classify(&source, &after_copy), InstallStatus::Unchanged);
}

#[test]
fn scan_finds_new_agent() {
    let files = vec![file(ComponentType::Agents, "foo.md", b"# agent", None)];
    let found = scan_components("/src", "/dst", &files);
    assert_eq!(found.len(), 1);
    let c = &found[0];
    assert_eq!(c.component_type, ComponentType::Agents);
    assert_eq!(c.name, "foo.md");
    assert_eq!(c.status, InstallStatus::New);
    assert!(c.selected);
    assert_eq!(c.source_path, "/src/agents/foo.md");
    assert_eq!(c.dest_path, "/dst/agents/foo.md");
    assert!(c.hook_config.is_none());
    assert_eq!(c.display_name(), "agents/foo.md");
}

#[test]
fn scan_keeps_one_component_per_kind_and_name() {
    let files = vec![
        file(ComponentType::Agents, "a.md", b"1", None),
        file(ComponentType::Commands, "a.md", b"1", Some(b"1")),
        file(ComponentType::Agents, "a.md", b"2", Some(b"3")),
        file(ComponentType::Agents, "sub/a.md", b"2", Some(b"3")),
    ];
    let found = scan_components("s", "d", &files);
    assert_eq!(found.len(), 3);
    assert_eq!(found[0].status, InstallStatus::New);
    assert_eq!(found[1].component_type, ComponentType::Commands);
    assert_eq!(found[1].status, InstallStatus::Unchanged);
    assert!(!found[1].selected);
    assert_eq!(found[2].name, "sub/a.md");
    assert_eq!(found[2].status, InstallStatus::Modified);
    assert!(found[2].selected);
}

#[test]
fn scan_passes_over_wrong_endings_and_hooks_without_manifest() {
    let mut with_manifest = file(ComponentType::Hooks, "guide", b"bin", None);
    with_manifest.manifest = Some(HookConfig {
        name: "guide".to_string(),
        event: "Stop".to_string(),
        hook_type: "command".to_string(),
        timeout: Some(3),
    });
    let files = vec![
        file(ComponentType::Agents, "notes.txt", b"x", None),
        file(ComponentType::Hooks, "bare", b"bin", None),
        with_manifest,
        file(ComponentType::Statusline, "line.sh", b"#!", None),
        file(ComponentType::ConfigFile, "other.json", b"{}", Some(b"{}")),
        file(ComponentType::ConfigFile, "other.yaml", b"{}", None),
    ];
    let found = scan_components("s", "d", &files);
    assert_eq!(found.len(), 3);
    assert_eq!(found[0].name, "guide");
    assert_eq!(found[0].hook_config.as_ref().unwrap().timeout, Some(3));
    assert_eq!(found[1].component_type, ComponentType::Statusline);
    assert_eq!(found[2].name, "other.json");
    assert_eq!(found[2].status, InstallStatus::Unchanged);
}

#[test]
fn settings_file_status_is_that_of_a_merge() {
    let contained = file(
        ComponentType::ConfigFile,
        "settings.json",
        br#"{"a":1,"hooks":{"E":[1]}}"#,
        Some(br#"{"hooks":{"E":[0,1]},"a":1,"mine":true}"#),
    );
    let missing_key = file(ComponentType::ConfigFile, "settings.json", br#"{"a":1,"b":2}"#, Some(br#"{"a":1}"#));
    let no_dest = file(ComponentType::ConfigFile, "settings.json", br#"{"a":1}"#, None);
    let bad_dest = file(ComponentType::ConfigFile, "settings.json", br#"{"a":1}"#, Some(b"{"));
    let bad_source = file(ComponentType::ConfigFile, "settings.json", b"{", None);
    assert_eq!(scan_components("s", "d", &vec![contained])[0].status, InstallStatus::Unchanged);
    assert_eq!(scan_components("s", "d", &vec![missing_key])[0].status, InstallStatus::Modified);
    assert_eq!(scan_components("s", "d", &vec![no_dest])[0].status, InstallStatus::New);
    assert_eq!(scan_components("s", "d", &vec![bad_dest])[0].status, InstallStatus::Modified);
    assert_eq!(scan_components("s", "d", &vec![bad_source]).len(), 0);
}

#[test]
fn settings_status_compares_documents() {
    let s = Json::parse(r#"{"a":{"b":1}}"#).unwrap();
    let d = Json::parse(r#"{"a":{"b":1,"c":2}}"#).unwrap();
    assert_eq!(settings_status(&s, Some(&d)), InstallStatus::Unchanged);
    assert_eq!(settings_status(&d, Some(&s)), InstallStatus::Modified);
    assert_eq!(settings_status(&d, None), InstallStatus::New);
}

#[test]
fn paths_and_endings_by_kind() {
    assert_eq!(artifact_path("/r", ComponentType::OutputStyles, "x/y.md"), "/r/output-styles/x/y.md");
    assert_eq!(kind_ending(ComponentType::Agents), ".md");
    assert_eq!(kind_ending(ComponentType::Hooks), "");
    assert_eq!(kind_ending(ComponentType::ConfigFile), ".json");
    assert_eq!(ComponentType::ConfigFile.display_name(), "config");
    assert_eq!(InstallStatus::Unchanged.display(), "installed");
    assert_eq!(InstallStatus::Managed.display(), "managed");
}

#[test]
fn component_for_one_file() {
    let found = component_for(&file(ComponentType::Rules, "r.md", b"x", Some(b"y")), "/s", "/d").unwrap();
    assert_eq!(found.status, InstallStatus::Modified);
    assert_eq!(found.dest_path, "/d/rules/r.md");
    assert!(component_for(&file(ComponentType::Rules, "r.txt", b"x", None), "/s", "/d").is_none());
    assert!(component_for(&file(ComponentType::ConfigFile, "settings.json", b"[", None), "/s", "/d").is_none());
}

#[test]
fn hook_manifests() {
    let m = parse_hook_manifest("name: guide\nevent: UserPromptSubmit\ntype: command\ntimeout: 30\n").unwrap();
    assert_eq!((m.name.as_str(), m.event.as_str(), m.hook_type.as_str(), m.timeout), ("guide", "UserPromptSubmit", "command", Some(30)));
    let m = parse_hook_manifest("type: command\nname: n\nevent: e\nextra: 1\n").unwrap();
    assert_eq!(m.timeout, None);
    assert!(parse_hook_manifest("name: n\nevent: e\n").is_none());
    assert!(parse_hook_manifest("name: n\nevent: e\ntype: t\ntimeout: soon\n").is_none());
    assert!(parse_hook_manifest("name: n\nevent: e\ntype: t\ntimeout: 4294967296\n").is_none());
    assert!(parse_hook_manifest("name: n\nevent: e\ntype: t\ntimeout: -1\n").is_none());
    assert!(parse_hook_manifest("- a\n").is_none());
    assert!(parse_hook_manifest("name: [").is_none());
    assert_eq!(parse_hook_manifest("name: n\nevent: e\ntype: t\ntimeout: 4294967295\n").unwrap().timeout, Some(u32::MAX));
}
