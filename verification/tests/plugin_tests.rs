use config_installer::plugin::extract_marketplace_name;
use config_installer::plugin::parse_plugins_yaml;
use config_installer::plugin::split_entry;
use config_installer::plugin::Plugin;
use config_installer::plugin::PluginDef;
use config_installer::plugin::PluginStatus;

#[test]
fn test_parse_plugins_yaml_new_format() {
    let yaml = r#"
marketplaces:
  plugins-official:
    source: https://github.com/example/plugins-official.git
    plugins:
      - rust-analyzer-lsp # Rust language server
      - typescript-lsp    # TypeScript language server
  agent-skills:
    source: https://github.com/example/skills.git
    plugins:
      - document-skills   # documents
"#;

    let catalog = parse_plugins_yaml(yaml);

    assert_eq!(catalog.len(), 3);

    let rust_entry = catalog.iter().find(|(_, _, name, _)| name == "rust-analyzer-lsp").unwrap();
    assert_eq!(rust_entry.0, "plugins-official");
    assert_eq!(rust_entry.1, "https://github.com/example/plugins-official.git");

    let doc_entry = catalog.iter().find(|(_, _, name, _)| name == "document-skills").unwrap();
    assert_eq!(doc_entry.0, "agent-skills");
}

#[test]
fn test_parse_plugins_yaml_old_format() {
    let yaml = r#"
https://github.com/example/plugins-official.git:
  - rust-analyzer-lsp # Rust language server
  - typescript-lsp    # TypeScript language server
"#;

    let catalog = parse_plugins_yaml(yaml);
    assert_eq!(catalog.len(), 2);

    let rust_entry = catalog.iter().find(|(_, _, name, _)| name == "rust-analyzer-lsp").unwrap();
    assert_eq!(rust_entry.0, "plugins-official");
}

#[test]
fn test_plugin_short_repo() {
    let plugin = Plugin::new(
        PluginDef {
            name: "test".to_string(),
            marketplace: "plugins-official".to_string(),
            source: "https://github.com/example/plugins-official.git".to_string(),
            comment: None,
        },
        PluginStatus::NotInstalled,
    );

    assert_eq!(plugin.short_repo(), "example/plugins-official");
}

#[test]
fn short_repo_without_host_is_the_source() {
    let plugin = Plugin::new(
        PluginDef {
            name: "p".to_string(),
            marketplace: "m".to_string(),
            source: "git@host:owner/repo.git.git".to_string(),
            comment: None,
        },
        PluginStatus::Installed,
    );
    assert_eq!(plugin.short_repo(), "git@host:owner/repo");
    assert!(!plugin.selected);
    assert_eq!(plugin.status.display(), "installed");
    assert_eq!(PluginStatus::NotInstalled.display(), "not installed");
}

#[test]
fn marketplace_name_is_last_segment() {
    assert_eq!(extract_marketplace_name("https://github.com/owner/market.git"), "market");
    assert_eq!(extract_marketplace_name("market"), "market");
    assert_eq!(extract_marketplace_name("https://host/owner/"), "");
}

#[test]
fn entry_splits_at_first_hash() {
    let (name, comment) = split_entry("  tool  # one # two ");
    assert_eq!(name, "tool");
    assert_eq!(comment, Some("one # two".to_string()));
    let (name, comment) = split_entry(" plain\t");
    assert_eq!(name, "plain");
    assert_eq!(comment, None);
}

#[test]
fn catalog_passes_over_what_has_no_name() {
    let yaml = "marketplaces:\n  m:\n    source: https://h/x.git\n    plugins:\n      - 12\n      - \"  \"\n      - \"a # b\"\n      - [nested]\n";
    let catalog = parse_plugins_yaml(yaml);
    assert_eq!(catalog.len(), 1);
    assert_eq!(catalog[0].0, "m");
    assert_eq!(catalog[0].1, "https://h/x.git");
    assert_eq!(catalog[0].2, "a");
    assert_eq!(catalog[0].3, Some("b".to_string()));
}

#[test]
fn catalog_of_bad_yaml_is_empty() {
    assert_eq!(parse_plugins_yaml("a: [").len(), 0);
    assert_eq!(parse_plugins_yaml("- just\n- a list\n").len(), 0);
    assert_eq!(parse_plugins_yaml("marketplaces: 3\n").len(), 0);
    assert_eq!(parse_plugins_yaml("http://plain/x.git:\n  - a\n").len(), 0);
}
