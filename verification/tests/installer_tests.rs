use config_installer::component::Component;
use config_installer::component::ComponentType;
use config_installer::component::HookConfig;
use config_installer::component::InstallStatus;
use config_installer::installer::add_marketplace;
use config_installer::installer::create_cli_command;
use config_installer::installer::ensure_marketplace_added;
use config_installer::installer::install_component;
use config_installer::installer::install_mcp_server;
use config_installer::installer::install_plugin;
use config_installer::installer::list_command;
use config_installer::installer::mcp_status;
use config_installer::installer::plugin_status;
use config_installer::installer::mcp_install_outcome;
use config_installer::installer::mcp_remove_outcome;
use config_installer::installer::plugin_install_step;
use config_installer::installer::plugin_remove_outcome;
use config_installer::installer::remove_mcp_server;
use config_installer::installer::remove_plugin;
use config_installer::installer::Cli;
use config_installer::installer::CommandOutput;
use config_installer::installer::InstallPlan;
use config_installer::installer::PluginInstallState;
use config_installer::installer::PluginInstallStep;
use config_installer::installer::TargetCli;
use config_installer::mcp::McpScope;
use config_installer::mcp::McpServer;
use config_installer::mcp::McpServerDef;
use config_installer::mcp::McpStatus;
use config_installer::mcp::parse_mcps_yaml;
use config_installer::platform::Platform;
use config_installer::plugin::Plugin;
use config_installer::plugin::PluginDef;
use config_installer::plugin::PluginStatus;

fn cli(grammar: TargetCli, platform: Platform) -> Cli {
    Cli { grammar, program: "tool".to_string(), platform }
}

fn server(name: &str, command: Option<&str>, url: Option<&str>) -> McpServer {
    McpServer::new(
        McpServerDef {
            name: name.to_string(),
            description: String::new(),
            category: "dev".to_string(),
            command: command.map(|c| c.to_string()),
            url: url.map(|u| u.to_string()),
            env: Vec::new(),
        },
        McpStatus::NotInstalled,
    )
}

fn plugin() -> Plugin {
    Plugin::new(
        PluginDef {
            name: "lsp".to_string(),
            marketplace: "market".to_string(),
            source: "https://github.com/o/market.git".to_string(),
            comment: None,
        },
        PluginStatus::NotInstalled,
    )
}

fn output(success: bool, stdout: &str, stderr: &str) -> CommandOutput {
    CommandOutput { success, stdout: stdout.to_string(), stderr: stderr.to_string() }
}

fn strs(v: &[&str]) -> Vec<String> {
    v.iter().map(|s| s.to_string()).collect()
}

#[test]
fn launcher_is_the_shell_on_windows() {
    let inv = create_cli_command(&cli(TargetCli::Assistant, Platform::Windows));
    assert_eq!(inv.program, "cmd");
    assert_eq!(inv.args, strs(&["/c", "tool"]));
    let inv = create_cli_command(&cli(TargetCli::Codex, Platform::Linux));
    assert_eq!(inv.program, "tool");
    assert!(inv.args.is_empty());
    assert!(inv.working_dir.is_none());
}

#[test]
fn mcp_add_first_grammar_with_command() {
    let env = vec![("K".to_string(), "v 1".to_string()), ("L".to_string(), String::new())];
    let inv = install_mcp_server(
        &server("files", Some("npx  -y\tserver-files "), None),
        McpScope::Local,
        Some("/work/p"),
        &env,
        &cli(TargetCli::Assistant, Platform::Linux),
    );
    assert_eq!(inv.program, "tool");
    assert_eq!(
        inv.args,
        strs(&["mcp", "add", "--scope", "local", "files", "-e", "K=v 1", "-e", "L=", "--", "npx", "-y", "server-files"])
    );
    assert_eq!(inv.working_dir, Some("/work/p".to_string()));
}

#[test]
fn mcp_add_first_grammar_over_http() {
    let inv = install_mcp_server(
        &server("web", Some("ignored"), Some("https://h/mcp")),
        McpScope::User,
        None,
        &Vec::new(),
        &cli(TargetCli::Assistant, Platform::Windows),
    );
    assert_eq!(inv.program, "cmd");
    assert_eq!(inv.args, strs(&["/c", "tool", "mcp", "add", "--scope", "user", "web", "-t", "http", "https://h/mcp"]));
    assert!(inv.working_dir.is_none());
}

#[test]
fn mcp_add_second_grammar() {
    let env = vec![("K".to_string(), "v".to_string())];
    let inv = install_mcp_server(
        &server("files", Some("run it"), None),
        McpScope::Local,
        Some("/work/p"),
        &env,
        &cli(TargetCli::Codex, Platform::MacOs),
    );
    assert_eq!(inv.args, strs(&["mcp", "add", "--env", "K=v", "files", "--", "run", "it"]));
    assert!(inv.working_dir.is_none());
    let inv = install_mcp_server(
        &server("web", None, Some("https://h")),
        McpScope::User,
        None,
        &env,
        &cli(TargetCli::Codex, Platform::Linux),
    );
    assert_eq!(inv.args, strs(&["mcp", "add", "--env", "K=v", "web", "--url", "https://h"]));
    let inv = install_mcp_server(
        &server("bare", None, None),
        McpScope::User,
        None,
        &Vec::new(),
        &cli(TargetCli::Codex, Platform::Linux),
    );
    assert_eq!(inv.args, strs(&["mcp", "add", "bare", "--"]));
}

#[test]
fn mcp_outcomes() {
    let s = server("files", None, None);
    assert_eq!(mcp_install_outcome(&s, &output(true, "added", "")), Ok(String::new()));
    assert_eq!(
        mcp_install_outcome(&s, &output(false, "", "  no such server\n")),
        Err("Failed to install MCP server files: no such server".to_string())
    );
    assert_eq!(mcp_remove_outcome(&s, &output(true, "", "warn")), Ok(()));
    assert_eq!(
        mcp_remove_outcome(&s, &output(false, "", "\t\n")),
        Err("Failed to remove MCP server files: ".to_string())
    );
    let inv = remove_mcp_server(&s, &cli(TargetCli::Codex, Platform::Linux));
    assert_eq!(inv.args, strs(&["mcp", "remove", "files"]));
    assert!(s.status == McpStatus::NotInstalled && !s.selected && !s.is_http());
    assert_eq!(McpStatus::Installed.display(), "installed");
    assert_eq!(McpScope::User.toggled(), McpScope::Local);
    assert_eq!(McpScope::Local.toggled().display(), "user");
}

#[test]
fn plugin_invocations() {
    let c = cli(TargetCli::Assistant, Platform::Linux);
    let p = plugin();
    assert_eq!(ensure_marketplace_added(&p, &c).args, strs(&["plugin", "marketplace", "list"]));
    assert_eq!(
        add_marketplace(&p, &c).args,
        strs(&["plugin", "marketplace", "add", "https://github.com/o/market.git"])
    );
    assert_eq!(install_plugin(&p, &c).args, strs(&["plugin", "install", "lsp@market"]));
    assert_eq!(remove_plugin(&p, &c).args, strs(&["plugin", "uninstall", "lsp"]));
    let w = cli(TargetCli::Assistant, Platform::Windows);
    assert_eq!(install_plugin(&p, &w).args, strs(&["/c", "tool", "plugin", "install", "lsp@market"]));
    assert_eq!(plugin_remove_outcome(&p, &output(true, "", "")), Ok(()));
    assert_eq!(
        plugin_remove_outcome(&p, &output(false, "", " gone ")),
        Err("Failed to remove plugin lsp: gone".to_string())
    );
}

#[test]
fn unregistered_marketplace_is_added_before_install() {
    let c = cli(TargetCli::Assistant, Platform::Linux);
    let p = plugin();
    let step = plugin_install_step(&p, &c, PluginInstallState::ListingMarketplaces, &output(true, "other\n", ""));
    let add = match step {
        PluginInstallStep::Run(PluginInstallState::AddingMarketplace, inv) => inv,
        _ => panic!("the marketplace must be added first"),
    };
    assert_eq!(add.args, strs(&["plugin", "marketplace", "add", "https://github.com/o/market.git"]));
    let step = plugin_install_step(&p, &c, PluginInstallState::AddingMarketplace, &output(true, "", ""));
    let install = match step {
        PluginInstallStep::Run(PluginInstallState::Installing, inv) => inv,
        _ => panic!("the plugin must be installed next"),
    };
    assert_eq!(install.args, strs(&["plugin", "install", "lsp@market"]));
    let step = plugin_install_step(&p, &c, PluginInstallState::Installing, &output(true, "  done \n", ""));
    assert!(matches!(step, PluginInstallStep::Done(Ok(ref m)) if m == "done"));
}

#[test]
fn registered_marketplace_is_not_added_again() {
    let c = cli(TargetCli::Assistant, Platform::Linux);
    let p = plugin();
    let step = plugin_install_step(&p, &c, PluginInstallState::ListingMarketplaces, &output(true, "a\nmy-market-2\n", ""));
    match step {
        PluginInstallStep::Run(PluginInstallState::Installing, inv) => {
            assert_eq!(inv.args, strs(&["plugin", "install", "lsp@market"]));
        },
        _ => panic!("the add must be skipped"),
    }
}

#[test]
fn failed_listing_still_adds_and_failures_end_the_installation() {
    let c = cli(TargetCli::Assistant, Platform::Linux);
    let p = plugin();
    let step = plugin_install_step(&p, &c, PluginInstallState::ListingMarketplaces, &output(false, "market", "x"));
    assert!(matches!(step, PluginInstallStep::Run(PluginInstallState::AddingMarketplace, _)));
    let step = plugin_install_step(&p, &c, PluginInstallState::AddingMarketplace, &output(false, "", " denied\n"));
    assert!(matches!(step, PluginInstallStep::Done(Err(ref m)) if m == "Failed to add marketplace market: denied"));
    let step = plugin_install_step(&p, &c, PluginInstallState::Installing, &output(false, "out", "bad"));
    assert!(matches!(step, PluginInstallStep::Done(Err(ref m)) if m == "Failed to install plugin lsp: bad"));
}

fn component(kind: ComponentType, name: &str, source: &str) -> Component {
    Component::new(kind, name.to_string(), source.to_string(), "/d/x".to_string(), InstallStatus::New)
}

#[test]
fn install_plans() {
    let hook_config = HookConfig {
        name: "h".to_string(),
        event: "E".to_string(),
        hook_type: "command".to_string(),
        timeout: None,
    };
    assert_eq!(
        install_component(&component(ComponentType::Hooks, "h", "/s/hooks/h").with_hook_config(hook_config)),
        InstallPlan::CopyAndRegister { executable: false }
    );
    assert_eq!(
        install_component(&component(ComponentType::Hooks, "h.sh", "/s/hooks/h.sh")),
        InstallPlan::Copy { executable: true }
    );
    assert_eq!(
        install_component(&component(ComponentType::ConfigFile, "settings.json", "/s/config/settings.json")),
        InstallPlan::MergeSettings
    );
    assert_eq!(
        install_component(&component(ComponentType::ConfigFile, "other.json", "/s/config/other.json")),
        InstallPlan::Copy { executable: false }
    );
    assert_eq!(
        install_component(&component(ComponentType::Agents, "settings.json", "/s/agents/settings.json")),
        InstallPlan::Copy { executable: false }
    );
    assert_eq!(
        install_component(&component(ComponentType::Statusline, "line.py", "/s/statusline/line.py")),
        InstallPlan::Copy { executable: true }
    );
    assert_eq!(
        install_component(&component(ComponentType::Commands, ".sh", "/s/commands/.sh")),
        InstallPlan::Copy { executable: false }
    );
    assert_eq!(
        install_component(&component(ComponentType::Commands, "a.sh", "a.sh")),
        InstallPlan::Copy { executable: true }
    );
}

#[test]
fn listings_tell_what_is_installed() {
    let c = cli(TargetCli::Assistant, Platform::Linux);
    assert_eq!(list_command(&c, "mcp").args, strs(&["mcp", "list"]));
    assert_eq!(list_command(&c, "plugin").args, strs(&["plugin", "list"]));
    assert_eq!(mcp_status(&output(true, "files: ok\nweb: ok", ""), "web"), McpStatus::Installed);
    assert_eq!(mcp_status(&output(true, "files: ok", ""), "web"), McpStatus::NotInstalled);
    assert_eq!(mcp_status(&output(false, "web", ""), "web"), McpStatus::NotInstalled);
    assert_eq!(plugin_status(&output(true, "lsp@market", ""), "lsp"), PluginStatus::Installed);
    assert_eq!(plugin_status(&output(false, "lsp@market", ""), "lsp"), PluginStatus::NotInstalled);
}

#[test]
fn mcp_catalog_passes_over_malformed_entries() {
    let yaml = "files:\n  description: Files\n  category: dev\n  command: npx files\n  env: [KEY, 3, TOKEN]\nbroken: 12\nweb:\n  url: https://h/mcp\n  env: none\n7: {}\n";
    let defs = parse_mcps_yaml(yaml);
    assert_eq!(defs.len(), 2);
    assert_eq!(defs[0].name, "files");
    assert_eq!(defs[0].description, "Files");
    assert_eq!(defs[0].category, "dev");
    assert_eq!(defs[0].command, Some("npx files".to_string()));
    assert_eq!(defs[0].url, None);
    assert_eq!(defs[0].env, vec!["KEY".to_string(), "TOKEN".to_string()]);
    assert_eq!(defs[1].name, "web");
    assert_eq!(defs[1].url, Some("https://h/mcp".to_string()));
    assert!(defs[1].env.is_empty() && defs[1].description.is_empty());
    let under_section = parse_mcps_yaml("servers:\n  a:\n    command: run\nother: {}\n");
    assert_eq!(under_section.len(), 1);
    assert_eq!(under_section[0].name, "a");
    assert!(parse_mcps_yaml("servers: 3").is_empty());
    assert!(parse_mcps_yaml("[1]").is_empty());
    assert!(parse_mcps_yaml("a: [").is_empty());
}
