use config_installer::app::Action;
use config_installer::app::App;
use config_installer::app::QueueEntry;
use config_installer::app::Screen;
use config_installer::app::StepOutcome;
use config_installer::app::Tab;
use config_installer::app::Target;
use config_installer::app::TickAction;
use config_installer::app::MAX_LOG_LINES;
use config_installer::component::Component;
use config_installer::component::ComponentType;
use config_installer::component::InstallStatus;
use config_installer::input::get_spinner;
use config_installer::input::handle_diff_input;
use config_installer::input::handle_env_input;
use config_installer::input::handle_installing_input;
use config_installer::input::handle_list_input;
use config_installer::input::handle_project_path_input;
use config_installer::input::Effect;
use config_installer::input::Key;
use config_installer::mcp::McpScope;
use config_installer::mcp::McpServer;
use config_installer::mcp::McpServerDef;
use config_installer::mcp::McpStatus;
use config_installer::plugin::Plugin;
use config_installer::plugin::PluginDef;
use config_installer::plugin::PluginStatus;

fn component(kind: ComponentType, name: &str, status: InstallStatus) -> Component {
    Component::new(kind, name.to_string(), format!("/s/{}", name), format!("/d/{}", name), status)
}

fn server(name: &str, env: &[&str]) -> McpServer {
    McpServer::new(
        McpServerDef {
            name: name.to_string(),
            description: String::new(),
            category: String::new(),
            command: Some("run".to_string()),
            url: None,
            env: env.iter().map(|e| e.to_string()).collect(),
        },
        McpStatus::NotInstalled,
    )
}

fn plugin(name: &str) -> Plugin {
    Plugin::new(
        PluginDef { name: name.to_string(), marketplace: "m".to_string(), source: "s".to_string(), comment: None },
        PluginStatus::NotInstalled,
    )
}

fn app() -> App {
    App::new(
        vec![
            component(ComponentType::Agents, "a.md", InstallStatus::New),
            component(ComponentType::Commands, "c.md", InstallStatus::Modified),
            component(ComponentType::Agents, "b.md", InstallStatus::Unchanged),
            component(ComponentType::OutputStyles, "calm.md", InstallStatus::New),
            component(ComponentType::Statusline, "line.sh", InstallStatus::New),
        ],
        vec![server("one", &["KEY", "TOKEN"]), server("two", &["KEY"]), server("three", &[])],
        vec![plugin("p1"), plugin("p2")],
    )
}

fn press(app: &mut App, c: char) -> Effect {
    handle_list_input(app, Key::Char(c), false)
}

#[test]
fn tabs_wrap_and_reset_the_cursor() {
    let mut a = app();
    assert_eq!(a.tab, Tab::Agents);
    a.next_item();
    assert_eq!(a.list_index, 1);
    a.next_tab();
    assert_eq!((a.tab, a.list_index), (Tab::Commands, 0));
    a.prev_tab();
    a.prev_tab();
    assert_eq!(a.tab, Tab::Plugins);
    a.next_tab();
    assert_eq!(a.tab, Tab::Agents);
    a.set_tab(9);
    assert_eq!(a.tab, Tab::McpServers);
    a.set_tab(11);
    assert_eq!(a.tab, Tab::McpServers);
    assert_eq!(Tab::all().len(), 11);
    assert_eq!(Tab::Config.index(), 8);
    assert_eq!(Tab::from_index(6), Some(Tab::OutputStyles));
    assert_eq!(Tab::OutputStyles.display_name(), "Output Styles");
    assert_eq!(Tab::Config.component_type(), Some(ComponentType::ConfigFile));
    assert_eq!(Tab::Plugins.component_type(), None);
}

#[test]
fn cursor_stops_at_the_ends() {
    let mut a = app();
    assert_eq!(a.current_len(), 2);
    a.prev_item();
    assert_eq!(a.list_index, 0);
    a.next_item();
    a.next_item();
    a.next_item();
    assert_eq!(a.list_index, 1);
    assert_eq!(a.selected_component_index(), Some(2));
    a.set_tab(9);
    assert_eq!(a.current_len(), 3);
    a.next_item();
    a.next_item();
    a.next_item();
    assert_eq!(a.mcp_index, 2);
    a.prev_item();
    assert_eq!(a.mcp_index, 1);
    a.set_tab(10);
    a.next_item();
    a.next_item();
    assert_eq!(a.plugin_index, 1);
    a.set_tab(2);
    assert_eq!(a.current_len(), 0);
    a.next_item();
    assert_eq!(a.list_index, 0);
    assert_eq!(a.selected_component_index(), None);
}

#[test]
fn selection_applies_to_the_current_tab_only() {
    let mut a = app();
    assert!(a.components[0].selected && a.components[1].selected && !a.components[2].selected);
    a.deselect_all();
    assert!(!a.components[0].selected && !a.components[2].selected);
    assert!(a.components[1].selected && a.components[3].selected);
    a.select_all();
    assert!(a.components[0].selected && a.components[2].selected);
    a.next_item();
    a.toggle_selected();
    assert!(a.components[0].selected && !a.components[2].selected);
    a.set_tab(9);
    a.toggle_selected();
    assert!(a.mcp_servers[0].selected && !a.mcp_servers[1].selected);
    a.select_all();
    assert!(a.mcp_servers.iter().all(|s| s.selected));
    assert!(!a.plugins[0].selected);
    a.set_tab(10);
    a.next_item();
    a.toggle_selected();
    assert!(!a.plugins[0].selected && a.plugins[1].selected);
    a.set_tab(2);
    a.toggle_selected();
    a.select_all();
    assert!(!a.components[2].selected);
}

#[test]
fn install_queues_the_selection_of_the_tab() {
    let mut a = app();
    a.select_all();
    a.install_selected();
    assert_eq!(a.current_view, Screen::Installing);
    assert_eq!(
        a.processing_queue,
        vec![
            QueueEntry { target: Target::Component(0), action: Action::Install },
            QueueEntry { target: Target::Component(2), action: Action::Install },
        ]
    );
    assert_eq!((a.processing_progress, a.processing_total), (0, 2));
    assert!(!a.is_removing && !a.processing_complete && a.processing_log.is_empty());
}

#[test]
fn nothing_selected_queues_nothing() {
    let mut a = app();
    a.set_tab(10);
    a.remove_selected();
    assert_eq!(a.current_view, Screen::List);
    assert!(a.processing_queue.is_empty());
    assert_eq!(a.status_message, Some("No items selected".to_string()));
}

#[test]
fn local_scope_without_project_path_asks_for_the_path() {
    let mut a = app();
    a.set_tab(9);
    a.next_item();
    a.next_item();
    a.toggle_selected();
    a.toggle_mcp_scope();
    assert_eq!(a.mcp_scope, McpScope::Local);
    a.install_selected();
    assert_eq!(a.current_view, Screen::ProjectPath);
    assert!(a.processing_queue.is_empty());
    assert!(a.project_path.is_none());
    for c in "/w/px".chars() {
        handle_project_path_input(&mut a, Key::Char(c));
    }
    handle_project_path_input(&mut a, Key::Backspace);
    handle_project_path_input(&mut a, Key::Other);
    assert_eq!(a.project_path_buffer, "/w/p");
    handle_project_path_input(&mut a, Key::Enter);
    assert_eq!(a.project_path, Some("/w/p".to_string()));
    assert_eq!(a.current_view, Screen::Installing);
    assert_eq!(a.processing_queue, vec![QueueEntry { target: Target::Mcp(2), action: Action::Install }]);
}

#[test]
fn project_path_can_be_given_up_or_left_empty() {
    let mut a = app();
    a.set_tab(9);
    a.toggle_selected();
    a.toggle_mcp_scope();
    a.install_selected();
    handle_project_path_input(&mut a, Key::Enter);
    assert_eq!(a.current_view, Screen::ProjectPath);
    handle_project_path_input(&mut a, Key::Backspace);
    assert_eq!(a.project_path_buffer, "");
    handle_project_path_input(&mut a, Key::Esc);
    assert_eq!(a.current_view, Screen::List);
    assert_eq!(a.mcp_scope, McpScope::User);
    assert!(a.project_path.is_none());
}

#[test]
fn variables_are_asked_for_once_each() {
    let mut a = app();
    a.set_tab(9);
    a.select_all();
    assert_eq!(a.missing_env(), vec!["KEY".to_string(), "TOKEN".to_string()]);
    a.install_selected();
    assert_eq!(a.current_view, Screen::EnvInput);
    assert_eq!(a.env_pending, vec!["KEY".to_string(), "TOKEN".to_string()]);
    handle_env_input(&mut a, Key::Char('v'));
    handle_env_input(&mut a, Key::Char('x'));
    handle_env_input(&mut a, Key::Backspace);
    handle_env_input(&mut a, Key::Enter);
    assert_eq!(a.env_values, vec![("KEY".to_string(), "v".to_string())]);
    assert_eq!(a.env_pending, vec!["TOKEN".to_string()]);
    assert_eq!(a.current_view, Screen::EnvInput);
    handle_env_input(&mut a, Key::Enter);
    assert_eq!(a.env_values.len(), 2);
    assert_eq!(a.env_values[1], ("TOKEN".to_string(), String::new()));
    assert_eq!(a.current_view, Screen::Installing);
    assert_eq!(a.processing_total, 3);
    assert!(a.missing_env().is_empty());
}

#[test]
fn entering_values_can_be_given_up() {
    let mut a = app();
    a.set_tab(9);
    a.toggle_selected();
    a.install_selected();
    handle_env_input(&mut a, Key::Char('z'));
    handle_env_input(&mut a, Key::Esc);
    assert_eq!(a.current_view, Screen::List);
    assert!(a.env_pending.is_empty() && a.env_values.is_empty());
    assert_eq!(a.env_buffer, "");
    handle_env_input(&mut a, Key::Enter);
    assert!(a.env_values.is_empty());
}

#[test]
fn queue_is_worked_one_entry_per_step() {
    let mut a = app();
    a.select_all();
    a.remove_selected();
    assert!(a.is_removing);
    assert_eq!(a.installing_action(), TickAction::ProcessStep);
    assert_eq!(a.next_step(), Some(QueueEntry { target: Target::Component(0), action: Action::Remove }));
    a.close_processing();
    handle_installing_input(&mut a, Key::Char('q'));
    assert_eq!(a.current_view, Screen::Installing);
    a.finish_step(&StepOutcome::Done("a.md".to_string()));
    assert_eq!((a.processing_progress, a.processing_queue.len()), (1, 1));
    assert!(!a.needs_refresh);
    a.finish_step(&StepOutcome::Failed("b.md: denied".to_string()));
    assert_eq!(a.processing_log, vec!["[OK] a.md".to_string(), "[ERR] b.md: denied".to_string()]);
    assert!(a.needs_refresh && a.processing_queue.is_empty());
    assert_eq!(a.next_step(), None);
    a.finish_step(&StepOutcome::Skipped("late".to_string()));
    assert_eq!(a.processing_log.len(), 2);
    assert_eq!(StepOutcome::Skipped("late".to_string()).log_text(), "[SKIP] late");
    assert_eq!(a.installing_action(), TickAction::StartRefresh);
    a.start_refresh();
    assert_eq!(a.installing_action(), TickAction::PollRefresh);
    a.mcp_index = 2;
    a.apply_refresh_result(vec![component(ComponentType::Rules, "r.md", InstallStatus::Unchanged)], Vec::new(), vec![plugin("p")]);
    assert!(a.processing_complete && !a.needs_refresh && !a.refreshing);
    assert_eq!((a.components.len(), a.mcp_servers.len(), a.plugins.len()), (1, 0, 1));
    assert_eq!(a.mcp_index, 0);
    assert_eq!(a.installing_action(), TickAction::Idle);
    handle_installing_input(&mut a, Key::Other);
    assert_eq!(a.current_view, Screen::Installing);
    handle_installing_input(&mut a, Key::Enter);
    assert_eq!(a.current_view, Screen::List);
    assert!(!a.processing_complete);
}

#[test]
fn failed_refresh_ends_the_processing() {
    let mut a = app();
    a.install_selected();
    a.finish_step(&StepOutcome::Done("x".to_string()));
    a.start_refresh();
    a.refresh_failed("disk gone");
    assert_eq!(a.processing_log.last().unwrap(), "[ERROR] Refresh failed: disk gone");
    assert!(a.processing_complete && !a.needs_refresh && !a.refreshing);
    assert_eq!(a.installing_action(), TickAction::Idle);
}

#[test]
fn log_is_bounded() {
    let mut a = app();
    a.processing_queue =
        (0..MAX_LOG_LINES + 5).map(|i| QueueEntry { target: Target::Plugin(i), action: Action::Install }).collect();
    a.current_view = Screen::Installing;
    for i in 0..MAX_LOG_LINES + 5 {
        a.finish_step(&StepOutcome::Done(i.to_string()));
    }
    assert_eq!(a.processing_log.len(), MAX_LOG_LINES);
    assert_eq!(a.processing_log[0], "[OK] 5");
    assert_eq!(a.processing_log.last().unwrap(), &format!("[OK] {}", MAX_LOG_LINES + 4));
}

#[test]
fn list_keys() {
    let mut a = app();
    assert!(matches!(handle_list_input(&mut a, Key::Tab, false), Effect::Nothing));
    assert_eq!(a.tab, Tab::Commands);
    handle_list_input(&mut a, Key::Tab, true);
    handle_list_input(&mut a, Key::BackTab, false);
    assert_eq!(a.tab, Tab::Plugins);
    press(&mut a, '1');
    assert_eq!(a.tab, Tab::Agents);
    handle_list_input(&mut a, Key::Down, false);
    assert!(matches!(press(&mut a, 'd'), Effect::ShowDiff(2)));
    assert_eq!(a.current_view, Screen::List);
    press(&mut a, 'k');
    assert!(matches!(handle_list_input(&mut a, Key::Enter, false), Effect::ShowDiff(0)));
    press(&mut a, ' ');
    assert!(!a.components[0].selected);
    press(&mut a, 'a');
    assert!(a.components[0].selected && a.components[2].selected);
    press(&mut a, 'n');
    assert!(!a.components[0].selected && !a.components[2].selected);
    press(&mut a, 'o');
    assert_eq!(a.mcp_scope, McpScope::User);
    assert!(matches!(press(&mut a, 's'), Effect::Nothing));
    press(&mut a, '7');
    assert!(matches!(press(&mut a, 's'), Effect::SetOutputStyle(ref n) if n == "calm"));
    assert_eq!(a.current_output_style, Some("calm".to_string()));
    press(&mut a, '8');
    assert!(matches!(press(&mut a, 's'), Effect::SetStatusline(ref n) if n == "line.sh"));
    assert_eq!(a.current_statusline, Some("line.sh".to_string()));
    press(&mut a, '9');
    assert_eq!(a.tab, Tab::Config);
    assert!(matches!(press(&mut a, 'd'), Effect::Nothing));
    a.set_tab(9);
    press(&mut a, 'o');
    assert_eq!(a.mcp_scope, McpScope::Local);
    press(&mut a, 'x');
    handle_list_input(&mut a, Key::Esc, false);
    press(&mut a, 'j');
    press(&mut a, ' ');
    press(&mut a, 'r');
    assert_eq!(a.processing_queue, vec![QueueEntry { target: Target::Mcp(1), action: Action::Remove }]);
    let mut b = app();
    press(&mut b, 'i');
    assert_eq!(b.current_view, Screen::Installing);
    let mut c = app();
    press(&mut c, 'q');
    assert!(c.should_quit);
}

#[test]
fn diff_keys() {
    let mut a = app();
    a.show_diff("+x".to_string());
    assert_eq!(a.current_view, Screen::Diff);
    handle_diff_input(&mut a, Key::Up);
    assert_eq!(a.diff_scroll, 0);
    handle_diff_input(&mut a, Key::Down);
    handle_diff_input(&mut a, Key::Char('j'));
    handle_diff_input(&mut a, Key::Char('k'));
    handle_diff_input(&mut a, Key::Char('z'));
    assert_eq!(a.diff_scroll, 1);
    handle_diff_input(&mut a, Key::Esc);
    assert_eq!(a.current_view, Screen::List);
    assert!(a.diff_content.is_none());
    a.set_tab(10);
    a.show_diff("+y".to_string());
    assert_eq!(a.current_view, Screen::List);
    a.set_tab(0);
    a.show_diff("+y".to_string());
    handle_diff_input(&mut a, Key::Char('q'));
    assert_eq!(a.current_view, Screen::List);
}

#[test]
fn spinner_repeats_after_ten_frames() {
    assert_eq!(get_spinner(0), "⠋");
    assert_eq!(get_spinner(3), "⠸");
    assert_eq!(get_spinner(9), "⠏");
    assert_eq!(get_spinner(10), "⠋");
    assert_eq!(get_spinner(27), "⠧");
    let mut a = app();
    a.tick();
    a.tick();
    assert_eq!(a.animation_frame, 2);
    a.animation_frame = usize::MAX;
    a.tick();
    assert_eq!(a.animation_frame, 0);
}
