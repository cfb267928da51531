use proc_manager::app::{
    export_content, export_file_name, handle_input, initial_screen, load_logs, reload_logs, run_command,
    ActiveScreen, Effect, Input, Key, Lists, UiState,
};
use proc_manager::configuration::ThemeConfig;
use proc_manager::docker::{ContainerAction, ContainerInfo, ContainerStatus};
use proc_manager::ports::{PortInfo, Protocol};
use proc_manager::processes::ProcessRow;
use proc_manager::services::{ServiceAction, ServiceInfo, ServiceStatus};
use proc_manager::workspaces::{WorkspaceInfo, WorkspaceItem, WorkspaceItemType};

fn row(pid: u32, name: &str) -> ProcessRow {
    ProcessRow { pid, parent: None, name: name.to_string(), cpu_key: 0, memory: 0 }
}

fn lists() -> Lists {
    Lists {
        processes: vec![row(10, "node"), row(20, "Postgres"), row(30, "nginx")],
        ports: vec![PortInfo {
            protocol: Protocol::Tcp,
            local_ip: "0.0.0.0".to_string(),
            local_port: 8080,
            remote_ip: None,
            remote_port: None,
            state: "Listen".to_string(),
            pids: vec![20, 99, 10],
        }],
        services: vec![ServiceInfo {
            name: "nginx".to_string(),
            description: "web".to_string(),
            status: ServiceStatus::Running,
            is_enabled: true,
        }],
        containers: vec![ContainerInfo {
            id: "abc123".to_string(),
            name: "redis-cache".to_string(),
            image: "redis".to_string(),
            status: ContainerStatus::Running,
            state_string: "Up".to_string(),
            ports: String::new(),
        }],
        workspaces: vec![WorkspaceInfo {
            id: 1,
            name: "backend".to_string(),
            description: None,
            items: vec![
                WorkspaceItem { id: 5, item_type: WorkspaceItemType::Process, item_name: "node".to_string() },
                WorkspaceItem { id: 6, item_type: WorkspaceItemType::Service, item_name: "nginx".to_string() },
                WorkspaceItem { id: 7, item_type: WorkspaceItemType::Container, item_name: "redis".to_string() },
            ],
        }],
        server_count: 2,
    }
}

fn key(c: char) -> Input {
    Input::Key(Key::Char(c))
}

fn notes(e: &[Effect]) -> Vec<String> {
    e.iter()
        .filter_map(|x| match x {
            Effect::Notify(m) => Some(m.clone()),
            _ => None,
        })
        .collect()
}

#[test]
fn default_view_picks_the_first_screen() {
    let t = Some(ThemeConfig { default_view: Some("DockerList".to_string()) });
    assert_eq!(initial_screen(&t), ActiveScreen::DockerList);
    let t = Some(ThemeConfig { default_view: Some("Nonsense".to_string()) });
    assert_eq!(initial_screen(&t), ActiveScreen::ProcessList);
    assert_eq!(initial_screen(&None), ActiveScreen::ProcessList);
}

#[test]
fn v_cycles_through_the_five_lists() {
    let l = lists();
    let mut ui = UiState::new(ActiveScreen::ProcessList);
    let mut seen = Vec::new();
    for _ in 0..5 {
        handle_input(&mut ui, &l, key('V'));
        seen.push(ui.active_screen);
    }
    assert_eq!(
        seen,
        vec![
            ActiveScreen::ServiceList,
            ActiveScreen::DockerList,
            ActiveScreen::WorkspaceList,
            ActiveScreen::PortList,
            ActiveScreen::ProcessList
        ]
    );
    let mut ui = UiState::new(ActiveScreen::ServerList);
    handle_input(&mut ui, &l, key('v'));
    assert_eq!(ui.active_screen, ActiveScreen::ProcessList);
}

#[test]
fn v_is_typed_while_searching() {
    let l = lists();
    let mut ui = UiState::new(ActiveScreen::ProcessList);
    handle_input(&mut ui, &l, key('/'));
    let e = handle_input(&mut ui, &l, key('v'));
    assert_eq!(ui.active_screen, ActiveScreen::ProcessList);
    assert_eq!(ui.process_list.search_query, "v");
    assert!(matches!(e.as_slice(), [Effect::RefreshProcesses]));
    let e = handle_input(&mut ui, &l, Input::Key(Key::Enter));
    assert!(e.is_empty());
    assert!(!ui.process_list.is_searching);
}

#[test]
fn palette_kill_finds_a_process_by_name() {
    let l = lists();
    let mut ui = UiState::new(ActiveScreen::ProcessList);
    handle_input(&mut ui, &l, key(':'));
    assert!(ui.is_command_palette);
    for c in "KILL post".chars() {
        handle_input(&mut ui, &l, key(c));
    }
    let e = handle_input(&mut ui, &l, Input::Key(Key::Enter));
    assert!(!ui.is_command_palette);
    assert_eq!(ui.command_prompt_text, "");
    assert!(matches!(e[0], Effect::KillProcess(20)));
    assert_eq!(notes(&e), vec!["Killed process Postgres (20)".to_string()]);
}

#[test]
fn palette_reports_what_it_cannot_find() {
    let l = lists();
    let mut ui = UiState::new(ActiveScreen::ProcessList);
    let e = run_command(&mut ui, &l, "kill mysql");
    assert_eq!(notes(&e), vec!["Process 'mysql' not found".to_string()]);
    let e = run_command(&mut ui, &l, "restart Mongo DB");
    assert_eq!(notes(&e), vec!["Target 'mongo db' not found in containers or services".to_string()]);
    let e = run_command(&mut ui, &l, "logs zzz");
    assert_eq!(notes(&e), vec!["Logs for 'zzz' not found".to_string()]);
    let e = run_command(&mut ui, &l, "Frobnicate now");
    assert_eq!(notes(&e), vec!["Unknown command: frobnicate".to_string()]);
    let e = run_command(&mut ui, &l, "   ");
    assert!(e.is_empty());
    assert!(!ui.should_quit);
    run_command(&mut ui, &l, "Q");
    assert!(ui.should_quit);
}

#[test]
fn palette_restart_prefers_containers() {
    let l = lists();
    let mut ui = UiState::new(ActiveScreen::ProcessList);
    let e = run_command(&mut ui, &l, "restart redis");
    assert!(matches!(&e[0], Effect::Container(ContainerAction::Restart, n) if n == "redis-cache"));
    assert_eq!(notes(&e), vec!["Restarted container redis-cache".to_string()]);
    let e = run_command(&mut ui, &l, "restart ngin");
    assert!(matches!(&e[0], Effect::Service(ServiceAction::Restart, n) if n == "nginx"));
    assert_eq!(notes(&e), vec!["Restarted service nginx".to_string()]);
}

#[test]
fn palette_logs_open_the_log_screen() {
    let l = lists();
    let mut ui = UiState::new(ActiveScreen::DockerList);
    let e = run_command(&mut ui, &l, "logs REDIS");
    assert_eq!(ui.active_screen, ActiveScreen::LogView);
    assert_eq!(ui.previous_screen, ActiveScreen::DockerList);
    assert_eq!(ui.log_view.title, "redis-cache");
    assert_eq!(ui.log_view.container_id, Some("abc123".to_string()));
    assert!(matches!(&e[0], Effect::LoadContainerLogs { id, fallback: false } if id == "abc123"));
    handle_input(&mut ui, &l, Input::Key(Key::Esc));
    assert_eq!(ui.active_screen, ActiveScreen::DockerList);
}

#[test]
fn port_kill_kills_the_shown_holders() {
    let l = lists();
    let mut ui = UiState::new(ActiveScreen::PortList);
    handle_input(&mut ui, &l, Input::Key(Key::Down));
    let e = handle_input(&mut ui, &l, key('K'));
    assert_eq!(e.len(), 5);
    assert!(matches!(e[0], Effect::KillProcess(20)));
    assert!(matches!(e[2], Effect::KillProcess(10)));
    assert!(matches!(e[4], Effect::RefreshPorts));
    assert_eq!(
        notes(&e),
        vec!["Killed process 20 holding port 8080".to_string(), "Killed process 10 holding port 8080".to_string()]
    );
    handle_input(&mut ui, &l, Input::Key(Key::Enter));
    assert_eq!(ui.active_screen, ActiveScreen::ProcessDetails);
    assert_eq!(ui.selected_process_pid, Some(20));
}

#[test]
fn workspace_start_and_kill() {
    let l = lists();
    let mut ui = UiState::new(ActiveScreen::WorkspaceList);
    assert!(handle_input(&mut ui, &l, key('S')).is_empty());
    handle_input(&mut ui, &l, key('j'));
    let e = handle_input(&mut ui, &l, key('S'));
    assert_eq!(e.len(), 3);
    assert!(matches!(&e[0], Effect::Service(ServiceAction::Start, n) if n == "nginx"));
    assert!(matches!(&e[1], Effect::Container(ContainerAction::Start, n) if n == "redis"));
    assert_eq!(notes(&e), vec!["Sent Start to 3 items".to_string()]);
    let e = handle_input(&mut ui, &l, key('K'));
    assert_eq!(e.len(), 4);
    assert!(matches!(&e[0], Effect::KillProcessesNamed(n) if n == "node"));
    assert_eq!(notes(&e), vec!["Sent Kill/Stop to 3 items".to_string()]);
}

#[test]
fn workspace_delete_item_or_workspace() {
    let l = lists();
    let mut ui = UiState::new(ActiveScreen::WorkspaceList);
    handle_input(&mut ui, &l, key('j'));
    let e = handle_input(&mut ui, &l, key('D'));
    assert!(matches!(e[0], Effect::DeleteWorkspace(1)));
    assert_eq!(notes(&e), vec!["Deleted workspace 'backend'".to_string()]);
    handle_input(&mut ui, &l, Input::Key(Key::Tab));
    handle_input(&mut ui, &l, key('j'));
    handle_input(&mut ui, &l, key('j'));
    assert_eq!(ui.workspace_list.item_selected, Some(1));
    let e = handle_input(&mut ui, &l, key('D'));
    assert!(matches!(e[0], Effect::RemoveWorkspaceItem(6)));
    assert_eq!(notes(&e), vec!["Removed nginx from workspace".to_string()]);
    assert_eq!(ui.workspace_list.item_selected, None);
}

#[test]
fn new_workspace_prompt() {
    let l = lists();
    let mut ui = UiState::new(ActiveScreen::WorkspaceList);
    handle_input(&mut ui, &l, key('n'));
    assert!(ui.is_prompting_workspace);
    let e = handle_input(&mut ui, &l, Input::Key(Key::Enter));
    assert!(e.is_empty());
    assert!(!ui.is_prompting_workspace);
    handle_input(&mut ui, &l, key('N'));
    for c in "devx".chars() {
        handle_input(&mut ui, &l, key(c));
    }
    handle_input(&mut ui, &l, Input::Key(Key::Backspace));
    let e = handle_input(&mut ui, &l, Input::Key(Key::Enter));
    assert!(matches!(&e[0], Effect::CreateWorkspace(n) if n == "dev"));
}

#[test]
fn service_keys_ask_and_announce() {
    let l = lists();
    let mut ui = UiState::new(ActiveScreen::ServiceList);
    assert!(handle_input(&mut ui, &l, key('S')).is_empty());
    handle_input(&mut ui, &l, key('j'));
    let e = handle_input(&mut ui, &l, key('E'));
    assert!(matches!(&e[0], Effect::Service(ServiceAction::Enable, n) if n == "nginx"));
    assert_eq!(notes(&e), vec!["Enabled service nginx".to_string()]);
    let e = handle_input(&mut ui, &l, key('w'));
    assert!(matches!(&e[0], Effect::AddToWorkspace { item_type: WorkspaceItemType::Service, create_default: false, .. }));
    let e = handle_input(&mut ui, &l, key('L'));
    assert!(matches!(&e[0], Effect::LoadServiceLogs { fallback: true, .. }));
    assert_eq!(ui.active_screen, ActiveScreen::LogView);
    assert_eq!(ui.log_view.service_name, Some("nginx".to_string()));
}

#[test]
fn process_keys_sort_and_toggle_the_tree() {
    let l = lists();
    let mut ui = UiState::new(ActiveScreen::ProcessList);
    let e = handle_input(&mut ui, &l, key('t'));
    assert!(ui.process_list.is_tree_view);
    assert_eq!(notes(&e), vec!["Tree view enabled".to_string()]);
    let e = handle_input(&mut ui, &l, key('T'));
    assert_eq!(notes(&e), vec!["Tree view disabled".to_string()]);
    handle_input(&mut ui, &l, key('m'));
    handle_input(&mut ui, &l, key('r'));
    assert!(!ui.process_list.sort_descending);
    handle_input(&mut ui, &l, key('q'));
    assert!(ui.should_quit);
}

#[test]
fn details_kill_goes_back_to_the_list() {
    let l = lists();
    let mut ui = UiState::new(ActiveScreen::ProcessList);
    handle_input(&mut ui, &l, key('j'));
    handle_input(&mut ui, &l, key('j'));
    handle_input(&mut ui, &l, Input::Key(Key::Enter));
    assert_eq!(ui.active_screen, ActiveScreen::ProcessDetails);
    let e = handle_input(&mut ui, &l, key('K'));
    assert!(matches!(e[0], Effect::KillProcess(20)));
    assert_eq!(notes(&e), vec!["Sent Kill to process 20".to_string()]);
    assert_eq!(ui.active_screen, ActiveScreen::ProcessList);
}

#[test]
fn log_screen_keys() {
    let l = lists();
    let mut ui = UiState::new(ActiveScreen::ServiceList);
    handle_input(&mut ui, &l, key('j'));
    handle_input(&mut ui, &l, key('l'));
    load_logs(&mut ui, None, true);
    assert_eq!(ui.log_view.logs, vec!["Could not fetch logs or not supported.".to_string()]);
    let e = handle_input(&mut ui, &l, key('f'));
    assert_eq!(notes(&e), vec!["Auto-scroll: OFF".to_string()]);
    let e = handle_input(&mut ui, &l, key('F'));
    assert_eq!(notes(&e), vec!["Auto-scroll: ON".to_string()]);
    let e = handle_input(&mut ui, &l, key('r'));
    assert!(matches!(&e[0], Effect::ReloadServiceLogs(n) if n == "nginx"));
    let e = reload_logs(&mut ui, Some(vec!["a".to_string(), "b".to_string()]), false);
    assert_eq!(notes(&e), vec!["Refreshed service logs".to_string()]);
    assert_eq!(export_content(&ui.log_view), "a\nb");
    let e = handle_input(&mut ui, &l, key('c'));
    assert_eq!(notes(&e), vec!["Log buffer cleared".to_string()]);
    assert!(ui.log_view.logs.is_empty());
    let e = handle_input(&mut ui, &l, key('e'));
    assert!(matches!(e[0], Effect::ExportLogs));
    handle_input(&mut ui, &l, Input::Key(Key::Backspace));
    assert_eq!(ui.active_screen, ActiveScreen::ServiceList);
}

#[test]
fn export_file_name_replaces_spaces() {
    let mut ui = UiState::new(ActiveScreen::LogView);
    ui.log_view.title = "my app".to_string();
    assert_eq!(export_file_name(&ui.log_view), "my_app.log");
}

#[test]
fn mouse_wheel_moves_and_scrolls() {
    let l = lists();
    let mut ui = UiState::new(ActiveScreen::ProcessList);
    handle_input(&mut ui, &l, Input::ScrollDown);
    handle_input(&mut ui, &l, Input::ScrollDown);
    assert_eq!(ui.process_list.selected, Some(1));
    handle_input(&mut ui, &l, Input::ScrollUp);
    assert_eq!(ui.process_list.selected, Some(0));
    let mut ui = UiState::new(ActiveScreen::ServerList);
    handle_input(&mut ui, &l, Input::ScrollUp);
    handle_input(&mut ui, &l, Input::ScrollUp);
    assert_eq!(ui.server_list.selected, Some(1));
    let e = handle_input(&mut ui, &l, Input::Key(Key::Enter));
    assert!(matches!(e[0], Effect::ConnectServer(1)));
}

#[test]
fn docker_keys_ask_the_daemon() {
    let l = lists();
    let mut ui = UiState::new(ActiveScreen::DockerList);
    handle_input(&mut ui, &l, key('j'));
    let e = handle_input(&mut ui, &l, key('R'));
    assert!(matches!(&e[0], Effect::Container(ContainerAction::Restart, n) if n == "redis-cache"));
    assert_eq!(notes(&e), vec!["Restarting container redis-cache".to_string()]);
    let e = handle_input(&mut ui, &l, key('e'));
    assert!(matches!(&e[0], Effect::OpenShell(n) if n == "redis-cache"));
}

#[test]
fn escape_closes_the_palette_emptied() {
    let l = lists();
    let mut ui = UiState::new(ActiveScreen::ServiceList);
    handle_input(&mut ui, &l, key(':'));
    handle_input(&mut ui, &l, key('k'));
    let e = handle_input(&mut ui, &l, Input::Key(Key::Esc));
    assert!(e.is_empty());
    assert!(!ui.is_command_palette);
    assert_eq!(ui.command_prompt_text, "");
    assert_eq!(ui.active_screen, ActiveScreen::ServiceList);
}

#[test]
fn search_typing_then_backspace_restores_the_query() {
    let l = lists();
    let mut ui = UiState::new(ActiveScreen::PortList);
    handle_input(&mut ui, &l, key('/'));
    handle_input(&mut ui, &l, key('8'));
    let e = handle_input(&mut ui, &l, Input::Key(Key::Backspace));
    assert!(matches!(e.as_slice(), [Effect::RefreshPorts]));
    assert_eq!(ui.port_list.search_query, "");
    assert!(ui.port_list.is_searching);
}

#[test]
fn esc_and_capital_q_quit_the_process_list() {
    let l = lists();
    let mut ui = UiState::new(ActiveScreen::ProcessList);
    handle_input(&mut ui, &l, Input::Key(Key::Esc));
    assert!(ui.should_quit);
    let mut ui = UiState::new(ActiveScreen::ProcessList);
    handle_input(&mut ui, &l, key('Q'));
    assert!(ui.should_quit);
}

#[test]
fn capital_q_goes_back() {
    let l = lists();
    for screen in [
        ActiveScreen::ServiceList,
        ActiveScreen::DockerList,
        ActiveScreen::WorkspaceList,
        ActiveScreen::PortList,
        ActiveScreen::ServerList,
        ActiveScreen::ProcessDetails,
    ] {
        let mut ui = UiState::new(screen);
        handle_input(&mut ui, &l, key('Q'));
        assert_eq!(ui.active_screen, ActiveScreen::ProcessList);
        assert!(!ui.should_quit);
    }
    let mut ui = UiState::new(ActiveScreen::DockerList);
    run_command(&mut ui, &l, "logs redis");
    handle_input(&mut ui, &l, key('Q'));
    assert_eq!(ui.active_screen, ActiveScreen::DockerList);
}

#[test]
fn s_stops_what_runs_and_starts_what_does_not() {
    let mut l = lists();
    let mut ui = UiState::new(ActiveScreen::DockerList);
    handle_input(&mut ui, &l, key('j'));
    let e = handle_input(&mut ui, &l, key('S'));
    assert!(matches!(&e[0], Effect::Container(ContainerAction::Stop, n) if n == "redis-cache"));
    assert_eq!(notes(&e), vec!["Stopping container redis-cache".to_string()]);
    l.containers[0].status = ContainerStatus::Exited;
    let e = handle_input(&mut ui, &l, key('S'));
    assert!(matches!(&e[0], Effect::Container(ContainerAction::Start, _)));
    assert_eq!(notes(&e), vec!["Starting container redis-cache".to_string()]);
    let mut ui = UiState::new(ActiveScreen::ServiceList);
    handle_input(&mut ui, &l, key('j'));
    let e = handle_input(&mut ui, &l, key('S'));
    assert!(matches!(&e[0], Effect::Service(ServiceAction::Stop, n) if n == "nginx"));
    assert_eq!(notes(&e), vec!["Stopping service nginx".to_string()]);
    l.services[0].status = ServiceStatus::Failed;
    let e = handle_input(&mut ui, &l, key('S'));
    assert!(matches!(&e[0], Effect::Service(ServiceAction::Start, _)));
    assert_eq!(notes(&e), vec!["Starting service nginx".to_string()]);
}

#[test]
fn log_filter_shows_matching_lines() {
    let l = lists();
    let mut ui = UiState::new(ActiveScreen::ServiceList);
    handle_input(&mut ui, &l, key('j'));
    handle_input(&mut ui, &l, key('l'));
    load_logs(
        &mut ui,
        Some((0..12).map(|i| if i % 3 == 0 { format!("error {}", i) } else { format!("ok {}", i) }).collect()),
        true,
    );
    assert_eq!(ui.log_view.shown_lines().len(), 12);
    handle_input(&mut ui, &l, key('/'));
    for c in "error".chars() {
        handle_input(&mut ui, &l, key(c));
    }
    handle_input(&mut ui, &l, Input::Key(Key::Enter));
    assert_eq!(ui.log_view.shown_lines(), vec!["error 0", "error 3", "error 6", "error 9"]);
    ui.log_view.fit_scroll(2);
    assert_eq!(ui.log_view.scroll, 2);
    ui.log_view.fit_scroll(10);
    assert_eq!(ui.log_view.scroll, 0);
}

#[test]
fn palette_opens_the_server_list() {
    let l = lists();
    let mut ui = UiState::new(ActiveScreen::PortList);
    handle_input(&mut ui, &l, key(':'));
    for c in "Servers".chars() {
        handle_input(&mut ui, &l, key(c));
    }
    let e = handle_input(&mut ui, &l, Input::Key(Key::Enter));
    assert!(e.is_empty());
    assert_eq!(ui.active_screen, ActiveScreen::ServerList);
    assert!(!ui.is_command_palette);
}
