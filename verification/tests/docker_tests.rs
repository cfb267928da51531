use proc_manager::docker::{
    container_info, shell_command, ContainerAction, ContainerStatus, ContainerSummary, DockerManager, PortMapping,
};
use proc_manager::errors::AppError;

fn summary() -> ContainerSummary {
    ContainerSummary {
        id: Some("0123456789abcdef".to_string()),
        names: Some(vec!["/web".to_string(), "/alias".to_string()]),
        image: Some("nginx:latest".to_string()),
        state: Some("RUNNING".to_string()),
        status: Some("Up 3 hours".to_string()),
        ports: Some(vec![
            PortMapping { ip: Some("0.0.0.0".to_string()), public_port: Some(8080), private_port: 80, typ: Some("TCP".to_string()) },
            PortMapping { ip: None, public_port: None, private_port: 443, typ: Some("TCP".to_string()) },
        ]),
    }
}

#[test]
fn container_rows_are_built_from_the_listing() {
    let c = container_info(&summary());
    assert_eq!(c.id, "0123456789ab");
    assert_eq!(c.name, "web, alias");
    assert_eq!(c.image, "nginx:latest");
    assert_eq!(c.status, ContainerStatus::Running);
    assert_eq!(c.state_string, "Up 3 hours");
    assert_eq!(c.ports, "0.0.0.0:8080->80/tcp, 443/tcp");
}

#[test]
fn container_state_names_map_to_statuses() {
    let mut s = summary();
    s.state = Some("EXITED".to_string());
    assert_eq!(container_info(&s).status, ContainerStatus::Exited);
    s.state = None;
    assert_eq!(container_info(&s).status, ContainerStatus::Unknown);
    s.id = None;
    assert_eq!(container_info(&s).id, "");
}

#[test]
fn manager_keeps_rows_when_listing_fails() {
    let mut m = DockerManager::new(true);
    m.refresh(Some(vec![summary()]));
    assert_eq!(m.get_containers().len(), 1);
    m.refresh(None);
    assert_eq!(m.get_containers().len(), 1);
    let mut off = DockerManager::new(false);
    off.refresh(Some(vec![summary()]));
    assert!(off.get_containers().is_empty());
}

#[test]
fn action_errors_carry_context() {
    let m = DockerManager::new(true);
    match m.action_result(ContainerAction::Stop, Err("no such container".to_string())) {
        Err(AppError::PlatformError(msg)) => assert_eq!(msg, "Failed to stop container: no such container"),
        _ => panic!("expected a platform error"),
    }
    assert!(m.action_result(ContainerAction::Start, Ok(())).is_ok());
    let off = DockerManager::new(false);
    assert!(off.action_result(ContainerAction::Restart, Err("x".to_string())).is_ok());
}

#[test]
fn log_chunks_become_lines() {
    let m = DockerManager::new(true);
    let chunks = vec![Ok("a\nb\n".to_string()), Err("broken pipe".to_string()), Ok("c".to_string())];
    let lines = m.logs_result(&chunks).unwrap();
    assert_eq!(lines, vec!["a".to_string(), "b".to_string(), "Error reading log: broken pipe".to_string(), "c".to_string()]);
    let off = DockerManager::new(false);
    assert_eq!(off.logs_result(&chunks).unwrap(), vec!["Docker is not available".to_string()]);
}

#[test]
fn shell_opens_in_the_container() {
    let (program, args) = shell_command("web");
    assert_eq!(program, "docker");
    assert_eq!(args, vec!["exec", "-it", "web", "/bin/sh"]);
}
