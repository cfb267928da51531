use proc_manager::errors::AppError;
use proc_manager::platform::{LaunchdEngine, Platform, PlatformAbstraction, PlatformManager, ServiceBackend, SystemdEngine};
use proc_manager::services::{
    logs_result, next_step, run_result, CommandOutcome, LogsPlan, ServiceEngine, ServiceManager, ServicePlan, ServiceStatus,
};

const SYSTEMCTL_OUT: &str = "ssh.service loaded active running OpenBSD Secure Shell server\ncron.service loaded inactive dead Regular background program processing daemon\nbad.service not-found failed failed\nshort line\n";

#[test]
fn systemd_listing_is_parsed() {
    let mut e = SystemdEngine::new();
    assert!(e.refresh(CommandOutcome::Completed { stdout: SYSTEMCTL_OUT.to_string() }).is_ok());
    let s = e.get_services();
    assert_eq!(s.len(), 3);
    assert_eq!(s[0].name, "ssh");
    assert_eq!(s[0].description, "OpenBSD Secure Shell server");
    assert_eq!(s[0].status, ServiceStatus::Running);
    assert!(s[0].is_enabled);
    assert_eq!(s[1].status, ServiceStatus::Stopped);
    assert_eq!(s[2].status, ServiceStatus::Failed);
    assert!(!s[2].is_enabled);
    assert_eq!(s[2].description, "");
}

#[test]
fn systemd_refresh_failure_keeps_the_list() {
    let mut e = SystemdEngine::new();
    e.refresh(CommandOutcome::Completed { stdout: SYSTEMCTL_OUT.to_string() }).unwrap();
    match e.refresh(CommandOutcome::NotStarted { reason: "not found".to_string() }) {
        Err(AppError::PlatformError(m)) => assert_eq!(m, "Failed to execute systemctl: not found"),
        _ => panic!("expected a platform error"),
    }
    assert_eq!(e.get_services().len(), 3);
    let step = e.refresh_command();
    assert_eq!(step.program, "systemctl");
    assert_eq!(step.args, vec!["list-units", "--type=service", "--all", "--no-pager", "--no-legend"]);
}

#[test]
fn systemd_actions_use_sudo_except_disable() {
    let e = SystemdEngine::new();
    match e.start_service("nginx") {
        ServicePlan::Run(steps) => {
            assert_eq!(steps.len(), 1);
            assert_eq!(steps[0].program, "sudo");
            assert_eq!(steps[0].args, vec!["systemctl", "start", "nginx"]);
            assert_eq!(steps[0].failure, "Failed to start service");
        }
        ServicePlan::Refused(_) => panic!("start is supported"),
    }
    match e.disable_service("nginx") {
        ServicePlan::Run(steps) => {
            assert_eq!(steps[0].program, "systemctl");
            assert_eq!(steps[0].args, vec!["disable", "nginx"]);
        }
        ServicePlan::Refused(_) => panic!("disable is supported"),
    }
    match e.get_service_logs("nginx", 100) {
        LogsPlan::Run(step) => {
            assert_eq!(step.program, "journalctl");
            assert_eq!(step.args, vec!["-u", "nginx", "-n", "100", "--no-pager"]);
        }
        LogsPlan::Ready(_) => panic!("systemd has logs"),
    }
}

#[test]
fn launchd_listing_and_plans() {
    let mut e = LaunchdEngine::new();
    let out = "PID\tStatus\tLabel\n123\t0\tcom.apple.a\n-\t78\tcom.apple.b\n-\t0\tcom.apple.c\n";
    e.refresh(CommandOutcome::Completed { stdout: out.to_string() }).unwrap();
    let s = e.get_services();
    assert_eq!(s.len(), 3);
    assert_eq!(s[0].status, ServiceStatus::Running);
    assert_eq!(s[1].status, ServiceStatus::Failed);
    assert_eq!(s[2].status, ServiceStatus::Stopped);
    assert_eq!(s[2].description, "launchd service: com.apple.c");
    match e.restart_service("x") {
        ServicePlan::Run(steps) => {
            assert_eq!(steps.len(), 2);
            assert_eq!(steps[0].args, vec!["stop", "x"]);
            assert_eq!(steps[1].args, vec!["start", "x"]);
        }
        ServicePlan::Refused(_) => panic!("restart is supported"),
    }
    match e.enable_service("x") {
        ServicePlan::Refused(AppError::PlatformError(m)) => {
            assert_eq!(m, "Enable not supported for launchctl via simple name")
        }
        _ => panic!("enable is refused"),
    }
    match e.get_service_logs("x", 100) {
        LogsPlan::Ready(l) => assert_eq!(l, vec!["Log viewing for launchd services is not supported yet."]),
        LogsPlan::Run(_) => panic!("launchd has no logs"),
    }
}

#[test]
fn run_result_reports_the_first_step_that_did_not_start() {
    let e = LaunchdEngine::new();
    let steps = match e.restart_service("svc") {
        ServicePlan::Run(s) => s,
        ServicePlan::Refused(_) => panic!("restart is supported"),
    };
    let ok = vec![CommandOutcome::Completed { stdout: String::new() }, CommandOutcome::Completed { stdout: String::new() }];
    assert!(run_result(&steps, &ok).is_ok());
    let bad = vec![CommandOutcome::Completed { stdout: String::new() }, CommandOutcome::NotStarted { reason: "denied".to_string() }];
    match run_result(&steps, &bad) {
        Err(AppError::PlatformError(m)) => assert_eq!(m, "Failed to start service: denied"),
        _ => panic!("expected a platform error"),
    }
}

#[test]
fn logs_result_splits_output() {
    let e = SystemdEngine::new();
    let step = match e.get_service_logs("a", 5) {
        LogsPlan::Run(s) => s,
        LogsPlan::Ready(_) => panic!("systemd has logs"),
    };
    let lines = logs_result(&step, &CommandOutcome::Completed { stdout: "x\ny\n".to_string() }).unwrap();
    assert_eq!(lines, vec!["x", "y"]);
    match logs_result(&step, &CommandOutcome::NotStarted { reason: "gone".to_string() }) {
        Err(AppError::PlatformError(m)) => assert_eq!(m, "Failed to get logs: gone"),
        _ => panic!("expected a platform error"),
    }
}

#[test]
fn manager_forwards_to_its_engine() {
    let pm = PlatformManager::new(Platform::Linux).unwrap();
    assert_eq!(pm.get_platform_name(), "Linux");
    let mut m = ServiceManager::new(pm.create_service_engine());
    assert!(m.get_services().is_empty());
    m.refresh(CommandOutcome::Completed { stdout: SYSTEMCTL_OUT.to_string() }).unwrap();
    assert_eq!(m.get_services().len(), 3);
    let mac = PlatformManager::new(Platform::MacOs).unwrap();
    assert!(matches!(mac.create_service_engine(), ServiceBackend::Launchd(_)));
    assert_eq!(mac.get_platform_name(), "macOS");
}

#[test]
fn plans_run_until_a_step_cannot_start() {
    let done = CommandOutcome::Completed { stdout: String::new() };
    assert_eq!(next_step(2, &vec![]), Some(0));
    assert_eq!(next_step(2, &vec![done]), Some(1));
    let done = CommandOutcome::Completed { stdout: String::new() };
    let done2 = CommandOutcome::Completed { stdout: String::new() };
    assert_eq!(next_step(2, &vec![done, done2]), None);
    assert_eq!(next_step(3, &vec![CommandOutcome::NotStarted { reason: "x".to_string() }]), None);
}
