use proc_manager::ports::{PortInfo, PortManager, Protocol};
use proc_manager::processes::ProcessRow;
use proc_manager::tables::{
    container_tone, enabled_text, item_label, log_title, open_ports_text, parent_text, port_cells,
    port_state_tone, server_tone, service_status_text, tree_label, Tone,
};
use proc_manager::docker::ContainerStatus;
use proc_manager::services::ServiceStatus;
use proc_manager::workspaces::{WorkspaceItem, WorkspaceItemType};

fn port(p: u16, proto: Protocol, pids: Vec<u32>) -> PortInfo {
    PortInfo {
        protocol: proto,
        local_ip: "127.0.0.1".to_string(),
        local_port: p,
        remote_ip: None,
        remote_port: None,
        state: "LISTEN".to_string(),
        pids,
    }
}

#[test]
fn tree_labels_indent_children() {
    assert_eq!(tree_label(0, "init"), "init");
    assert_eq!(tree_label(1, "bash"), "  └─ bash");
    assert_eq!(tree_label(2, "vim"), "    └─ vim");
}

#[test]
fn port_rows_name_their_holders() {
    let rows = vec![ProcessRow { pid: 7, parent: None, name: "nginx".to_string(), cpu_key: 0, memory: 0 }];
    let c = port_cells(&port(80, Protocol::Tcp, vec![7, 8]), &rows);
    assert_eq!(c.address, "127.0.0.1:80");
    assert_eq!(c.protocol, "TCP");
    assert_eq!(c.state, "LISTEN");
    assert_eq!(c.pids, "7, 8");
    assert_eq!(c.names, "nginx, -");
    assert_eq!(port_state_tone("LISTEN"), (Tone::Green, true));
    assert_eq!(port_state_tone("CLOSE_WAIT"), (Tone::DarkGray, false));
    assert_eq!(port_state_tone("Listen"), (Tone::Plain, false));
}

#[test]
fn open_ports_of_a_process() {
    let mut m = PortManager::new();
    m.refresh(vec![port(80, Protocol::Tcp, vec![7]), port(53, Protocol::Udp, vec![7, 9]), port(22, Protocol::Tcp, vec![9])]);
    let held = m.get_ports_for_pid(7);
    assert_eq!(open_ports_text(&held), "80/Tcp, 53/Udp");
    assert_eq!(open_ports_text(&m.get_ports_for_pid(1)), "-");
}

#[test]
fn detail_and_row_texts() {
    assert_eq!(parent_text(Some(1)), "1");
    assert_eq!(parent_text(None), "-");
    assert_eq!(enabled_text(true), "Yes");
    assert_eq!(service_status_text(ServiceStatus::Restarting), "Restarting");
    assert_eq!(container_tone(ContainerStatus::Created), Tone::Cyan);
    assert_eq!(server_tone("Connected"), Tone::Green);
    assert_eq!(server_tone("Connecting..."), Tone::Gray);
    let item = WorkspaceItem { id: 1, item_type: WorkspaceItemType::Container, item_name: "db".to_string() };
    assert_eq!(item_label(&item), "[CONTAINER] db");
    assert_eq!(log_title("nginx"), " nginx Logs (L/R: Refresh, Esc: Back, Up/Down: Scroll) ");
}
