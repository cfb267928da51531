use proc_manager::configuration::WorkspaceConfig;
use proc_manager::filters::filter_workspaces;
use proc_manager::workspaces::{
    declarations_fit, first_workspace_id, is_stored, ItemRow, WorkspaceItemType, WorkspaceManager, WorkspaceRow,
};

#[test]
fn item_types_round_trip() {
    for t in [WorkspaceItemType::Process, WorkspaceItemType::Service, WorkspaceItemType::Container] {
        assert_eq!(WorkspaceItemType::from_str(t.as_str()), Some(t));
    }
    assert_eq!(WorkspaceItemType::Process.as_str(), "process");
    assert_eq!(WorkspaceItemType::from_str("Process"), None);
    assert_eq!(WorkspaceItemType::from_str("volume"), None);
}

fn rows() -> Vec<WorkspaceRow> {
    vec![WorkspaceRow {
        id: 3,
        name: "web".to_string(),
        description: Some("Frontend".to_string()),
        items: vec![
            ItemRow { id: 1, item_type: "service".to_string(), item_name: "nginx".to_string() },
            ItemRow { id: 2, item_type: "volume".to_string(), item_name: "data".to_string() },
        ],
    }]
}

fn declared() -> Vec<(String, WorkspaceConfig)> {
    vec![(
        "backend".to_string(),
        WorkspaceConfig {
            containers: Some(vec!["postgres".to_string()]),
            processes: Some(vec!["node".to_string(), "python3".to_string()]),
            services: None,
        },
    )]
}

#[test]
fn stored_and_declared_workspaces() {
    let mut m = WorkspaceManager::new();
    m.refresh(&rows());
    let cfg = declared();
    assert!(declarations_fit(&cfg));
    m.load_config_workspaces(&cfg);
    let ws = m.get_workspaces();
    assert_eq!(ws.len(), 2);
    assert_eq!(ws[0].items.len(), 1);
    assert_eq!(ws[0].items[0].item_name, "nginx");
    let b = &ws[1];
    assert_eq!(b.name, "backend");
    assert_eq!(b.description, Some("From config.toml".to_string()));
    let ids: Vec<i64> = b.items.iter().map(|i| i.id).collect();
    assert_eq!(ids, vec![-1, -2, -3]);
    assert_eq!(b.items[0].item_type, WorkspaceItemType::Process);
    assert_eq!(b.items[2].item_type, WorkspaceItemType::Container);
    assert_eq!(b.id, -4);
    m.refresh(&rows());
    assert_eq!(m.get_workspaces().len(), 2);
}

#[test]
fn only_stored_ids_can_change() {
    assert!(is_stored(0));
    assert!(is_stored(7));
    assert!(!is_stored(-1));
}

#[test]
fn workspace_filter_reads_descriptions() {
    let mut m = WorkspaceManager::new();
    m.refresh(&rows());
    let ws = m.get_workspaces();
    assert_eq!(filter_workspaces(&ws, "FRONT").len(), 1);
    assert_eq!(filter_workspaces(&ws, "back").len(), 0);
}

#[test]
fn items_go_to_the_first_workspace() {
    let mut m = WorkspaceManager::new();
    assert_eq!(first_workspace_id(&m.get_workspaces()), None);
    m.refresh(&rows());
    assert_eq!(first_workspace_id(&m.get_workspaces()), Some(3));
}
