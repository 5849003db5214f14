use window_list_overlay::hyprland::{
    get_active_workspace, get_dp1_active_workspace, get_workspace_clients, HyprClient,
    HyprMonitor, WorkspaceRef,
};

fn monitor(name: &str, id: i64) -> HyprMonitor {
    HyprMonitor { name: name.to_string(), active_workspace: WorkspaceRef { id } }
}

fn client(address: &str, ws: i64, mapped: bool, hidden: bool) -> HyprClient {
    HyprClient {
        address: address.to_string(),
        title: format!("title {}", address),
        class: "kitty".to_string(),
        workspace: WorkspaceRef { id: ws },
        mapped,
        hidden,
    }
}

#[test]
fn dp1_workspace_found() {
    let ms = vec![monitor("HDMI-A-1", 3), monitor("DP-1", 8), monitor("DP-1", 9)];
    assert_eq!(get_dp1_active_workspace(&ms), Some(8));
}

#[test]
fn dp1_workspace_missing() {
    let ms = vec![monitor("HDMI-A-1", 3), monitor("DP-2", 8)];
    assert_eq!(get_dp1_active_workspace(&ms), None);
    assert_eq!(get_dp1_active_workspace(&Vec::new()), None);
}

#[test]
fn active_workspace_by_name() {
    let ms = vec![monitor("HDMI-A-1", 3), monitor("DP-1", 8)];
    assert_eq!(get_active_workspace(&ms, "HDMI-A-1"), Some(3));
    assert_eq!(get_active_workspace(&ms, "hdmi-a-1"), None);
}

#[test]
fn workspace_clients_filtered_in_order() {
    let clients = vec![
        client("0x1", 6, true, false),
        client("0x2", 7, true, false),
        client("0x3", 6, false, false),
        client("0x4", 6, true, true),
        client("0x5", 6, true, false),
    ];
    let listed = get_workspace_clients(clients, 6);
    let addrs: Vec<&str> = listed.iter().map(|c| c.address.as_str()).collect();
    assert_eq!(addrs, vec!["0x1", "0x5"]);
    assert_eq!(listed[1].title, "title 0x5");
}

#[test]
fn workspace_clients_empty() {
    assert!(get_workspace_clients(Vec::new(), 1).is_empty());
    let clients = vec![client("0x1", 2, true, false)];
    assert!(get_workspace_clients(clients, 1).is_empty());
}

use window_list_overlay::hyprland::{
    get_configured_active_workspace, get_focused_monitor_name, get_workspace_layout,
    MonitorFocus, WorkspaceInfo,
};

#[test]
fn focused_monitor_is_first_focused() {
    let ms = vec![
        MonitorFocus { name: "HDMI-A-1".to_string(), focused: false },
        MonitorFocus { name: "DP-1".to_string(), focused: true },
    ];
    assert_eq!(get_focused_monitor_name(&ms), Some("DP-1".to_string()));
    assert_eq!(get_focused_monitor_name(&ms[..1].to_vec()), None);
}

#[test]
fn workspace_layout_by_id() {
    let ws = vec![
        WorkspaceInfo { id: 1, layout: Some("dwindle".to_string()) },
        WorkspaceInfo { id: 6, layout: Some("scrolling".to_string()) },
        WorkspaceInfo { id: 7, layout: None },
    ];
    assert_eq!(get_workspace_layout(&ws, 6), Some("scrolling".to_string()));
    assert_eq!(get_workspace_layout(&ws, 7), None);
    assert_eq!(get_workspace_layout(&ws, 9), None);
}

#[test]
fn configured_monitor_wins_over_focused() {
    let ms = vec![monitor("HDMI-A-1", 3), monitor("DP-1", 8)];
    assert_eq!(get_configured_active_workspace(&ms, "HDMI-A-1", Some("DP-1".to_string())), Some(3));
    assert_eq!(get_configured_active_workspace(&ms, "", Some("DP-1".to_string())), Some(8));
    assert_eq!(get_configured_active_workspace(&ms, "", None), None);
}
