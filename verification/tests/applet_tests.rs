use cosmic_applet_proxmoxbar::applet::{Action, AppState, Message, ProxmoxApplet};
use cosmic_applet_proxmoxbar::popup::{Piece, PopupLine};
use cosmic_applet_proxmoxbar::resources::{ClusterResource, ClusterStatusEntry, Share};
use cosmic_applet_proxmoxbar::snapshot::{build_snapshot, ClusterSnapshot};

fn resource(kind: &str) -> ClusterResource {
    ClusterResource {
        kind: kind.to_string(),
        id: None,
        node: None,
        name: None,
        status: None,
        vmid: None,
        cpu: None,
        mem: None,
        maxmem: None,
        disk: None,
        maxdisk: None,
    }
}

fn snapshot(quorate: u8, guests: u64) -> ClusterSnapshot {
    let mut resources = Vec::new();
    let mut n = resource("node");
    n.node = Some("pve1".to_string());
    n.status = Some("online".to_string());
    n.cpu = Some(0.5f64.to_bits());
    n.mem = Some(1);
    n.maxmem = Some(4);
    resources.push(n);
    for vmid in 0..guests {
        let mut g = resource("qemu");
        g.vmid = Some(100 + vmid);
        g.name = Some(format!("vm{vmid}"));
        g.status = Some(if vmid % 2 == 0 { "running" } else { "stopped" }.to_string());
        g.node = Some("pve1".to_string());
        resources.push(g);
    }
    let mut st = resource("storage");
    st.id = Some("storage/pve1/local".to_string());
    resources.push(st);
    let entries = vec![ClusterStatusEntry {
        kind: "cluster".to_string(),
        name: Some("lab".to_string()),
        quorate: Some(quorate),
    }];
    build_snapshot(entries, resources).ok().unwrap()
}

fn text_of(pieces: &[Piece]) -> String {
    pieces
        .iter()
        .map(|p| match p {
            Piece::Text(t) => t.clone(),
            Piece::Percent(_) => "<%>".to_string(),
        })
        .collect()
}

#[test]
fn app_state_default_is_loading() {
    let s = AppState::default();
    assert!(s.snapshot.is_none());
    assert!(s.error.is_none());
    assert_eq!(s.status_text, "PVE ...");
}

#[test]
fn init_starts_loading_and_asks_for_a_poll() {
    let (applet, first) = ProxmoxApplet::init();
    assert!(matches!(first, Message::Refresh));
    assert_eq!(applet.status_text(), "PVE ...");
    assert_eq!(applet.panel_icon(), "network-server-symbolic");
    assert_eq!(applet.popup(), None);
}

#[test]
fn toggle_opens_then_closes_the_same_popup() {
    let (mut applet, _) = ProxmoxApplet::init();
    assert!(matches!(applet.update(Message::TogglePopup, 7), Action::OpenPopup(7)));
    assert_eq!(applet.popup(), Some(7));
    assert!(matches!(applet.update(Message::TogglePopup, 8), Action::ClosePopup(7)));
    assert_eq!(applet.popup(), None);
}

#[test]
fn closing_another_window_is_ignored() {
    let (mut applet, _) = ProxmoxApplet::init();
    applet.update(Message::TogglePopup, 3);
    assert!(matches!(applet.update(Message::PopupClosed(4), 0), Action::Nothing));
    assert_eq!(applet.popup(), Some(3));
    assert!(matches!(applet.update(Message::PopupClosed(3), 0), Action::Nothing));
    assert_eq!(applet.popup(), None);
    match applet.on_close_requested(9) {
        Some(Message::PopupClosed(9)) => {}
        _ => panic!("expected PopupClosed(9)"),
    }
}

#[test]
fn refresh_asks_for_a_fetch_only() {
    let (mut applet, _) = ProxmoxApplet::init();
    assert!(matches!(applet.update(Message::Refresh, 0), Action::FetchSnapshot));
    assert_eq!(applet.status_text(), "PVE ...");
}

#[test]
fn refreshed_snapshot_and_error_update_panel() {
    let (mut applet, _) = ProxmoxApplet::init();
    applet.update(Message::Refreshed(Ok(snapshot(1, 3))), 0);
    assert_eq!(applet.status_text(), "PVE 2/3");
    assert_eq!(applet.panel_icon(), "network-workgroup-symbolic");

    applet.update(Message::Refreshed(Err("failed to read config at /x".to_string())), 0);
    assert_eq!(applet.status_text(), "PVE err");
    assert_eq!(applet.panel_icon(), "dialog-error-symbolic");
    let p = applet.popup_content();
    assert_eq!(p.title, "ProxmoxBar");
    assert_eq!(p.subtitle, "failed to read config at /x");

    applet.update(Message::Refreshed(Ok(snapshot(0, 1))), 0);
    assert_eq!(applet.status_text(), "PVE warn");
    assert_eq!(applet.panel_icon(), "dialog-warning-symbolic");
}

#[test]
fn popup_before_first_poll_shows_hint() {
    let (applet, _) = ProxmoxApplet::init();
    let p = applet.popup_content();
    assert_eq!(p.title, "ProxmoxBar");
    assert_eq!(p.subtitle, "Loading...");
    assert_eq!(p.lines.len(), 2);
    assert!(matches!(p.lines[0], PopupLine::Divider));
    match &p.lines[1] {
        PopupLine::Hint(h) => {
            assert_eq!(h, "Create ~/.config/cosmic-applet-proxmoxbar/config.toml to begin.")
        }
        _ => panic!("expected the hint"),
    }
}

#[test]
fn popup_lists_sections_and_caps_guests() {
    let (mut applet, _) = ProxmoxApplet::init();
    applet.update(Message::Refreshed(Ok(snapshot(1, 10))), 0);
    let p = applet.popup_content();
    assert_eq!(p.title, "lab");
    assert_eq!(p.subtitle, "Nodes 1/1  Guests 5/10");
    let mut rendered = Vec::new();
    for line in &p.lines {
        rendered.push(match line {
            PopupLine::Divider => "--".to_string(),
            PopupLine::Heading(h) => format!("# {h}"),
            PopupLine::Row { label, value } => format!("{label}: {}", text_of(value)),
            PopupLine::Note(n) => format!("({n})"),
            PopupLine::Hint(h) => format!("! {h}"),
        });
    }
    let expected = vec![
        "--",
        "# Cluster",
        "Quorum: healthy",
        "CPU: <%>",
        "Memory: <%>",
        "--",
        "# Nodes",
        "pve1: online  cpu <%>  mem <%>",
        "--",
        "# Guests",
        "QEMU 100: vm0  running  pve1",
        "QEMU 101: vm1  stopped  pve1",
        "QEMU 102: vm2  running  pve1",
        "QEMU 103: vm3  stopped  pve1",
        "QEMU 104: vm4  running  pve1",
        "QEMU 105: vm5  stopped  pve1",
        "QEMU 106: vm6  running  pve1",
        "QEMU 107: vm7  stopped  pve1",
        "(2 more guests...)",
        "--",
        "# Storage",
        "local: n/a  cluster",
    ];
    assert_eq!(rendered, expected);
    match &p.lines[3] {
        PopupLine::Row { value, .. } => match &value[0] {
            Piece::Percent(Share::Mean { samples }) => assert_eq!(samples, &vec![0.5f64.to_bits()]),
            _ => panic!("expected the cpu mean"),
        },
        _ => panic!("expected the cpu row"),
    }
}

#[test]
fn popup_degraded_quorum_and_exactly_eight_guests() {
    let (mut applet, _) = ProxmoxApplet::init();
    applet.update(Message::Refreshed(Ok(snapshot(0, 8))), 0);
    let p = applet.popup_content();
    match &p.lines[2] {
        PopupLine::Row { label, value } => {
            assert_eq!(label, "Quorum");
            assert_eq!(text_of(value), "degraded");
        }
        _ => panic!("expected the quorum row"),
    }
    assert!(!p.lines.iter().any(|l| matches!(l, PopupLine::Note(_))));
}
