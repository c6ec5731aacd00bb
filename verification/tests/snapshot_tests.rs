use cosmic_applet_proxmoxbar::resources::{
    ratio, ClusterResource, ClusterStatusEntry, GuestSummary, Share,
};
use cosmic_applet_proxmoxbar::snapshot::{build_snapshot, panel_label, totals_fit, ClusterSnapshot};
use cosmic_applet_proxmoxbar::sort::stable_sort;

fn text(s: &str) -> Option<String> {
    Some(s.to_string())
}

fn resource(kind: &str) -> ClusterResource {
    ClusterResource {
        kind: kind.to_string(),
        id: None,
        node: None,
        name: None,
        status: None,
        vmid: None,
        cpu: None,
        mem: None,
        maxmem: None,
        disk: None,
        maxdisk: None,
    }
}

fn cluster_entry(name: &str, quorate: Option<u8>) -> ClusterStatusEntry {
    ClusterStatusEntry { kind: "cluster".to_string(), name: text(name), quorate }
}

fn node(name: &str, status: &str, cpu: Option<f64>, mem: u64, maxmem: u64) -> ClusterResource {
    ClusterResource {
        id: Some(format!("node/{name}")),
        node: text(name),
        status: text(status),
        cpu: cpu.map(f64::to_bits),
        mem: Some(mem),
        maxmem: Some(maxmem),
        ..resource("node")
    }
}

fn guest(kind: &str, vmid: u64, name: Option<&str>, status: Option<&str>) -> ClusterResource {
    ClusterResource {
        id: Some(format!("{kind}/{vmid}")),
        node: text("pve1"),
        name: name.map(str::to_string),
        status: status.map(str::to_string),
        vmid: Some(vmid),
        ..resource(kind)
    }
}

fn storage(id: &str, disk: Option<u64>, maxdisk: Option<u64>) -> ClusterResource {
    ClusterResource {
        id: text(id),
        node: text("pve1"),
        disk,
        maxdisk,
        ..resource("storage")
    }
}

fn is_ratio(s: &Option<Share>, used: u64, total: u64) -> bool {
    matches!(s, Some(Share::Ratio { used: u, total: t }) if *u == used && *t == total)
}

fn sample_snapshot() -> ClusterSnapshot {
    let entries = vec![
        ClusterStatusEntry { kind: "node".to_string(), name: text("pve2"), quorate: None },
        cluster_entry("homelab", Some(1)),
    ];
    let resources = vec![
        node("pve2", "online", Some(0.25), 4, 16),
        guest("qemu", 105, Some("web"), Some("running")),
        storage("storage/pve1/local", Some(10), Some(40)),
        node("pve1", "offline", None, 0, 0),
        guest("lxc", 101, None, None),
        resource("sdn"),
        guest("qemu", 102, Some("db"), Some("stopped")),
        node("pve3", "online", Some(0.5), 6, 16),
        storage("storage/pve1/backup", None, Some(60)),
    ];
    assert!(totals_fit(&resources));
    match build_snapshot(entries, resources) {
        Ok(s) => s,
        Err(e) => panic!("unexpected error {e}"),
    }
}

#[test]
fn missing_cluster_entry_is_an_error() {
    let entries = vec![ClusterStatusEntry { kind: "node".to_string(), name: text("pve1"), quorate: Some(1) }];
    match build_snapshot(entries, vec![node("pve1", "online", None, 1, 2)]) {
        Ok(_) => panic!("expected an error"),
        Err(e) => assert_eq!(e, "cluster status was missing"),
    }
    match build_snapshot(vec![], vec![]) {
        Ok(_) => panic!("expected an error"),
        Err(e) => assert_eq!(e, "cluster status was missing"),
    }
}

#[test]
fn snapshot_counts_and_cluster_fields() {
    let s = sample_snapshot();
    assert_eq!(s.cluster_name.as_deref(), Some("homelab"));
    assert!(s.quorum);
    assert_eq!(s.nodes_total, 3);
    assert_eq!(s.nodes_online, 2);
    assert_eq!(s.guests_total, 3);
    assert_eq!(s.guests_running, 1);
    assert_eq!(s.nodes.len(), 3);
    assert_eq!(s.guests.len(), 3);
    assert_eq!(s.storages.len(), 2);
}

#[test]
fn snapshot_totals_and_cpu_mean_samples() {
    let s = sample_snapshot();
    assert!(is_ratio(&s.memory_fraction, 10, 32));
    assert!(is_ratio(&s.storage_fraction, 10, 100));
    match &s.cpu_fraction {
        Some(Share::Mean { samples }) => {
            assert_eq!(samples, &vec![0.25f64.to_bits(), 0.5f64.to_bits()]);
        }
        _ => panic!("expected a mean cpu share"),
    }
}

#[test]
fn nodes_sorted_by_name_with_their_details() {
    let s = sample_snapshot();
    let names: Vec<&str> = s.nodes.iter().map(|n| n.name.as_str()).collect();
    assert_eq!(names, vec!["pve1", "pve2", "pve3"]);
    assert!(!s.nodes[0].online);
    assert!(s.nodes[0].cpu_fraction.is_none());
    assert!(s.nodes[0].memory_fraction.is_none());
    assert!(s.nodes[1].online);
    assert!(matches!(s.nodes[1].cpu_fraction, Some(Share::Reading { bits }) if bits == 0.25f64.to_bits()));
    assert!(is_ratio(&s.nodes[1].memory_fraction, 4, 16));
}

#[test]
fn guests_sorted_by_vmid_with_defaults() {
    let s = sample_snapshot();
    let ids: Vec<u64> = s.guests.iter().map(|g| g.vmid).collect();
    assert_eq!(ids, vec![101, 102, 105]);
    assert_eq!(s.guests[0].name, "lxc 101");
    assert_eq!(s.guests[0].kind, "LXC");
    assert_eq!(s.guests[0].status, "unknown");
    assert_eq!(s.guests[1].name, "db");
    assert_eq!(s.guests[1].kind, "QEMU");
    assert_eq!(s.guests[1].status, "stopped");
    assert_eq!(s.guests[2].node.as_deref(), Some("pve1"));
}

#[test]
fn storages_named_by_last_id_segment_and_sorted() {
    let s = sample_snapshot();
    let names: Vec<&str> = s.storages.iter().map(|st| st.name.as_str()).collect();
    assert_eq!(names, vec!["backup", "local"]);
    assert!(s.storages[0].used_fraction.is_none());
    assert!(is_ratio(&s.storages[1].used_fraction, 10, 40));
}

#[test]
fn quorum_needs_quorate_one() {
    for (q, expected) in [(Some(1u8), true), (Some(0), false), (Some(2), false), (None, false)] {
        let s = build_snapshot(vec![cluster_entry("c", q)], vec![]).ok().unwrap();
        assert_eq!(s.quorum, expected);
        assert!(s.cpu_fraction.is_none());
        assert!(s.memory_fraction.is_none());
        assert!(s.storage_fraction.is_none());
    }
}

#[test]
fn first_cluster_entry_is_used() {
    let entries = vec![cluster_entry("first", Some(0)), cluster_entry("second", Some(1))];
    let s = build_snapshot(entries, vec![]).ok().unwrap();
    assert_eq!(s.cluster_name.as_deref(), Some("first"));
    assert!(!s.quorum);
}

#[test]
fn node_name_falls_back_to_name_then_id_then_unknown() {
    let mut a = resource("node");
    a.name = text("by-name");
    a.id = text("node/by-id");
    let mut b = resource("node");
    b.id = text("node/by-id");
    let c = resource("node");
    let s = build_snapshot(vec![cluster_entry("c", Some(1))], vec![a, b, c]).ok().unwrap();
    let names: Vec<&str> = s.nodes.iter().map(|n| n.name.as_str()).collect();
    assert_eq!(names, vec!["by-name", "node/by-id", "unknown"]);
}

#[test]
fn storage_name_falls_back_to_name_then_storage() {
    let mut a = resource("storage");
    a.name = text("plain");
    let b = resource("storage");
    assert_eq!(a.storage_name(), Some("plain".to_string()));
    assert_eq!(b.storage_name(), None);
    let mut c = resource("storage");
    c.id = text("storage/pve1/nfs");
    c.name = text("ignored");
    assert_eq!(c.storage_name(), Some("nfs".to_string()));
    let s = build_snapshot(vec![cluster_entry("c", Some(1))], vec![a, b]).ok().unwrap();
    let names: Vec<&str> = s.storages.iter().map(|st| st.name.as_str()).collect();
    assert_eq!(names, vec!["plain", "storage"]);
}

#[test]
fn guests_with_equal_vmid_keep_their_order() {
    let resources = vec![
        guest("qemu", 7, Some("b-first"), None),
        guest("lxc", 3, Some("a"), None),
        guest("lxc", 7, Some("c-second"), None),
        guest("qemu", 7, Some("a-third"), None),
    ];
    let s = build_snapshot(vec![cluster_entry("c", Some(1))], resources).ok().unwrap();
    let names: Vec<&str> = s.guests.iter().map(|g| g.name.as_str()).collect();
    assert_eq!(names, vec!["a", "b-first", "c-second", "a-third"]);
}

#[test]
fn stable_sort_of_guest_summaries() {
    let g = |vmid: u64, name: &str| GuestSummary {
        vmid,
        name: name.to_string(),
        kind: "QEMU".to_string(),
        status: "running".to_string(),
        node: None,
    };
    let out = stable_sort(vec![g(3, "x"), g(1, "y"), g(3, "z"), g(2, "w"), g(1, "v")]);
    let got: Vec<(u64, &str)> = out.iter().map(|g| (g.vmid, g.name.as_str())).collect();
    assert_eq!(got, vec![(1, "y"), (1, "v"), (2, "w"), (3, "x"), (3, "z")]);
    assert!(stable_sort(Vec::<GuestSummary>::new()).is_empty());
}

#[test]
fn ratio_needs_both_values_and_nonzero_total() {
    assert!(ratio(None, Some(5)).is_none());
    assert!(ratio(Some(5), None).is_none());
    assert!(ratio(Some(5), Some(0)).is_none());
    assert!(is_ratio(&ratio(Some(0), Some(5)), 0, 5));
    assert!(is_ratio(&ratio(Some(7), Some(5)), 7, 5));
}

#[test]
fn totals_fit_detects_overflow() {
    let big = node("a", "online", None, u64::MAX, u64::MAX);
    let one = node("b", "online", None, 1, 1);
    assert!(totals_fit(&vec![big]));
    assert!(!totals_fit(&vec![node("a", "online", None, u64::MAX, 1), one]));
    let s1 = storage("storage/x/a", Some(u64::MAX), Some(1));
    let s2 = storage("storage/x/b", Some(1), Some(1));
    assert!(!totals_fit(&vec![s1, s2]));
    // guests carry no totals
    let mut g = guest("qemu", 1, None, None);
    g.mem = Some(u64::MAX);
    let mut h = guest("qemu", 2, None, None);
    h.mem = Some(u64::MAX);
    assert!(totals_fit(&vec![g, h]));
}

#[test]
fn panel_label_shows_guests_or_warning() {
    let s = sample_snapshot();
    assert_eq!(panel_label(&s), "PVE 1/3");
    let warn = build_snapshot(vec![cluster_entry("c", Some(0))], vec![]).ok().unwrap();
    assert_eq!(panel_label(&warn), "PVE warn");
}
