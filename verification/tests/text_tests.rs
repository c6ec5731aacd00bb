use cosmic_applet_proxmoxbar::text::{
    decimal_string, last_path_segment, str_eq, str_le, trim_end_slashes,
};

#[test]
fn decimal_string_matches_std_formatting() {
    for n in [0u64, 7, 9, 10, 42, 100, 12345, u64::MAX] {
        assert_eq!(decimal_string(n), n.to_string());
    }
}

#[test]
fn str_eq_compares_characters() {
    assert!(str_eq("online", "online"));
    assert!(!str_eq("online", "offline"));
    assert!(!str_eq("on", "online"));
    assert!(str_eq("", ""));
    assert!(str_eq("größe", "größe"));
}

#[test]
fn str_le_orders_like_string_ord() {
    let words = ["", "a", "ab", "b", "B", "pve1", "pve10", "pve2", "zürich", "zz", "é"];
    for a in words {
        for b in words {
            assert_eq!(str_le(a, b), a <= b, "{a} <= {b}");
        }
    }
}

#[test]
fn trim_end_slashes_drops_only_trailing_slashes() {
    assert_eq!(trim_end_slashes("https://pve:8006///"), "https://pve:8006");
    assert_eq!(trim_end_slashes("https://pve:8006"), "https://pve:8006");
    assert_eq!(trim_end_slashes("///"), "");
    assert_eq!(trim_end_slashes(""), "");
    assert_eq!(trim_end_slashes("/a/b"), "/a/b");
}

#[test]
fn last_path_segment_matches_rsplit() {
    for s in ["storage/pve1/local-lvm", "local", "a/", "", "/", "x//y"] {
        assert_eq!(last_path_segment(s), s.rsplit('/').next().unwrap());
    }
    assert_eq!(last_path_segment("storage/pve1/local-lvm"), "local-lvm");
    assert_eq!(last_path_segment("a/"), "");
}
