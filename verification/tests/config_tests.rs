use cosmic_applet_proxmoxbar::config::{
    config_path_components, default_poll_seconds, default_verify_tls, poll_period_seconds,
    request_plan, Config, DEFAULT_POLL_SECONDS, MIN_POLL_SECONDS,
};

fn config(base_url: &str, poll_seconds: u64, verify_tls: bool) -> Config {
    Config {
        base_url: base_url.to_string(),
        api_token_id: "root@pam!cosmic-applet-proxmoxbar".to_string(),
        api_token_secret: "replace-me".to_string(),
        verify_tls,
        poll_seconds,
    }
}

#[test]
fn defaults_are_tls_on_and_thirty_seconds() {
    assert!(default_verify_tls());
    assert_eq!(default_poll_seconds(), 30);
    assert_eq!(DEFAULT_POLL_SECONDS, 30);
}

#[test]
fn poll_period_has_a_floor_and_a_fallback() {
    assert_eq!(poll_period_seconds(&None), 30);
    assert_eq!(poll_period_seconds(&Some(config("x", 0, true))), MIN_POLL_SECONDS);
    assert_eq!(poll_period_seconds(&Some(config("x", 4, true))), 5);
    assert_eq!(poll_period_seconds(&Some(config("x", 5, true))), 5);
    assert_eq!(poll_period_seconds(&Some(config("x", 90, true))), 90);
}

#[test]
fn request_plan_uses_readme_endpoints_and_token_auth() {
    let plan = request_plan(&config("https://proxmox.example.com:8006/", 30, true));
    assert_eq!(plan.status_url, "https://proxmox.example.com:8006/api2/json/cluster/status");
    assert_eq!(
        plan.resources_url,
        "https://proxmox.example.com:8006/api2/json/cluster/resources"
    );
    assert_eq!(
        plan.authorization,
        "PVEAPIToken=root@pam!cosmic-applet-proxmoxbar=replace-me"
    );
    assert!(!plan.accept_invalid_certs);
}

#[test]
fn request_plan_skips_certificate_checks_without_verify_tls() {
    let plan = request_plan(&config("https://10.0.0.2:8006", 30, false));
    assert!(plan.accept_invalid_certs);
    assert_eq!(plan.status_url, "https://10.0.0.2:8006/api2/json/cluster/status");
}

#[test]
fn config_path_prefers_explicit_then_xdg_then_home() {
    let parts = config_path_components(
        Some("/etc/proxmoxbar.toml".to_string()),
        Some("/x".to_string()),
        Some("/home/u".to_string()),
    );
    assert_eq!(parts, vec!["/etc/proxmoxbar.toml".to_string()]);

    let parts = config_path_components(None, Some("/x".to_string()), Some("/home/u".to_string()));
    assert_eq!(parts, vec!["/x", "cosmic-applet-proxmoxbar", "config.toml"]);

    let parts = config_path_components(None, None, Some("/home/u".to_string()));
    assert_eq!(parts, vec!["/home/u", ".config", "cosmic-applet-proxmoxbar", "config.toml"]);

    let parts = config_path_components(None, None, None);
    assert_eq!(parts, vec!["", ".config", "cosmic-applet-proxmoxbar", "config.toml"]);
}
