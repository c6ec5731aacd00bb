//! The applet's configuration and what follows from it: where the file is
//! looked for, how often the cluster is polled, and the requests made to
//! the Proxmox API.

use vstd::prelude::*;
use crate::text::{trim_end_slashes, trim_trailing_slashes};
use vstd::string::StringExecFns;

verus! {

/// Poll period used when no configuration can be read.
pub const DEFAULT_POLL_SECONDS: u64 = 30;

/// The shortest poll period the applet accepts from its configuration.
pub const MIN_POLL_SECONDS: u64 = 5;

/// The contents of `config.toml`.
pub struct Config {
    pub base_url: String,
    pub api_token_id: String,
    pub api_token_secret: String,
    pub verify_tls: bool,
    pub poll_seconds: u64,
}

/// Default for `verify_tls` when the configuration leaves it out.
pub fn default_verify_tls() -> (r: bool)
    ensures
        r,
{
    true
}

/// Default for `poll_seconds` when the configuration leaves it out.
pub fn default_poll_seconds() -> (r: u64)
    ensures
        r == DEFAULT_POLL_SECONDS,
{
    DEFAULT_POLL_SECONDS
}

/// The time between two polls: the configured period, but no less than
/// `MIN_POLL_SECONDS`; `DEFAULT_POLL_SECONDS` when there is no readable
/// configuration.
pub open spec fn poll_period_of(config: Option<u64>) -> u64 {
    match config {
        Some(p) => if p < MIN_POLL_SECONDS {
            MIN_POLL_SECONDS
        } else {
            p
        },
        None => DEFAULT_POLL_SECONDS,
    }
}

/// The time between two polls, in seconds, given the configuration if one
/// could be read.
pub fn poll_period_seconds(config: &Option<Config>) -> (r: u64)
    ensures
        r == poll_period_of(
            match config {
                Some(c) => Some(c.poll_seconds),
                None => None,
            },
        ),
        r >= MIN_POLL_SECONDS,
        config is None ==> r == 30,
        config is Some && config->0.poll_seconds >= 5 ==> r == config->0.poll_seconds,
        config is Some && config->0.poll_seconds < 5 ==> r == 5,
{
    match config {
        Some(c) => if c.poll_seconds < MIN_POLL_SECONDS {
            MIN_POLL_SECONDS
        } else {
            c.poll_seconds
        },
        None => DEFAULT_POLL_SECONDS,
    }
}

/// What one poll sends to the cluster.
pub struct RequestPlan {
    /// Whether TLS certificates go unchecked.
    pub accept_invalid_certs: bool,
    /// The URL of `/cluster/status`.
    pub status_url: String,
    /// The URL of `/cluster/resources`.
    pub resources_url: String,
    /// The value of the `Authorization` header.
    pub authorization: String,
}

/// The URL of the API path `path` under `base_url`, with the slashes at the
/// end of `base_url` dropped.
pub open spec fn endpoint_of(base_url: Seq<char>, path: Seq<char>) -> Seq<char> {
    trim_trailing_slashes(base_url) + path
}

/// The `Authorization` header for a Proxmox API token.
pub open spec fn token_header_of(token_id: Seq<char>, secret: Seq<char>) -> Seq<char> {
    "PVEAPIToken="@ + token_id + "="@ + secret
}

/// The requests one poll makes under `config`.
pub fn request_plan(config: &Config) -> (plan: RequestPlan)
    ensures
        plan.accept_invalid_certs == !config.verify_tls,
        plan.status_url@ == endpoint_of(config.base_url@, "/api2/json/cluster/status"@),
        plan.resources_url@ == endpoint_of(config.base_url@, "/api2/json/cluster/resources"@),
        plan.authorization@ == token_header_of(config.api_token_id@, config.api_token_secret@),
        plan.status_url@ == trim_trailing_slashes(config.base_url@) + "/api2/json/cluster/status"@,
        plan.resources_url@ == trim_trailing_slashes(config.base_url@)
            + "/api2/json/cluster/resources"@,
        plan.authorization@ == "PVEAPIToken="@ + config.api_token_id@ + "="@
            + config.api_token_secret@,
{
    let mut status_url = trim_end_slashes(config.base_url.as_str());
    status_url.append("/api2/json/cluster/status");
    let mut resources_url = trim_end_slashes(config.base_url.as_str());
    resources_url.append("/api2/json/cluster/resources");
    let mut authorization = String::from_str("PVEAPIToken=");
    authorization.append(config.api_token_id.as_str());
    authorization.append("=");
    authorization.append(config.api_token_secret.as_str());
    RequestPlan {
        accept_invalid_certs: !config.verify_tls,
        status_url,
        resources_url,
        authorization,
    }
}

/// Where the configuration file lies, as path components to be joined in
/// order: the explicit path when one is given; else
/// `$XDG_CONFIG_HOME/cosmic-applet-proxmoxbar/config.toml`; else
/// `$HOME/.config/cosmic-applet-proxmoxbar/config.toml`, with an empty
/// home when that is unset too.
pub open spec fn config_path_of(
    explicit: Option<Seq<char>>,
    xdg_config_home: Option<Seq<char>>,
    home: Option<Seq<char>>,
) -> Seq<Seq<char>> {
    match explicit {
        Some(p) => seq![p],
        None => match xdg_config_home {
            Some(x) => seq![x, "cosmic-applet-proxmoxbar"@, "config.toml"@],
            None => seq![
                match home {
                    Some(h) => h,
                    None => Seq::empty(),
                },
                ".config"@,
                "cosmic-applet-proxmoxbar"@,
                "config.toml"@,
            ],
        },
    }
}

/// An explicit path is the whole answer, whatever `XDG_CONFIG_HOME` and
/// `HOME` are; without one, `XDG_CONFIG_HOME` decides, whatever `HOME` is;
/// and every path without an explicit one ends in
/// `cosmic-applet-proxmoxbar/config.toml`.
pub proof fn lemma_config_path_precedence(
    explicit: Option<Seq<char>>,
    xdg: Option<Seq<char>>,
    home: Option<Seq<char>>,
    other_xdg: Option<Seq<char>>,
    other_home: Option<Seq<char>>,
)
    ensures
        explicit is Some ==> config_path_of(explicit, xdg, home) == seq![explicit->0],
        explicit is Some ==> config_path_of(explicit, xdg, home) == config_path_of(
            explicit,
            other_xdg,
            other_home,
        ),
        explicit is None && xdg is Some ==> config_path_of(explicit, xdg, home) == seq![
            xdg->0,
            "cosmic-applet-proxmoxbar"@,
            "config.toml"@,
        ],
        explicit is None && xdg is Some ==> config_path_of(explicit, xdg, home) == config_path_of(
            explicit,
            xdg,
            other_home,
        ),
        explicit is None && xdg is None ==> config_path_of(explicit, xdg, home) == seq![
            if home is Some {
                home->0
            } else {
                Seq::empty()
            },
            ".config"@,
            "cosmic-applet-proxmoxbar"@,
            "config.toml"@,
        ],
        explicit is None ==> ({
            let p = config_path_of(explicit, xdg, home);
            p.len() >= 3 && p[p.len() - 2] == "cosmic-applet-proxmoxbar"@ && p[p.len() - 1]
                == "config.toml"@
        }),
{
}

/// The path components of the configuration file, given the explicit path
/// (`PROXMOXBAR_CONFIG`), `XDG_CONFIG_HOME` and `HOME`, each if set.
pub fn config_path_components(
    explicit: Option<String>,
    xdg_config_home: Option<String>,
    home: Option<String>,
) -> (parts: Vec<String>)
    ensures
        parts.deep_view() == config_path_of(
            explicit.deep_view(),
            xdg_config_home.deep_view(),
            home.deep_view(),
        ),
        explicit is Some ==> parts.deep_view() == seq![explicit->0@],
        explicit is None && xdg_config_home is Some ==> parts.deep_view() == seq![
            xdg_config_home->0@,
            "cosmic-applet-proxmoxbar"@,
            "config.toml"@,
        ],
        explicit is None && xdg_config_home is None ==> parts.deep_view() == seq![
            if home is Some {
                home->0@
            } else {
                Seq::empty()
            },
            ".config"@,
            "cosmic-applet-proxmoxbar"@,
            "config.toml"@,
        ],
{
    proof {
        lemma_config_path_precedence(
            explicit.deep_view(),
            xdg_config_home.deep_view(),
            home.deep_view(),
            None,
            None,
        );
    }
    let mut parts: Vec<String> = Vec::new();
    match explicit {
        Some(p) => {
            parts.push(p);
        },
        None => {
            match xdg_config_home {
                Some(x) => {
                    parts.push(x);
                },
                None => {
                    let h = match home {
                        Some(h) => h,
                        None => String::new(),
                    };
                    parts.push(h);
                    parts.push(String::from_str(".config"));
                },
            }
            parts.push(String::from_str("cosmic-applet-proxmoxbar"));
            parts.push(String::from_str("config.toml"));
        },
    }
    assert(parts.deep_view() =~= config_path_of(
        explicit.deep_view(),
        xdg_config_home.deep_view(),
        home.deep_view(),
    ));
    parts
}

} // verus!
