use aether::api::{IpScan, Transport, WG_PORTS};
use aether::cli::{parse_cli_args, scan_plan_line, tunnel_plan_line, CliCommand};
use aether::commands::{
    gool_hops_of, needs_bind_confirm, scan_request_for, settings_path_for, team_from_values, tunnel_spec_for,
};
use aether::net::SocketAddress;
use aether::settings::GuiSettings;

fn sample() -> GuiSettings {
    GuiSettings::default()
}

#[test]
fn scan_request_defaults_match_engine_spec() {
    let req = scan_request_for(&sample()).expect("valid");
    assert_eq!(req.mode, "balanced");
    assert_eq!(req.wanted, 1);
}

#[test]
fn gool_request_excludes_pinned_hop() {
    let mut s = sample();
    s.protocol = "gool".to_string();
    s.wiw_outer = "162.159.192.1:2408".to_string();
    let req = scan_request_for(&s).expect("valid");
    assert_eq!(req.wanted, 2);
    assert!(!req.excluded.is_empty());
}

#[test]
fn pinned_hop_is_excluded_on_every_wireguard_port() {
    let mut s = sample();
    s.protocol = "gool".to_string();
    s.wiw_inner = " 162.159.192.1:894 ".to_string();
    let req = scan_request_for(&s).expect("valid");
    assert_eq!(req.transport, Transport::WarpInWarp);
    assert_eq!(req.excluded.len(), WG_PORTS.len());
    for (addr, port) in req.excluded.iter().zip(WG_PORTS.iter()) {
        assert_eq!(addr.to_string(), format!("162.159.192.1:{port}"));
    }
    s.protocol = "masque".to_string();
    assert!(scan_request_for(&s).unwrap().excluded.is_empty());
}

#[test]
fn bad_settings_fail_before_any_io() {
    let mut s = sample();
    s.protocol = "nonsense".to_string();
    assert!(scan_request_for(&s).is_err());
    assert!(tunnel_spec_for(&s).is_err());
}

#[test]
fn loopback_bind_needs_no_confirm() {
    assert!(!needs_bind_confirm(&sample()));
    let mut s = sample();
    s.socks = "0.0.0.0:1819".to_string();
    assert!(needs_bind_confirm(&s));
    let mut s = sample();
    s.http_proxy = "0.0.0.0:1820".to_string();
    assert!(needs_bind_confirm(&s));
}

#[test]
fn tunnel_spec_follows_the_form() {
    let spec = tunnel_spec_for(&sample()).expect("valid");
    assert_eq!(spec.socks.to_string(), "127.0.0.1:1819");
    assert!(spec.http.is_none());
    assert_eq!(spec.profile, "firewall");
    assert_eq!((spec.keepalive, spec.verify_timeout_secs), (5, 10));

    let mut s = sample();
    s.protocol = "gool".to_string();
    s.http_proxy = " 127.0.0.1:8086 ".to_string();
    s.wiw_outer = "162.159.192.1:2408".to_string();
    let spec = tunnel_spec_for(&s).expect("valid");
    assert_eq!(spec.transport, Transport::WarpInWarp);
    assert_eq!(spec.http.map(|a| a.port), Some(8086));
    assert_eq!(spec.outer, SocketAddress::parse("162.159.192.1:2408"));
    assert_eq!(spec.inner, None);

    s.wiw_inner = "162.159.192.1:894".to_string();
    let err = tunnel_spec_for(&s).err().expect("same edge twice");
    assert!(err.contains("162.159.192.1"));
}

#[test]
fn team_from_env_reads_absent_and_present() {
    assert!(team_from_values(None, None, None, None, None).expect("no team").is_none());
    assert!(team_from_values(Some("   "), None, None, None, None).expect("blank team").is_none());
    let team = team_from_values(Some("acme"), None, None, None, Some("me@example.com"))
        .expect("team")
        .expect("present");
    assert_eq!(team.team, "acme");
    assert_eq!(team.email.as_deref(), Some("me@example.com"));
    assert_eq!(team.token, None);
}

#[test]
fn team_values_are_trimmed_and_bad_names_refused() {
    let team = team_from_values(Some(" https://My-Org.cloudflareaccess.com/warp "), Some(" id "), Some(""), None, None)
        .unwrap()
        .unwrap();
    assert_eq!(team.team, "my-org");
    assert_eq!(team.client_id.as_deref(), Some("id"));
    assert_eq!(team.client_secret, None);
    assert!(team_from_values(Some("bad name!"), None, None, None, None).is_err());
}

#[test]
fn settings_path_per_os() {
    assert_eq!(settings_path_for("linux", Some("/etc/x.toml"), None, Some("/home/u")), "/etc/x.toml");
    assert_eq!(settings_path_for("linux", Some("  "), None, Some("/home/u")), "/home/u/.config/aether/aether-gui.toml");
    assert_eq!(
        settings_path_for("macos", None, None, Some("/Users/u")),
        "/Users/u/Library/Application Support/Aether/aether-gui.toml"
    );
    assert_eq!(settings_path_for("windows", None, Some("C:\\AppData"), Some("/h")), "C:\\AppData\\Aether\\aether-gui.toml");
    assert_eq!(settings_path_for("windows", None, None, Some("/h")), "aether-gui.toml");
    assert_eq!(settings_path_for("linux", None, None, None), "aether-gui.toml");
}

fn args(v: &[&str]) -> Vec<String> {
    v.iter().map(|s| s.to_string()).collect()
}

#[test]
fn command_line_is_read_left_to_right() {
    let d = "default.toml".to_string();
    assert_eq!(parse_cli_args(&args(&["--check", "-h"]), d.clone()), CliCommand::Help);
    assert_eq!(
        parse_cli_args(&args(&["--settings", "a.toml", "--check"]), d.clone()),
        CliCommand::Run { settings_path: "a.toml".to_string(), check_only: true }
    );
    assert_eq!(
        parse_cli_args(&args(&["--settings"]), d.clone()),
        CliCommand::Run { settings_path: d.clone(), check_only: false }
    );
    assert_eq!(parse_cli_args(&args(&["--check", "--verbose"]), d.clone()), CliCommand::Unknown("--verbose".to_string()));
    assert_eq!(parse_cli_args(&args(&[]), d.clone()), CliCommand::Run { settings_path: d, check_only: false });
}

#[test]
fn dry_run_lines_name_the_plan() {
    let req = scan_request_for(&sample()).unwrap();
    assert_eq!(req.ip, IpScan::V4);
    assert_eq!(scan_plan_line(&req), "scan: transport=masque mode=balanced ip=V4 wanted=1 ports=7");
    let spec = tunnel_spec_for(&sample()).unwrap();
    assert_eq!(
        tunnel_plan_line(&spec),
        "tunnel: transport=masque socks=127.0.0.1:1819 http=off gool_outer=- gool_inner=-"
    );
}

#[test]
fn gool_connect_needs_both_hops_first() {
    let mut s = sample();
    s.protocol = "gool".to_string();
    let spec = tunnel_spec_for(&s).expect("valid");
    let err = gool_hops_of(&spec).expect_err("hops unscanned");
    assert!(err.contains("both gool hops"));
    s.wiw_outer = "162.159.192.1:2408".to_string();
    s.wiw_inner = "188.114.96.1:2408".to_string();
    let spec = tunnel_spec_for(&s).unwrap();
    let (outer, inner) = gool_hops_of(&spec).expect("both hops set");
    assert_eq!((outer.to_string(), inner.to_string()), ("162.159.192.1:2408".to_string(), "188.114.96.1:2408".to_string()));
}
