use aether::net::SocketAddress;
use aether::proxy::{
    argv_to_string, detect_macos_service, gnome_disable_args, gnome_enable_args, kde_hint,
    mac_disable_args, mac_enable_args, parse_network_services, system_proxy_commands_for,
    win_disable_args, win_enable_args, ProxyGuard,
};

fn socks() -> SocketAddress {
    SocketAddress::parse("127.0.0.1:1819").unwrap()
}

#[test]
fn windows_registry_commands_point_at_socks() {
    let on = win_enable_args(&socks());
    assert_eq!(on.len(), 2);
    assert!(on[1].contains(&"socks=127.0.0.1:1819".to_string()));
    let off = win_disable_args();
    assert!(off[0].contains(&"/d".to_string()));
    assert!(off[0].contains(&"0".to_string()));
}

#[test]
fn mac_service_list_skips_header_and_disabled() {
    let out = "An asterisk (*) denotes that a network service is disabled.\nWi-Fi\n*Disabled Adapter\nEthernet\n";
    assert_eq!(parse_network_services(out), vec!["Wi-Fi", "Ethernet"]);
}

#[test]
fn mac_args_carry_service_and_port() {
    let argv = mac_enable_args("Wi-Fi", &socks());
    assert_eq!(argv, vec!["networksetup", "-setsocksfirewallproxy", "Wi-Fi", "127.0.0.1", "1819"]);
    assert!(mac_disable_args("Wi-Fi").contains(&"off".to_string()));
}

#[test]
fn gnome_args_set_manual_then_host_port() {
    let on = gnome_enable_args(&socks());
    assert_eq!(on.len(), 3);
    assert!(on[0].contains(&"manual".to_string()));
    assert!(gnome_disable_args()[0].contains(&"none".to_string()));
    assert!(kde_hint(&socks()).contains("127.0.0.1:1819"));
}

#[test]
fn detect_macos_service_returns_first_enabled() {
    let out = "An asterisk (*) denotes that a network service is disabled.\nWi-Fi\nEthernet\n";
    assert_eq!(detect_macos_service(out), Some("Wi-Fi".to_string()));
    assert_eq!(detect_macos_service("An asterisk (*) denotes nothing.\n"), None);
    assert_eq!(detect_macos_service(""), None);
}

#[test]
fn service_lines_are_trimmed_and_crlf_tolerated() {
    let out = "header\r\n  Wi-Fi  \r\n\r\n*Off\r\nUSB LAN\r\n";
    assert_eq!(parse_network_services(out), vec!["Wi-Fi", "USB LAN"]);
    assert!(parse_network_services("only a header").is_empty());
}

#[test]
fn argv_line_quotes_arguments_with_spaces() {
    let argv = vec!["networksetup".to_string(), "-setsocksfirewallproxy".to_string(), "USB LAN".to_string()];
    assert_eq!(argv_to_string(&argv), "networksetup -setsocksfirewallproxy \"USB LAN\"");
    assert_eq!(argv_to_string(&[]), "");
}

#[test]
fn proxy_commands_are_exact() {
    let key = "HKCU\\Software\\Microsoft\\Windows\\CurrentVersion\\Internet Settings";
    assert_eq!(
        win_enable_args(&socks()),
        vec![
            vec!["reg", "add", key, "/v", "ProxyEnable", "/t", "REG_DWORD", "/d", "1", "/f"],
            vec!["reg", "add", key, "/v", "ProxyServer", "/t", "REG_SZ", "/d", "socks=127.0.0.1:1819", "/f"],
        ]
    );
    assert_eq!(
        gnome_enable_args(&SocketAddress::parse("[::1]:1080").unwrap())[1],
        vec!["gsettings", "set", "org.gnome.system.proxy.socks", "host", "::1"]
    );
    assert_eq!(
        kde_hint(&socks()),
        "kwriteconfig5 --file kioslaverc --group 'Proxy Settings' --key ProxyType 1\nkwriteconfig5 --file kioslaverc --group 'Proxy Settings' --key socksProxy \"socks://127.0.0.1:1819\""
    );
}

#[test]
fn proxy_guard_hands_back_its_commands_once() {
    let mut guard = ProxyGuard::new(gnome_disable_args());
    assert_eq!(guard.teardown(), gnome_disable_args());
    assert!(guard.teardown().is_empty());

    let mut guard = ProxyGuard::new(win_disable_args());
    guard.disarm();
    assert!(guard.teardown().is_empty());

    let mut guard = ProxyGuard::new(win_disable_args());
    assert_eq!(guard.disarm_and_disable(), win_disable_args());
    assert!(guard.teardown().is_empty());
}

#[test]
fn system_proxy_commands_per_os() {
    let win = system_proxy_commands_for("windows", &socks(), "").unwrap();
    assert_eq!(win.on, win_enable_args(&socks()));
    assert_eq!(win.off, win_disable_args());
    let linux = system_proxy_commands_for("linux", &socks(), "").unwrap();
    assert_eq!(linux.on, gnome_enable_args(&socks()));
    assert_eq!(linux.off, gnome_disable_args());
    let listing = "An asterisk (*) denotes that a network service is disabled.\n*Wi-Fi\nEthernet\n";
    let mac = system_proxy_commands_for("macos", &socks(), listing).unwrap();
    assert_eq!(mac.on, vec![mac_enable_args("Ethernet", &socks())]);
    assert_eq!(mac.off, vec![mac_disable_args("Ethernet")]);
    assert_eq!(
        system_proxy_commands_for("macos", &socks(), "header\n").err(),
        Some("no enabled network service found".to_string())
    );
    assert_eq!(system_proxy_commands_for("haiku", &socks(), "").err(), Some("unsupported".to_string()));
}
