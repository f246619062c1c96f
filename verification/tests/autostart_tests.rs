use aether::autostart::{
    linux_autostart_path, linux_desktop_entry, mac_label, mac_plist_contents, mac_plist_path,
    win_disable_argv, win_enable_argv, APP_NAME,
};

#[test]
fn linux_entry_is_a_valid_desktop_file_shape() {
    let entry = linux_desktop_entry("/opt/aether/aether-gui");
    assert!(entry.starts_with("[Desktop Entry]\n"));
    assert!(entry.contains("Exec=/opt/aether/aether-gui --minimized\n"));
    assert!(entry.contains("X-GNOME-Autostart-enabled=true"));
}

#[test]
fn windows_run_key_argv_names_the_app() {
    let argv = win_enable_argv("C:\\Program Files\\Aether\\aether-gui.exe");
    assert!(argv.contains(&APP_NAME.to_string()));
    assert!(argv.iter().any(|a| a.contains("--minimized")));
    assert!(win_disable_argv().contains(&"delete".to_string()));
}

#[test]
fn mac_plist_is_well_formed_xml_shape() {
    let plist = mac_plist_contents(&mac_label(), "/Applications/Veil.app/Contents/MacOS/aether-gui");
    assert!(plist.contains("<true/>"));
    assert!(plist.contains("--minimized"));
    assert!(plist.contains(&mac_label()));
    assert_eq!(
        mac_plist_path("/Users/test"),
        "/Users/test/Library/LaunchAgents/dev.veil.app.plist".to_string()
    );
}

#[test]
fn autostart_paths_join_under_home() {
    assert_eq!(linux_autostart_path("/home/u"), "/home/u/.config/autostart/dev.veil.app.desktop");
    assert_eq!(linux_autostart_path("/home/u/"), "/home/u/.config/autostart/dev.veil.app.desktop");
    assert_eq!(linux_autostart_path(""), ".config/autostart/dev.veil.app.desktop");
    assert_eq!(mac_plist_path("/Users/test/"), "/Users/test/Library/LaunchAgents/dev.veil.app.plist");
}

#[test]
fn autostart_texts_are_exact() {
    assert_eq!(mac_label(), "dev.veil.app.autostart");
    assert_eq!(
        linux_desktop_entry("/x"),
        "[Desktop Entry]\nType=Application\nName=Veil\nComment=Censorship circumvention client\nExec=/x --minimized\nIcon=dev.veil.app\nTerminal=false\nCategories=Network;\nX-GNOME-Autostart-enabled=true\n"
    );
    assert_eq!(
        win_enable_argv("C:\\a b\\v.exe"),
        vec![
            "reg",
            "add",
            "HKCU\\Software\\Microsoft\\Windows\\CurrentVersion\\Run",
            "/v",
            "Veil",
            "/t",
            "REG_SZ",
            "/d",
            "\"C:\\a b\\v.exe\" --minimized",
            "/f"
        ]
    );
    assert_eq!(
        win_disable_argv(),
        vec!["reg", "delete", "HKCU\\Software\\Microsoft\\Windows\\CurrentVersion\\Run", "/v", "Veil", "/f"]
    );
    let plist = mac_plist_contents("L", "/bin/x");
    assert!(plist.starts_with("<?xml version=\"1.0\" encoding=\"UTF-8\"?>\n<!DOCTYPE plist PUBLIC \"-//Apple//DTD PLIST 1.0//EN\" \"http://www.apple.com/DTDs/PropertyList-1.0.dtd\">\n"));
    assert!(plist.contains("\t<key>Label</key>\n\t<string>L</string>\n"));
    assert!(plist.contains("\t\t<string>/bin/x</string>\n\t\t<string>--minimized</string>\n"));
    assert!(plist.ends_with("</dict>\n</plist>\n"));
}
