//! Start-at-login integration: the XDG autostart entry (Linux), the Run
//! key (Windows) and the LaunchAgents plist (macOS), built as text and
//! argv. Writing files and running commands is the caller's business.

use vstd::prelude::*;

use crate::text::{owned, strings_view};

verus! {

pub const APP_NAME: &'static str = "Veil";

pub const APP_ID: &'static str = "dev.veil.app";

/// `base` joined with the relative component `part`, as a Unix path:
/// one `/` between them unless `base` is empty or already ends in `/`.
pub open spec fn path_join(base: Seq<char>, part: Seq<char>) -> Seq<char> {
    if base.len() == 0 || base.last() == '/' {
        base + part
    } else {
        base + seq!['/'] + part
    }
}

fn join_path(base: String, part: &str) -> (r: String)
    ensures
        r@ == path_join(base@, part@),
{
    let mut s = base;
    let n = s.as_str().unicode_len();
    if n == 0 {
        s.append(part);
        return s;
    }
    let last = s.as_str().get_char(n - 1);
    if last != '/' {
        s.append("/");
        proof {
            reveal_strlit("/");
        }
    }
    s.append(part);
    s
}

// ---------------------------------------------------------------- Linux

pub open spec fn desktop_entry(exec_path: Seq<char>) -> Seq<char> {
    "[Desktop Entry]\nType=Application\nName=Veil\nComment=Censorship circumvention client\nExec="@ + exec_path
        + " --minimized\nIcon=dev.veil.app\nTerminal=false\nCategories=Network;\nX-GNOME-Autostart-enabled=true\n"@
}

/// XDG autostart `.desktop` file contents.
pub fn linux_desktop_entry(exec_path: &str) -> (r: String)
    ensures
        r@ == desktop_entry(exec_path@),
{
    let mut s = owned(
        "[Desktop Entry]\nType=Application\nName=Veil\nComment=Censorship circumvention client\nExec=",
    );
    s.append(exec_path);
    s.append(
        " --minimized\nIcon=dev.veil.app\nTerminal=false\nCategories=Network;\nX-GNOME-Autostart-enabled=true\n",
    );
    s
}

pub open spec fn autostart_path(home: Seq<char>) -> Seq<char> {
    path_join(path_join(path_join(home, ".config"@), "autostart"@), "dev.veil.app.desktop"@)
}

/// `~/.config/autostart/dev.veil.app.desktop` under `home`.
pub fn linux_autostart_path(home: &str) -> (r: String)
    ensures
        r@ == autostart_path(home@),
{
    join_path(join_path(join_path(owned(home), ".config"), "autostart"), "dev.veil.app.desktop")
}

// -------------------------------------------------------------- Windows

pub open spec fn run_key() -> Seq<char> {
    "HKCU\\Software\\Microsoft\\Windows\\CurrentVersion\\Run"@
}

pub open spec fn win_enable_spec(exec_path: Seq<char>) -> Seq<Seq<char>> {
    seq![
        "reg"@,
        "add"@,
        run_key(),
        "/v"@,
        "Veil"@,
        "/t"@,
        "REG_SZ"@,
        "/d"@,
        "\""@ + exec_path + "\" --minimized"@,
        "/f"@,
    ]
}

pub open spec fn win_disable_spec() -> Seq<Seq<char>> {
    seq!["reg"@, "delete"@, run_key(), "/v"@, "Veil"@, "/f"@]
}

/// `reg add` registering the Run key (current user, no elevation).
pub fn win_enable_argv(exec_path: &str) -> (r: Vec<String>)
    ensures
        strings_view(r@) == win_enable_spec(exec_path@),
{
    let mut data = owned("\"");
    data.append(exec_path);
    data.append("\" --minimized");
    let r = vec![
        owned("reg"),
        owned("add"),
        owned("HKCU\\Software\\Microsoft\\Windows\\CurrentVersion\\Run"),
        owned("/v"),
        owned(APP_NAME),
        owned("/t"),
        owned("REG_SZ"),
        owned("/d"),
        data,
        owned("/f"),
    ];
    assert(strings_view(r@) =~= win_enable_spec(exec_path@));
    r
}

/// `reg delete` removing the Run key (a missing key is no error).
pub fn win_disable_argv() -> (r: Vec<String>)
    ensures
        strings_view(r@) == win_disable_spec(),
{
    let r = vec![
        owned("reg"),
        owned("delete"),
        owned("HKCU\\Software\\Microsoft\\Windows\\CurrentVersion\\Run"),
        owned("/v"),
        owned(APP_NAME),
        owned("/f"),
    ];
    assert(strings_view(r@) =~= win_disable_spec());
    r
}

// ---------------------------------------------------------------- macOS

pub open spec fn plist_contents(label: Seq<char>, exec_path: Seq<char>) -> Seq<char> {
    "<?xml version=\"1.0\" encoding=\"UTF-8\"?>\n<!DOCTYPE plist PUBLIC \"-//Apple//DTD PLIST 1.0//EN\" \"http://www.apple.com/DTDs/PropertyList-1.0.dtd\">\n<plist version=\"1.0\">\n<dict>\n\t<key>Label</key>\n\t<string>"@
        + label + "</string>\n\t<key>ProgramArguments</key>\n\t<array>\n\t\t<string>"@ + exec_path
        + "</string>\n\t\t<string>--minimized</string>\n\t</array>\n\t<key>RunAtLoad</key>\n\t<true/>\n</dict>\n</plist>\n"@
}

/// LaunchAgents plist contents (a user agent run at login).
pub fn mac_plist_contents(label: &str, exec_path: &str) -> (r: String)
    ensures
        r@ == plist_contents(label@, exec_path@),
{
    let mut s = owned(
        "<?xml version=\"1.0\" encoding=\"UTF-8\"?>\n<!DOCTYPE plist PUBLIC \"-//Apple//DTD PLIST 1.0//EN\" \"http://www.apple.com/DTDs/PropertyList-1.0.dtd\">\n<plist version=\"1.0\">\n<dict>\n\t<key>Label</key>\n\t<string>",
    );
    s.append(label);
    s.append("</string>\n\t<key>ProgramArguments</key>\n\t<array>\n\t\t<string>");
    s.append(exec_path);
    s.append(
        "</string>\n\t\t<string>--minimized</string>\n\t</array>\n\t<key>RunAtLoad</key>\n\t<true/>\n</dict>\n</plist>\n",
    );
    s
}

pub open spec fn plist_path(home: Seq<char>) -> Seq<char> {
    path_join(path_join(path_join(home, "Library"@), "LaunchAgents"@), "dev.veil.app.plist"@)
}

/// `~/Library/LaunchAgents/dev.veil.app.plist` under `home`.
pub fn mac_plist_path(home: &str) -> (r: String)
    ensures
        r@ == plist_path(home@),
{
    join_path(join_path(join_path(owned(home), "Library"), "LaunchAgents"), "dev.veil.app.plist")
}

/// The launchd label of the autostart agent.
pub fn mac_label() -> (r: String)
    ensures
        r@ == "dev.veil.app.autostart"@,
{
    let mut s = owned(APP_ID);
    s.append(".autostart");
    proof {
        reveal_strlit("dev.veil.app");
        reveal_strlit(".autostart");
        reveal_strlit("dev.veil.app.autostart");
        assert(s@ =~= "dev.veil.app.autostart"@);
    }
    s
}

} // verus!
