//! OS system-proxy integration: pure argv builders for the Windows
//! registry, macOS `networksetup` and GNOME `gsettings`, the parser for
//! `networksetup -listallnetworkservices`, and the guard that remembers
//! how to switch the proxy off again. Running a command is the caller's
//! business; nothing here touches the host.

use vstd::prelude::*;

use crate::net::{decimal, decimal_text, ip_text, SocketAddress};
use crate::text::{
    chars_of, commands_view, contains_char, join, join_strings, owned, split_any, split_chars,
    string_of, strings_view, trim, trim_chars,
};

verus! {

/// One OS command as argv (`argv[0]` is the program).
pub type Argv = Vec<String>;

// ------------------------------------------------------------- display

/// An argument as a log line shows it: quoted when it holds a space.
pub open spec fn quoted_arg(a: Seq<char>) -> Seq<char> {
    if a.contains(' ') {
        seq!['"'] + a + seq!['"']
    } else {
        a
    }
}

/// The argv as one line: arguments joined by spaces, each quoted when
/// it holds a space.
pub open spec fn argv_text(argv: Seq<Seq<char>>) -> Seq<char> {
    join(argv.map_values(|a: Seq<char>| quoted_arg(a)), " "@)
}

fn quote_arg(a: &String) -> (r: String)
    ensures
        r@ == quoted_arg(a@),
{
    let v = chars_of(a.as_str());
    if contains_char(&v, ' ') {
        let mut s = owned("\"");
        s.append(a.as_str());
        s.append("\"");
        proof {
            reveal_strlit("\"");
        }
        s
    } else {
        a.clone()
    }
}

/// The argv as one display line (for logs and the "what will change"
/// preview).
pub fn argv_to_string(argv: &[String]) -> (r: String)
    ensures
        r@ == argv_text(strings_view(argv@)),
{
    let ghost target = strings_view(argv@).map_values(|a: Seq<char>| quoted_arg(a));
    let mut parts: Vec<String> = Vec::new();
    let mut i: usize = 0;
    while i < argv.len()
        invariant
            i <= argv@.len(),
            target == strings_view(argv@).map_values(|a: Seq<char>| quoted_arg(a)),
            strings_view(parts@) == target.take(i as int),
        decreases argv.len() - i,
    {
        let ghost before = parts@;
        parts.push(quote_arg(&argv[i]));
        proof {
            assert(strings_view(parts@) =~= strings_view(before).push(quoted_arg(argv@[i as int]@)));
            assert(target.take(i + 1) =~= target.take(i as int).push(quoted_arg(argv@[i as int]@)));
        }
        i = i + 1;
    }
    assert(target.take(argv@.len() as int) =~= target);
    join_strings(&parts, " ")
}

// ------------------------------------------------------------ host:port

/// The host part of a listener as `Display` writes its IP.
pub open spec fn host_text(socks: SocketAddress) -> Seq<char> {
    ip_text(socks.ip)
}

/// The port of a listener in decimal.
pub open spec fn port_text(socks: SocketAddress) -> Seq<char> {
    decimal(socks.port as nat)
}

fn host_port(socks: &SocketAddress) -> (r: (String, String))
    ensures
        r.0@ == host_text(*socks),
        r.1@ == port_text(*socks),
{
    (socks.ip.to_string(), decimal_text(socks.port as u64))
}

// -------------------------------------------------------------- Windows

/// The registry key holding the WinINET proxy settings.
pub open spec fn internet_settings_key() -> Seq<char> {
    "HKCU\\Software\\Microsoft\\Windows\\CurrentVersion\\Internet Settings"@
}

/// `reg add` setting one value of the Internet Settings key.
pub open spec fn reg_add(name: Seq<char>, kind: Seq<char>, data: Seq<char>) -> Seq<Seq<char>> {
    seq!["reg"@, "add"@, internet_settings_key(), "/v"@, name, "/t"@, kind, "/d"@, data, "/f"@]
}

/// Turn the proxy on and point it at `socks` (as `socks=HOST:PORT`).
pub open spec fn win_enable_spec(socks: SocketAddress) -> Seq<Seq<Seq<char>>> {
    seq![
        reg_add("ProxyEnable"@, "REG_DWORD"@, "1"@),
        reg_add("ProxyServer"@, "REG_SZ"@, "socks="@ + host_text(socks) + ":"@ + port_text(socks)),
    ]
}

/// Restore the direct connection.
pub open spec fn win_disable_spec() -> Seq<Seq<Seq<char>>> {
    seq![reg_add("ProxyEnable"@, "REG_DWORD"@, "0"@)]
}

fn reg_add_argv(name: &str, kind: &str, data: String) -> (r: Vec<String>)
    ensures
        strings_view(r@) == reg_add(name@, kind@, data@),
{
    let v = vec![
        owned("reg"),
        owned("add"),
        owned("HKCU\\Software\\Microsoft\\Windows\\CurrentVersion\\Internet Settings"),
        owned("/v"),
        owned(name),
        owned("/t"),
        owned(kind),
        owned("/d"),
        data,
        owned("/f"),
    ];
    assert(strings_view(v@) =~= reg_add(name@, kind@, data@));
    v
}

/// `reg add` commands enabling a SOCKS proxy for WinINET apps.
pub fn win_enable_args(socks: &SocketAddress) -> (r: Vec<Argv>)
    ensures
        commands_view(r@) == win_enable_spec(*socks),
{
    let (host, port) = host_port(socks);
    let mut server = owned("socks=");
    server.append(host.as_str());
    server.append(":");
    server.append(port.as_str());
    let r = vec![
        reg_add_argv("ProxyEnable", "REG_DWORD", owned("1")),
        reg_add_argv("ProxyServer", "REG_SZ", server),
    ];
    assert(commands_view(r@) =~= win_enable_spec(*socks));
    r
}

/// `reg add` command restoring the direct connection.
pub fn win_disable_args() -> (r: Vec<Argv>)
    ensures
        commands_view(r@) == win_disable_spec(),
{
    let r = vec![reg_add_argv("ProxyEnable", "REG_DWORD", owned("0"))];
    assert(commands_view(r@) =~= win_disable_spec());
    r
}

// ---------------------------------------------------------------- macOS

/// A listed service that is enabled: non-empty, not marked with `*`.
pub open spec fn enabled_service(line: Seq<char>) -> bool {
    line.len() > 0 && line[0] != '*'
}

/// The trimmed lines of `networksetup -listallnetworkservices` output
/// after its header line.
pub open spec fn service_lines(output: Seq<char>) -> Seq<Seq<char>> {
    split_any(output, seq!['\n']).skip(1).map_values(|l: Seq<char>| trim(l))
}

/// The enabled service names, in listed order.
pub open spec fn network_services(output: Seq<char>) -> Seq<Seq<char>> {
    service_lines(output).filter(|l: Seq<char>| enabled_service(l))
}

/// Parse `networksetup -listallnetworkservices` output into the enabled
/// service names: the header line and `*`-disabled entries are skipped.
pub fn parse_network_services(output: &str) -> (r: Vec<String>)
    ensures
        strings_view(r@) == network_services(output@),
{
    let v = chars_of(output);
    let nl = vec!['\n'];
    let parts = split_chars(&v, &nl);
    let ghost lines = service_lines(output@);
    let ghost keep = |l: Seq<char>| enabled_service(l);
    proof {
        assert(nl@ =~= seq!['\n']);
        assert(lines.len() == parts@.len() - 1);
    }
    let mut out: Vec<String> = Vec::new();
    let mut i: usize = 1;
    while i < parts.len()
        invariant
            1 <= i <= parts@.len(),
            nl@ == seq!['\n'],
            v@ == output@,
            lines == service_lines(output@),
            keep == (|l: Seq<char>| enabled_service(l)),
            lines.len() == parts@.len() - 1,
            parts@.len() == split_any(v@, nl@).len(),
            forall|k: int| 0 <= k < parts@.len() ==> #[trigger] parts@[k]@ == split_any(v@, nl@)[k],
            strings_view(out@) == lines.take(i - 1).filter(keep),
        decreases parts.len() - i,
    {
        let line = trim_chars(&parts[i]);
        let ghost before = strings_view(out@);
        proof {
            assert(line@ == lines[i - 1]);
            assert(lines.take(i as int).drop_last() =~= lines.take(i - 1));
            reveal(Seq::filter);
        }
        if line.len() > 0 && line[0] != '*' {
            out.push(string_of(&line));
            proof {
                assert(strings_view(out@) =~= before.push(line@));
            }
        } else {
            assert(strings_view(out@) =~= before);
        }
        i = i + 1;
    }
    assert(lines.take(lines.len() as int) =~= lines);
    out
}

/// The first enabled service, if any.
pub open spec fn first_service(output: Seq<char>) -> Option<Seq<char>> {
    if network_services(output).len() > 0 {
        Some(network_services(output)[0])
    } else {
        None
    }
}

/// First enabled macOS network service from `networksetup
/// -listallnetworkservices` output; `None` when none is enabled.
pub fn detect_macos_service(listall_output: &str) -> (r: Option<String>)
    ensures
        r matches Some(s) ==> first_service(listall_output@) == Some(s@),
        r is None ==> first_service(listall_output@) is None,
{
    let mut services = parse_network_services(listall_output);
    if services.len() > 0 {
        let first = services.swap_remove(0);
        Some(first)
    } else {
        None
    }
}

pub open spec fn mac_enable_spec(service: Seq<char>, socks: SocketAddress) -> Seq<Seq<char>> {
    seq!["networksetup"@, "-setsocksfirewallproxy"@, service, host_text(socks), port_text(socks)]
}

pub open spec fn mac_disable_spec(service: Seq<char>) -> Seq<Seq<char>> {
    seq!["networksetup"@, "-setsocksfirewallproxystate"@, service, "off"@]
}

/// `networksetup` pointing `service`'s SOCKS proxy at `socks`.
pub fn mac_enable_args(service: &str, socks: &SocketAddress) -> (r: Argv)
    ensures
        strings_view(r@) == mac_enable_spec(service@, *socks),
{
    let (host, port) = host_port(socks);
    let r = vec![owned("networksetup"), owned("-setsocksfirewallproxy"), owned(service), host, port];
    assert(strings_view(r@) =~= mac_enable_spec(service@, *socks));
    r
}

/// `networksetup` switching `service`'s SOCKS proxy off.
pub fn mac_disable_args(service: &str) -> (r: Argv)
    ensures
        strings_view(r@) == mac_disable_spec(service@),
{
    let r = vec![owned("networksetup"), owned("-setsocksfirewallproxystate"), owned(service), owned("off")];
    assert(strings_view(r@) =~= mac_disable_spec(service@));
    r
}

// ---------------------------------------------------------------- Linux

pub open spec fn gsettings(schema: Seq<char>, key: Seq<char>, value: Seq<char>) -> Seq<Seq<char>> {
    seq!["gsettings"@, "set"@, schema, key, value]
}

/// Manual mode first, then the SOCKS host and port.
pub open spec fn gnome_enable_spec(socks: SocketAddress) -> Seq<Seq<Seq<char>>> {
    seq![
        gsettings("org.gnome.system.proxy"@, "mode"@, "manual"@),
        gsettings("org.gnome.system.proxy.socks"@, "host"@, host_text(socks)),
        gsettings("org.gnome.system.proxy.socks"@, "port"@, port_text(socks)),
    ]
}

pub open spec fn gnome_disable_spec() -> Seq<Seq<Seq<char>>> {
    seq![gsettings("org.gnome.system.proxy"@, "mode"@, "none"@)]
}

fn gsettings_argv(schema: &str, key: &str, value: String) -> (r: Vec<String>)
    ensures
        strings_view(r@) == gsettings(schema@, key@, value@),
{
    let r = vec![owned("gsettings"), owned("set"), owned(schema), owned(key), value];
    assert(strings_view(r@) =~= gsettings(schema@, key@, value@));
    r
}

/// GNOME `gsettings` commands pointing the system proxy at `socks`.
pub fn gnome_enable_args(socks: &SocketAddress) -> (r: Vec<Argv>)
    ensures
        commands_view(r@) == gnome_enable_spec(*socks),
{
    let (host, port) = host_port(socks);
    let r = vec![
        gsettings_argv("org.gnome.system.proxy", "mode", owned("manual")),
        gsettings_argv("org.gnome.system.proxy.socks", "host", host),
        gsettings_argv("org.gnome.system.proxy.socks", "port", port),
    ];
    assert(commands_view(r@) =~= gnome_enable_spec(*socks));
    r
}

/// GNOME `gsettings` command switching the system proxy off.
pub fn gnome_disable_args() -> (r: Vec<Argv>)
    ensures
        commands_view(r@) == gnome_disable_spec(),
{
    let r = vec![gsettings_argv("org.gnome.system.proxy", "mode", owned("none"))];
    assert(commands_view(r@) =~= gnome_disable_spec());
    r
}

pub open spec fn kde_hint_spec(socks: SocketAddress) -> Seq<char> {
    "kwriteconfig5 --file kioslaverc --group 'Proxy Settings' --key ProxyType 1\nkwriteconfig5 --file kioslaverc --group 'Proxy Settings' --key socksProxy \"socks://"@
        + host_text(socks) + ":"@ + port_text(socks) + "\""@
}

/// Copy-paste commands for KDE/Plasma users (shown, never executed).
pub fn kde_hint(socks: &SocketAddress) -> (r: String)
    ensures
        r@ == kde_hint_spec(*socks),
{
    let (host, port) = host_port(socks);
    let mut s = owned(
        "kwriteconfig5 --file kioslaverc --group 'Proxy Settings' --key ProxyType 1\nkwriteconfig5 --file kioslaverc --group 'Proxy Settings' --key socksProxy \"socks://",
    );
    s.append(host.as_str());
    s.append(":");
    s.append(port.as_str());
    s.append("\"");
    s
}

// ---------------------------------------------------------------- guard

/// Remembers the commands that switch the system proxy off again. Until
/// disarmed (the tunnel closed normally and already restored the proxy),
/// tearing it down hands those commands back, once.
pub struct ProxyGuard {
    off: Vec<Argv>,
    disarmed: bool,
}

impl ProxyGuard {
    pub closed spec fn armed(&self) -> bool {
        !self.disarmed
    }

    /// The commands still held for switching the proxy off.
    pub closed spec fn off_commands(&self) -> Seq<Seq<Seq<char>>> {
        commands_view(self.off@)
    }

    pub fn new(off: Vec<Argv>) -> (r: ProxyGuard)
        ensures
            r.armed(),
            r.off_commands() == commands_view(off@),
    {
        ProxyGuard { off, disarmed: false }
    }

    /// The proxy was already restored: tearing down does nothing.
    pub fn disarm(&mut self)
        ensures
            !final(self).armed(),
            final(self).off_commands() == old(self).off_commands(),
    {
        self.disarmed = true;
    }

    /// Hand back every off command for the caller to run (and report
    /// failures of), and disarm: a later teardown does nothing.
    pub fn disarm_and_disable(&mut self) -> (r: Vec<Argv>)
        ensures
            commands_view(r@) == old(self).off_commands(),
            !final(self).armed(),
    {
        let mut cmds: Vec<Argv> = Vec::new();
        std::mem::swap(&mut cmds, &mut self.off);
        self.disarmed = true;
        cmds
    }

    /// What dropping the guard runs: the off commands while armed,
    /// nothing once disarmed; the guard is disarmed afterwards.
    pub fn teardown(&mut self) -> (r: Vec<Argv>)
        ensures
            commands_view(r@) == (if old(self).armed() {
                old(self).off_commands()
            } else {
                Seq::<Seq<Seq<char>>>::empty()
            }),
            !final(self).armed(),
    {
        if self.disarmed {
            let r: Vec<Argv> = Vec::new();
            assert(commands_view(r@) =~= Seq::<Seq<Seq<char>>>::empty());
            return r;
        }
        self.disarm_and_disable()
    }
}

// ------------------------------------------------ system-proxy switching

/// The commands that switch the system proxy on, and those that switch
/// it off again.
pub struct ProxySwitch {
    pub on: Vec<Argv>,
    pub off: Vec<Argv>,
}

/// What enabling the system proxy runs on each OS. macOS works on the
/// first enabled service of `services_listing` (the output of
/// `networksetup -listallnetworkservices`); the other systems ignore it.
pub open spec fn system_proxy_spec(os: Seq<char>, socks: SocketAddress, services_listing: Seq<char>) -> Result<
    (Seq<Seq<Seq<char>>>, Seq<Seq<Seq<char>>>),
    Seq<char>,
> {
    if os == "windows"@ {
        Ok((win_enable_spec(socks), win_disable_spec()))
    } else if os == "macos"@ {
        match first_service(services_listing) {
            Some(service) => Ok((seq![mac_enable_spec(service, socks)], seq![mac_disable_spec(service)])),
            None => Err("no enabled network service found"@),
        }
    } else if os == "linux"@ {
        Ok((gnome_enable_spec(socks), gnome_disable_spec()))
    } else {
        Err("unsupported"@)
    }
}

/// The on/off commands for pointing the system proxy of `os` at `socks`.
pub fn system_proxy_commands_for(os: &str, socks: &SocketAddress, services_listing: &str) -> (r: Result<
    ProxySwitch,
    String,
>)
    ensures
        match system_proxy_spec(os@, *socks, services_listing@) {
            Ok((on, off)) => r matches Ok(p) && commands_view(p.on@) == on && commands_view(p.off@) == off,
            Err(m) => r matches Err(e) && e@ == m,
        },
{
    let o = chars_of(os);
    if crate::text::eq_str(&o, "windows") {
        Ok(ProxySwitch { on: win_enable_args(socks), off: win_disable_args() })
    } else if crate::text::eq_str(&o, "macos") {
        match detect_macos_service(services_listing) {
            Some(service) => {
                let on = vec![mac_enable_args(service.as_str(), socks)];
                let off = vec![mac_disable_args(service.as_str())];
                assert(commands_view(on@) =~= seq![mac_enable_spec(service@, *socks)]);
                assert(commands_view(off@) =~= seq![mac_disable_spec(service@)]);
                Ok(ProxySwitch { on, off })
            },
            None => Err(owned("no enabled network service found")),
        }
    } else if crate::text::eq_str(&o, "linux") {
        Ok(ProxySwitch { on: gnome_enable_args(socks), off: gnome_disable_args() })
    } else {
        Err(owned("unsupported"))
    }
}

} // verus!
