//! The pure halves of the GUI's backend commands: where the settings file
//! lives, team credentials from the values of the environment, and the
//! scan request and tunnel spec a settings form produces.

use vstd::prelude::*;

use crate::api::{
    IpScan, ScanRequest, TeamCredentials, Transport, TunnelSpec, WG_PORTS, normalize_team,
};
use crate::net::{socket_address_syntax, SocketAddress};
use crate::mode::{mode_error, mode_of, mode_word, TrafficMode};
use crate::phase::opt_view;
use crate::settings::{
    hop_of, needs_confirm_spec, opt_env, settings_check, validate_wiw_pair, GuiSettings,
    GUI_SETTINGS_FILE,
};
use crate::text::{keyword_form, owned, string_of, trim, trimmed};

verus! {

// ------------------------------------------------------- settings path

pub open spec fn opt_str(o: Option<&str>) -> Option<Seq<char>> {
    match o {
        Some(s) => Some(s@),
        None => None,
    }
}

/// Where the GUI keeps its settings file: an explicit, non-blank
/// override first; else beside the user's data (`APPDATA` on Windows,
/// `HOME` elsewhere); else the bare file name.
pub open spec fn settings_path_spec(
    os: Seq<char>,
    config: Option<Seq<char>>,
    appdata: Option<Seq<char>>,
    home: Option<Seq<char>>,
) -> Seq<char> {
    if config is Some && trim(config->Some_0).len() > 0 {
        config->Some_0
    } else if os == "windows"@ {
        match appdata {
            Some(base) => base + "\\Aether\\"@ + GUI_SETTINGS_FILE@,
            None => GUI_SETTINGS_FILE@,
        }
    } else if os == "macos"@ {
        match home {
            Some(h) => h + "/Library/Application Support/Aether/"@ + GUI_SETTINGS_FILE@,
            None => GUI_SETTINGS_FILE@,
        }
    } else {
        match home {
            Some(h) => h + "/.config/aether/"@ + GUI_SETTINGS_FILE@,
            None => GUI_SETTINGS_FILE@,
        }
    }
}

/// The settings path on `os`, given the override variable and the data
/// directories the environment names (each `None` when unset).
pub fn settings_path_for(os: &str, config: Option<&str>, appdata: Option<&str>, home: Option<&str>) -> (r: String)
    ensures
        r@ == settings_path_spec(os@, opt_str(config), opt_str(appdata), opt_str(home)),
{
    if let Some(path) = config {
        if trimmed(path).len() > 0 {
            return owned(path);
        }
    }
    let o = crate::text::chars_of(os);
    if crate::text::eq_str(&o, "windows") {
        match appdata {
            Some(base) => {
                let mut s = owned(base);
                s.append("\\Aether\\");
                s.append(GUI_SETTINGS_FILE);
                s
            },
            None => owned(GUI_SETTINGS_FILE),
        }
    } else if crate::text::eq_str(&o, "macos") {
        match home {
            Some(h) => {
                let mut s = owned(h);
                s.append("/Library/Application Support/Aether/");
                s.append(GUI_SETTINGS_FILE);
                s
            },
            None => owned(GUI_SETTINGS_FILE),
        }
    } else {
        match home {
            Some(h) => {
                let mut s = owned(h);
                s.append("/.config/aether/");
                s.append(GUI_SETTINGS_FILE);
                s
            },
            None => owned(GUI_SETTINGS_FILE),
        }
    }
}

// ------------------------------------------------------ traffic mode

/// The stored traffic-mode preference as its canonical label.
pub fn get_traffic_mode(stored: &TrafficMode) -> (r: String)
    ensures
        r@ == stored.name(),
{
    owned(stored.label())
}

/// Store the preference `raw` names (read as [`TrafficMode::parse`]
/// reads it) and hand back its canonical label; an unknown name is an
/// error and leaves the stored preference as it was. Only the preference
/// changes: the OS side follows when a tunnel comes up.
pub fn set_traffic_mode(stored: &mut TrafficMode, raw: &str) -> (r: Result<String, String>)
    ensures
        match mode_of(mode_word(raw@)) {
            Some(m) => {
                &&& *final(stored) == m
                &&& r matches Ok(l) && l@ == m.name()
            },
            None => {
                &&& *final(stored) == *old(stored)
                &&& r matches Err(e) && e@ == mode_error(mode_word(raw@))
            },
        },
{
    match TrafficMode::parse(raw) {
        Ok(m) => {
            *stored = m;
            Ok(owned(m.label()))
        },
        Err(e) => Err(e),
    }
}

// ---------------------------------------------------------------- team

fn opt_value(raw: Option<&str>) -> (r: Option<String>)
    ensures
        opt_view(r) == (match raw {
            Some(v) => opt_env(v@),
            None => None,
        }),
{
    match raw {
        Some(v) => {
            let t = trimmed(v);
            if t.len() == 0 {
                None
            } else {
                Some(string_of(&t))
            }
        },
        None => None,
    }
}

pub open spec fn opt_env_of(raw: Option<&str>) -> Option<Seq<char>> {
    match raw {
        Some(v) => opt_env(v@),
        None => None,
    }
}

/// Team credentials from the values of `AETHER_TEAM` and the
/// `AETHER_ACCESS_*` variables (each `None` when unset). A blank or absent
/// team means personal WARP (`Ok(None)`); an unusable team name is an
/// error; every sign-in value is trimmed and kept only when non-blank.
pub fn team_from_values(
    team: Option<&str>,
    client_id: Option<&str>,
    client_secret: Option<&str>,
    token: Option<&str>,
    email: Option<&str>,
) -> (r: Result<Option<TeamCredentials>, String>)
    ensures
        match opt_env_of(team) {
            None => r == Ok::<Option<TeamCredentials>, String>(None),
            Some(t) => match normalize_team(t) {
                None => r matches Err(m) && m@ == crate::api::bad_team_message(t),
                Some(n) => r matches Ok(Some(c)) && c.team@ == n && opt_view(c.client_id) == opt_env_of(
                    client_id,
                ) && opt_view(c.client_secret) == opt_env_of(client_secret) && opt_view(c.token)
                    == opt_env_of(token) && opt_view(c.email) == opt_env_of(email),
            },
        },
{
    let team = match opt_value(team) {
        Some(t) => t,
        None => return Ok(None),
    };
    let mut creds = match TeamCredentials::new(team.as_str()) {
        Ok(c) => c,
        Err(e) => return Err(e.to_string()),
    };
    creds.client_id = opt_value(client_id);
    creds.client_secret = opt_value(client_secret);
    creds.token = opt_value(token);
    creds.email = opt_value(email);
    Ok(Some(creds))
}

// ---------------------------------------------------------------- scan

/// `addrs` added one by one to `ex` as a set: nothing is added twice.
pub open spec fn insert_all(ex: Seq<SocketAddress>, addrs: Seq<SocketAddress>) -> Seq<SocketAddress>
    decreases addrs.len(),
{
    if addrs.len() == 0 {
        ex
    } else {
        let e = insert_all(ex, addrs.drop_last());
        if e.contains(addrs.last()) {
            e
        } else {
            e.push(addrs.last())
        }
    }
}

/// No address occurs twice in `s`.
pub open spec fn no_repeats(s: Seq<SocketAddress>) -> bool {
    forall|i: int, j: int| 0 <= i < j < s.len() ==> s[i] != s[j]
}

/// Exclusions form a set: adding addresses one by one never repeats one,
/// and every address added is excluded afterwards.
pub proof fn law_exclusions_form_a_set(ex: Seq<SocketAddress>, addrs: Seq<SocketAddress>)
    requires
        no_repeats(ex),
    ensures
        no_repeats(insert_all(ex, addrs)),
        forall|k: int| 0 <= k < addrs.len() ==> insert_all(ex, addrs).contains(#[trigger] addrs[k]),
        forall|a: SocketAddress| ex.contains(a) ==> insert_all(ex, addrs).contains(a),
    decreases addrs.len(),
{
    if addrs.len() > 0 {
        law_exclusions_form_a_set(ex, addrs.drop_last());
        let e = insert_all(ex, addrs.drop_last());
        let r = insert_all(ex, addrs);
        if !e.contains(addrs.last()) {
            assert forall|i: int, j: int| 0 <= i < j < r.len() implies r[i] != r[j] by {
                if j == r.len() - 1 {
                    assert(e[i] == r[i]);
                }
            }
            assert(r[r.len() - 1] == addrs.last());
        }
        assert forall|k: int| 0 <= k < addrs.len() implies r.contains(#[trigger] addrs[k]) by {
            if k < addrs.len() - 1 {
                assert(addrs.drop_last()[k] == addrs[k]);
                assert(e.contains(addrs[k]));
                if !e.contains(addrs.last()) {
                    let w = choose|w: int| 0 <= w < e.len() && e[w] == addrs[k];
                    assert(r[w] == addrs[k]);
                }
            } else if !e.contains(addrs.last()) {
                assert(r[r.len() - 1] == addrs[k]);
            }
        }
        assert forall|a: SocketAddress| ex.contains(a) implies r.contains(a) by {
            assert(e.contains(a));
            if !e.contains(addrs.last()) {
                let w = choose|w: int| 0 <= w < e.len() && e[w] == a;
                assert(r[w] == a);
            }
        }
    }
}

/// The edge a pinned hop field names, on every WireGuard port; nothing
/// when the field holds no endpoint.
pub open spec fn pinned_hop(raw: Seq<char>) -> Seq<SocketAddress> {
    match socket_address_syntax(trim(raw)) {
        Some(a) => WG_PORTS@.map_values(|p: u16| SocketAddress { ip: a.ip, port: p, scope_id: 0 }),
        None => Seq::<SocketAddress>::empty(),
    }
}

/// What a settings form asks a scan for: the transport it names, its
/// mode, IP family and obfuscation profile; a gool scan wants two
/// endpoints and keeps each pinned hop's edge out of the sweep.
pub open spec fn scan_request_matches(s: GuiSettings, r: ScanRequest) -> bool {
    let t = Transport::of_keyword(keyword_form(s.protocol@));
    &&& r.transport == t
    &&& r.mode@ == s.scan@
    &&& r.ip == IpScan::of_keyword(keyword_form(s.ip@))
    &&& r.ports@ == (match t {
        Transport::Masque => crate::api::MASQUE_PORTS@,
        _ => WG_PORTS@,
    })
    &&& r.profile@ == s.noize@
    &&& r.wanted == (if t == Transport::WarpInWarp { 2usize } else { 1usize })
    &&& r.excluded@ == (if t == Transport::WarpInWarp {
        insert_all(insert_all(Seq::<SocketAddress>::empty(), pinned_hop(s.wiw_outer@)), pinned_hop(s.wiw_inner@))
    } else {
        Seq::<SocketAddress>::empty()
    })
}

fn exclude_pinned(request: &mut ScanRequest, raw: &String)
    ensures
        final(request).excluded@ == insert_all(old(request).excluded@, pinned_hop(raw@)),
        final(request).transport == old(request).transport,
        final(request).wanted == old(request).wanted,
        final(request).mode == old(request).mode,
        final(request).ip == old(request).ip,
        final(request).profile == old(request).profile,
        final(request).ports == old(request).ports,
{
    let t = trimmed(raw.as_str());
    match SocketAddress::parse_chars(&t) {
        Some(addr) => {
            let ghost hop = pinned_hop(raw@);
            let ports = WG_PORTS;
            let mut i: usize = 0;
            while i < ports.len()
                invariant
                    i <= ports@.len(),
                    ports@ == WG_PORTS@,
                    hop == WG_PORTS@.map_values(|p: u16| SocketAddress { ip: addr.ip, port: p, scope_id: 0 }),
                    request.excluded@ == insert_all(old(request).excluded@, hop.take(i as int)),
                    request.transport == old(request).transport,
                    request.wanted == old(request).wanted,
                    request.mode == old(request).mode,
                    request.ip == old(request).ip,
                    request.profile == old(request).profile,
                    request.ports == old(request).ports,
                decreases ports.len() - i,
            {
                let a = SocketAddress { ip: addr.ip, port: ports[i], scope_id: 0 };
                proof {
                    assert(hop.take(i + 1).drop_last() =~= hop.take(i as int));
                    assert(hop.take(i + 1).last() == a);
                }
                request.exclude(a);
                i = i + 1;
            }
            assert(hop.take(hop.len() as int) =~= hop);
        },
        None => {
            assert(pinned_hop(raw@) =~= Seq::<SocketAddress>::empty());
        },
    }
}

fn scan_request_of(settings: &GuiSettings) -> (r: ScanRequest)
    ensures
        scan_request_matches(*settings, r),
{
    let transport = Transport::parse(settings.protocol.as_str());
    let mut request = ScanRequest::for_transport(transport);
    assert(request.excluded@ =~= Seq::<SocketAddress>::empty());
    request = request.with_mode(settings.scan.as_str());
    request = request.with_ip(IpScan::parse(settings.ip.as_str()));
    request = request.with_profile(settings.noize.as_str());
    if transport == Transport::WarpInWarp {
        request = request.with_wanted(2);
        exclude_pinned(&mut request, &settings.wiw_outer);
        exclude_pinned(&mut request, &settings.wiw_inner);
    }
    request
}

/// The scan request for a settings form; invalid settings fail before
/// any I/O, with the first problem found.
pub fn scan_request_for(settings: &GuiSettings) -> (r: Result<ScanRequest, String>)
    ensures
        match settings_check(*settings) {
            Some(m) => r matches Err(e) && e@ == m,
            None => r matches Ok(q) && scan_request_matches(*settings, q),
        },
{
    if let Err(e) = settings.validate() {
        return Err(e.to_string());
    }
    Ok(scan_request_of(settings))
}

// -------------------------------------------------------------- tunnel

/// The listener a bind field holds (trimmed).
pub open spec fn bind_of(raw: Seq<char>) -> SocketAddress {
    socket_address_syntax(trim(raw))->Some_0
}

/// What a settings form asks of the tunnel: the transport it names, the
/// SOCKS listener, the HTTP listener when set, the obfuscation profile,
/// and for gool the pinned hops; keepalive and verification timeout keep
/// their defaults.
pub open spec fn tunnel_spec_matches(s: GuiSettings, r: TunnelSpec) -> bool {
    let t = Transport::of_keyword(keyword_form(s.protocol@));
    &&& r.transport == t
    &&& r.socks == bind_of(s.socks@)
    &&& r.http == (if trim(s.http_proxy@).len() == 0 {
        None
    } else {
        Some(bind_of(s.http_proxy@))
    })
    &&& r.ech is None
    &&& r.profile@ == s.noize@
    &&& r.keepalive == 5
    &&& r.verify_timeout_secs == 10
    &&& (r.outer, r.inner) == (if t == Transport::WarpInWarp {
        (hop_of(s.wiw_outer@), hop_of(s.wiw_inner@))
    } else {
        (None, None)
    })
}

fn bind_error(t: &Vec<char>) -> (r: String)
    ensures
        r@ == "'"@ + t@ + "' is not an address:port"@,
{
    let mut m = owned("'");
    m.append(string_of(t).as_str());
    m.append("' is not an address:port");
    m
}

/// The tunnel spec for a settings form; invalid settings fail before any
/// I/O, with the first problem found.
pub fn tunnel_spec_for(settings: &GuiSettings) -> (r: Result<TunnelSpec, String>)
    ensures
        match settings_check(*settings) {
            Some(m) => r matches Err(e) && e@ == m,
            None => r matches Ok(t) && tunnel_spec_matches(*settings, t),
        },
{
    if let Err(e) = settings.validate() {
        return Err(e.to_string());
    }
    let transport = Transport::parse(settings.protocol.as_str());
    let mut spec = TunnelSpec::for_transport(transport);
    let socks_text = trimmed(settings.socks.as_str());
    spec.socks = match SocketAddress::parse_chars(&socks_text) {
        Some(a) => a,
        None => return Err(bind_error(&socks_text)),
    };
    let http_text = trimmed(settings.http_proxy.as_str());
    if http_text.len() > 0 {
        spec.http = match SocketAddress::parse_chars(&http_text) {
            Some(a) => Some(a),
            None => return Err(bind_error(&http_text)),
        };
    }
    spec.profile = owned(settings.noize.as_str());
    if transport == Transport::WarpInWarp {
        match validate_wiw_pair(settings.wiw_outer.as_str(), settings.wiw_inner.as_str()) {
            Ok((outer, inner)) => {
                spec.outer = outer;
                spec.inner = inner;
            },
            Err(e) => return Err(e.to_string()),
        }
    }
    Ok(spec)
}

/// The two hops a two-hop connect dials: both must be set (each scanned
/// first); otherwise the connect fails before any I/O.
pub fn gool_hops_of(spec: &TunnelSpec) -> (r: Result<(SocketAddress, SocketAddress), String>)
    ensures
        match (spec.outer, spec.inner) {
            (Some(o), Some(i)) => r == Ok::<(SocketAddress, SocketAddress), String>((o, i)),
            _ => r matches Err(m) && m@
                == "both gool hops are needed — scan the outer and inner endpoints first"@,
        },
{
    match (spec.outer, spec.inner) {
        (Some(o), Some(i)) => Ok((o, i)),
        _ => Err(owned("both gool hops are needed — scan the outer and inner endpoints first")),
    }
}

/// The Connect button shows the non-loopback confirm (the HTTP listener
/// counts too: it is just as unauthenticated).
pub fn needs_bind_confirm(settings: &GuiSettings) -> (r: bool)
    ensures
        r == (needs_confirm_spec(settings.socks@) || needs_confirm_spec(settings.http_proxy@)),
{
    settings.binds_need_confirm()
}

} // verus!
