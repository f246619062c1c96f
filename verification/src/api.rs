//! The GUI-facing request types: transports, zero trust credentials,
//! provisioning and scan requests, tunnel specs and identity file paths.

use vstd::prelude::*;

use crate::error::AetherError;
use crate::net::{ip_text, IpAddress, SocketAddress};
use crate::settings::{ip_env_of, proto_env_of};
use crate::text::{
    all_ascii, ascii_lower, chars_of, eq_str, keyword_form, keyword_of, lemma_trim_of_unpadded,
    string_of, trim,
};

verus! {

// ------------------------------------------------------------- transport

/// The tunnel transport.
#[derive(Debug, Clone, Copy, PartialEq, Eq, Structural)]
pub enum Transport {
    Masque,
    WireGuard,
    /// WARP-in-WARP (`gool`): two WireGuard hops.
    WarpInWarp,
}

/// UDP ports the MASQUE edge answers on.
pub const MASQUE_PORTS: [u16; 7] = [443, 500, 1701, 4443, 4500, 8443, 8095];

/// UDP ports the WireGuard edge answers on.
pub const WG_PORTS: [u16; 12] = [2408, 500, 854, 859, 864, 878, 880, 890, 891, 894, 903, 908];

impl Transport {
    /// The transport a lower-cased, trimmed name selects (MASQUE by default).
    pub open spec fn of_keyword(k: Seq<char>) -> Transport {
        if k == "wg"@ || k == "wireguard"@ || k == "warp"@ {
            Transport::WireGuard
        } else if k == "gool"@ || k == "wiw"@ || k == "warp-in-warp"@ || k == "warpinwarp"@ {
            Transport::WarpInWarp
        } else {
            Transport::Masque
        }
    }

    pub open spec fn name(self) -> Seq<char> {
        match self {
            Transport::Masque => "masque"@,
            Transport::WireGuard => "wireguard"@,
            Transport::WarpInWarp => "gool"@,
        }
    }

    pub open spec fn port(self) -> u16 {
        match self {
            Transport::Masque => 443,
            _ => 2408,
        }
    }

    /// Reads a transport name, case-insensitively and ignoring surrounding
    /// whitespace; anything unknown is MASQUE.
    pub fn parse(raw: &str) -> (r: Transport)
        ensures
            r == Transport::of_keyword(keyword_form(raw@)),
            all_ascii(trim(raw@)) ==> r == Transport::of_keyword(ascii_lower(trim(raw@))),
    {
        let k = keyword_of(raw);
        if eq_str(&k, "wg") || eq_str(&k, "wireguard") || eq_str(&k, "warp") {
            Transport::WireGuard
        } else if eq_str(&k, "gool") || eq_str(&k, "wiw") || eq_str(&k, "warp-in-warp") || eq_str(
            &k,
            "warpinwarp",
        ) {
            Transport::WarpInWarp
        } else {
            Transport::Masque
        }
    }

    pub fn label(&self) -> (r: &'static str)
        ensures
            r@ == self.name(),
    {
        match self {
            Transport::Masque => "masque",
            Transport::WireGuard => "wireguard",
            Transport::WarpInWarp => "gool",
        }
    }

    /// The port the edge assigns for this transport.
    pub fn assigned_port(&self) -> (r: u16)
        ensures
            r == self.port(),
    {
        match self {
            Transport::Masque => 443,
            Transport::WireGuard | Transport::WarpInWarp => 2408,
        }
    }

    /// The ports a scan tries for this transport.
    pub fn default_ports(&self) -> (r: Vec<u16>)
        ensures
            r@ == (match self {
                Transport::Masque => MASQUE_PORTS@,
                _ => WG_PORTS@,
            }),
            r@.len() > 0,
            r@.contains(self.port()),
    {
        let mut out: Vec<u16> = Vec::new();
        match self {
            Transport::Masque => {
                let mut i: usize = 0;
                while i < 7
                    invariant
                        i <= 7,
                        out@ == MASQUE_PORTS@.take(i as int),
                    decreases 7 - i,
                {
                    out.push(MASQUE_PORTS[i]);
                    proof {
                        assert(MASQUE_PORTS@.take(i + 1) =~= MASQUE_PORTS@.take(i as int).push(MASQUE_PORTS@[i as int]));
                    }
                    i = i + 1;
                }
                assert(out@ =~= MASQUE_PORTS@);
                assert(out@[0] == 443);
            },
            _ => {
                let mut i: usize = 0;
                while i < 12
                    invariant
                        i <= 12,
                        out@ == WG_PORTS@.take(i as int),
                    decreases 12 - i,
                {
                    out.push(WG_PORTS[i]);
                    proof {
                        assert(WG_PORTS@.take(i + 1) =~= WG_PORTS@.take(i as int).push(WG_PORTS@[i as int]));
                    }
                    i = i + 1;
                }
                assert(out@ =~= WG_PORTS@);
                assert(out@[0] == 2408);
            },
        }
        out
    }
}

/// Every transport's label reads back as that transport.
pub proof fn law_transport_label_round_trips(t: Transport)
    ensures
        all_ascii(trim(t.name())),
        Transport::of_keyword(ascii_lower(trim(t.name()))) == t,
{
    reveal_strlit("masque");
    reveal_strlit("wireguard");
    reveal_strlit("gool");
    reveal_strlit("wg");
    reveal_strlit("warp");
    reveal_strlit("wiw");
    reveal_strlit("warp-in-warp");
    reveal_strlit("warpinwarp");
    lemma_trim_of_unpadded(t.name());
    assert(ascii_lower(t.name()) =~= t.name());
}

// ------------------------------------------------------------- zero trust

pub open spec fn is_team_char(c: char) -> bool {
    ('a' <= c <= 'z') || ('0' <= c <= '9') || c == '-'
}

pub open spec fn strip_prefix(s: Seq<char>, p: Seq<char>) -> Seq<char> {
    if s.len() >= p.len() && s.take(p.len() as int) == p {
        s.skip(p.len() as int)
    } else {
        s
    }
}

pub open spec fn strip_suffix(s: Seq<char>, p: Seq<char>) -> Seq<char> {
    if s.len() >= p.len() && s.skip(s.len() - p.len()) == p {
        s.take(s.len() - p.len())
    } else {
        s
    }
}

/// `s` up to (not including) its first `/`.
pub open spec fn before_slash(s: Seq<char>) -> Seq<char> {
    match crate::text::index_of(s, '/') {
        Some(i) => s.take(i),
        None => s,
    }
}

/// The team name a user's input denotes: lower-cased and trimmed, an
/// `http(s)://` scheme, any path and the `.cloudflareaccess.com` domain
/// removed; usable when what is left is non-empty and made of lower-case
/// letters, digits and `-`.
pub open spec fn normalize_team(raw: Seq<char>) -> Option<Seq<char>> {
    if valid_team(team_part(raw)) {
        Some(team_part(raw))
    } else {
        None
    }
}

/// The host part of a team input, before validation.
pub open spec fn team_part(raw: Seq<char>) -> Seq<char> {
    let k = keyword_form(raw);
    let no_scheme = strip_prefix(strip_prefix(k, "https://"@), "http://"@);
    strip_suffix(before_slash(no_scheme), ".cloudflareaccess.com"@)
}

pub open spec fn valid_team(team: Seq<char>) -> bool {
    team.len() > 0 && forall|i: int| 0 <= i < team.len() ==> is_team_char(#[trigger] team[i])
}

fn starts_with_chars(s: &Vec<char>, p: &str) -> (r: bool)
    ensures
        r == (s@.len() >= p@.len() && s@.take(p@.len() as int) == p@),
{
    let pv = chars_of(p);
    if s.len() < pv.len() {
        return false;
    }
    let mut i: usize = 0;
    while i < pv.len()
        invariant
            i <= pv.len() <= s.len(),
            pv@ == p@,
            forall|j: int| 0 <= j < i ==> s@[j] == pv@[j],
        decreases pv.len() - i,
    {
        if s[i] != pv[i] {
            assert(s@.take(pv@.len() as int)[i as int] != pv@[i as int]);
            return false;
        }
        i = i + 1;
    }
    assert(s@.take(pv@.len() as int) =~= pv@);
    true
}

fn ends_with_chars(s: &Vec<char>, p: &str) -> (r: bool)
    ensures
        r == (s@.len() >= p@.len() && s@.skip(s@.len() - p@.len()) == p@),
{
    let pv = chars_of(p);
    if s.len() < pv.len() {
        return false;
    }
    let off = s.len() - pv.len();
    let mut i: usize = 0;
    while i < pv.len()
        invariant
            i <= pv.len() <= s.len(),
            off == s.len() - pv.len(),
            pv@ == p@,
            forall|j: int| 0 <= j < i ==> s@[off + j] == pv@[j],
        decreases pv.len() - i,
    {
        if s[off + i] != pv[i] {
            assert(s@.skip(off as int)[i as int] != pv@[i as int]);
            return false;
        }
        i = i + 1;
    }
    assert(s@.skip(off as int) =~= pv@);
    true
}

/// Exec [`normalize_team`].
pub fn normalize_team_name(raw: &str) -> (r: Option<String>)
    ensures
        r matches Some(t) ==> normalize_team(raw@) == Some(t@),
        r is None ==> normalize_team(raw@) is None,
{
    proof {
        reveal_strlit("https://");
        reveal_strlit("http://");
        reveal_strlit(".cloudflareaccess.com");
    }
    let k = keyword_of(raw);
    let a = if starts_with_chars(&k, "https://") {
        crate::text::slice_chars(&k, 8, k.len())
    } else {
        crate::text::slice_chars(&k, 0, k.len())
    };
    assert(a@ =~= strip_prefix(k@, "https://"@));
    let b = if starts_with_chars(&a, "http://") {
        crate::text::slice_chars(&a, 7, a.len())
    } else {
        crate::text::slice_chars(&a, 0, a.len())
    };
    assert(b@ =~= strip_prefix(a@, "http://"@));
    proof {
        crate::text::lemma_index_of(b@, '/');
    }
    let host = match crate::text::find_char(&b, '/') {
        Some(i) => crate::text::slice_chars(&b, 0, i),
        None => crate::text::slice_chars(&b, 0, b.len()),
    };
    assert(host@ =~= before_slash(b@));
    let team = if ends_with_chars(&host, ".cloudflareaccess.com") {
        crate::text::slice_chars(&host, 0, host.len() - 21)
    } else {
        crate::text::slice_chars(&host, 0, host.len())
    };
    assert(team@ =~= strip_suffix(host@, ".cloudflareaccess.com"@));
    let ghost spec_team = team_part(raw@);
    assert(team@ == spec_team);
    if team.len() == 0 {
        return None;
    }
    let mut i: usize = 0;
    while i < team.len()
        invariant
            i <= team.len(),
            forall|j: int| 0 <= j < i ==> is_team_char(#[trigger] team@[j]),
            team@ == spec_team,
            spec_team == team_part(raw@),
        decreases team.len() - i,
    {
        let c = team[i];
        if !(('a' <= c && c <= 'z') || ('0' <= c && c <= '9') || c == '-') {
            assert(!is_team_char(spec_team[i as int]));
            return None;
        }
        i = i + 1;
    }
    Some(string_of(&team))
}

pub open spec fn login_url_of(team: Seq<char>) -> Seq<char> {
    "https://"@ + team + ".cloudflareaccess.com/warp"@
}

pub open spec fn team_domain_of(team: Seq<char>) -> Seq<char> {
    team + ".cloudflareaccess.com"@
}

fn clone_opt(o: &Option<String>) -> (r: Option<String>)
    ensures
        crate::phase::opt_view(r) == crate::phase::opt_view(*o),
{
    match o {
        Some(s) => Some(s.clone()),
        None => None,
    }
}

/// The zero trust settings a sign-in uses.
#[derive(Debug, Clone, Default)]
pub struct TeamSettings {
    pub team: String,
    pub client_id: Option<String>,
    pub client_secret: Option<String>,
    pub token: Option<String>,
    pub email: Option<String>,
}

impl TeamSettings {
    /// Whether a service token (id and secret) is configured.
    pub fn has_service_token(&self) -> (r: bool)
        ensures
            r == (self.client_id is Some && self.client_secret is Some),
    {
        self.client_id.is_some() && self.client_secret.is_some()
    }

    /// The team's access domain.
    pub fn team_domain(&self) -> (r: String)
        ensures
            r@ == team_domain_of(self.team@),
    {
        let mut s = self.team.clone();
        s.append(".cloudflareaccess.com");
        s
    }

    /// The browser sign-in page of the team.
    pub fn login_url(&self) -> (r: String)
        ensures
            r@ == login_url_of(self.team@),
    {
        let mut s = String::from_str("https://");
        s.append(self.team.as_str());
        s.append(".cloudflareaccess.com/warp");
        s
    }
}

/// Zero trust credentials: a normalized team name plus whichever sign-in
/// method the caller configured.
#[derive(Debug, Clone, Default)]
pub struct TeamCredentials {
    pub team: String,
    pub client_id: Option<String>,
    pub client_secret: Option<String>,
    pub token: Option<String>,
    pub email: Option<String>,
}

pub open spec fn bad_team_message(raw: Seq<char>) -> Seq<char> {
    "'"@ + raw + "' is not a usable zero trust team name"@
}

impl TeamCredentials {
    /// Credentials for a team given by name or by its access URL.
    pub fn new(team: &str) -> (r: Result<TeamCredentials, AetherError>)
        ensures
            r is Ok <==> normalize_team(team@) is Some,
            r matches Ok(c) ==> Some(c.team@) == normalize_team(team@) && c.client_id is None
                && c.client_secret is None && c.token is None && c.email is None,
            r matches Err(e) ==> e == AetherError::Api(e->Api_0) && e.message() == bad_team_message(team@),
    {
        match normalize_team_name(team) {
            Some(t) => Ok(
                TeamCredentials { team: t, client_id: None, client_secret: None, token: None, email: None },
            ),
            None => {
                let mut m = String::from_str("'");
                m.append(team);
                m.append("' is not a usable zero trust team name");
                Err(AetherError::Api(m))
            },
        }
    }

    pub fn with_service_token(self, client_id: &str, client_secret: &str) -> (r: TeamCredentials)
        ensures
            r.team == self.team,
            r.client_id matches Some(x) && x@ == client_id@,
            r.client_secret matches Some(x) && x@ == client_secret@,
            r.token == self.token,
            r.email == self.email,
    {
        TeamCredentials {
            client_id: Some(String::from_str(client_id)),
            client_secret: Some(String::from_str(client_secret)),
            ..self
        }
    }

    pub fn with_token(self, token: &str) -> (r: TeamCredentials)
        ensures
            r.team == self.team,
            r.client_id == self.client_id,
            r.client_secret == self.client_secret,
            r.token matches Some(x) && x@ == token@,
            r.email == self.email,
    {
        TeamCredentials { token: Some(String::from_str(token)), ..self }
    }

    pub fn with_email(self, email: &str) -> (r: TeamCredentials)
        ensures
            r.team == self.team,
            r.client_id == self.client_id,
            r.client_secret == self.client_secret,
            r.token == self.token,
            r.email matches Some(x) && x@ == email@,
    {
        TeamCredentials { email: Some(String::from_str(email)), ..self }
    }

    /// The settings a sign-in with these credentials uses.
    pub fn settings(&self) -> (r: TeamSettings)
        ensures
            r.team@ == self.team@,
            crate::phase::opt_view(r.client_id) == crate::phase::opt_view(self.client_id),
            crate::phase::opt_view(r.client_secret) == crate::phase::opt_view(self.client_secret),
            crate::phase::opt_view(r.token) == crate::phase::opt_view(self.token),
            crate::phase::opt_view(r.email) == crate::phase::opt_view(self.email),
    {
        TeamSettings {
            team: self.team.clone(),
            client_id: clone_opt(&self.client_id),
            client_secret: clone_opt(&self.client_secret),
            token: clone_opt(&self.token),
            email: clone_opt(&self.email),
        }
    }

    pub fn login_url(&self) -> (r: String)
        ensures
            r@ == login_url_of(self.team@),
    {
        self.settings().login_url()
    }
}


// ----------------------------------------------------------- provisioning

/// The device model reported when provisioning.
pub const DEFAULT_MODEL: &'static str = "PC";

/// The locale reported when provisioning.
pub const DEFAULT_LOCALE: &'static str = "en_US";

/// What to provision: device model and locale, an optional zero trust
/// team, and whether a MASQUE certificate is needed.
#[derive(Debug, Clone)]
pub struct ProvisionRequest {
    pub model: String,
    pub locale: String,
    pub team: Option<TeamCredentials>,
    pub masque_cert: bool,
}

impl Default for ProvisionRequest {
    fn default() -> (r: ProvisionRequest)
        ensures
            r.model@ == DEFAULT_MODEL@,
            r.locale@ == DEFAULT_LOCALE@,
            r.team is None,
            !r.masque_cert,
    {
        ProvisionRequest {
            model: String::from_str(DEFAULT_MODEL),
            locale: String::from_str(DEFAULT_LOCALE),
            team: None,
            masque_cert: false,
        }
    }
}

impl ProvisionRequest {
    /// The default request; a MASQUE certificate only for MASQUE.
    pub fn for_transport(transport: Transport) -> (r: ProvisionRequest)
        ensures
            r.model@ == DEFAULT_MODEL@,
            r.locale@ == DEFAULT_LOCALE@,
            r.team is None,
            r.masque_cert == (transport == Transport::Masque),
    {
        ProvisionRequest {
            model: String::from_str(DEFAULT_MODEL),
            locale: String::from_str(DEFAULT_LOCALE),
            team: None,
            masque_cert: transport == Transport::Masque,
        }
    }

    pub fn in_team(self, credentials: TeamCredentials) -> (r: ProvisionRequest)
        ensures
            r.team == Some(credentials),
            r.model == self.model,
            r.locale == self.locale,
            r.masque_cert == self.masque_cert,
    {
        ProvisionRequest { team: Some(credentials), ..self }
    }
}

/// The human-readable identity card the GUI header shows.
#[derive(Debug, Clone, PartialEq, Eq)]
pub struct IdentitySummary {
    pub device_id: String,
    pub ipv4: String,
    pub ipv6: String,
    pub organization: String,
    pub gateway_proxy: String,
    pub assigned_endpoint: String,
    pub has_masque_cert: bool,
    pub cert_issued_at: u64,
    pub cert_usable: bool,
}

// ------------------------------------------------------------------ paths

pub open spec fn is_path_sep(c: char) -> bool {
    c == '/' || c == '\\'
}

/// Position of the dot that starts the file name's extension, if any.
pub open spec fn extension_dot(s: Seq<char>) -> Option<int>
    decreases s.len(),
{
    if s.len() == 0 {
        None
    } else if s.last() == '.' {
        Some(s.len() - 1)
    } else if is_path_sep(s.last()) {
        None
    } else {
        extension_dot(s.drop_last())
    }
}

proof fn lemma_extension_dot(s: Seq<char>)
    ensures
        extension_dot(s) matches Some(d) ==> 0 <= d < s.len() && s[d] == '.',
    decreases s.len(),
{
    if s.len() > 0 {
        lemma_extension_dot(s.drop_last());
    }
}

/// A file beside `base` named after it: `dir/name-<suffix>.ext` for
/// `dir/name.ext` (or `base-<suffix>` when the name has no extension).
pub open spec fn sibling_path(base: Seq<char>, suffix: Seq<char>) -> Seq<char> {
    match extension_dot(base) {
        Some(d) => base.take(d) + seq!['-'] + suffix + base.skip(d),
        None => base + seq!['-'] + suffix,
    }
}

fn find_extension_dot(v: &Vec<char>) -> (r: Option<usize>)
    ensures
        r matches Some(d) ==> extension_dot(v@) == Some(d as int),
        r is None ==> extension_dot(v@) is None,
{
    let mut i: usize = v.len();
    assert(v@.take(i as int) =~= v@);
    while i > 0
        invariant
            i <= v.len(),
            extension_dot(v@) == extension_dot(v@.take(i as int)),
        decreases i,
    {
        let c = v[i - 1];
        proof {
            assert(v@.take(i as int).drop_last() =~= v@.take(i - 1));
        }
        if c == '.' {
            return Some(i - 1);
        }
        if c == '/' || c == '\\' {
            return None;
        }
        i = i - 1;
    }
    None
}

/// Exec [`sibling_path`].
pub fn derive_sibling_path(base: &str, suffix: &str) -> (r: String)
    ensures
        r@ == sibling_path(base@, suffix@),
{
    let v = chars_of(base);
    proof {
        lemma_extension_dot(v@);
    }
    match find_extension_dot(&v) {
        Some(d) => {
            let mut s = string_of(&crate::text::slice_chars(&v, 0, d));
            s.append("-");
            s.append(suffix);
            s.append(string_of(&crate::text::slice_chars(&v, d, v.len())).as_str());
            proof {
                reveal_strlit("-");
                assert(v@.subrange(0, d as int) =~= v@.take(d as int));
                assert(v@.subrange(d as int, v@.len() as int) =~= v@.skip(d as int));
            }
            s
        },
        None => {
            let mut s = String::from_str(base);
            s.append("-");
            s.append(suffix);
            proof {
                reveal_strlit("-");
            }
            s
        },
    }
}

/// Where the identity for a transport (or a team) lives.
pub open spec fn identity_path_of(base: Seq<char>, transport: Transport, team: Option<Seq<char>>) -> Seq<char> {
    match team {
        Some(t) => sibling_path(base, "team-"@ + t),
        None => match transport {
            Transport::Masque => sibling_path(base, "masque"@),
            _ => base,
        },
    }
}

/// Identity file for a transport: a team gets `<base>-team-<name>`,
/// MASQUE `<base>-masque`, WireGuard and gool `base` itself.
pub fn identity_path(base: &str, transport: Transport, team: Option<&str>) -> (r: String)
    ensures
        r@ == identity_path_of(base@, transport, match team {
            Some(t) => Some(t@),
            None => None,
        }),
{
    match team {
        Some(t) => {
            let mut suffix = String::from_str("team-");
            suffix.append(t);
            derive_sibling_path(base, suffix.as_str())
        },
        None => match transport {
            Transport::Masque => derive_sibling_path(base, "masque"),
            _ => String::from_str(base),
        },
    }
}

/// The last known-good gateway cache beside an identity file.
pub fn lastconn_path(identity_path: &str) -> (r: String)
    ensures
        r@ == sibling_path(identity_path@, "lastconn"@),
{
    derive_sibling_path(identity_path, "lastconn")
}

/// The two WireGuard identity files of a gool pair: the primary at the
/// (team-aware) WireGuard path, the secondary beside it.
pub fn gool_paths(base: &str, team: Option<&str>) -> (r: (String, String))
    ensures
        r.0@ == identity_path_of(base@, Transport::WireGuard, match team {
            Some(t) => Some(t@),
            None => None,
        }),
        r.1@ == sibling_path(r.0@, "secondary"@),
{
    let primary = identity_path(base, Transport::WireGuard, team);
    let secondary = derive_sibling_path(primary.as_str(), "secondary");
    (primary, secondary)
}

// ------------------------------------------------------------------ scans

/// A gateway found by a scan.
#[derive(Debug, Clone, Copy, PartialEq, Eq)]
pub struct Endpoint {
    pub ip: IpAddress,
    pub port: u16,
    pub rtt_ms: u64,
}

impl Endpoint {
    pub fn socket(&self) -> (r: SocketAddress)
        ensures
            r == (SocketAddress { ip: self.ip, port: self.port, scope_id: 0 }),
    {
        SocketAddress { ip: self.ip, port: self.port, scope_id: 0 }
    }
}

/// The last known-good gateway behind the "Reuse?" card.
#[derive(Debug, Clone, PartialEq, Eq)]
pub struct CachedEndpoint {
    pub peer: SocketAddress,
    pub profile: String,
}

/// The cached gateway a saved connection record holds: its peer text
/// (trimmed) read as a socket address, with its profile; `None` when the
/// saved peer no longer parses (the caller rescans).
pub fn cached_endpoint_from(saved_peer: &str, saved_profile: String) -> (r: Option<CachedEndpoint>)
    ensures
        match crate::net::socket_address_syntax(trim(saved_peer@)) {
            Some(a) => r == Some(CachedEndpoint { peer: a, profile: saved_profile }),
            None => r is None,
        },
{
    match SocketAddress::parse_chars(&crate::text::trimmed(saved_peer)) {
        Some(peer) => Some(CachedEndpoint { peer, profile: saved_profile }),
        None => None,
    }
}

/// The message for an identity whose IPv4 address is unusable.
pub open spec fn unusable_ipv4_message(ipv4: Seq<char>) -> Seq<char> {
    "identity has an unusable ipv4 "@ + ipv4
}

/// The local IPv4 address a WireGuard probe uses: the identity's `ipv4`
/// field read as a dotted quad, or an error quoting the field.
pub fn wg_local_v4(ipv4: &str) -> (r: Result<IpAddress, AetherError>)
    ensures
        match crate::net::ipv4_octets(ipv4@) {
            Some(o) => r == Ok::<IpAddress, AetherError>(crate::net::v4_of(o)),
            None => r matches Err(e) && e == AetherError::Other(e->Other_0) && e.message()
                == unusable_ipv4_message(ipv4@),
        },
{
    match crate::net::read_ipv4(&chars_of(ipv4)) {
        Some((a, b, c, d)) => Ok(IpAddress::V4(a, b, c, d)),
        None => {
            let mut m = String::from_str("identity has an unusable ipv4 ");
            m.append(ipv4);
            Err(AetherError::Other(m))
        },
    }
}

/// Which IP families a scan probes.
#[derive(Debug, Clone, Copy, PartialEq, Eq, Structural)]
pub enum IpScan {
    V4,
    V6,
    Both,
}

impl IpScan {
    pub open spec fn of_keyword(k: Seq<char>) -> IpScan {
        if k == "v6"@ || k == "6"@ || k == "ipv6"@ {
            IpScan::V6
        } else if k == "both"@ || k == "dual"@ || k == "v4v6"@ || k == "4+6"@ {
            IpScan::Both
        } else {
            IpScan::V4
        }
    }

    /// Reads an IP-version name (`v4`, `v6`, `both` and aliases); anything
    /// unknown is IPv4.
    pub fn parse(raw: &str) -> (r: IpScan)
        ensures
            r == IpScan::of_keyword(keyword_form(raw@)),
            all_ascii(trim(raw@)) ==> keyword_form(raw@) == ascii_lower(trim(raw@)),
    {
        let k = keyword_of(raw);
        if eq_str(&k, "v6") || eq_str(&k, "6") || eq_str(&k, "ipv6") {
            IpScan::V6
        } else if eq_str(&k, "both") || eq_str(&k, "dual") || eq_str(&k, "v4v6") || eq_str(&k, "4+6") {
            IpScan::Both
        } else {
            IpScan::V4
        }
    }
}

/// A scan probes the IP families the engine is told to use: the family
/// `IpScan::parse` reads from a settings field is the one `ip_env` hands
/// the engine for the same text (`both`, `dual`, `v4v6` and `4+6` probe
/// both families).
pub proof fn law_ip_scan_matches_engine(raw: Seq<char>)
    ensures
        ip_env_of(raw) == "both"@ <==> IpScan::of_keyword(keyword_form(raw)) == IpScan::Both,
        ip_env_of(raw) == "v6"@ <==> IpScan::of_keyword(keyword_form(raw)) == IpScan::V6,
        ip_env_of(raw) == "v4"@ <==> IpScan::of_keyword(keyword_form(raw)) == IpScan::V4,
{
    reveal_strlit("both");
    reveal_strlit("v6");
    reveal_strlit("v4");
    assert("both"@.len() != "v6"@.len() && "both"@.len() != "v4"@.len());
    assert("v6"@[1] != "v4"@[1]);
}

/// The transport `Transport::parse` reads from a settings field is the one
/// `proto_env` hands the engine for the same text.
pub proof fn law_transport_matches_engine(raw: Seq<char>)
    ensures
        proto_env_of(raw) == "wg"@ <==> Transport::of_keyword(keyword_form(raw))
            == Transport::WireGuard,
        proto_env_of(raw) == "gool"@ <==> Transport::of_keyword(keyword_form(raw))
            == Transport::WarpInWarp,
        proto_env_of(raw) == "masque"@ <==> Transport::of_keyword(keyword_form(raw))
            == Transport::Masque,
{
    reveal_strlit("wg");
    reveal_strlit("gool");
    reveal_strlit("masque");
    assert("wg"@.len() != "gool"@.len() && "wg"@.len() != "masque"@.len());
    assert("gool"@.len() != "masque"@.len());
}

/// What a scan looks for. `profile` names the obfuscation profile;
/// `exclude` adds to `excluded` as to a set.
#[derive(Debug, Clone)]
pub struct ScanRequest {
    pub transport: Transport,
    pub mode: String,
    pub ip: IpScan,
    pub ports: Vec<u16>,
    pub excluded: Vec<SocketAddress>,
    pub ech_config_list: Option<Vec<u8>>,
    pub profile: String,
    /// How many endpoints the caller wants: 1, or 2 for a gool scan.
    pub wanted: usize,
}

impl ScanRequest {
    /// Engine defaults: `balanced` mode, IPv4, the transport's ports,
    /// the `firewall` profile, one endpoint (two for gool).
    pub fn for_transport(transport: Transport) -> (r: ScanRequest)
        ensures
            r.transport == transport,
            r.mode@ == "balanced"@,
            r.ip == IpScan::V4,
            r.ports@ == (match transport {
                Transport::Masque => MASQUE_PORTS@,
                _ => WG_PORTS@,
            }),
            r.excluded@.len() == 0,
            r.ech_config_list is None,
            r.profile@ == "firewall"@,
            r.wanted == (if transport == Transport::WarpInWarp { 2usize } else { 1usize }),
    {
        let wanted: usize = match transport {
            Transport::WarpInWarp => 2,
            _ => 1,
        };
        ScanRequest {
            transport,
            mode: String::from_str("balanced"),
            ip: IpScan::V4,
            ports: transport.default_ports(),
            excluded: Vec::new(),
            ech_config_list: None,
            profile: String::from_str("firewall"),
            wanted,
        }
    }

    /// At least one endpoint is always wanted.
    pub fn with_wanted(self, wanted: usize) -> (r: ScanRequest)
        ensures
            r.wanted == (if wanted >= 1 { wanted } else { 1 }),
            r.transport == self.transport,
            r.mode == self.mode,
            r.ip == self.ip,
            r.ports == self.ports,
            r.excluded == self.excluded,
            r.profile == self.profile,
            r.ech_config_list == self.ech_config_list,
    {
        let w = if wanted >= 1 { wanted } else { 1 };
        ScanRequest { wanted: w, ..self }
    }

    pub fn with_mode(self, mode: &str) -> (r: ScanRequest)
        ensures
            r.mode@ == mode@,
            r.transport == self.transport,
            r.wanted == self.wanted,
            r.ip == self.ip,
            r.profile == self.profile,
            r.ports == self.ports,
            r.excluded == self.excluded,
            r.ech_config_list == self.ech_config_list,
    {
        ScanRequest { mode: String::from_str(mode), ..self }
    }

    pub fn with_ip(self, ip: IpScan) -> (r: ScanRequest)
        ensures
            r.ip == ip,
            r.transport == self.transport,
            r.wanted == self.wanted,
            r.mode == self.mode,
            r.profile == self.profile,
            r.ports == self.ports,
            r.excluded == self.excluded,
            r.ech_config_list == self.ech_config_list,
    {
        ScanRequest { ip, ..self }
    }

    pub fn with_profile(self, profile: &str) -> (r: ScanRequest)
        ensures
            r.profile@ == profile@,
            r.transport == self.transport,
            r.wanted == self.wanted,
            r.mode == self.mode,
            r.ip == self.ip,
            r.ports == self.ports,
            r.excluded == self.excluded,
            r.ech_config_list == self.ech_config_list,
    {
        ScanRequest { profile: String::from_str(profile), ..self }
    }

    /// Keep `addr` out of the scan (a set insert: no duplicates).
    pub fn exclude(&mut self, addr: SocketAddress)
        ensures
            final(self).excluded@ == (if old(self).excluded@.contains(addr) {
                old(self).excluded@
            } else {
                old(self).excluded@.push(addr)
            }),
            final(self).transport == old(self).transport,
            final(self).wanted == old(self).wanted,
            final(self).mode == old(self).mode,
            final(self).ip == old(self).ip,
            final(self).profile == old(self).profile,
            final(self).ports == old(self).ports,
            final(self).ech_config_list == old(self).ech_config_list,
    {
        let mut i: usize = 0;
        while i < self.excluded.len()
            invariant
                i <= self.excluded@.len(),
                forall|j: int| 0 <= j < i ==> self.excluded@[j] != addr,
            decreases self.excluded.len() - i,
        {
            if self.excluded[i] == addr {
                return;
            }
            i = i + 1;
        }
        self.excluded.push(addr);
    }
}

// ----------------------------------------------------------------- tunnel

/// The message for a gool pair whose hops share an edge.
pub open spec fn same_edge_message(ip: IpAddress) -> Seq<char> {
    "warp-in-warp needs two separate edges, but both hops point at "@ + ip_text(ip)
}

/// How to run a tunnel: transport, local listeners, obfuscation profile,
/// keepalive, verification timeout, and for gool the two hops.
#[derive(Debug, Clone)]
pub struct TunnelSpec {
    pub transport: Transport,
    pub socks: SocketAddress,
    pub http: Option<SocketAddress>,
    pub ech: Option<Vec<u8>>,
    pub profile: String,
    pub keepalive: u16,
    pub verify_timeout_secs: u64,
    pub outer: Option<SocketAddress>,
    pub inner: Option<SocketAddress>,
}

/// `127.0.0.1:1819`, the default SOCKS listener.
pub open spec fn default_socks() -> SocketAddress {
    SocketAddress { ip: IpAddress::V4(127, 0, 0, 1), port: 1819, scope_id: 0 }
}

impl TunnelSpec {
    /// Defaults: SOCKS on `127.0.0.1:1819`, no HTTP listener, the
    /// `balanced` profile, keepalive 5 s, verification within 10 s.
    pub fn for_transport(transport: Transport) -> (r: TunnelSpec)
        ensures
            r.transport == transport,
            r.socks == default_socks(),
            r.http is None,
            r.ech is None,
            r.profile@ == "balanced"@,
            r.keepalive == 5,
            r.verify_timeout_secs == 10,
            r.outer is None,
            r.inner is None,
    {
        TunnelSpec {
            transport,
            socks: SocketAddress { ip: IpAddress::V4(127, 0, 0, 1), port: 1819, scope_id: 0 },
            http: None,
            ech: None,
            profile: String::from_str("balanced"),
            keepalive: 5,
            verify_timeout_secs: 10,
            outer: None,
            inner: None,
        }
    }

    /// Both gool hops at once; they must sit on different edges.
    pub fn with_gool_peers(self, outer: SocketAddress, inner: SocketAddress) -> (r: Result<TunnelSpec, AetherError>)
        ensures
            r is Err <==> outer.ip == inner.ip,
            r matches Err(e) ==> e == AetherError::Other(e->Other_0) && e.message() == same_edge_message(outer.ip),
            r matches Ok(s) ==> s.transport == Transport::WarpInWarp && s.outer == Some(outer) && s.inner
                == Some(inner) && s.socks == self.socks && s.http == self.http && s.profile == self.profile
                && s.ech == self.ech && s.keepalive == self.keepalive && s.verify_timeout_secs
                == self.verify_timeout_secs,
    {
        if outer.ip == inner.ip {
            let mut m = String::from_str("warp-in-warp needs two separate edges, but both hops point at ");
            m.append(outer.ip.to_string().as_str());
            return Err(AetherError::Other(m));
        }
        Ok(TunnelSpec { transport: Transport::WarpInWarp, outer: Some(outer), inner: Some(inner), ..self })
    }

    pub fn is_gool(&self) -> (r: bool)
        ensures
            r == (self.transport == Transport::WarpInWarp),
    {
        self.transport == Transport::WarpInWarp
    }

    pub fn with_socks(self, listen: SocketAddress) -> (r: TunnelSpec)
        ensures
            r.socks == listen,
            r.transport == self.transport,
            r.http == self.http,
            r.profile == self.profile,
            r.outer == self.outer,
            r.inner == self.inner,
            r.ech == self.ech,
            r.keepalive == self.keepalive,
            r.verify_timeout_secs == self.verify_timeout_secs,
    {
        TunnelSpec { socks: listen, ..self }
    }

    pub fn with_http(self, listen: SocketAddress) -> (r: TunnelSpec)
        ensures
            r.http == Some(listen),
            r.transport == self.transport,
            r.socks == self.socks,
            r.profile == self.profile,
            r.outer == self.outer,
            r.inner == self.inner,
            r.ech == self.ech,
            r.keepalive == self.keepalive,
            r.verify_timeout_secs == self.verify_timeout_secs,
    {
        TunnelSpec { http: Some(listen), ..self }
    }

    pub fn with_profile(self, profile: &str) -> (r: TunnelSpec)
        ensures
            r.profile@ == profile@,
            r.transport == self.transport,
            r.socks == self.socks,
            r.http == self.http,
            r.outer == self.outer,
            r.inner == self.inner,
            r.ech == self.ech,
            r.keepalive == self.keepalive,
            r.verify_timeout_secs == self.verify_timeout_secs,
    {
        TunnelSpec { profile: String::from_str(profile), ..self }
    }
}

} // verus!
