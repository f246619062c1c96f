//! GUI-owned settings and their validation.
//!
//! The settings mirror the `AETHER_*` knobs so a GUI session is
//! reproducible from environment variables and vice versa. Validation
//! returns the first problem with standard wording; each check is stated
//! as a spec function giving the error message (or `None` when the value
//! is accepted).

use vstd::prelude::*;

use crate::error::AetherError;
use crate::net::{ip_address_syntax, ip_text, socket_address_syntax, IpAddress, SocketAddress};
use crate::text::{
    all_ascii, ascii_lowercase, ascii_lower, chars_of, eq_str, index_of, is_space, keyword_form,
    keyword_of, lemma_index_of, lemma_lower_trim, lemma_trim_of_unpadded, string_of, trim, trimmed, unicode_lower,
};

verus! {

/// File name of the GUI settings (next to the identity, or in the OS
/// config dir).
pub const GUI_SETTINGS_FILE: &'static str = "aether-gui.toml";

// ---------------------------------------------------------- keyword lists

pub open spec fn is_protocol_keyword(k: Seq<char>) -> bool {
    k == "masque"@ || k == "wg"@ || k == "wireguard"@ || k == "warp"@ || k == "gool"@ || k == "wiw"@
        || k == "warp-in-warp"@ || k == "warpinwarp"@
}

pub open spec fn is_scan_keyword(k: Seq<char>) -> bool {
    k == "turbo"@ || k == "balanced"@ || k == "thorough"@ || k == "stealth"@ || k == "ironclad"@
}

pub open spec fn is_ip_keyword(k: Seq<char>) -> bool {
    k == "v4"@ || k == "4"@ || k == "ipv4"@ || k == "v6"@ || k == "6"@ || k == "ipv6"@ || k == "both"@
        || k == "dual"@ || k == "v4v6"@ || k == "4+6"@
}

pub open spec fn is_noize_keyword(k: Seq<char>) -> bool {
    k == "off"@ || k == "light"@ || k == "firewall"@ || k == "balanced"@ || k == "gfw"@ || k
        == "aggressive"@
}

pub open spec fn is_language_keyword(k: Seq<char>) -> bool {
    k == "en"@ || k == "fa"@
}

/// `'<k>'` followed by `tail`: the shape of every keyword error.
pub open spec fn quoted(k: Seq<char>, tail: Seq<char>) -> Seq<char> {
    "'"@ + k + tail
}

pub open spec fn protocol_check(raw: Seq<char>) -> Option<Seq<char>> {
    if is_protocol_keyword(keyword_form(raw)) {
        None
    } else {
        Some(quoted(keyword_form(raw), "' is not a protocol; use masque, wg, or gool"@))
    }
}

pub open spec fn scan_check(raw: Seq<char>) -> Option<Seq<char>> {
    if is_scan_keyword(keyword_form(raw)) {
        None
    } else {
        Some(
            quoted(
                keyword_form(raw),
                "' is not a scan mode; use turbo, balanced, thorough, stealth, or ironclad"@,
            ),
        )
    }
}

pub open spec fn ip_check(raw: Seq<char>) -> Option<Seq<char>> {
    if is_ip_keyword(keyword_form(raw)) {
        None
    } else {
        Some(quoted(keyword_form(raw), "' is not an IP version; use v4, v6, or both"@))
    }
}

pub open spec fn noize_check(raw: Seq<char>) -> Option<Seq<char>> {
    if is_noize_keyword(keyword_form(raw)) {
        None
    } else {
        Some(
            quoted(
                keyword_form(raw),
                "' is not an obfuscation profile; use off, light, firewall, balanced, gfw, or aggressive"@,
            ),
        )
    }
}

pub open spec fn language_check(raw: Seq<char>) -> Option<Seq<char>> {
    if is_language_keyword(keyword_form(raw)) {
        None
    } else {
        Some(quoted(keyword_form(raw), "' is not a language; use en or fa"@))
    }
}

/// The error a check gives as an `AetherError::Other`, or success.
pub open spec fn reports(r: Result<(), AetherError>, check: Option<Seq<char>>) -> bool {
    match check {
        None => r is Ok,
        Some(m) => r matches Err(e) && e == AetherError::Other(e->Other_0) && e.message() == m,
    }
}

fn quoted_error(k: &Vec<char>, tail: &str) -> (r: AetherError)
    ensures
        r == AetherError::Other(r->Other_0),
        r.message() == quoted(k@, tail@),
{
    let mut m = String::from_str("'");
    m.append(string_of(k).as_str());
    m.append(tail);
    AetherError::Other(m)
}

pub fn validate_protocol(raw: &str) -> (r: Result<(), AetherError>)
    ensures
        reports(r, protocol_check(raw@)),
        all_ascii(trim(raw@)) ==> keyword_form(raw@) == ascii_lower(trim(raw@)),
{
    let k = keyword_of(raw);
    if eq_str(&k, "masque") || eq_str(&k, "wg") || eq_str(&k, "wireguard") || eq_str(&k, "warp")
        || eq_str(&k, "gool") || eq_str(&k, "wiw") || eq_str(&k, "warp-in-warp") || eq_str(
        &k,
        "warpinwarp",
    ) {
        Ok(())
    } else {
        Err(quoted_error(&k, "' is not a protocol; use masque, wg, or gool"))
    }
}

pub fn validate_scan(raw: &str) -> (r: Result<(), AetherError>)
    ensures
        reports(r, scan_check(raw@)),
        all_ascii(trim(raw@)) ==> keyword_form(raw@) == ascii_lower(trim(raw@)),
{
    let k = keyword_of(raw);
    if eq_str(&k, "turbo") || eq_str(&k, "balanced") || eq_str(&k, "thorough") || eq_str(&k, "stealth")
        || eq_str(&k, "ironclad") {
        Ok(())
    } else {
        Err(
            quoted_error(
                &k,
                "' is not a scan mode; use turbo, balanced, thorough, stealth, or ironclad",
            ),
        )
    }
}

pub fn validate_ip(raw: &str) -> (r: Result<(), AetherError>)
    ensures
        reports(r, ip_check(raw@)),
        all_ascii(trim(raw@)) ==> keyword_form(raw@) == ascii_lower(trim(raw@)),
{
    let k = keyword_of(raw);
    if eq_str(&k, "v4") || eq_str(&k, "4") || eq_str(&k, "ipv4") || eq_str(&k, "v6") || eq_str(&k, "6")
        || eq_str(&k, "ipv6") || eq_str(&k, "both") || eq_str(&k, "dual") || eq_str(&k, "v4v6")
        || eq_str(&k, "4+6") {
        Ok(())
    } else {
        Err(quoted_error(&k, "' is not an IP version; use v4, v6, or both"))
    }
}

pub fn validate_noize(raw: &str) -> (r: Result<(), AetherError>)
    ensures
        reports(r, noize_check(raw@)),
        all_ascii(trim(raw@)) ==> keyword_form(raw@) == ascii_lower(trim(raw@)),
{
    let k = keyword_of(raw);
    if eq_str(&k, "off") || eq_str(&k, "light") || eq_str(&k, "firewall") || eq_str(&k, "balanced")
        || eq_str(&k, "gfw") || eq_str(&k, "aggressive") {
        Ok(())
    } else {
        Err(
            quoted_error(
                &k,
                "' is not an obfuscation profile; use off, light, firewall, balanced, gfw, or aggressive",
            ),
        )
    }
}

pub fn validate_language(raw: &str) -> (r: Result<(), AetherError>)
    ensures
        reports(r, language_check(raw@)),
        all_ascii(trim(raw@)) ==> keyword_form(raw@) == ascii_lower(trim(raw@)),
{
    let k = keyword_of(raw);
    if eq_str(&k, "en") || eq_str(&k, "fa") {
        Ok(())
    } else {
        Err(quoted_error(&k, "' is not a language; use en or fa"))
    }
}

/// The canonical protocol name the engine reads from `AETHER_PROTOCOL`.
pub open spec fn proto_env_of(raw: Seq<char>) -> Seq<char> {
    let k = keyword_form(raw);
    if k == "wg"@ || k == "wireguard"@ || k == "warp"@ {
        "wg"@
    } else if k == "gool"@ || k == "wiw"@ || k == "warp-in-warp"@ || k == "warpinwarp"@ {
        "gool"@
    } else {
        "masque"@
    }
}

/// The canonical IP version the engine reads from `AETHER_IP`.
pub open spec fn ip_env_of(raw: Seq<char>) -> Seq<char> {
    let k = keyword_form(raw);
    if k == "v6"@ || k == "6"@ || k == "ipv6"@ {
        "v6"@
    } else if k == "both"@ || k == "dual"@ || k == "v4v6"@ || k == "4+6"@ {
        "both"@
    } else {
        "v4"@
    }
}

pub fn proto_env(raw: &str) -> (r: String)
    ensures
        r@ == proto_env_of(raw@),
        all_ascii(trim(raw@)) ==> keyword_form(raw@) == ascii_lower(trim(raw@)),
{
    let k = keyword_of(raw);
    if eq_str(&k, "wg") || eq_str(&k, "wireguard") || eq_str(&k, "warp") {
        String::from_str("wg")
    } else if eq_str(&k, "gool") || eq_str(&k, "wiw") || eq_str(&k, "warp-in-warp") || eq_str(
        &k,
        "warpinwarp",
    ) {
        String::from_str("gool")
    } else {
        String::from_str("masque")
    }
}

pub fn ip_env(raw: &str) -> (r: String)
    ensures
        r@ == ip_env_of(raw@),
        all_ascii(trim(raw@)) ==> keyword_form(raw@) == ascii_lower(trim(raw@)),
{
    let k = keyword_of(raw);
    if eq_str(&k, "v6") || eq_str(&k, "6") || eq_str(&k, "ipv6") {
        String::from_str("v6")
    } else if eq_str(&k, "both") || eq_str(&k, "dual") || eq_str(&k, "v4v6") || eq_str(&k, "4+6") {
        String::from_str("both")
    } else {
        String::from_str("v4")
    }
}


// -------------------------------------------------------------- addresses

/// `raw` is a bind that needs the "I understand" confirm: it parses as a
/// socket address that is not loopback. Empty or unparsable binds never
/// need it (validation rejects them first).
pub open spec fn needs_confirm_spec(raw: Seq<char>) -> bool {
    match socket_address_syntax(trim(raw)) {
        Some(a) => !a.ip.spec_is_loopback(),
        None => false,
    }
}

pub fn needs_confirm_for(raw: &str) -> (r: bool)
    ensures
        r == needs_confirm_spec(raw@),
{
    let t = trimmed(raw);
    if t.len() == 0 {
        proof {
            crate::net::lemma_empty_is_no_socket_address(t@);
        }
        return false;
    }
    match SocketAddress::parse_chars(&t) {
        Some(a) => !a.ip.is_loopback(),
        None => false,
    }
}

pub open spec fn endpoint_error(raw: Seq<char>) -> Seq<char> {
    let text = trim(raw);
    match ip_address_syntax(text) {
        Some(ip) => text + " carries no port, and the port is required; write it out, as in "@ + ip_text(ip)
            + ":2408"@,
        None => "'"@ + text
            + "' is not an endpoint; write an address and a port together, such as 162.159.192.1:2408"@,
    }
}

/// An endpoint (`ip:port`; the port is required).
pub fn validate_endpoint(raw: &str) -> (r: Result<SocketAddress, AetherError>)
    ensures
        match socket_address_syntax(trim(raw@)) {
            Some(a) => r == Ok::<SocketAddress, AetherError>(a),
            None => r matches Err(e) && e == AetherError::Other(e->Other_0) && e.message()
                == endpoint_error(raw@),
        },
{
    let text = trimmed(raw);
    if let Some(addr) = SocketAddress::parse_chars(&text) {
        return Ok(addr);
    }
    match IpAddress::parse_chars(&text) {
        Some(ip) => {
            let mut m = string_of(&text);
            m.append(" carries no port, and the port is required; write it out, as in ");
            m.append(ip.to_string().as_str());
            m.append(":2408");
            Err(AetherError::Other(m))
        },
        None => {
            let mut m = String::from_str("'");
            m.append(string_of(&text).as_str());
            m.append("' is not an endpoint; write an address and a port together, such as 162.159.192.1:2408");
            Err(AetherError::Other(m))
        },
    }
}

/// An endpoint is accepted in either letter case, as the same address:
/// `[2001:DB8::1]:2408` passes exactly when `[2001:db8::1]:2408` does.
pub proof fn law_endpoint_ignores_case(raw: Seq<char>)
    ensures
        endpoint_check(ascii_lower(raw)) is None <==> endpoint_check(raw) is None,
        socket_address_syntax(trim(ascii_lower(raw))) == socket_address_syntax(trim(raw)),
{
    lemma_lower_trim(raw);
    crate::net::law_socket_text_ignores_case(trim(raw));
}

/// The endpoint a non-empty hop field holds, or `None` for an empty one.
pub open spec fn hop_of(raw: Seq<char>) -> Option<SocketAddress> {
    if trim(raw).len() == 0 {
        None
    } else {
        socket_address_syntax(trim(raw))
    }
}

/// A hop field is acceptable: empty, or a valid endpoint.
pub open spec fn hop_ok(raw: Seq<char>) -> bool {
    trim(raw).len() == 0 || socket_address_syntax(trim(raw)) is Some
}

/// The gool pair check: each set hop must be an endpoint, and two set
/// hops must sit on different edges.
pub open spec fn wiw_pair_check(outer: Seq<char>, inner: Seq<char>) -> Option<Seq<char>> {
    if !hop_ok(outer) {
        Some(endpoint_error(outer))
    } else if !hop_ok(inner) {
        Some(endpoint_error(inner))
    } else {
        match (hop_of(outer), hop_of(inner)) {
            (Some(o), Some(i)) => if o.ip == i.ip {
                Some(crate::api::same_edge_message(o.ip))
            } else {
                None
            },
            _ => None,
        }
    }
}

/// Both hops empty means scan both (valid); one set means scan the other;
/// both set must be two different edges.
pub fn validate_wiw_pair(outer_raw: &str, inner_raw: &str) -> (r: Result<
    (Option<SocketAddress>, Option<SocketAddress>),
    AetherError,
>)
    ensures
        match wiw_pair_check(outer_raw@, inner_raw@) {
            None => r == Ok::<(Option<SocketAddress>, Option<SocketAddress>), AetherError>(
                (hop_of(outer_raw@), hop_of(inner_raw@)),
            ),
            Some(m) => r matches Err(e) && e == AetherError::Other(e->Other_0) && e.message() == m,
        },
{
    let outer = if trimmed(outer_raw).len() == 0 {
        None
    } else {
        match validate_endpoint(outer_raw) {
            Ok(a) => Some(a),
            Err(e) => return Err(e),
        }
    };
    let inner = if trimmed(inner_raw).len() == 0 {
        None
    } else {
        match validate_endpoint(inner_raw) {
            Ok(a) => Some(a),
            Err(e) => return Err(e),
        }
    };
    if let (Some(o), Some(i)) = (outer, inner) {
        if o.ip == i.ip {
            let mut m = String::from_str("warp-in-warp needs two separate edges, but both hops point at ");
            m.append(o.ip.to_string().as_str());
            return Err(AetherError::Other(m));
        }
    }
    Ok((outer, inner))
}

pub open spec fn socks_error(raw: Seq<char>) -> Seq<char> {
    "'"@ + trim(raw) + "' is not an address:port; use 127.0.0.1:1819"@
}

/// A listener bind (`address:port`).
pub fn validate_socks(raw: &str) -> (r: Result<SocketAddress, AetherError>)
    ensures
        match socket_address_syntax(trim(raw@)) {
            Some(a) => r == Ok::<SocketAddress, AetherError>(a),
            None => r matches Err(e) && e == AetherError::Other(e->Other_0) && e.message() == socks_error(raw@),
        },
{
    let t = trimmed(raw);
    match SocketAddress::parse_chars(&t) {
        Some(a) => Ok(a),
        None => {
            let mut m = String::from_str("'");
            m.append(string_of(&t).as_str());
            m.append("' is not an address:port; use 127.0.0.1:1819");
            Err(AetherError::Other(m))
        },
    }
}

// ---------------------------------------------------------------- upstream

/// The part of an upstream URL after a supported scheme.
pub open spec fn upstream_rest(t: Seq<char>) -> Option<Seq<char>> {
    if crate::text::has_prefix(t, "socks5://"@) {
        Some(t.skip(9))
    } else if crate::text::has_prefix(t, "socks5h://"@) {
        Some(t.skip(10))
    } else if crate::text::has_prefix(t, "http://"@) {
        Some(t.skip(7))
    } else {
        None
    }
}

/// `host:port` after any `user:pass@`: a non-empty host and a decimal port.
pub open spec fn upstream_target_ok(rest: Seq<char>) -> bool {
    let hp = match crate::text::last_index_of(rest, '@') {
        Some(i) => rest.skip(i + 1),
        None => rest,
    };
    match crate::text::last_index_of(hp, ':') {
        Some(i) => i > 0 && crate::net::number_field(hp.skip(i + 1), 10, None, true, 65535) is Some,
        None => false,
    }
}

pub open spec fn upstream_check(raw: Seq<char>) -> Option<Seq<char>> {
    match upstream_rest(trim(raw)) {
        Some(rest) => if upstream_target_ok(rest) {
            None
        } else {
            Some(upstream_error(raw))
        },
        None => Some(upstream_error(raw)),
    }
}

pub open spec fn upstream_error(raw: Seq<char>) -> Seq<char> {
    "upstream proxy '"@ + raw
        + "' is not usable: expected socks5://, socks5h:// or http:// followed by host:port"@
}

/// An upstream proxy URL: `socks5://`, `socks5h://` or `http://`, then
/// an optional `user:pass@` and `host:port`.
pub fn validate_upstream(raw: &str) -> (r: Result<(), AetherError>)
    ensures
        reports(r, upstream_check(raw@)),
{
    proof {
        reveal_strlit("socks5://");
        reveal_strlit("socks5h://");
        reveal_strlit("http://");
    }
    let t = trimmed(raw);
    let rest = if crate::text::starts_with(&t, "socks5://") {
        Some(crate::text::slice_chars(&t, 9, t.len()))
    } else if crate::text::starts_with(&t, "socks5h://") {
        Some(crate::text::slice_chars(&t, 10, t.len()))
    } else if crate::text::starts_with(&t, "http://") {
        Some(crate::text::slice_chars(&t, 7, t.len()))
    } else {
        None
    };
    let ok = match rest {
        Some(rest) => {
            assert(upstream_rest(t@) == Some(rest@));
            let hp = match crate::text::rfind_char(&rest, '@') {
                Some(i) => crate::text::slice_chars(&rest, i + 1, rest.len()),
                None => crate::text::slice_chars(&rest, 0, rest.len()),
            };
            proof {
                crate::text::lemma_last_index_of(rest@, '@');
                if let Some(i) = crate::text::last_index_of(rest@, '@') {
                    assert(hp@ =~= rest@.skip(i + 1));
                } else {
                    assert(hp@ =~= rest@);
                }
            }
            match crate::text::rfind_char(&hp, ':') {
                Some(i) => {
                    let port = crate::text::slice_chars(&hp, i + 1, hp.len());
                    assert(port@ =~= hp@.skip(i + 1));
                    i > 0 && crate::net::read_number_field(&port, 10, None, true, 65535).is_some()
                },
                None => false,
            }
        },
        None => false,
    };
    if ok {
        Ok(())
    } else {
        let mut m = String::from_str("upstream proxy '");
        m.append(raw);
        m.append("' is not usable: expected socks5://, socks5h:// or http:// followed by host:port");
        Err(AetherError::Other(m))
    }
}


// ----------------------------------------------------------- route lists

/// The error text `regex::Regex::new` reports for `pattern`, or `None`
/// when the pattern compiles.
pub uninterp spec fn regex_error(pattern: Seq<char>) -> Option<Seq<char>>;

/// Whether `<ipnet::IpNet as FromStr>` accepts `s` (an `address/prefix`).
pub uninterp spec fn ipnet_syntax(s: Seq<char>) -> bool;

/// Calls `regex::Regex::new` and keeps only the error text, if any. The
/// contract names the outcome; it depends on the pattern alone.
#[verifier::external_body]
fn regex_pattern_error(pattern: &str) -> (r: Option<String>)
    ensures
        match r {
            Some(m) => regex_error(pattern@) == Some(m@),
            None => regex_error(pattern@) is None,
        },
{
    match regex::Regex::new(pattern) {
        Ok(_) => None,
        Err(e) => Some(e.to_string()),
    }
}

/// Calls `str::parse::<ipnet::IpNet>` and keeps whether it succeeded.
#[verifier::external_body]
fn parses_as_ipnet(text: &str) -> (r: bool)
    ensures
        r == ipnet_syntax(text@),
{
    match text.parse::<ipnet::IpNet>() {
        Ok(_) => true,
        Err(_) => false,
    }
}

/// What `str::parse::<u16>` accepts: an optional `+`, then decimal digits
/// whose value fits 16 bits.
pub open spec fn u16_syntax(s: Seq<char>) -> Option<nat> {
    let d = if s.len() > 0 && s[0] == '+' {
        s.drop_first()
    } else {
        s
    };
    crate::net::number_field(d, 10, None, true, 65535)
}

fn parse_u16(v: &Vec<char>) -> (r: Option<u16>)
    ensures
        r matches Some(n) ==> u16_syntax(v@) == Some(n as nat),
        r is None ==> u16_syntax(v@) is None,
{
    let d = if v.len() > 0 && v[0] == '+' {
        crate::text::slice_chars(v, 1, v.len())
    } else {
        crate::text::slice_chars(v, 0, v.len())
    };
    assert(v.len() > 0 && v@[0] == '+' ==> d@ =~= v@.drop_first());
    assert(!(v.len() > 0 && v@[0] == '+') ==> d@ =~= v@);
    match crate::net::read_number_field(&d, 10, None, true, 65535) {
        Some(n) => Some(n as u16),
        None => None,
    }
}

/// A port or a port range, as the core reads one: `p` or `a-b` (each part
/// trimmed); a reversed range is swapped, and 0 is accepted.
pub open spec fn port_range_spec(raw: Seq<char>) -> Option<(nat, nat)> {
    let t = trim(raw);
    match crate::text::index_of(t, '-') {
        Some(i) => match (u16_syntax(trim(t.take(i))), u16_syntax(trim(t.skip(i + 1)))) {
            (Some(lo), Some(hi)) => Some(if hi < lo { (hi, lo) } else { (lo, hi) }),
            _ => None,
        },
        None => match u16_syntax(t) {
            Some(p) => Some((p, p)),
            None => None,
        },
    }
}

pub fn parse_port_range(raw: &Vec<char>) -> (r: Option<(u16, u16)>)
    ensures
        r matches Some(p) ==> port_range_spec(raw@) == Some((p.0 as nat, p.1 as nat)) && p.0 <= p.1,
        r is None ==> port_range_spec(raw@) is None,
{
    let t = crate::text::trim_chars(raw);
    proof {
        crate::text::lemma_index_of(t@, '-');
    }
    match crate::text::find_char(&t, '-') {
        Some(i) => {
            let a = crate::text::trim_chars(&crate::text::slice_chars(&t, 0, i));
            let b = crate::text::trim_chars(&crate::text::slice_chars(&t, i + 1, t.len()));
            assert(t@.subrange(0, i as int) =~= t@.take(i as int));
            assert(t@.subrange(i + 1, t@.len() as int) =~= t@.skip(i + 1));
            match (parse_u16(&a), parse_u16(&b)) {
                (Some(lo), Some(hi)) => Some(if hi < lo { (hi, lo) } else { (lo, hi) }),
                _ => None,
            }
        },
        None => match parse_u16(&t) {
            Some(p) => Some((p, p)),
            None => None,
        },
    }
}

pub open spec fn is_private(s: Seq<char>) -> bool {
    ascii_lower(s) == "private"@
}

/// How a route entry splits into kind and value: `kind:value` when the
/// part before the first `:` has no `.` or `/` (kind trimmed and
/// lower-cased, value trimmed), otherwise no kind and the whole entry.
pub open spec fn route_kind(entry: Seq<char>) -> Seq<char> {
    match crate::text::index_of(entry, ':') {
        Some(i) => if !entry.take(i).contains('.') && !entry.take(i).contains('/') {
            keyword_form(entry.take(i))
        } else {
            Seq::<char>::empty()
        },
        None => Seq::<char>::empty(),
    }
}

pub open spec fn route_value(entry: Seq<char>) -> Seq<char> {
    match crate::text::index_of(entry, ':') {
        Some(i) => if !entry.take(i).contains('.') && !entry.take(i).contains('/') {
            trim(entry.skip(i + 1))
        } else {
            entry
        },
        None => entry,
    }
}

/// The route-entry grammar of the core: `private`, `full:`/`exact:`/
/// `domain:`/`suffix:` with a domain, `keyword:` with a keyword,
/// `regexp:` with a pattern that compiles, `port:` with a port or range,
/// `ip:`/`cidr:` with a network, `geoip:`/`geosite:` only with `private`,
/// or a bare domain, IP or network.
pub open spec fn route_entry_check(raw: Seq<char>) -> Option<Seq<char>> {
    let value = route_value(trim(raw));
    route_entry_check_with(raw, regex_error(value), ipnet_syntax(value))
}

/// [`route_entry_check`] given what the outside parsers say of the
/// entry's value: the compile error of the pattern (if any) and whether
/// it reads as a network.
pub open spec fn route_entry_check_with(raw: Seq<char>, pattern_error: Option<Seq<char>>, network: bool) -> Option<
    Seq<char>,
> {
    let entry = trim(raw);
    if entry.len() == 0 || entry[0] == '#' {
        Some("empty routing entry"@)
    } else if is_private(entry) {
        None
    } else {
        let kind = route_kind(entry);
        let value = route_value(entry);
        if kind == "full"@ || kind == "exact"@ || kind == "domain"@ || kind == "suffix"@ {
            if value.len() == 0 {
                Some("'"@ + entry + "' needs a domain"@)
            } else {
                None
            }
        } else if kind == "keyword"@ {
            if value.len() == 0 {
                Some("'"@ + entry + "' needs a keyword"@)
            } else {
                None
            }
        } else if kind == "regexp"@ || kind == "regex"@ {
            match pattern_error {
                Some(e) => Some("bad regexp '"@ + entry + "': "@ + e),
                None => None,
            }
        } else if kind == "port"@ {
            if port_range_spec(value) is Some {
                None
            } else {
                Some("'"@ + entry + "' is not a port or range; use port:25 or port:3000-3010"@)
            }
        } else if kind == "ip"@ || kind == "cidr"@ {
            if network {
                None
            } else {
                Some("'"@ + entry + "' is not a CIDR"@)
            }
        } else if kind == "geoip"@ || kind == "geosite"@ {
            if is_private(value) {
                None
            } else {
                Some("'"@ + entry + "' is not usable; geoip rules only cover 'private'"@)
            }
        } else if kind.len() == 0 {
            if network || ip_address_syntax(value) is Some {
                None
            } else if value.len() == 0 {
                Some("'"@ + entry + "' is empty"@)
            } else {
                None
            }
        } else {
            Some(
                "'"@ + entry + "' has an unknown prefix '"@ + kind
                    + ":'; use full:, keyword:, regexp:, port:, or a domain/CIDR"@,
            )
        }
    }
}

fn other_error(parts: &Vec<&str>, entry: &Vec<char>) -> (r: AetherError)
    requires
        parts@.len() == 2,
    ensures
        r == AetherError::Other(r->Other_0),
        r.message() == parts@[0]@ + entry@ + parts@[1]@,
{
    let mut m = String::from_str(parts[0]);
    m.append(string_of(entry).as_str());
    m.append(parts[1]);
    AetherError::Other(m)
}

fn is_regexp_kind(kind: &Vec<char>) -> (r: bool)
    ensures
        r == (kind@ == "regexp"@ || kind@ == "regex"@),
{
    eq_str(kind, "regexp") || eq_str(kind, "regex")
}

fn is_network_kind(kind: &Vec<char>) -> (r: bool)
    ensures
        r == (kind@ == "ip"@ || kind@ == "cidr"@ || kind@.len() == 0),
{
    eq_str(kind, "ip") || eq_str(kind, "cidr") || kind.len() == 0
}

/// The kind and value of a trimmed, non-empty route entry.
fn split_route_entry(entry: &Vec<char>) -> (r: (Vec<char>, Vec<char>))
    ensures
        r.0@ == route_kind(entry@),
        r.1@ == route_value(entry@),
{
    proof {
        crate::text::lemma_index_of(entry@, ':');
    }
    let r = match crate::text::find_char(entry, ':') {
        Some(i) => {
            let k = crate::text::slice_chars(entry, 0, i);
            assert(k@ =~= entry@.take(i as int));
            if !crate::text::contains_char(&k, '.') && !crate::text::contains_char(&k, '/') {
                let v = crate::text::trim_chars(&crate::text::slice_chars(entry, i + 1, entry.len()));
                assert(entry@.subrange(i + 1, entry@.len() as int) =~= entry@.skip(i + 1));
                (keyword_of(string_of(&k).as_str()), v)
            } else {
                (Vec::new(), crate::text::slice_chars(entry, 0, entry.len()))
            }
        },
        None => (Vec::new(), crate::text::slice_chars(entry, 0, entry.len())),
    };
    assert(entry@.subrange(0, entry@.len() as int) =~= entry@);
    r
}

/// One routing-list entry, validated against the core's grammar, given
/// what the pattern compiler reports for its value (`pattern_error`)
/// and whether the network parser accepts its value (`network`).
pub fn route_entry_verdict(raw: &str, pattern_error: Option<String>, network: bool) -> (r: Result<(), AetherError>)
    ensures
        reports(r, route_entry_check_with(raw@, crate::phase::opt_view(pattern_error), network)),
{
    let entry = trimmed(raw);
    if entry.len() == 0 || entry[0] == '#' {
        return Err(AetherError::Other(String::from_str("empty routing entry")));
    }
    if eq_str(&ascii_lowercase(&entry), "private") {
        return Ok(());
    }
    let (kind, value) = split_route_entry(&entry);
    if eq_str(&kind, "full") || eq_str(&kind, "exact") || eq_str(&kind, "domain") || eq_str(&kind, "suffix") {
        if value.len() == 0 {
            Err(other_error(&vec!["'", "' needs a domain"], &entry))
        } else {
            Ok(())
        }
    } else if eq_str(&kind, "keyword") {
        if value.len() == 0 {
            Err(other_error(&vec!["'", "' needs a keyword"], &entry))
        } else {
            Ok(())
        }
    } else if is_regexp_kind(&kind) {
        match pattern_error {
            Some(e) => {
                let mut m = String::from_str("bad regexp '");
                m.append(string_of(&entry).as_str());
                m.append("': ");
                m.append(e.as_str());
                Err(AetherError::Other(m))
            },
            None => Ok(()),
        }
    } else if eq_str(&kind, "port") {
        match parse_port_range(&value) {
            Some(_) => Ok(()),
            None => Err(
                other_error(
                    &vec!["'", "' is not a port or range; use port:25 or port:3000-3010"],
                    &entry,
                ),
            ),
        }
    } else if eq_str(&kind, "ip") || eq_str(&kind, "cidr") {
        if network {
            Ok(())
        } else {
            Err(other_error(&vec!["'", "' is not a CIDR"], &entry))
        }
    } else if eq_str(&kind, "geoip") || eq_str(&kind, "geosite") {
        if eq_str(&ascii_lowercase(&value), "private") {
            Ok(())
        } else {
            Err(
                other_error(
                    &vec!["'", "' is not usable; geoip rules only cover 'private'"],
                    &entry,
                ),
            )
        }
    } else if kind.len() == 0 {
        if network || IpAddress::parse_chars(&value).is_some() {
            Ok(())
        } else if value.len() == 0 {
            Err(other_error(&vec!["'", "' is empty"], &entry))
        } else {
            Ok(())
        }
    } else {
        let mut m = String::from_str("'");
        m.append(string_of(&entry).as_str());
        m.append("' has an unknown prefix '");
        m.append(string_of(&kind).as_str());
        m.append(":'; use full:, keyword:, regexp:, port:, or a domain/CIDR");
        Err(AetherError::Other(m))
    }
}

/// One routing-list entry, validated against the core's grammar: the
/// pattern of a `regexp:` entry goes to `regex`, the value of an `ip:`,
/// `cidr:` or bare entry to `ipnet`.
pub fn validate_route_entry(raw: &str) -> (r: Result<(), AetherError>)
    ensures
        reports(r, route_entry_check(raw@)),
{
    let entry = trimmed(raw);
    let (kind, value) = split_route_entry(&entry);
    let text = string_of(&value);
    let pattern_error = if is_regexp_kind(&kind) {
        regex_pattern_error(text.as_str())
    } else {
        None
    };
    let network = if is_network_kind(&kind) {
        parses_as_ipnet(text.as_str())
    } else {
        false
    };
    route_entry_verdict(raw, pattern_error, network)
}

/// Domain rules are accepted: `full:`, `exact:`, `domain:` and `suffix:`
/// followed by a non-empty domain (and `keyword:` by a non-empty keyword)
/// pass the check, whatever the outside parsers would say. Lower-casing the kind is the one step that goes
/// through `str::to_lowercase`; the law takes as given that it keeps an
/// already lower-case kind name as it is.
pub proof fn law_domain_rules_accepted(
    k: Seq<char>,
    d: Seq<char>,
    pattern_error: Option<Seq<char>>,
    network: bool,
)
    requires
        k == "full"@ || k == "exact"@ || k == "domain"@ || k == "suffix"@ || k == "keyword"@,
        unicode_lower(k) == k,
        d.len() > 0,
        !is_space(d[0]),
        !is_space(d.last()),
    ensures
        route_entry_check_with(k + ":"@ + d, pattern_error, network) is None,
        route_entry_check(k + ":"@ + d) is None,
{
    reveal_strlit("full");
    reveal_strlit("exact");
    reveal_strlit("domain");
    reveal_strlit("suffix");
    reveal_strlit("keyword");
    reveal_strlit(":");
    reveal_strlit("private");
    let e = k + ":"@ + d;
    let n = k.len() as int;
    assert(forall|j: int| 0 <= j < n ==> 'a' <= #[trigger] k[j] <= 'z');
    assert(e[0] == k[0]);
    assert(e.last() == d.last());
    lemma_trim_of_unpadded(e);
    assert(e[n] == ':');
    assert(forall|j: int| 0 <= j < n ==> #[trigger] e[j] == k[j]);
    lemma_index_of(e, ':');
    assert(e.contains(':'));
    assert(index_of(e, ':') == Some(n));
    assert(e.take(n) =~= k);
    assert(!k.contains('.'));
    assert(!k.contains('/'));
    lemma_trim_of_unpadded(k);
    assert(e.skip(n + 1) =~= d);
    lemma_trim_of_unpadded(d);
    assert(!is_private(e)) by {
        assert(ascii_lower(e).len() == e.len());
        assert("private"@.len() == 7);
        if e.len() == 7 {
            assert(n < 7);
            assert(crate::text::ascii_lower_char(':') == ':');
            assert(ascii_lower(e)[n] == ':');
            assert("private"@[n] != ':');
            assert(ascii_lower(e) != "private"@);
        }
    }
}

/// A domain or keyword rule without its value is refused, naming what is
/// missing.
pub proof fn law_rules_need_a_value(k: Seq<char>, pattern_error: Option<Seq<char>>, network: bool)
    requires
        k == "full"@ || k == "exact"@ || k == "domain"@ || k == "suffix"@ || k == "keyword"@,
        unicode_lower(k) == k,
    ensures
        route_entry_check_with(k + ":"@, pattern_error, network) == Some(
            "'"@ + k + ":"@ + (if k == "keyword"@ {
                "' needs a keyword"@
            } else {
                "' needs a domain"@
            }),
        ),
{
    reveal_strlit("full");
    reveal_strlit("exact");
    reveal_strlit("domain");
    reveal_strlit("suffix");
    reveal_strlit("keyword");
    reveal_strlit(":");
    reveal_strlit("private");
    let e = k + ":"@;
    let n = k.len() as int;
    assert(forall|j: int| 0 <= j < n ==> 'a' <= #[trigger] k[j] <= 'z');
    assert(e[0] == k[0]);
    assert(e.last() == ':');
    lemma_trim_of_unpadded(e);
    assert(e[n] == ':');
    assert(forall|j: int| 0 <= j < n ==> #[trigger] e[j] == k[j]);
    lemma_index_of(e, ':');
    assert(e.contains(':'));
    assert(index_of(e, ':') == Some(n));
    assert(e.take(n) =~= k);
    assert(!k.contains('.'));
    assert(!k.contains('/'));
    lemma_trim_of_unpadded(k);
    assert(e.skip(n + 1) =~= Seq::<char>::empty());
    lemma_trim_of_unpadded(Seq::<char>::empty());
    assert(!is_private(e)) by {
        assert(ascii_lower(e).len() == e.len());
        assert("private"@.len() == 7);
        if e.len() == 7 {
            assert(n < 7);
            assert(crate::text::ascii_lower_char(':') == ':');
            assert(ascii_lower(e)[n] == ':');
            assert("private"@[n] != ':');
            assert(ascii_lower(e) != "private"@);
        }
    }
}

/// Whether a list piece is skipped (empty after trimming, or a comment).
pub open spec fn skipped_piece(p: Seq<char>) -> bool {
    trim(p).len() == 0 || trim(p)[0] == '#'
}

/// Validating the pieces of a list in order: the first failing entry's
/// error, or the trimmed entries that are kept.
pub open spec fn route_list_spec(pieces: Seq<Seq<char>>) -> Result<Seq<Seq<char>>, Seq<char>>
    decreases pieces.len(),
{
    if pieces.len() == 0 {
        Ok(Seq::empty())
    } else {
        match route_list_spec(pieces.drop_last()) {
            Err(m) => Err(m),
            Ok(kept) => {
                let p = pieces.last();
                if skipped_piece(p) {
                    Ok(kept)
                } else {
                    match route_entry_check(trim(p)) {
                        Some(m) => Err(m),
                        None => Ok(kept.push(trim(p))),
                    }
                }
            },
        }
    }
}

proof fn lemma_route_list_error_sticks(s: Seq<Seq<char>>, j: int, m: Seq<char>)
    requires
        0 <= j <= s.len(),
        route_list_spec(s.take(j)) == Err::<Seq<Seq<char>>, Seq<char>>(m),
    ensures
        route_list_spec(s) == Err::<Seq<Seq<char>>, Seq<char>>(m),
    decreases s.len(),
{
    if j == s.len() {
        assert(s.take(j) =~= s);
    } else {
        assert(s.drop_last().take(j) =~= s.take(j));
        lemma_route_list_error_sticks(s.drop_last(), j, m);
    }
}

/// The separators of a routing list: comma, newline, semicolon.
pub open spec fn route_separators() -> Seq<char> {
    seq![',', '\n', ';']
}


/// Split a route list the way the core does (comma, newline or
/// semicolon), skip empty pieces and `#` comments, and validate each
/// entry; returns the trimmed entries, or the first entry's error.
pub fn validate_route_list(raw: &str) -> (r: Result<Vec<String>, AetherError>)
    ensures
        match route_list_spec(crate::text::split_any(raw@, route_separators())) {
            Ok(kept) => r matches Ok(v) && v@.map_values(|x: String| x@) == kept,
            Err(m) => r matches Err(e) && e == AetherError::Other(e->Other_0) && e.message() == m,
        },
{
    let seps: Vec<char> = vec![',', '\n', ';'];
    assert(seps@ =~= route_separators());
    let v = chars_of(raw);
    let pieces = crate::text::split_chars(&v, &seps);
    let ghost sp = crate::text::split_any(raw@, route_separators());
    let mut out: Vec<String> = Vec::new();
    let mut i: usize = 0;
    assert(sp.take(0) =~= Seq::<Seq<char>>::empty());
    assert(out@.map_values(|x: String| x@) =~= Seq::<Seq<char>>::empty());
    while i < pieces.len()
        invariant
            i <= pieces@.len() == sp.len(),
            sp == crate::text::split_any(raw@, route_separators()),
            forall|k: int| 0 <= k < pieces@.len() ==> #[trigger] pieces@[k]@ == sp[k],
            route_list_spec(sp.take(i as int)) == Ok::<Seq<Seq<char>>, Seq<char>>(out@.map_values(|x: String| x@)),
        decreases pieces.len() - i,
    {
        proof {
            assert(sp.take(i + 1).drop_last() =~= sp.take(i as int));
            assert(sp.take(i + 1).last() == pieces@[i as int]@);
        }
        let entry = crate::text::trim_chars(&pieces[i]);
        if entry.len() == 0 || entry[0] == '#' {
            i = i + 1;
            continue;
        }
        let text = string_of(&entry);
        match validate_route_entry(text.as_str()) {
            Ok(()) => {
                let ghost o = out@;
                out.push(text);
                proof {
                    assert(out@.map_values(|x: String| x@) =~= o.map_values(|x: String| x@).push(entry@));
                }
            },
            Err(e) => {
                proof {
                    lemma_route_list_error_sticks(sp, i + 1, e.message());
                }
                return Err(e);
            },
        }
        i = i + 1;
    }
    proof {
        assert(sp.take(pieces@.len() as int) =~= sp);
    }
    Ok(out)
}

// --------------------------------------------------------------- settings

/// Everything a GUI form can set. Defaults mirror the engine's.
#[derive(Debug, Clone, PartialEq, Eq)]
pub struct GuiSettings {
    pub protocol: String,
    pub scan: String,
    pub ip: String,
    pub noize: String,
    pub quick_reconnect: bool,
    pub socks: String,
    pub http_proxy: String,
    pub upstream: String,
    pub h2: bool,
    pub fragment: bool,
    pub language: String,
    pub autoconnect: bool,
    pub system_proxy: bool,
    pub peer: String,
    pub wiw_outer: String,
    pub wiw_inner: String,
    pub team: String,
    pub access_token: String,
    pub route_direct: String,
    pub route_block: String,
    pub auto_update: bool,
}

impl Default for GuiSettings {
    fn default() -> (r: GuiSettings)
        ensures
            r.protocol@ == "masque"@,
            r.scan@ == "balanced"@,
            r.ip@ == "v4"@,
            r.noize@ == "firewall"@,
            r.quick_reconnect,
            r.socks@ == "127.0.0.1:1819"@,
            r.http_proxy@.len() == 0,
            r.upstream@.len() == 0,
            !r.h2,
            !r.fragment,
            r.language@ == "en"@,
            !r.autoconnect,
            !r.system_proxy,
            r.peer@.len() == 0,
            r.wiw_outer@.len() == 0,
            r.wiw_inner@.len() == 0,
            r.team@.len() == 0,
            r.access_token@.len() == 0,
            r.route_direct@.len() == 0,
            r.route_block@.len() == 0,
            r.auto_update,
    {
        GuiSettings {
            protocol: String::from_str("masque"),
            scan: String::from_str("balanced"),
            ip: String::from_str("v4"),
            noize: String::from_str("firewall"),
            quick_reconnect: true,
            socks: String::from_str("127.0.0.1:1819"),
            http_proxy: String::new(),
            upstream: String::new(),
            h2: false,
            fragment: false,
            language: String::from_str("en"),
            autoconnect: false,
            system_proxy: false,
            peer: String::new(),
            wiw_outer: String::new(),
            wiw_inner: String::new(),
            team: String::new(),
            access_token: String::new(),
            route_direct: String::new(),
            route_block: String::new(),
            auto_update: true,
        }
    }
}

/// `Some(m)` for the check that fails, or the next checks' outcome.
pub open spec fn first_error(a: Option<Seq<char>>, rest: Option<Seq<char>>) -> Option<Seq<char>> {
    match a {
        Some(m) => Some(m),
        None => rest,
    }
}

pub open spec fn opt_check(raw: Seq<char>, check: Option<Seq<char>>) -> Option<Seq<char>> {
    if trim(raw).len() == 0 {
        None
    } else {
        check
    }
}

pub open spec fn bind_check(raw: Seq<char>) -> Option<Seq<char>> {
    match socket_address_syntax(trim(raw)) {
        Some(_) => None,
        None => Some(socks_error(raw)),
    }
}

pub open spec fn endpoint_check(raw: Seq<char>) -> Option<Seq<char>> {
    match socket_address_syntax(trim(raw)) {
        Some(_) => None,
        None => Some(endpoint_error(raw)),
    }
}

/// Every field a GUI form can produce, checked in order.
pub open spec fn settings_check(s: GuiSettings) -> Option<Seq<char>> {
    first_error(protocol_check(s.protocol@),
    first_error(scan_check(s.scan@),
    first_error(ip_check(s.ip@),
    first_error(noize_check(s.noize@),
    first_error(bind_check(s.socks@),
    first_error(opt_check(s.http_proxy@, bind_check(s.http_proxy@)),
    first_error(opt_check(s.upstream@, upstream_check(s.upstream@)),
    first_error(opt_check(s.peer@, endpoint_check(s.peer@)),
    first_error(wiw_pair_check(s.wiw_outer@, s.wiw_inner@),
    language_check(s.language@))))))))))
}

impl GuiSettings {
    /// Validate every field; the first problem is returned.
    pub fn validate(&self) -> (r: Result<(), AetherError>)
        ensures
            reports(r, settings_check(*self)),
    {
        validate_protocol(self.protocol.as_str())?;
        validate_scan(self.scan.as_str())?;
        validate_ip(self.ip.as_str())?;
        validate_noize(self.noize.as_str())?;
        if let Err(e) = validate_socks(self.socks.as_str()) {
            return Err(e);
        }
        if trimmed(self.http_proxy.as_str()).len() != 0 {
            if let Err(e) = validate_socks(self.http_proxy.as_str()) {
                return Err(e);
            }
        }
        if trimmed(self.upstream.as_str()).len() != 0 {
            validate_upstream(self.upstream.as_str())?;
        }
        if trimmed(self.peer.as_str()).len() != 0 {
            if let Err(e) = validate_endpoint(self.peer.as_str()) {
                return Err(e);
            }
        }
        if let Err(e) = validate_wiw_pair(self.wiw_outer.as_str(), self.wiw_inner.as_str()) {
            return Err(e);
        }
        validate_language(self.language.as_str())?;
        Ok(())
    }

    /// The SOCKS bind needs the non-loopback confirm.
    pub fn socks_needs_confirm(&self) -> (r: bool)
        ensures
            r == needs_confirm_spec(self.socks@),
    {
        needs_confirm_for(self.socks.as_str())
    }

    /// Any listener bind (SOCKS or HTTP) needs the non-loopback confirm.
    pub fn binds_need_confirm(&self) -> (r: bool)
        ensures
            r == (needs_confirm_spec(self.socks@) || needs_confirm_spec(self.http_proxy@)),
    {
        needs_confirm_for(self.socks.as_str()) || needs_confirm_for(self.http_proxy.as_str())
    }
}


// ------------------------------------------------------------ environment

/// A trimmed optional field: unset when blank.
pub open spec fn opt_env(raw: Seq<char>) -> Option<Seq<char>> {
    if trim(raw).len() == 0 {
        None
    } else {
        Some(trim(raw))
    }
}

/// A switch: `1` when on, unset when off.
pub open spec fn flag_env(on: bool) -> Option<Seq<char>> {
    if on {
        Some("1"@)
    } else {
        None
    }
}

/// The `AETHER_*` variables a settings value stands for, in the order they
/// are applied: `Some(v)` sets the variable to `v`, `None` removes it.
pub open spec fn env_plan_spec(s: GuiSettings) -> Seq<(Seq<char>, Option<Seq<char>>)> {
    seq![
        ("AETHER_PROTOCOL"@, Some(proto_env_of(s.protocol@))),
        ("AETHER_SCAN"@, Some(s.scan@)),
        ("AETHER_IP"@, Some(ip_env_of(s.ip@))),
        ("AETHER_NOIZE"@, Some(s.noize@)),
        ("AETHER_QUICK_RECONNECT"@, Some(if s.quick_reconnect { "1"@ } else { "0"@ })),
        ("AETHER_SOCKS"@, Some(s.socks@)),
        ("AETHER_HTTP_PROXY"@, opt_env(s.http_proxy@)),
        ("AETHER_UPSTREAM"@, opt_env(s.upstream@)),
        ("AETHER_MASQUE_HTTP2"@, flag_env(s.h2)),
        ("AETHER_MASQUE_H2_FRAGMENT"@, flag_env(s.fragment)),
        ("AETHER_PEER"@, opt_env(s.peer@)),
        ("AETHER_WIW_OUTER_PEER"@, opt_env(s.wiw_outer@)),
        ("AETHER_WIW_INNER_PEER"@, opt_env(s.wiw_inner@)),
        ("AETHER_TEAM"@, opt_env(s.team@)),
        ("AETHER_ACCESS_TOKEN"@, opt_env(s.access_token@)),
        ("AETHER_ROUTE_DIRECT"@, opt_env(s.route_direct@)),
        ("AETHER_ROUTE_BLOCK"@, opt_env(s.route_block@)),
    ]
}

pub open spec fn env_entry_view(p: (String, Option<String>)) -> (Seq<char>, Option<Seq<char>>) {
    (p.0@, crate::phase::opt_view(p.1))
}

pub(crate) fn opt_env_value(raw: &String) -> (r: Option<String>)
    ensures
        crate::phase::opt_view(r) == opt_env(raw@),
{
    let t = trimmed(raw.as_str());
    if t.len() == 0 {
        None
    } else {
        Some(string_of(&t))
    }
}

fn flag_env_value(on: bool) -> (r: Option<String>)
    ensures
        crate::phase::opt_view(r) == flag_env(on),
{
    if on {
        Some(String::from_str("1"))
    } else {
        None
    }
}

fn push_env(plan: &mut Vec<(String, Option<String>)>, name: &str, value: Option<String>)
    ensures
        final(plan)@.map_values(|p: (String, Option<String>)| env_entry_view(p)) == old(plan)@.map_values(
            |p: (String, Option<String>)| env_entry_view(p),
        ).push((name@, crate::phase::opt_view(value))),
{
    let ghost before = plan@;
    plan.push((String::from_str(name), value));
    assert(plan@.map_values(|p: (String, Option<String>)| env_entry_view(p)) =~= before.map_values(
        |p: (String, Option<String>)| env_entry_view(p),
    ).push((name@, crate::phase::opt_view(value))));
}

impl GuiSettings {
    /// The environment this settings value stands for, so the core's
    /// headless path runs exactly as the GUI configured it.
    pub fn env_plan(&self) -> (r: Vec<(String, Option<String>)>)
        ensures
            r@.map_values(|p: (String, Option<String>)| env_entry_view(p)) == env_plan_spec(*self),
    {
        let mut plan: Vec<(String, Option<String>)> = Vec::new();
        push_env(&mut plan, "AETHER_PROTOCOL", Some(proto_env(self.protocol.as_str())));
        push_env(&mut plan, "AETHER_SCAN", Some(self.scan.clone()));
        push_env(&mut plan, "AETHER_IP", Some(ip_env(self.ip.as_str())));
        push_env(&mut plan, "AETHER_NOIZE", Some(self.noize.clone()));
        let quick = if self.quick_reconnect {
            String::from_str("1")
        } else {
            String::from_str("0")
        };
        push_env(&mut plan, "AETHER_QUICK_RECONNECT", Some(quick));
        push_env(&mut plan, "AETHER_SOCKS", Some(self.socks.clone()));
        push_env(&mut plan, "AETHER_HTTP_PROXY", opt_env_value(&self.http_proxy));
        push_env(&mut plan, "AETHER_UPSTREAM", opt_env_value(&self.upstream));
        push_env(&mut plan, "AETHER_MASQUE_HTTP2", flag_env_value(self.h2));
        push_env(&mut plan, "AETHER_MASQUE_H2_FRAGMENT", flag_env_value(self.fragment));
        push_env(&mut plan, "AETHER_PEER", opt_env_value(&self.peer));
        push_env(&mut plan, "AETHER_WIW_OUTER_PEER", opt_env_value(&self.wiw_outer));
        push_env(&mut plan, "AETHER_WIW_INNER_PEER", opt_env_value(&self.wiw_inner));
        push_env(&mut plan, "AETHER_TEAM", opt_env_value(&self.team));
        push_env(&mut plan, "AETHER_ACCESS_TOKEN", opt_env_value(&self.access_token));
        push_env(&mut plan, "AETHER_ROUTE_DIRECT", opt_env_value(&self.route_direct));
        push_env(&mut plan, "AETHER_ROUTE_BLOCK", opt_env_value(&self.route_block));
        assert(plan@.map_values(|p: (String, Option<String>)| env_entry_view(p)) =~= env_plan_spec(*self));
        plan
    }
}

/// Every entry a route list keeps is a trimmed, non-empty, non-comment
/// entry that the entry grammar accepts on its own.
pub proof fn law_route_list_keeps_only_valid_entries(pieces: Seq<Seq<char>>)
    ensures
        route_list_spec(pieces) matches Ok(kept) ==> forall|i: int|
            0 <= i < kept.len() ==> (#[trigger] kept[i]).len() > 0 && kept[i][0] != '#'
                && route_entry_check(kept[i]) is None,
    decreases pieces.len(),
{
    if pieces.len() > 0 {
        law_route_list_keeps_only_valid_entries(pieces.drop_last());
    }
}

} // verus!
