//! The headless `--check` dry run: what the command line asks for, and
//! the plan lines it prints for the resolved scan and tunnel.

use vstd::prelude::*;

use crate::api::{IpScan, ScanRequest, TunnelSpec};
use crate::net::{decimal, decimal_text, socket_text, SocketAddress};
use crate::text::{owned, strings_view};

verus! {

/// What the command line asks for.
#[derive(Debug, Clone, PartialEq, Eq)]
pub enum CliCommand {
    /// `--help` or `-h` anywhere: print the usage.
    Help,
    /// An argument that is no option: report it (exit status 2).
    Unknown(String),
    /// Load the settings from `settings_path`; dry-run when `check_only`.
    Run { settings_path: String, check_only: bool },
}

/// [`CliCommand`] over character sequences.
pub enum CliOutcome {
    Help,
    Unknown(Seq<char>),
    Run(Seq<char>, bool),
}

pub open spec fn cli_view(c: CliCommand) -> CliOutcome {
    match c {
        CliCommand::Help => CliOutcome::Help,
        CliCommand::Unknown(a) => CliOutcome::Unknown(a@),
        CliCommand::Run { settings_path, check_only } => CliOutcome::Run(settings_path@, check_only),
    }
}

pub open spec fn is_help(a: Seq<char>) -> bool {
    a == "--help"@ || a == "-h"@
}

/// The options from position `i` on, read left to right: `--settings`
/// takes the next argument as the path (a missing one changes nothing),
/// `--check` asks for the dry run, anything else stops at that argument.
pub open spec fn cli_options(args: Seq<Seq<char>>, i: int, path: Seq<char>, check: bool) -> CliOutcome
    decreases args.len() - i,
{
    if i < 0 || i >= args.len() {
        CliOutcome::Run(path, check)
    } else if args[i] == "--settings"@ {
        if i + 1 < args.len() {
            cli_options(args, i + 2, args[i + 1], check)
        } else {
            CliOutcome::Run(path, check)
        }
    } else if args[i] == "--check"@ {
        cli_options(args, i + 1, path, true)
    } else {
        CliOutcome::Unknown(args[i])
    }
}

/// Help wins wherever it stands; otherwise the options as read.
pub open spec fn cli_spec(args: Seq<Seq<char>>, default_path: Seq<char>) -> CliOutcome {
    if exists|i: int| 0 <= i < args.len() && is_help(#[trigger] args[i]) {
        CliOutcome::Help
    } else {
        cli_options(args, 0, default_path, false)
    }
}

fn str_is(a: &String, lit: &str) -> (r: bool)
    ensures
        r == (a@ == lit@),
{
    crate::text::eq_str(&crate::text::chars_of(a.as_str()), lit)
}

/// Read the command-line arguments (after the program name);
/// `default_path` is the settings path used without `--settings`.
pub fn parse_cli_args(args: &Vec<String>, default_path: String) -> (r: CliCommand)
    ensures
        cli_view(r) == cli_spec(strings_view(args@), default_path@),
{
    let ghost sv = strings_view(args@);
    let mut k: usize = 0;
    while k < args.len()
        invariant
            k <= args@.len(),
            sv == strings_view(args@),
            forall|j: int| 0 <= j < k ==> !is_help(#[trigger] sv[j]),
        decreases args.len() - k,
    {
        if str_is(&args[k], "--help") || str_is(&args[k], "-h") {
            assert(is_help(sv[k as int]));
            return CliCommand::Help;
        }
        k = k + 1;
    }
    let mut path = default_path;
    let mut check = false;
    let mut i: usize = 0;
    while i < args.len()
        invariant
            i <= args@.len(),
            sv == strings_view(args@),
            !(exists|j: int| 0 <= j < sv.len() && is_help(#[trigger] sv[j])),
            cli_options(sv, i as int, path@, check) == cli_options(sv, 0, default_path@, false),
        decreases args.len() - i,
    {
        if str_is(&args[i], "--settings") {
            if i + 1 < args.len() {
                path = args[i + 1].clone();
                i = i + 2;
            } else {
                i = args.len();
            }
        } else if str_is(&args[i], "--check") {
            check = true;
            i = i + 1;
        } else {
            return CliCommand::Unknown(args[i].clone());
        }
    }
    CliCommand::Run { settings_path: path, check_only: check }
}

// ------------------------------------------------------------ plan lines

/// How the dry run names an IP family.
pub open spec fn ip_scan_name(ip: IpScan) -> Seq<char> {
    match ip {
        IpScan::V4 => "V4"@,
        IpScan::V6 => "V6"@,
        IpScan::Both => "Both"@,
    }
}

pub open spec fn scan_line(r: ScanRequest) -> Seq<char> {
    "scan: transport="@ + r.transport.name() + " mode="@ + r.mode@ + " ip="@ + ip_scan_name(r.ip)
        + " wanted="@ + decimal(r.wanted as nat) + " ports="@ + decimal(r.ports@.len())
}

/// The dry-run line for a scan request.
pub fn scan_plan_line(r: &ScanRequest) -> (s: String)
    ensures
        s@ == scan_line(*r),
{
    let ip = match r.ip {
        IpScan::V4 => "V4",
        IpScan::V6 => "V6",
        IpScan::Both => "Both",
    };
    let mut s = owned("scan: transport=");
    s.append(r.transport.label());
    s.append(" mode=");
    s.append(r.mode.as_str());
    s.append(" ip=");
    s.append(ip);
    s.append(" wanted=");
    s.append(decimal_text(r.wanted as u64).as_str());
    s.append(" ports=");
    s.append(decimal_text(r.ports.len() as u64).as_str());
    s
}

/// An optional listener or hop as the dry run shows it.
pub open spec fn opt_socket_text(a: Option<SocketAddress>, absent: Seq<char>) -> Seq<char> {
    match a {
        Some(x) => socket_text(x),
        None => absent,
    }
}

pub open spec fn tunnel_line(t: TunnelSpec) -> Seq<char> {
    "tunnel: transport="@ + t.transport.name() + " socks="@ + socket_text(t.socks) + " http="@
        + opt_socket_text(t.http, "off"@) + " gool_outer="@ + opt_socket_text(t.outer, "-"@)
        + " gool_inner="@ + opt_socket_text(t.inner, "-"@)
}

fn opt_socket_string(a: Option<SocketAddress>, absent: &str) -> (r: String)
    ensures
        r@ == opt_socket_text(a, absent@),
{
    match a {
        Some(x) => x.to_string(),
        None => owned(absent),
    }
}

/// The dry-run line for a tunnel spec.
pub fn tunnel_plan_line(t: &TunnelSpec) -> (s: String)
    ensures
        s@ == tunnel_line(*t),
{
    let mut s = owned("tunnel: transport=");
    s.append(t.transport.label());
    s.append(" socks=");
    s.append(t.socks.to_string().as_str());
    s.append(" http=");
    s.append(opt_socket_string(t.http, "off").as_str());
    s.append(" gool_outer=");
    s.append(opt_socket_string(t.outer, "-").as_str());
    s.append(" gool_inner=");
    s.append(opt_socket_string(t.inner, "-").as_str());
    s
}

} // verus!
