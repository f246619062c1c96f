//! Traffic-mode orchestration: which capture mode the client is in, what
//! each mode needs from the OS, and the manager that owns the undo state
//! (the system-proxy guard and the TUN session). The manager decides; its
//! caller runs the OS commands it hands back.

use vstd::prelude::*;

use crate::net::SocketAddress;
use crate::proxy::{Argv, ProxyGuard};
use crate::text::{ascii_lower, ascii_lowercase, commands_view, eq_str, lemma_trim_of_unpadded, owned, trim, trimmed};
use crate::tun::{not_linked_error, not_linked_message, TunConfig, TunHandle};

verus! {

/// Which traffic-capture mode the client is in.
#[derive(Debug, Clone, Copy, PartialEq, Eq, Structural)]
pub enum TrafficMode {
    /// SOCKS5 up, OS settings untouched.
    ProxyOnly,
    /// The OS system proxy points at the local SOCKS listener.
    SystemProxy,
    /// Full virtual-adapter capture (needs the TUN driver).
    VpnTun,
}

impl Default for TrafficMode {
    fn default() -> (r: TrafficMode)
        ensures
            r == TrafficMode::ProxyOnly,
    {
        TrafficMode::ProxyOnly
    }
}

/// The form a mode name is compared in: trimmed, ASCII lower-cased.
pub open spec fn mode_word(s: Seq<char>) -> Seq<char> {
    ascii_lower(trim(s))
}

/// The mode a normalised name denotes (`manual` is proxy-only, `tun` is
/// VPN).
pub open spec fn mode_of(w: Seq<char>) -> Option<TrafficMode> {
    if w == "proxy"@ || w == "manual"@ {
        Some(TrafficMode::ProxyOnly)
    } else if w == "system"@ {
        Some(TrafficMode::SystemProxy)
    } else if w == "vpn"@ || w == "tun"@ {
        Some(TrafficMode::VpnTun)
    } else {
        None
    }
}

/// The error an unknown mode name gives (it quotes the normalised name).
pub open spec fn mode_error(w: Seq<char>) -> Seq<char> {
    "unknown traffic mode: '"@ + w + "' (expected proxy|system|vpn)"@
}

impl TrafficMode {
    /// The canonical label.
    pub open spec fn name(self) -> Seq<char> {
        match self {
            TrafficMode::ProxyOnly => "proxy"@,
            TrafficMode::SystemProxy => "system"@,
            TrafficMode::VpnTun => "vpn"@,
        }
    }

    /// Parse `proxy`/`system`/`vpn` (aliases: `manual`, `tun`),
    /// case-insensitively, surrounding whitespace ignored. Anything else
    /// is an error naming the input.
    pub fn parse(s: &str) -> (r: Result<TrafficMode, String>)
        ensures
            match mode_of(mode_word(s@)) {
                Some(m) => r == Ok::<TrafficMode, String>(m),
                None => r matches Err(e) && e@ == mode_error(mode_word(s@)),
            },
    {
        let w = ascii_lowercase(&trimmed(s));
        if eq_str(&w, "proxy") || eq_str(&w, "manual") {
            Ok(TrafficMode::ProxyOnly)
        } else if eq_str(&w, "system") {
            Ok(TrafficMode::SystemProxy)
        } else if eq_str(&w, "vpn") || eq_str(&w, "tun") {
            Ok(TrafficMode::VpnTun)
        } else {
            let mut m = owned("unknown traffic mode: '");
            m.append(crate::text::string_of(&w).as_str());
            m.append("' (expected proxy|system|vpn)");
            Err(m)
        }
    }

    /// The canonical label; it parses back to the same mode.
    pub fn label(&self) -> (r: &'static str)
        ensures
            r@ == self.name(),
    {
        match self {
            TrafficMode::ProxyOnly => "proxy",
            TrafficMode::SystemProxy => "system",
            TrafficMode::VpnTun => "vpn",
        }
    }
}

/// Every mode's label parses back to that mode.
pub proof fn law_mode_label_round_trips(m: TrafficMode)
    ensures
        mode_of(mode_word(m.name())) == Some(m),
{
    reveal_strlit("proxy");
    reveal_strlit("manual");
    reveal_strlit("system");
    reveal_strlit("vpn");
    reveal_strlit("tun");
    lemma_trim_of_unpadded(m.name());
    assert(ascii_lower(m.name()) =~= m.name());
}

// ----------------------------------------------------------------- plan

/// What a mode needs from the OS.
#[derive(Debug, Clone, PartialEq, Eq)]
pub enum ModePlan {
    /// Proxy-only: nothing to do at the OS level.
    NoOp,
    /// System-proxy mode: enable the OS proxy.
    ApplyProxy,
    /// VPN mode: start the TUN front end with this configuration.
    StartTun(TunConfig),
}

/// Describe what `mode` needs; VPN mode forwards through `socks` with
/// the default MTU and no bypass IPs.
pub fn plan(mode: TrafficMode, socks: SocketAddress) -> (r: ModePlan)
    ensures
        match mode {
            TrafficMode::ProxyOnly => r is NoOp,
            TrafficMode::SystemProxy => r is ApplyProxy,
            TrafficMode::VpnTun => r matches ModePlan::StartTun(cfg) && cfg.socks == socks && cfg.mtu == 1500
                && cfg.bypass_ips@.len() == 0,
        },
{
    match mode {
        TrafficMode::ProxyOnly => ModePlan::NoOp,
        TrafficMode::SystemProxy => ModePlan::ApplyProxy,
        TrafficMode::VpnTun => ModePlan::StartTun(TunConfig::new(socks)),
    }
}

// -------------------------------------------------------------- manager

/// What the manager holds: the mode, whether a TUN session runs, the
/// off commands of the system-proxy guard it owns (if any), whether it
/// owns a TUN handle, and how many TUN handles it has stopped and
/// system-proxy guards it has disarmed so far.
pub struct ModeView {
    pub mode: TrafficMode,
    pub tun_on: bool,
    pub proxy_off: Option<Seq<Seq<Seq<char>>>>,
    pub tun_held: bool,
    pub stops: nat,
    pub disables: nat,
}

/// A fresh manager: proxy-only, nothing held, nothing undone yet.
pub open spec fn fresh() -> ModeView {
    ModeView {
        mode: TrafficMode::ProxyOnly,
        tun_on: false,
        proxy_off: None,
        tun_held: false,
        stops: 0,
        disables: 0,
    }
}

/// The mode and what is held agree: a TUN session runs exactly in VPN
/// mode, and only then is a TUN handle held; a proxy guard is held
/// exactly in system-proxy mode.
pub open spec fn consistent(v: ModeView) -> bool {
    &&& v.tun_on == (v.mode == TrafficMode::VpnTun)
    &&& v.tun_held == v.tun_on
    &&& (v.proxy_off is Some) == (v.mode == TrafficMode::SystemProxy)
}

/// The state a cleanup leaves: proxy-only, nothing held; a held TUN
/// handle was stopped once and a held guard disarmed once.
pub open spec fn cleaned(v: ModeView) -> ModeView {
    ModeView {
        mode: TrafficMode::ProxyOnly,
        tun_on: false,
        proxy_off: None,
        tun_held: false,
        stops: v.stops + (if v.tun_held { 1nat } else { 0nat }),
        disables: v.disables + (if v.proxy_off is Some { 1nat } else { 0nat }),
    }
}

/// The commands a cleanup hands back: the guard's off commands.
pub open spec fn cleanup_commands(v: ModeView) -> Seq<Seq<Seq<char>>> {
    match v.proxy_off {
        Some(c) => c,
        None => Seq::<Seq<Seq<char>>>::empty(),
    }
}

/// What connecting in `mode` asks of the caller after the cleanup: VPN
/// mode fails, the TUN driver not being linked into this build.
pub open spec fn connect_outcome(mode: TrafficMode) -> Result<ModePlan, Seq<char>> {
    match mode {
        TrafficMode::ProxyOnly => Ok(ModePlan::NoOp),
        TrafficMode::SystemProxy => Ok(ModePlan::ApplyProxy),
        TrafficMode::VpnTun => Err(not_linked_message()),
    }
}

/// Owns the OS undo state of the active traffic mode.
pub struct ModeManager {
    current: TrafficMode,
    proxy_guard: Option<ProxyGuard>,
    tun_handle: Option<Box<dyn TunHandle>>,
    tun_on: bool,
    stopped: Ghost<nat>,
    disabled: Ghost<nat>,
}

impl View for ModeManager {
    type V = ModeView;

    closed spec fn view(&self) -> ModeView {
        ModeView {
            mode: self.current,
            tun_on: self.tun_on,
            proxy_off: match self.proxy_guard {
                Some(g) => Some(g.off_commands()),
                None => None,
            },
            tun_held: self.tun_handle is Some,
            stops: self.stopped@,
            disables: self.disabled@,
        }
    }
}

impl ModeManager {
    #[verifier::type_invariant]
    spec fn well_formed(self) -> bool {
        consistent(self@)
    }

    pub fn new() -> (r: ModeManager)
        ensures
            r@ == fresh(),
    {
        ModeManager {
            current: TrafficMode::ProxyOnly,
            proxy_guard: None,
            tun_handle: None,
            tun_on: false,
            stopped: Ghost(0),
            disabled: Ghost(0),
        }
    }

    /// The active mode; a TUN session runs exactly when it is VPN mode.
    pub fn current(&self) -> (r: TrafficMode)
        ensures
            r == self@.mode,
            consistent(self@),
    {
        proof {
            use_type_invariant(self);
        }
        self.current
    }

    /// Whether a TUN session runs: exactly when the mode is VPN mode.
    pub fn is_tun_on(&self) -> (r: bool)
        ensures
            r == self@.tun_on,
            r == (self@.mode == TrafficMode::VpnTun),
            consistent(self@),
    {
        proof {
            use_type_invariant(self);
        }
        self.tun_on
    }

    /// Same as the free [`plan`].
    pub fn plan(mode: TrafficMode, socks: SocketAddress) -> (r: ModePlan)
        ensures
            match mode {
                TrafficMode::ProxyOnly => r is NoOp,
                TrafficMode::SystemProxy => r is ApplyProxy,
                TrafficMode::VpnTun => r matches ModePlan::StartTun(cfg) && cfg.socks == socks && cfg.mtu
                    == 1500 && cfg.bypass_ips@.len() == 0,
            },
    {
        plan(mode, socks)
    }

    /// Restore everything: the system-proxy guard is disarmed and its off
    /// commands handed back for the caller to run, the TUN session is
    /// stopped, and the mode is reset to proxy-only.
    pub fn cleanup(&mut self) -> (r: Vec<Argv>)
        ensures
            final(self)@ == cleaned(old(self)@),
            commands_view(r@) == cleanup_commands(old(self)@),
    {
        let mut taken = ModeManager::new();
        std::mem::swap(&mut taken, self);
        let ghost before = taken@;
        let ModeManager { current: _, proxy_guard, tun_handle, tun_on: _, stopped, disabled } = taken;
        let mut cmds: Vec<Argv> = Vec::new();
        let mut disables: Ghost<nat> = disabled;
        match proxy_guard {
            Some(mut guard) => {
                cmds = guard.disarm_and_disable();
                disables = Ghost(disabled@ + 1);
            },
            None => {
                assert(commands_view(cmds@) =~= Seq::<Seq<Seq<char>>>::empty());
            },
        }
        let mut stops: Ghost<nat> = stopped;
        match tun_handle {
            Some(mut handle) => {
                handle.stop();
                stops = Ghost(stopped@ + 1);
            },
            None => {},
        }
        *self = ModeManager {
            current: TrafficMode::ProxyOnly,
            proxy_guard: None,
            tun_handle: None,
            tun_on: false,
            stopped: stops,
            disabled: disables,
        };
        assert(self@ == cleaned(before));
        cmds
    }

    /// Switch to `mode` once the SOCKS listener is up. The previous mode
    /// is always cleaned up first (its commands are handed back); the
    /// result says what the caller does next: nothing, enable the system
    /// proxy (then [`ModeManager::arm_system_proxy`]), or fail.
    pub fn on_connected(&mut self, mode: TrafficMode, socks: SocketAddress) -> (r: (
        Vec<Argv>,
        Result<ModePlan, String>,
    ))
        ensures
            final(self)@ == cleaned(old(self)@),
            commands_view(r.0@) == cleanup_commands(old(self)@),
            match connect_outcome(mode) {
                Ok(p) => r.1 == Ok::<ModePlan, String>(p),
                Err(m) => r.1 matches Err(e) && e@ == m,
            },
    {
        let cmds = self.cleanup();
        let next = match mode {
            TrafficMode::ProxyOnly => Ok(ModePlan::NoOp),
            TrafficMode::SystemProxy => Ok(ModePlan::ApplyProxy),
            TrafficMode::VpnTun => Err(not_linked_error()),
        };
        (cmds, next)
    }

    /// The system proxy was enabled: clean up whatever was held (its off
    /// commands are handed back; none after a cleanup), keep the new guard
    /// and enter system-proxy mode.
    pub fn arm_system_proxy(&mut self, guard: ProxyGuard) -> (r: Vec<Argv>)
        ensures
            commands_view(r@) == cleanup_commands(old(self)@),
            final(self)@ == (ModeView {
                mode: TrafficMode::SystemProxy,
                proxy_off: Some(guard.off_commands()),
                ..cleaned(old(self)@)
            }),
    {
        let replaced = self.cleanup();
        let ghost stops = self.stopped@;
        let ghost disables = self.disabled@;
        *self = ModeManager {
            current: TrafficMode::SystemProxy,
            proxy_guard: Some(guard),
            tun_handle: None,
            tun_on: false,
            stopped: Ghost(stops),
            disabled: Ghost(disables),
        };
        replaced
    }

    /// A TUN session started: clean up whatever was held (its off
    /// commands are handed back; none after a cleanup), keep the handle
    /// and enter VPN mode.
    pub fn arm_tun(&mut self, handle: Box<dyn TunHandle>) -> (r: Vec<Argv>)
        ensures
            commands_view(r@) == cleanup_commands(old(self)@),
            final(self)@ == (ModeView {
                mode: TrafficMode::VpnTun,
                tun_on: true,
                tun_held: true,
                ..cleaned(old(self)@)
            }),
    {
        let replaced = self.cleanup();
        let ghost stops = self.stopped@;
        let ghost disables = self.disabled@;
        *self = ModeManager {
            current: TrafficMode::VpnTun,
            proxy_guard: None,
            tun_handle: Some(handle),
            tun_on: true,
            stopped: Ghost(stops),
            disabled: Ghost(disables),
        };
        replaced
    }
}

impl Default for ModeManager {
    fn default() -> (r: ModeManager)
        ensures
            r@ == fresh(),
    {
        ModeManager::new()
    }
}

/// Cleaning up twice is cleaning up once: the second cleanup stops no
/// TUN handle, disarms no guard and hands back no commands; every
/// cleanup leaves a consistent proxy-only state, and so does arming
/// either mode.
pub proof fn law_cleanup_is_idempotent(v: ModeView, off: Seq<Seq<Seq<char>>>)
    ensures
        cleaned(cleaned(v)) == cleaned(v),
        cleanup_commands(cleaned(v)) == Seq::<Seq<Seq<char>>>::empty(),
        cleaned(v).mode == TrafficMode::ProxyOnly,
        !cleaned(v).tun_on,
        consistent(cleaned(v)),
        consistent(ModeView { mode: TrafficMode::SystemProxy, proxy_off: Some(off), ..cleaned(v) }),
        consistent(ModeView { mode: TrafficMode::VpnTun, tun_on: true, tun_held: true, ..cleaned(v) }),
{
}

} // verus!
