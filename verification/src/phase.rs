//! The GUI connection state machine.
//!
//! ```text
//! Idle → Provisioning → Scanning ⇄ Verifying → Connecting → Connected
//!    ↑                      │          │              │            │
//!    └──────── Stopped / Error ◄──────┴──────────────┴── Reconnecting
//! ```
//!
//! Extra edges: Scanning → Connecting (a forced peer skips Verify),
//! Verifying → Scanning (rescan after a failed verify), Stopped →
//! Connecting (reconnect with the cached identity), Idle → Connecting
//! (connect provisions first). Illegal jumps are refused so UI bugs
//! surface as errors, not silent states.

use vstd::prelude::*;

use crate::error::AetherError;
use crate::events::{emit, ring_push, ApiEvent, EventBuffer, EventView, MAX_EVENTS};
use crate::net::{socket_text, SocketAddress};

use ConnectionPhase::{Connected, Connecting, Error, Idle, Provisioning, Reconnecting, Scanning, Stopped, Verifying};

verus! {

/// Renderable phases.
#[derive(Debug, Clone, Copy, PartialEq, Eq, Structural)]
pub enum ConnectionPhase {
    Idle,
    Provisioning,
    Scanning,
    Verifying,
    Connecting,
    Connected,
    Reconnecting,
    Stopped,
    Error,
}

impl ConnectionPhase {
    pub open spec fn name(self) -> Seq<char> {
        match self {
            ConnectionPhase::Idle => "idle"@,
            ConnectionPhase::Provisioning => "provisioning"@,
            ConnectionPhase::Scanning => "scanning"@,
            ConnectionPhase::Verifying => "verifying"@,
            ConnectionPhase::Connecting => "connecting"@,
            ConnectionPhase::Connected => "connected"@,
            ConnectionPhase::Reconnecting => "reconnecting"@,
            ConnectionPhase::Stopped => "stopped"@,
            ConnectionPhase::Error => "error"@,
        }
    }

    pub fn as_str(self) -> (r: &'static str)
        ensures
            r@ == self.name(),
    {
        match self {
            ConnectionPhase::Idle => "idle",
            ConnectionPhase::Provisioning => "provisioning",
            ConnectionPhase::Scanning => "scanning",
            ConnectionPhase::Verifying => "verifying",
            ConnectionPhase::Connecting => "connecting",
            ConnectionPhase::Connected => "connected",
            ConnectionPhase::Reconnecting => "reconnecting",
            ConnectionPhase::Stopped => "stopped",
            ConnectionPhase::Error => "error",
        }
    }

    /// The legal transitions.
    pub open spec fn allows(self, next: ConnectionPhase) -> bool {
        match (self, next) {
            (Idle, Provisioning) | (Idle, Connecting) | (Provisioning, Scanning) | (
                Provisioning,
                Stopped,
            ) | (Provisioning, Error) | (Scanning, Verifying) | (Scanning, Connecting) | (
                Scanning,
                Error,
            ) | (Scanning, Stopped) | (Stopped, Connecting) | (Verifying, Scanning) | (
                Verifying,
                Connecting,
            ) | (Verifying, Error) | (Verifying, Stopped) | (Connecting, Connected) | (
                Connecting,
                Error,
            ) | (Connecting, Stopped) | (Connected, Reconnecting) | (Connected, Stopped) | (
                Connected,
                Error,
            ) | (Reconnecting, Connecting) | (Reconnecting, Stopped) | (Reconnecting, Error) | (
                Error,
                Provisioning,
            ) | (Error, Idle) | (Stopped, Provisioning) | (Stopped, Idle) => true,
            _ => false,
        }
    }

    /// Whether `self → next` is a legal transition.
    pub fn can_go(self, next: ConnectionPhase) -> (r: bool)
        ensures
            r == self.allows(next),
    {
        match (self, next) {
            (Idle, Provisioning) | (Idle, Connecting) | (Provisioning, Scanning) | (
                Provisioning,
                Stopped,
            ) | (Provisioning, Error) | (Scanning, Verifying) | (Scanning, Connecting) | (
                Scanning,
                Error,
            ) | (Scanning, Stopped) | (Stopped, Connecting) | (Verifying, Scanning) | (
                Verifying,
                Connecting,
            ) | (Verifying, Error) | (Verifying, Stopped) | (Connecting, Connected) | (
                Connecting,
                Error,
            ) | (Connecting, Stopped) | (Connected, Reconnecting) | (Connected, Stopped) | (
                Connected,
                Error,
            ) | (Reconnecting, Connecting) | (Reconnecting, Stopped) | (Reconnecting, Error) | (
                Error,
                Provisioning,
            ) | (Error, Idle) | (Stopped, Provisioning) | (Stopped, Idle) => true,
            _ => false,
        }
    }
}

impl Default for ConnectionPhase {
    fn default() -> (r: ConnectionPhase)
        ensures
            r == ConnectionPhase::Idle,
    {
        ConnectionPhase::Idle
    }
}

/// The message a refused transition reports.
pub open spec fn illegal_transition_message(from: ConnectionPhase, to: ConnectionPhase) -> Seq<char> {
    "illegal phase transition "@ + from.name() + " → "@ + to.name()
}

/// The `StateChanged` event announcing `p`.
pub open spec fn state_changed(p: ConnectionPhase) -> EventView {
    EventView::StateChanged { state: p.name() }
}

pub open spec fn opt_view(o: Option<String>) -> Option<Seq<char>> {
    match o {
        Some(s) => Some(s@),
        None => None,
    }
}

fn clone_opt(o: &Option<String>) -> (r: Option<String>)
    ensures
        opt_view(r) == opt_view(*o),
{
    match o {
        Some(s) => Some(s.clone()),
        None => None,
    }
}

/// What the GUI renders: the phase label, the gateway and the last error.
#[derive(Debug, Clone, PartialEq, Eq)]
pub struct SnapshotDto {
    pub phase: String,
    pub gateway: Option<String>,
    pub error: Option<String>,
}

/// The backend's phase, the last error (redacted, never secrets) and the
/// gateway in use.
#[derive(Debug)]
pub struct BackendState {
    pub phase: ConnectionPhase,
    pub last_error: Option<String>,
    pub gateway: Option<String>,
}

impl Default for BackendState {
    fn default() -> (r: BackendState)
        ensures
            r.phase == ConnectionPhase::Idle,
            r.last_error is None,
            r.gateway is None,
    {
        BackendState { phase: ConnectionPhase::Idle, last_error: None, gateway: None }
    }
}

/// The legal outcome of asking for `next` from `cur`.
pub open spec fn transition_ok(cur: ConnectionPhase, next: ConnectionPhase) -> bool {
    cur == next || cur.allows(next)
}

/// The events a move from `cur` to `next` adds: one `StateChanged` when
/// the phase really changes by a legal move, nothing otherwise.
pub open spec fn moved(events: Seq<EventView>, cur: ConnectionPhase, next: ConnectionPhase) -> Seq<EventView> {
    if cur != next && cur.allows(next) {
        ring_push(events, state_changed(next), MAX_EVENTS as nat)
    } else {
        events
    }
}

/// The phase after asking for `next` from `cur`.
pub open spec fn phase_after(cur: ConnectionPhase, next: ConnectionPhase) -> ConnectionPhase {
    if transition_ok(cur, next) {
        next
    } else {
        cur
    }
}

/// The events a recorded failure adds.
pub open spec fn failed(events: Seq<EventView>, message: Seq<char>) -> Seq<EventView> {
    ring_push(
        ring_push(events, state_changed(ConnectionPhase::Error), MAX_EVENTS as nat),
        EventView::Error { message },
        MAX_EVENTS as nat,
    )
}

impl BackendState {
    /// A fresh state: `Idle`, no error, no gateway.
    pub fn new() -> (r: BackendState)
        ensures
            r.phase == ConnectionPhase::Idle,
            r.last_error is None,
            r.gateway is None,
    {
        BackendState { phase: ConnectionPhase::Idle, last_error: None, gateway: None }
    }

    /// Move to `next`. Staying put is accepted silently; a legal move
    /// emits `StateChanged`; an illegal one changes nothing and reports it.
    pub fn set_phase(&mut self, events: &mut EventBuffer, next: ConnectionPhase) -> (r: Result<
        (),
        String,
    >)
        ensures
            r is Ok <==> transition_ok(old(self).phase, next),
            r is Ok ==> final(self).phase == next,
            r is Err ==> final(self).phase == old(self).phase,
            r matches Err(m) ==> m@ == illegal_transition_message(old(self).phase, next),
            final(self).last_error == old(self).last_error,
            final(self).gateway == old(self).gateway,
            final(events)@ == (if old(self).phase != next && old(self).phase.allows(next) {
                ring_push(old(events)@, state_changed(next), MAX_EVENTS as nat)
            } else {
                old(events)@
            }),
    {
        if self.phase == next {
            return Ok(());
        }
        if !self.phase.can_go(next) {
            let mut m = String::from_str("illegal phase transition ");
            m.append(self.phase.as_str());
            m.append(" → ");
            m.append(next.as_str());
            return Err(m);
        }
        self.phase = next;
        emit(events, ApiEvent::StateChanged { state: String::from_str(next.as_str()) });
        Ok(())
    }

    /// Record a failure: phase `Error`, the message kept, and both a
    /// `StateChanged` and an `Error` event emitted.
    pub fn set_error(&mut self, events: &mut EventBuffer, message: String)
        ensures
            final(self).phase == ConnectionPhase::Error,
            opt_view(final(self).last_error) == Some(message@),
            final(self).gateway == old(self).gateway,
            final(events)@ == ring_push(
                ring_push(old(events)@, state_changed(ConnectionPhase::Error), MAX_EVENTS as nat),
                EventView::Error { message: message@ },
                MAX_EVENTS as nat,
            ),
    {
        let copy = message.clone();
        self.phase = ConnectionPhase::Error;
        self.last_error = Some(message);
        emit(events, ApiEvent::StateChanged { state: String::from_str(ConnectionPhase::Error.as_str()) });
        emit(events, ApiEvent::Error { message: copy });
    }

    pub fn set_gateway(&mut self, gateway: Option<String>)
        ensures
            final(self).gateway == gateway,
            final(self).phase == old(self).phase,
            final(self).last_error == old(self).last_error,
    {
        self.gateway = gateway;
    }

    /// `(phase, gateway, last error)`.
    pub fn snapshot(&self) -> (r: (ConnectionPhase, Option<String>, Option<String>))
        ensures
            r.0 == self.phase,
            opt_view(r.1) == opt_view(self.gateway),
            opt_view(r.2) == opt_view(self.last_error),
    {
        (self.phase, clone_opt(&self.gateway), clone_opt(&self.last_error))
    }

    /// The snapshot with the phase rendered to its label.
    pub fn snapshot_dto(&self) -> (r: SnapshotDto)
        ensures
            r.phase@ == self.phase.name(),
            opt_view(r.gateway) == opt_view(self.gateway),
            opt_view(r.error) == opt_view(self.last_error),
    {
        let (phase, gateway, error) = self.snapshot();
        SnapshotDto { phase: String::from_str(phase.as_str()), gateway, error }
    }

    /// Before a tunnel starts: refuse when one is already up or coming
    /// up; otherwise move to `Connecting` from `Idle`, `Scanning`,
    /// `Verifying` or `Stopped` (other phases are left as they are).
    pub fn begin_connect(&mut self, events: &mut EventBuffer) -> (r: Result<(), String>)
        ensures
            r is Err <==> (old(self).phase == ConnectionPhase::Connecting || old(self).phase
                == ConnectionPhase::Connected),
            r matches Err(m) ==> m@ == "already connected or connecting"@,
            r is Ok ==> final(self).phase == (match old(self).phase {
                ConnectionPhase::Idle | ConnectionPhase::Scanning | ConnectionPhase::Verifying
                | ConnectionPhase::Stopped => ConnectionPhase::Connecting,
                other => other,
            }),
            r is Err ==> final(self).phase == old(self).phase && final(events)@ == old(events)@,
            final(events)@ == (match old(self).phase {
                ConnectionPhase::Idle | ConnectionPhase::Scanning | ConnectionPhase::Verifying
                | ConnectionPhase::Stopped => moved(old(events)@, old(self).phase, ConnectionPhase::Connecting),
                _ => old(events)@,
            }),
            final(self).last_error == old(self).last_error,
            final(self).gateway == old(self).gateway,
    {
        match self.phase {
            ConnectionPhase::Connecting | ConnectionPhase::Connected => {
                Err(String::from_str("already connected or connecting"))
            },
            ConnectionPhase::Idle | ConnectionPhase::Scanning | ConnectionPhase::Verifying
            | ConnectionPhase::Stopped => self.set_phase(events, ConnectionPhase::Connecting),
            _ => Ok(()),
        }
    }

    /// After a tunnel ends: a clean close or a cancel stops the session;
    /// a failure records the error and reports it.
    pub fn end_connect(&mut self, events: &mut EventBuffer, outcome: Result<(), AetherError>) -> (r:
        Result<(), String>)
        ensures
            match outcome {
                Ok(()) | Err(AetherError::Cancelled) => {
                    &&& r is Ok <==> transition_ok(old(self).phase, ConnectionPhase::Stopped)
                    &&& r matches Err(m) ==> m@ == illegal_transition_message(old(self).phase, ConnectionPhase::Stopped)
                    &&& final(self).phase == phase_after(old(self).phase, ConnectionPhase::Stopped)
                    &&& final(events)@ == moved(old(events)@, old(self).phase, ConnectionPhase::Stopped)
                    &&& final(self).last_error == old(self).last_error
                },
                Err(e) => {
                    &&& r matches Err(m) && m@ == e.message()
                    &&& final(self).phase == ConnectionPhase::Error
                    &&& opt_view(final(self).last_error) == Some(e.message())
                    &&& final(events)@ == failed(old(events)@, e.message())
                },
            },
            final(self).gateway == old(self).gateway,
    {
        match outcome {
            Ok(()) => self.set_phase(events, ConnectionPhase::Stopped),
            Err(AetherError::Cancelled) => self.set_phase(events, ConnectionPhase::Stopped),
            Err(e) => {
                let m = e.to_string();
                self.set_error(events, e.to_string());
                Err(m)
            },
        }
    }

    /// Before a scan: a fresh scan or a rescan after a failed verify
    /// lands on `Scanning`.
    pub fn begin_scan(&mut self, events: &mut EventBuffer) -> (r: Result<(), String>)
        ensures
            r is Ok,
            final(self).phase == (match old(self).phase {
                ConnectionPhase::Provisioning | ConnectionPhase::Verifying => ConnectionPhase::Scanning,
                other => other,
            }),
            final(events)@ == (match old(self).phase {
                ConnectionPhase::Provisioning | ConnectionPhase::Verifying => moved(
                    old(events)@,
                    old(self).phase,
                    ConnectionPhase::Scanning,
                ),
                _ => old(events)@,
            }),
            final(self).last_error == old(self).last_error,
            final(self).gateway == old(self).gateway,
    {
        match self.phase {
            ConnectionPhase::Provisioning | ConnectionPhase::Verifying => {
                self.set_phase(events, ConnectionPhase::Scanning)
            },
            _ => Ok(()),
        }
    }

    /// After a scan: the endpoint found becomes the gateway and the phase
    /// moves to `Verifying`; a failure records the error.
    pub fn end_scan(&mut self, events: &mut EventBuffer, outcome: Result<SocketAddress, AetherError>) -> (r:
        Result<SocketAddress, String>)
        ensures
            match outcome {
                Ok(ep) => {
                    &&& opt_view(final(self).gateway) == Some(socket_text(ep))
                    &&& r is Ok <==> transition_ok(old(self).phase, ConnectionPhase::Verifying)
                    &&& r matches Ok(e2) ==> e2 == ep
                    &&& r matches Err(m) ==> m@ == illegal_transition_message(old(self).phase, ConnectionPhase::Verifying)
                    &&& final(self).phase == phase_after(old(self).phase, ConnectionPhase::Verifying)
                    &&& final(events)@ == moved(old(events)@, old(self).phase, ConnectionPhase::Verifying)
                    &&& final(self).last_error == old(self).last_error
                },
                Err(e) => {
                    &&& r matches Err(m) && m@ == e.message()
                    &&& final(self).phase == ConnectionPhase::Error
                    &&& opt_view(final(self).last_error) == Some(e.message())
                    &&& final(events)@ == failed(old(events)@, e.message())
                    &&& final(self).gateway == old(self).gateway
                },
            },
    {
        match outcome {
            Ok(ep) => {
                self.set_gateway(Some(ep.to_string()));
                match self.set_phase(events, ConnectionPhase::Verifying) {
                    Ok(()) => Ok(ep),
                    Err(m) => Err(m),
                }
            },
            Err(e) => {
                let m = e.to_string();
                self.set_error(events, e.to_string());
                Err(m)
            },
        }
    }

    /// Stop whatever runs. Safe in any phase: `Idle`, `Stopped` and
    /// `Error` stay as they are, every other phase moves to `Stopped`.
    pub fn stop(&mut self, events: &mut EventBuffer) -> (r: Result<(), String>)
        ensures
            r is Ok,
            final(self).phase == (match old(self).phase {
                ConnectionPhase::Idle => ConnectionPhase::Idle,
                ConnectionPhase::Error => ConnectionPhase::Error,
                _ => ConnectionPhase::Stopped,
            }),
            final(events)@ == (match old(self).phase {
                ConnectionPhase::Idle | ConnectionPhase::Stopped | ConnectionPhase::Error => old(events)@,
                _ => moved(old(events)@, old(self).phase, ConnectionPhase::Stopped),
            }),
            final(self).last_error == old(self).last_error,
            final(self).gateway == old(self).gateway,
    {
        match self.phase {
            ConnectionPhase::Idle => Ok(()),
            ConnectionPhase::Stopped | ConnectionPhase::Error => Ok(()),
            _ => self.set_phase(events, ConnectionPhase::Stopped),
        }
    }
}

/// Every phase leads back to `Idle`: from `Stopped` and `Error` directly,
/// and from every other phase but `Idle` itself through `Stopped`.
pub proof fn law_every_phase_returns_to_idle(p: ConnectionPhase)
    ensures
        p == ConnectionPhase::Idle || p.allows(ConnectionPhase::Idle) || (p.allows(
            ConnectionPhase::Stopped,
        ) && ConnectionPhase::Stopped.allows(ConnectionPhase::Idle)),
{
}

/// No transition skips straight from `Idle` to a live tunnel, and no
/// phase is its own successor.
pub proof fn law_no_shortcuts(p: ConnectionPhase)
    ensures
        !ConnectionPhase::Idle.allows(ConnectionPhase::Connected),
        !p.allows(p),
{
}

/// A run of the machine: it starts at `Idle` and every step is a legal
/// transition.
pub open spec fn is_run(s: Seq<ConnectionPhase>) -> bool {
    &&& s.len() >= 1
    &&& s[0] == ConnectionPhase::Idle
    &&& forall|i: int| 0 <= i < s.len() - 1 ==> #[trigger] s[i].allows(s[i + 1])
}

/// Every phase can be reached from `Idle` by legal transitions; in
/// particular the live tunnel can fall back to `Reconnecting`.
pub proof fn law_every_phase_is_reachable(p: ConnectionPhase)
    ensures
        exists|s: Seq<ConnectionPhase>| is_run(s) && s.last() == p,
{
    let to_connected = seq![Idle, Connecting, Connected];
    let s = match p {
        Idle => seq![Idle],
        Provisioning => seq![Idle, Provisioning],
        Scanning => seq![Idle, Provisioning, Scanning],
        Verifying => seq![Idle, Provisioning, Scanning, Verifying],
        Connecting => seq![Idle, Connecting],
        Connected => to_connected,
        Reconnecting => to_connected.push(Reconnecting),
        Stopped => seq![Idle, Connecting, Stopped],
        Error => seq![Idle, Connecting, Error],
    };
    assert(forall|i: int| 0 <= i < s.len() - 1 ==> #[trigger] s[i].allows(s[i + 1]));
    assert(is_run(s) && s.last() == p);
}

/// A live tunnel that drops is retried: `Connected → Reconnecting →
/// Connecting → Connected` is a cycle of legal moves, and `Reconnecting`
/// is entered from `Connected` and from nowhere else.
pub proof fn law_retry_cycle(q: ConnectionPhase)
    ensures
        transition_ok(ConnectionPhase::Connected, ConnectionPhase::Reconnecting),
        transition_ok(ConnectionPhase::Reconnecting, ConnectionPhase::Connecting),
        transition_ok(ConnectionPhase::Connecting, ConnectionPhase::Connected),
        q.allows(ConnectionPhase::Reconnecting) <==> q == ConnectionPhase::Connected,
{
}

/// Every active phase can be stopped and can fail, and both ends lead
/// back to `Idle` or to a fresh `Provisioning`.
pub proof fn law_active_phases_stop_or_fail(p: ConnectionPhase)
    ensures
        p != ConnectionPhase::Idle && p != ConnectionPhase::Stopped && p != ConnectionPhase::Error
            ==> p.allows(ConnectionPhase::Stopped) && p.allows(ConnectionPhase::Error),
        ConnectionPhase::Stopped.allows(ConnectionPhase::Idle),
        ConnectionPhase::Stopped.allows(ConnectionPhase::Provisioning),
        ConnectionPhase::Error.allows(ConnectionPhase::Idle),
        ConnectionPhase::Error.allows(ConnectionPhase::Provisioning),
{
}

} // verus!
