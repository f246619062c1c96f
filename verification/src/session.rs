//! The decisions around one session of the engine: what a scan, a
//! verification and a tunnel run report to the GUI, which peer a tunnel
//! dials, and how their outcomes read. Probing, handshakes and the
//! tunnel loops are the engine's; the caller runs them between these
//! steps and hands their outcomes in.

use vstd::prelude::*;

use crate::api::{Endpoint, ScanRequest, Transport, TunnelSpec};
use crate::error::AetherError;
use crate::events::{emit, ring_push, ApiEvent, EventBuffer, EventView, MAX_EVENTS};
use crate::guilog::{ring_evict, GuiLogLevel, LogBuffer, LogRecordView, MAX_LOGS};
use crate::net::{socket_text, SocketAddress};
use crate::text::owned;

verus! {

/// `after` is `before` with one more record at the given level, target
/// and message (numbered and stamped by the buffer).
pub open spec fn logged(
    before: Seq<LogRecordView>,
    after: Seq<LogRecordView>,
    level: GuiLogLevel,
    target: Seq<char>,
    message: Seq<char>,
) -> bool {
    &&& after.len() >= 1
    &&& after.drop_last() == ring_evict(before, MAX_LOGS as nat)
    &&& after.last().level == level
    &&& after.last().target == target
    &&& after.last().message == message
}

// ----------------------------------------------------------------- scan

pub open spec fn scan_started_line(r: ScanRequest) -> Seq<char> {
    "scan started: transport="@ + r.transport.name() + " mode="@ + r.mode@
}

/// A scan begins: `ScanStarted` is reported and logged.
pub fn scan_started(events: &mut EventBuffer, logs: &mut LogBuffer, request: &ScanRequest)
    ensures
        final(events)@ == ring_push(
            old(events)@,
            EventView::ScanStarted { transport: request.transport.name(), mode: request.mode@ },
            MAX_EVENTS as nat,
        ),
        logged(old(logs)@, final(logs)@, GuiLogLevel::Info, "aether::api"@, scan_started_line(*request)),
{
    emit(
        events,
        ApiEvent::ScanStarted { transport: owned(request.transport.label()), mode: request.mode.clone() },
    );
    let mut line = owned("scan started: transport=");
    line.append(request.transport.label());
    line.append(" mode=");
    line.append(request.mode.as_str());
    crate::guilog::push(logs, GuiLogLevel::Info, "aether::api", line.as_str());
}

/// What a finished scan reports: the endpoint found and the move to
/// verification, or the error.
pub open spec fn scan_finished_events(before: Seq<EventView>, outcome: Result<Endpoint, AetherError>) -> Seq<
    EventView,
> {
    match outcome {
        Ok(ep) => ring_push(
            ring_push(
                before,
                EventView::ScanDone {
                    endpoint: socket_text(SocketAddress { ip: ep.ip, port: ep.port, scope_id: 0 }),
                    rtt_ms: ep.rtt_ms,
                },
                MAX_EVENTS as nat,
            ),
            EventView::StateChanged { state: "verifying"@ },
            MAX_EVENTS as nat,
        ),
        Err(e) => ring_push(before, EventView::Error { message: e.message() }, MAX_EVENTS as nat),
    }
}

/// A scan ended with `outcome`: report it.
pub fn scan_finished(events: &mut EventBuffer, outcome: &Result<Endpoint, AetherError>)
    ensures
        final(events)@ == scan_finished_events(old(events)@, *outcome),
{
    match outcome {
        Ok(ep) => {
            emit(events, ApiEvent::scan_done(&ep.socket(), ep.rtt_ms));
            emit(events, ApiEvent::StateChanged { state: owned("verifying") });
        },
        Err(e) => emit(events, ApiEvent::Error { message: e.to_string() }),
    }
}

// --------------------------------------------------------------- verify

/// A verification of `peer` begins: `Validating` is reported.
pub fn verify_started(events: &mut EventBuffer, peer: &SocketAddress)
    ensures
        final(events)@ == ring_push(old(events)@, EventView::Validating { peer: socket_text(*peer) }, MAX_EVENTS as nat),
{
    emit(events, ApiEvent::Validating { peer: peer.to_string() });
}

/// A verification of `peer` ended: a passed one reports `VerifyOk`,
/// anything else reports nothing here.
pub fn verify_finished(events: &mut EventBuffer, peer: &SocketAddress, outcome: &Result<bool, AetherError>)
    ensures
        final(events)@ == (if *outcome == Ok::<bool, AetherError>(true) {
            ring_push(old(events)@, EventView::VerifyOk { peer: socket_text(*peer) }, MAX_EVENTS as nat)
        } else {
            old(events)@
        }),
{
    if let Ok(true) = outcome {
        emit(events, ApiEvent::VerifyOk { peer: peer.to_string() });
    }
}

/// How a WireGuard data-plane check reads: a completed check passes, a
/// cancel stays a cancel, and any other failure means the peer did not
/// verify (a rescan, not an error).
pub fn verification_verdict(outcome: Result<(), AetherError>) -> (r: Result<bool, AetherError>)
    ensures
        r == (match outcome {
            Ok(()) => Ok::<bool, AetherError>(true),
            Err(AetherError::Cancelled) => Err::<bool, AetherError>(AetherError::Cancelled),
            Err(_) => Ok::<bool, AetherError>(false),
        }),
{
    match outcome {
        Ok(()) => Ok(true),
        Err(AetherError::Cancelled) => Err(AetherError::Cancelled),
        Err(_) => Ok(false),
    }
}

pub open spec fn unverified_message(peer: SocketAddress) -> Seq<char> {
    socket_text(peer) + " did not pass data-plane verification"@
}

/// A headless run only connects to a peer that verified.
pub fn require_verified(peer: &SocketAddress, verified: bool) -> (r: Result<(), AetherError>)
    ensures
        r is Ok <==> verified,
        r matches Err(e) ==> e == AetherError::Other(e->Other_0) && e.message() == unverified_message(*peer),
{
    if verified {
        Ok(())
    } else {
        let mut m = peer.to_string();
        m.append(" did not pass data-plane verification");
        Err(AetherError::Other(m))
    }
}

// --------------------------------------------------------------- tunnel

/// The peer a tunnel dials: a gool spec run as a single hop dials its
/// outer hop when one is set.
pub open spec fn dial_peer_spec(spec: TunnelSpec, peer: SocketAddress) -> SocketAddress {
    match spec.transport {
        Transport::WarpInWarp => match spec.outer {
            Some(o) => o,
            None => peer,
        },
        _ => peer,
    }
}

pub fn dial_peer(spec: &TunnelSpec, peer: SocketAddress) -> (r: SocketAddress)
    ensures
        r == dial_peer_spec(*spec, peer),
{
    match spec.transport {
        Transport::WarpInWarp => match spec.outer {
            Some(o) => o,
            None => peer,
        },
        _ => peer,
    }
}

/// The `AETHER_HTTP_PROXY` value a tunnel runs with: the HTTP listener,
/// or unset.
pub fn http_proxy_env(spec: &TunnelSpec) -> (r: Option<String>)
    ensures
        crate::phase::opt_view(r) == (match spec.http {
            Some(a) => Some(socket_text(a)),
            None => None,
        }),
{
    match spec.http {
        Some(a) => Some(a.to_string()),
        None => None,
    }
}

pub open spec fn connecting_line(transport: Transport, peer: SocketAddress) -> Seq<char> {
    "tunnel connecting: transport="@ + transport.name() + " peer="@ + socket_text(peer)
}

/// A tunnel to `peer` starts: the GUI sees `connecting` (the tunnel
/// reports readiness on its own), and the start is logged.
pub fn tunnel_connecting(events: &mut EventBuffer, logs: &mut LogBuffer, transport: Transport, peer: &SocketAddress)
    ensures
        final(events)@ == ring_push(old(events)@, EventView::StateChanged { state: "connecting"@ }, MAX_EVENTS as nat),
        logged(old(logs)@, final(logs)@, GuiLogLevel::Info, "aether::api"@, connecting_line(transport, *peer)),
{
    emit(events, ApiEvent::StateChanged { state: owned("connecting") });
    let mut line = owned("tunnel connecting: transport=");
    line.append(transport.label());
    line.append(" peer=");
    line.append(peer.to_string().as_str());
    crate::guilog::push(logs, GuiLogLevel::Info, "aether::api", line.as_str());
}

pub open spec fn gool_connecting_line(outer: SocketAddress, inner: SocketAddress) -> Seq<char> {
    "gool tunnel connecting: outer="@ + socket_text(outer) + " inner="@ + socket_text(inner)
}

/// A two-hop tunnel starts: its hops must sit on different edges, checked
/// before anything is reported; then `connecting` is reported and logged.
pub fn gool_connecting(
    events: &mut EventBuffer,
    logs: &mut LogBuffer,
    outer: &SocketAddress,
    inner: &SocketAddress,
) -> (r: Result<(), AetherError>)
    ensures
        r is Err <==> outer.ip == inner.ip,
        r matches Err(e) ==> e == AetherError::Other(e->Other_0) && e.message()
            == crate::api::same_edge_message(outer.ip),
        r is Err ==> final(events)@ == old(events)@ && final(logs)@ == old(logs)@,
        r is Ok ==> final(events)@ == ring_push(
            old(events)@,
            EventView::StateChanged { state: "connecting"@ },
            MAX_EVENTS as nat,
        ),
        r is Ok ==> logged(old(logs)@, final(logs)@, GuiLogLevel::Info, "aether::api"@, gool_connecting_line(*outer, *inner)),
{
    if outer.ip == inner.ip {
        let mut m = owned("warp-in-warp needs two separate edges, but both hops point at ");
        m.append(outer.ip.to_string().as_str());
        return Err(AetherError::Other(m));
    }
    emit(events, ApiEvent::StateChanged { state: owned("connecting") });
    let mut line = owned("gool tunnel connecting: outer=");
    line.append(outer.to_string().as_str());
    line.append(" inner=");
    line.append(inner.to_string().as_str());
    crate::guilog::push(logs, GuiLogLevel::Info, "aether::api", line.as_str());
    Ok(())
}

/// Why a tunnel went down: it closed, the user stopped it, or the error.
pub open spec fn down_reason(outcome: Result<(), AetherError>) -> Seq<char> {
    match outcome {
        Ok(()) => "closed"@,
        Err(AetherError::Cancelled) => "stopped"@,
        Err(e) => e.message(),
    }
}

/// A tunnel run ended with `outcome`: `TunnelDown` says why.
pub fn tunnel_finished(events: &mut EventBuffer, outcome: &Result<(), AetherError>)
    ensures
        final(events)@ == ring_push(old(events)@, EventView::TunnelDown { reason: down_reason(*outcome) }, MAX_EVENTS as nat),
{
    let reason = match outcome {
        Ok(()) => owned("closed"),
        Err(AetherError::Cancelled) => owned("stopped"),
        Err(e) => e.to_string(),
    };
    emit(events, ApiEvent::TunnelDown { reason });
}

} // verus!
