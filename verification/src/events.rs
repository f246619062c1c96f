//! The GUI event stream: every state change the GUI may display, kept in
//! a bounded FIFO buffer that late pollers drain oldest first.

use std::collections::VecDeque;

use vstd::prelude::*;

use crate::net::{socket_text, SocketAddress};

verus! {

/// Maximum events kept for late pollers (GUI opened mid-scan, etc.).
pub const MAX_EVENTS: usize = 512;

/// Every state change the GUI is allowed to display.
#[derive(Debug, Clone, PartialEq, Eq)]
pub enum ApiEvent {
    Provisioning { transport: String },
    IdentityReady { device_id: String, transport: String },
    ScanStarted { transport: String, mode: String },
    ScanCandidate { ip: String, port: u16, rtt_ms: u64 },
    ScanDone { endpoint: String, rtt_ms: u64 },
    Validating { peer: String },
    VerifyOk { peer: String },
    TunnelUp { peer: String, transport: String },
    TunnelDown { reason: String },
    Reconnecting { in_secs: u64 },
    Stats { rx_bytes: u64, tx_bytes: u64 },
    AuthNeeded { team: String },
    StateChanged { state: String },
    Error { message: String },
}

/// An event with its texts as character sequences.
pub enum EventView {
    Provisioning { transport: Seq<char> },
    IdentityReady { device_id: Seq<char>, transport: Seq<char> },
    ScanStarted { transport: Seq<char>, mode: Seq<char> },
    ScanCandidate { ip: Seq<char>, port: u16, rtt_ms: u64 },
    ScanDone { endpoint: Seq<char>, rtt_ms: u64 },
    Validating { peer: Seq<char> },
    VerifyOk { peer: Seq<char> },
    TunnelUp { peer: Seq<char>, transport: Seq<char> },
    TunnelDown { reason: Seq<char> },
    Reconnecting { in_secs: u64 },
    Stats { rx_bytes: u64, tx_bytes: u64 },
    AuthNeeded { team: Seq<char> },
    StateChanged { state: Seq<char> },
    Error { message: Seq<char> },
}

impl View for ApiEvent {
    type V = EventView;

    open spec fn view(&self) -> EventView {
        match self {
            ApiEvent::Provisioning { transport } => EventView::Provisioning { transport: transport@ },
            ApiEvent::IdentityReady { device_id, transport } => EventView::IdentityReady {
                device_id: device_id@,
                transport: transport@,
            },
            ApiEvent::ScanStarted { transport, mode } => EventView::ScanStarted {
                transport: transport@,
                mode: mode@,
            },
            ApiEvent::ScanCandidate { ip, port, rtt_ms } => EventView::ScanCandidate {
                ip: ip@,
                port: *port,
                rtt_ms: *rtt_ms,
            },
            ApiEvent::ScanDone { endpoint, rtt_ms } => EventView::ScanDone {
                endpoint: endpoint@,
                rtt_ms: *rtt_ms,
            },
            ApiEvent::Validating { peer } => EventView::Validating { peer: peer@ },
            ApiEvent::VerifyOk { peer } => EventView::VerifyOk { peer: peer@ },
            ApiEvent::TunnelUp { peer, transport } => EventView::TunnelUp {
                peer: peer@,
                transport: transport@,
            },
            ApiEvent::TunnelDown { reason } => EventView::TunnelDown { reason: reason@ },
            ApiEvent::Reconnecting { in_secs } => EventView::Reconnecting { in_secs: *in_secs },
            ApiEvent::Stats { rx_bytes, tx_bytes } => EventView::Stats {
                rx_bytes: *rx_bytes,
                tx_bytes: *tx_bytes,
            },
            ApiEvent::AuthNeeded { team } => EventView::AuthNeeded { team: team@ },
            ApiEvent::StateChanged { state } => EventView::StateChanged { state: state@ },
            ApiEvent::Error { message } => EventView::Error { message: message@ },
        }
    }
}

impl ApiEvent {
    /// `ScanDone` for an endpoint found by a scan.
    pub fn scan_done(endpoint: &SocketAddress, rtt_ms: u64) -> (r: ApiEvent)
        ensures
            r@ == (EventView::ScanDone { endpoint: socket_text(*endpoint), rtt_ms }),
    {
        ApiEvent::ScanDone { endpoint: endpoint.to_string(), rtt_ms }
    }

    /// `TunnelUp` for a peer and a transport label.
    pub fn tunnel_up(peer: &SocketAddress, transport: &str) -> (r: ApiEvent)
        ensures
            r@ == (EventView::TunnelUp { peer: socket_text(*peer), transport: transport@ }),
    {
        ApiEvent::TunnelUp { peer: peer.to_string(), transport: String::from_str(transport) }
    }
}

/// The buffer after one event arrives: the oldest event is dropped when
/// the buffer already holds `MAX_EVENTS`.
pub open spec fn ring_push<T>(s: Seq<T>, e: T, cap: nat) -> Seq<T> {
    if s.len() >= cap {
        s.drop_first().push(e)
    } else {
        s.push(e)
    }
}

/// How many events `drain_events(max)` hands out of a buffer of `len`.
pub open spec fn drain_count(max: nat, len: nat) -> nat {
    if max == 0 || max >= len {
        len
    } else {
        max
    }
}

/// The bounded FIFO of events not yet drained.
pub struct EventBuffer {
    queue: VecDeque<ApiEvent>,
}

impl View for EventBuffer {
    type V = Seq<EventView>;

    closed spec fn view(&self) -> Seq<EventView> {
        self.queue@.map_values(|e: ApiEvent| e@)
    }
}

impl EventBuffer {
    #[verifier::type_invariant]
    spec fn bounded(self) -> bool {
        self.queue@.len() <= MAX_EVENTS
    }

    /// An empty buffer.
    pub fn new() -> (r: EventBuffer)
        ensures
            r@ == Seq::<EventView>::empty(),
    {
        let r = EventBuffer { queue: VecDeque::new() };
        assert(r@ =~= Seq::<EventView>::empty());
        r
    }
}

/// Append one event; at capacity the oldest event is evicted first.
pub fn emit(buffer: &mut EventBuffer, event: ApiEvent)
    ensures
        final(buffer)@ == ring_push(old(buffer)@, event@, MAX_EVENTS as nat),
        final(buffer)@.len() <= MAX_EVENTS,
{
    proof {
        use_type_invariant(&*buffer);
    }
    let mut q: VecDeque<ApiEvent> = VecDeque::new();
    std::mem::swap(&mut q, &mut buffer.queue);
    let ghost before = q@;
    if q.len() >= MAX_EVENTS {
        q.pop_front();
        assert(q@ == before.drop_first());
    }
    let ghost mid = q@;
    q.push_back(event);
    proof {
        assert(q@ == mid.push(event));
        if before.len() >= MAX_EVENTS {
            assert(q@.map_values(|e: ApiEvent| e@) =~= before.map_values(|e: ApiEvent| e@).drop_first().push(event@));
        } else {
            assert(q@.map_values(|e: ApiEvent| e@) =~= before.map_values(|e: ApiEvent| e@).push(event@));
        }
    }
    buffer.queue = q;
}

/// Drain up to `max` buffered events, oldest first (`max == 0` means all).
pub fn drain_events(buffer: &mut EventBuffer, max: usize) -> (r: Vec<ApiEvent>)
    ensures
        r@.map_values(|e: ApiEvent| e@) == old(buffer)@.take(drain_count(max as nat, old(buffer)@.len()) as int),
        final(buffer)@ == old(buffer)@.skip(drain_count(max as nat, old(buffer)@.len()) as int),
{
    proof {
        use_type_invariant(&*buffer);
    }
    let mut q: VecDeque<ApiEvent> = VecDeque::new();
    std::mem::swap(&mut q, &mut buffer.queue);
    let ghost before = q@;
    let n: usize = if max == 0 || max >= q.len() {
        q.len()
    } else {
        max
    };
    let mut out: Vec<ApiEvent> = Vec::new();
    let mut i: usize = 0;
    while i < n
        invariant
            n <= before.len(),
            before.len() <= MAX_EVENTS,
            i <= n,
            out@ == before.take(i as int),
            q@ == before.skip(i as int),
        decreases n - i,
    {
        match q.pop_front() {
            Some(e) => {
                out.push(e);
                proof {
                    assert(before.take(i + 1) =~= before.take(i as int).push(e));
                    assert(q@ =~= before.skip(i + 1));
                }
            },
            None => {
                assert(false);
            },
        }
        i = i + 1;
    }
    proof {
        assert(out@.map_values(|e: ApiEvent| e@) =~= before.map_values(|e: ApiEvent| e@).take(n as int));
        assert(q@.map_values(|e: ApiEvent| e@) =~= before.map_values(|e: ApiEvent| e@).skip(n as int));
    }
    buffer.queue = q;
    out
}

/// Number of buffered (undrained) events.
pub fn buffered_len(buffer: &EventBuffer) -> (r: usize)
    ensures
        r == buffer@.len(),
        r <= MAX_EVENTS,
{
    proof {
        use_type_invariant(buffer);
    }
    buffer.queue.len()
}

/// Drop every buffered event.
pub fn clear(buffer: &mut EventBuffer)
    ensures
        final(buffer)@ == Seq::<EventView>::empty(),
{
    buffer.queue = VecDeque::new();
    assert(buffer.queue@.map_values(|e: ApiEvent| e@) =~= Seq::<EventView>::empty());
}

/// Report data-plane counters as a `Stats` event.
pub fn report_stats(buffer: &mut EventBuffer, rx_bytes: u64, tx_bytes: u64)
    ensures
        final(buffer)@ == ring_push(old(buffer)@, EventView::Stats { rx_bytes, tx_bytes }, MAX_EVENTS as nat),
{
    emit(buffer, ApiEvent::Stats { rx_bytes, tx_bytes });
}

/// What was emitted last is what the buffer ends with, and the buffer
/// never grows past its capacity: draining everything returns the
/// events in the order they were emitted, newest last.
pub proof fn law_emit_keeps_order_and_bound<T>(s: Seq<T>, e: T, cap: nat)
    requires
        cap >= 1,
        s.len() <= cap,
    ensures
        ring_push(s, e, cap).len() <= cap,
        ring_push(s, e, cap).last() == e,
        ring_push(s, e, cap).drop_last() == (if s.len() == cap { s.drop_first() } else { s }),
{
    if s.len() >= cap {
        assert(s.drop_first().push(e).drop_last() =~= s.drop_first());
    } else {
        assert(s.push(e).drop_last() =~= s);
    }
}

/// The buffer after `es` arrive one by one.
pub open spec fn emit_all<T>(s: Seq<T>, es: Seq<T>, cap: nat) -> Seq<T>
    decreases es.len(),
{
    if es.len() == 0 {
        s
    } else {
        ring_push(emit_all(s, es.drop_last(), cap), es.last(), cap)
    }
}

/// How many of the oldest events a full ring has dropped.
pub open spec fn overflow(len: nat, cap: nat) -> nat {
    if len > cap {
        (len - cap) as nat
    } else {
        0
    }
}

/// The buffer is a ring of the newest events: after any run of emits it
/// holds the newest `cap` of everything emitted, oldest first.
pub proof fn law_buffer_keeps_the_newest_in_order<T>(s: Seq<T>, es: Seq<T>, cap: nat)
    requires
        cap >= 1,
        s.len() <= cap,
    ensures
        emit_all(s, es, cap) == (s + es).skip(overflow(s.len() + es.len(), cap) as int),
        emit_all(s, es, cap).len() <= cap,
    decreases es.len(),
{
    if es.len() > 0 {
        let rest = es.drop_last();
        law_buffer_keeps_the_newest_in_order(s, rest, cap);
        let x = emit_all(s, rest, cap);
        let k = overflow(s.len() + rest.len(), cap);
        assert((s + es) =~= (s + rest).push(es.last()));
        if x.len() >= cap {
            assert(x.drop_first().push(es.last()) =~= (s + es).skip(k as int + 1));
        } else {
            assert(x.push(es.last()) =~= (s + es).skip(0));
        }
    }
}

/// A drain splits the buffer: what it hands out, followed by what it
/// keeps, is the buffer; `max == 0` hands out everything.
pub proof fn law_drain_splits_the_buffer<T>(s: Seq<T>, max: nat)
    ensures
        s.take(drain_count(max, s.len()) as int) + s.skip(drain_count(max, s.len()) as int) == s,
        max == 0 ==> s.skip(drain_count(max, s.len()) as int).len() == 0,
        drain_count(max, s.len()) <= s.len(),
{
    let k = drain_count(max, s.len()) as int;
    assert(s.take(k) + s.skip(k) =~= s);
}

} // verus!
