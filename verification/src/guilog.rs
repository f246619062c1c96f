//! Structured in-memory log buffer for GUI clients: a bounded FIFO of
//! numbered records that the GUI drains (optionally above a severity)
//! or peeks at without consuming.

use std::collections::VecDeque;
use std::time::{Duration, SystemTimeError};

use vstd::prelude::*;

use crate::events::ring_push;
use crate::text::{all_ascii, ascii_lower, eq_str, keyword_form, keyword_of, trim};

verus! {

/// Ring capacity: enough for a full scan and tunnel session at `info`.
pub const MAX_LOGS: usize = 5000;

/// Log levels, most severe first.
#[derive(Debug, Clone, Copy, PartialEq, Eq, Structural)]
pub enum GuiLogLevel {
    Error,
    Warn,
    Info,
    Debug,
    Trace,
}

impl GuiLogLevel {
    pub open spec fn name(self) -> Seq<char> {
        match self {
            GuiLogLevel::Error => "error"@,
            GuiLogLevel::Warn => "warn"@,
            GuiLogLevel::Info => "info"@,
            GuiLogLevel::Debug => "debug"@,
            GuiLogLevel::Trace => "trace"@,
        }
    }

    /// Severity rank: 0 for `Error` up to 4 for `Trace`.
    pub open spec fn rank(self) -> nat {
        match self {
            GuiLogLevel::Error => 0,
            GuiLogLevel::Warn => 1,
            GuiLogLevel::Info => 2,
            GuiLogLevel::Debug => 3,
            GuiLogLevel::Trace => 4,
        }
    }

    /// The level a lower-cased, trimmed name selects (`Info` by default).
    pub open spec fn of_keyword(k: Seq<char>) -> GuiLogLevel {
        if k == "error"@ {
            GuiLogLevel::Error
        } else if k == "warn"@ || k == "warning"@ {
            GuiLogLevel::Warn
        } else if k == "debug"@ {
            GuiLogLevel::Debug
        } else if k == "trace"@ {
            GuiLogLevel::Trace
        } else {
            GuiLogLevel::Info
        }
    }

    pub fn as_str(self) -> (r: &'static str)
        ensures
            r@ == self.name(),
    {
        match self {
            GuiLogLevel::Error => "error",
            GuiLogLevel::Warn => "warn",
            GuiLogLevel::Info => "info",
            GuiLogLevel::Debug => "debug",
            GuiLogLevel::Trace => "trace",
        }
    }

    /// Reads a level name, case-insensitively and ignoring surrounding
    /// whitespace; anything unknown is `Info`.
    pub fn parse(raw: &str) -> (r: GuiLogLevel)
        ensures
            r == GuiLogLevel::of_keyword(keyword_form(raw@)),
            all_ascii(trim(raw@)) ==> r == GuiLogLevel::of_keyword(ascii_lower(trim(raw@))),
    {
        let k = keyword_of(raw);
        if eq_str(&k, "error") {
            GuiLogLevel::Error
        } else if eq_str(&k, "warn") || eq_str(&k, "warning") {
            GuiLogLevel::Warn
        } else if eq_str(&k, "debug") {
            GuiLogLevel::Debug
        } else if eq_str(&k, "trace") {
            GuiLogLevel::Trace
        } else {
            GuiLogLevel::Info
        }
    }

    fn rank_of(self) -> (r: u8)
        ensures
            r == self.rank(),
    {
        match self {
            GuiLogLevel::Error => 0,
            GuiLogLevel::Warn => 1,
            GuiLogLevel::Info => 2,
            GuiLogLevel::Debug => 3,
            GuiLogLevel::Trace => 4,
        }
    }
}

/// One buffered log line.
#[derive(Debug, Clone, PartialEq, Eq)]
pub struct GuiLogRecord {
    pub seq: u64,
    pub level: GuiLogLevel,
    pub target: String,
    pub message: String,
    /// Milliseconds since the UNIX epoch.
    pub ts_ms: u64,
}

pub struct LogRecordView {
    pub seq: u64,
    pub level: GuiLogLevel,
    pub target: Seq<char>,
    pub message: Seq<char>,
    pub ts_ms: u64,
}

impl View for GuiLogRecord {
    type V = LogRecordView;

    open spec fn view(&self) -> LogRecordView {
        LogRecordView {
            seq: self.seq,
            level: self.level,
            target: self.target@,
            message: self.message@,
            ts_ms: self.ts_ms,
        }
    }
}

impl GuiLogRecord {
    /// A copy of this record.
    pub fn duplicate(&self) -> (r: GuiLogRecord)
        ensures
            r@ == self@,
    {
        GuiLogRecord {
            seq: self.seq,
            level: self.level,
            target: self.target.clone(),
            message: self.message.clone(),
            ts_ms: self.ts_ms,
        }
    }
}

#[verifier::external_type_specification]
#[verifier::external_body]
pub struct ExSystemTimeError(SystemTimeError);

/// Calls `SystemTime::elapsed` on `UNIX_EPOCH`. Nothing is stated: the
/// result is the clock's.
#[verifier::external_body]
fn time_since_epoch() -> Result<Duration, SystemTimeError> {
    std::time::UNIX_EPOCH.elapsed()
}

/// Calls `Duration::as_millis`. Nothing is stated of the result.
#[verifier::external_body]
fn duration_millis(d: &Duration) -> u128 {
    d.as_millis()
}

/// A clock reading in milliseconds since the UNIX epoch as a record
/// stamp: the low 64 bits of it, or 0 when the clock read earlier than
/// the epoch (`None`).
pub fn millis_or_zero(reading: Option<u128>) -> (r: u64)
    ensures
        r == (match reading {
            Some(ms) => ms as u64,
            None => 0u64,
        }),
{
    match reading {
        Some(ms) => {
            #[verifier::truncate]
            (ms as u64)
        },
        None => 0,
    }
}

/// Milliseconds since the UNIX epoch (0 when the clock reads earlier).
/// The value is the clock's: nothing more is stated of it.
pub fn now_ms() -> u64 {
    let reading = match time_since_epoch() {
        Ok(d) => Some(duration_millis(&d)),
        Err(_) => None,
    };
    millis_or_zero(reading)
}

/// `s` with its oldest element dropped when it is at capacity.
pub open spec fn ring_evict<T>(s: Seq<T>, cap: nat) -> Seq<T> {
    if s.len() >= cap {
        s.drop_first()
    } else {
        s
    }
}

/// Whether a record passes a minimum-severity filter.
pub open spec fn passes(r: LogRecordView, min_level: Option<GuiLogLevel>) -> bool {
    match min_level {
        Some(min) => r.level.rank() <= min.rank(),
        None => true,
    }
}

/// What `drain_logs` hands out (`.0`) and keeps buffered (`.1`) of `s`,
/// read oldest first: a record goes out when it passes the filter and
/// fewer than `limit` records went out before it.
pub open spec fn drain_split(s: Seq<LogRecordView>, min_level: Option<GuiLogLevel>, limit: nat) -> (
    Seq<LogRecordView>,
    Seq<LogRecordView>,
)
    decreases s.len(),
{
    if s.len() == 0 {
        (Seq::empty(), Seq::empty())
    } else {
        let (out, kept) = drain_split(s.drop_last(), min_level, limit);
        if passes(s.last(), min_level) && out.len() < limit {
            (out.push(s.last()), kept)
        } else {
            (out, kept.push(s.last()))
        }
    }
}

/// The most records `drain_logs(max, _)` hands out.
pub open spec fn drain_limit(max: nat) -> nat {
    if max == 0 {
        usize::MAX as nat
    } else {
        max
    }
}

/// The records `peek_logs(max)` copies: the newest `max`, or all.
pub open spec fn peek_window(s: Seq<LogRecordView>, max: nat) -> Seq<LogRecordView> {
    if max == 0 || max >= s.len() {
        s
    } else {
        s.skip(s.len() - max)
    }
}

/// The bounded FIFO of log records, with the number the next record gets.
pub struct LogBuffer {
    records: VecDeque<GuiLogRecord>,
    next_seq: u64,
    /// No record number has wrapped around the 64-bit counter yet.
    unwrapped: Ghost<bool>,
}

impl View for LogBuffer {
    type V = Seq<LogRecordView>;

    closed spec fn view(&self) -> Seq<LogRecordView> {
        self.records@.map_values(|r: GuiLogRecord| r@)
    }
}

impl LogBuffer {
    /// At most `MAX_LOGS` records; until the counter wraps, the numbers
    /// rise from oldest to newest and stay below the next number.
    #[verifier::type_invariant]
    spec fn bounded(self) -> bool {
        &&& self.records@.len() <= MAX_LOGS
        &&& self.unwrapped@ ==> numbered_in_order(self@, self.next_seq)
    }

    /// The number the next pushed record gets.
    pub closed spec fn spec_next_seq(&self) -> u64 {
        self.next_seq
    }

    /// No record number has wrapped around the 64-bit counter yet (that
    /// takes 2^64 - 1 pushes).
    pub closed spec fn unwrapped(&self) -> bool {
        self.unwrapped@
    }

    /// An empty buffer whose first record gets number 1.
    pub fn new() -> (r: LogBuffer)
        ensures
            r@ == Seq::<LogRecordView>::empty(),
            r.spec_next_seq() == 1,
            r.unwrapped(),
    {
        let r = LogBuffer { records: VecDeque::new(), next_seq: 1, unwrapped: Ghost(true) };
        assert(r@ =~= Seq::<LogRecordView>::empty());
        r
    }
}

/// Push a record (numbered, stamped with the current time); at capacity
/// the oldest record is evicted first.
pub fn push(buffer: &mut LogBuffer, level: GuiLogLevel, target: &str, message: &str)
    ensures
        final(buffer)@.len() >= 1,
        final(buffer)@.drop_last() == ring_evict(old(buffer)@, MAX_LOGS as nat),
        final(buffer)@.last().seq == old(buffer).spec_next_seq(),
        final(buffer)@.last().level == level,
        final(buffer)@.last().target == target@,
        final(buffer)@.last().message == message@,
        final(buffer).spec_next_seq() == (if old(buffer).spec_next_seq() == u64::MAX {
            0
        } else {
            (old(buffer).spec_next_seq() + 1) as u64
        }),
        final(buffer)@.len() <= MAX_LOGS,
        old(buffer).unwrapped() ==> forall|i: int|
            0 <= i < final(buffer)@.len() - 1 ==> #[trigger] final(buffer)@[i].seq < final(buffer)@.last().seq,
        final(buffer).unwrapped() == (old(buffer).unwrapped() && old(buffer).spec_next_seq() < u64::MAX),
        final(buffer).unwrapped() ==> numbered_in_order(final(buffer)@, final(buffer).spec_next_seq()),
{
    proof {
        use_type_invariant(&*buffer);
    }
    let ghost was = buffer.unwrapped@;
    let ghost old_view = buffer@;
    let seq = buffer.next_seq;
    let next = seq.wrapping_add(1);
    let record = GuiLogRecord {
        seq,
        level,
        target: String::from_str(target),
        message: String::from_str(message),
        ts_ms: now_ms(),
    };
    let mut q: VecDeque<GuiLogRecord> = VecDeque::new();
    std::mem::swap(&mut q, &mut buffer.records);
    let ghost before = q@;
    if q.len() >= MAX_LOGS {
        q.pop_front();
    }
    let ghost mid = q@;
    q.push_back(record);
    let ghost new_view = q@.map_values(|r: GuiLogRecord| r@);
    proof {
        assert(new_view.drop_last() =~= ring_evict(before.map_values(|r: GuiLogRecord| r@), MAX_LOGS as nat));
        assert(before.map_values(|r: GuiLogRecord| r@) == old_view);
        assert(new_view.last().seq == seq);
        if was {
            lemma_evict_keeps_numbering(old_view, seq);
            let e = ring_evict(old_view, MAX_LOGS as nat);
            assert forall|i: int| 0 <= i < new_view.len() - 1 implies #[trigger] new_view[i].seq < new_view.last().seq by {
                assert(new_view[i] == e[i]);
            }
            if seq < u64::MAX {
                law_push_keeps_numbering(old_view, seq, new_view);
            }
        }
    }
    let ghost still: bool = was && seq < u64::MAX;
    let unwrapped: Ghost<bool> = Ghost(still);
    *buffer = LogBuffer { records: q, next_seq: next, unwrapped };
}

/// Evicting the oldest record keeps the numbering.
proof fn lemma_evict_keeps_numbering(s: Seq<LogRecordView>, next: u64)
    requires
        numbered_in_order(s, next),
    ensures
        numbered_in_order(ring_evict(s, MAX_LOGS as nat), next),
{
    if s.len() >= MAX_LOGS {
        let e = s.drop_first();
        assert forall|i: int, j: int| 0 <= i < j < e.len() implies #[trigger] e[i].seq < #[trigger] e[j].seq by {
            assert(e[i] == s[i + 1] && e[j] == s[j + 1]);
        }
        assert forall|i: int| 0 <= i < e.len() implies #[trigger] e[i].seq < next by {
            assert(e[i] == s[i + 1]);
        }
    }
}

/// Both halves of a drain keep the numbering of the buffer they came
/// from.
proof fn lemma_drain_keeps_numbering(s: Seq<LogRecordView>, min_level: Option<GuiLogLevel>, limit: nat, next: u64)
    requires
        numbered_in_order(s, next),
    ensures
        numbered_in_order(drain_split(s, min_level, limit).0, next),
        numbered_in_order(drain_split(s, min_level, limit).1, next),
    decreases s.len(),
{
    if s.len() > 0 {
        let t = s.drop_last();
        let last = s.last();
        assert forall|i: int, j: int| 0 <= i < j < t.len() implies #[trigger] t[i].seq < #[trigger] t[j].seq by {
            assert(t[i] == s[i] && t[j] == s[j]);
        }
        assert forall|i: int| 0 <= i < t.len() implies #[trigger] t[i].seq < last.seq by {
            assert(t[i] == s[i]);
            assert(s[i].seq < s[s.len() - 1].seq);
        }
        lemma_drain_keeps_numbering(t, min_level, limit, last.seq);
        let (o, k) = drain_split(t, min_level, limit);
        let (o2, k2) = drain_split(s, min_level, limit);
        assert(last.seq < next);
        assert forall|i: int, j: int| 0 <= i < j < o2.len() implies #[trigger] o2[i].seq < #[trigger] o2[j].seq by {
            if j < o.len() {
                assert(o2[i] == o[i] && o2[j] == o[j]);
            } else if i < o.len() {
                assert(o2[i] == o[i]);
            }
        }
        assert forall|i: int| 0 <= i < o2.len() implies #[trigger] o2[i].seq < next by {
            if i < o.len() {
                assert(o2[i] == o[i]);
            }
        }
        assert forall|i: int, j: int| 0 <= i < j < k2.len() implies #[trigger] k2[i].seq < #[trigger] k2[j].seq by {
            if j < k.len() {
                assert(k2[i] == k[i] && k2[j] == k[j]);
            } else if i < k.len() {
                assert(k2[i] == k[i]);
            }
        }
        assert forall|i: int| 0 <= i < k2.len() implies #[trigger] k2[i].seq < next by {
            if i < k.len() {
                assert(k2[i] == k[i]);
            }
        }
    }
}

/// Drain up to `max` records, oldest first (`max == 0` means all); with
/// `min_level`, only records at least that severe go out and the others
/// stay buffered in their order.
pub fn drain_logs(buffer: &mut LogBuffer, max: usize, min_level: Option<GuiLogLevel>) -> (r: Vec<
    GuiLogRecord,
>)
    ensures
        r@.map_values(|x: GuiLogRecord| x@) == drain_split(old(buffer)@, min_level, drain_limit(max as nat)).0,
        final(buffer)@ == drain_split(old(buffer)@, min_level, drain_limit(max as nat)).1,
        final(buffer).spec_next_seq() == old(buffer).spec_next_seq(),
        final(buffer).unwrapped() == old(buffer).unwrapped(),
        final(buffer).unwrapped() ==> numbered_in_order(final(buffer)@, final(buffer).spec_next_seq()),
{
    proof {
        use_type_invariant(&*buffer);
        if buffer.unwrapped@ {
            lemma_drain_keeps_numbering(buffer@, min_level, drain_limit(max as nat), buffer.next_seq);
        }
    }
    let limit: usize = if max == 0 {
        usize::MAX
    } else {
        max
    };
    let min_rank: u8 = match min_level {
        Some(m) => m.rank_of(),
        None => 4,
    };
    let mut q: VecDeque<GuiLogRecord> = VecDeque::new();
    std::mem::swap(&mut q, &mut buffer.records);
    let ghost before = q@.map_values(|x: GuiLogRecord| x@);
    let ghost raw = q@;
    let n = q.len();
    let mut out: Vec<GuiLogRecord> = Vec::new();
    let mut kept: VecDeque<GuiLogRecord> = VecDeque::new();
    let mut i: usize = 0;
    while i < n
        invariant
            n == raw.len() <= MAX_LOGS,
            before == raw.map_values(|x: GuiLogRecord| x@),
            i <= n,
            q@ == raw.skip(i as int),
            kept@.len() <= i,
            limit == drain_limit(max as nat),
            min_rank == (match min_level {
                Some(m) => m.rank(),
                None => 4nat,
            }),
            (out@.map_values(|x: GuiLogRecord| x@), kept@.map_values(|x: GuiLogRecord| x@))
                == drain_split(before.take(i as int), min_level, limit as nat),
        decreases n - i,
    {
        let rec = match q.pop_front() {
            Some(rec) => rec,
            None => {
                assert(false);
                return out;
            },
        };
        proof {
            assert(q@ =~= raw.skip(i + 1));
            assert(before.take(i + 1).drop_last() =~= before.take(i as int));
            assert(before.take(i + 1).last() == rec@);
        }
        let ok = rec.level.rank_of() <= min_rank;
        assert(ok == passes(rec@, min_level)) by {
            match min_level {
                Some(m) => {},
                None => {
                    assert(rec.level.rank() <= 4);
                },
            }
        }
        let ghost o = out@;
        let ghost k = kept@;
        if ok && out.len() < limit {
            out.push(rec);
            proof {
                assert(out@.map_values(|x: GuiLogRecord| x@) =~= o.map_values(|x: GuiLogRecord| x@).push(rec@));
            }
        } else {
            kept.push_back(rec);
            proof {
                assert(kept@.map_values(|x: GuiLogRecord| x@) =~= k.map_values(|x: GuiLogRecord| x@).push(rec@));
            }
        }
        i = i + 1;
    }
    proof {
        assert(before.take(n as int) =~= before);
    }
    let unwrapped: Ghost<bool> = Ghost(buffer.unwrapped@);
    let next_seq = buffer.next_seq;
    *buffer = LogBuffer { records: kept, next_seq, unwrapped };
    out
}

/// Copy up to `max` records (newest last) without draining; `max == 0`
/// means all.
pub fn peek_logs(buffer: &LogBuffer, max: usize) -> (r: Vec<GuiLogRecord>)
    ensures
        r@.map_values(|x: GuiLogRecord| x@) == peek_window(buffer@, max as nat),
{
    let len = buffer.records.len();
    let start: usize = if max == 0 || max >= len {
        0
    } else {
        len - max
    };
    let ghost all = buffer.records@.map_values(|x: GuiLogRecord| x@);
    let mut out: Vec<GuiLogRecord> = Vec::new();
    let mut i: usize = start;
    while i < len
        invariant
            start <= i <= len == buffer.records@.len(),
            all == buffer.records@.map_values(|x: GuiLogRecord| x@),
            out@.map_values(|x: GuiLogRecord| x@) == all.subrange(start as int, i as int),
        decreases len - i,
    {
        let ghost o = out@;
        out.push(buffer.records[i].duplicate());
        proof {
            assert(out@.map_values(|x: GuiLogRecord| x@) =~= o.map_values(|x: GuiLogRecord| x@).push(all[i as int]));
            assert(all.subrange(start as int, i + 1) =~= all.subrange(start as int, i as int).push(all[i as int]));
        }
        i = i + 1;
    }
    proof {
        if max == 0 || max >= len {
            assert(all.subrange(0, len as int) =~= all);
        } else {
            assert(all.subrange(start as int, len as int) =~= all.skip(len - max));
        }
    }
    out
}

/// Buffered record count.
pub fn buffered_len(buffer: &LogBuffer) -> (r: usize)
    ensures
        r == buffer@.len(),
        r <= MAX_LOGS,
{
    proof {
        use_type_invariant(buffer);
    }
    buffer.records.len()
}

/// Drop every buffered record (numbering continues).
pub fn clear(buffer: &mut LogBuffer)
    ensures
        final(buffer)@ == Seq::<LogRecordView>::empty(),
        final(buffer).spec_next_seq() == old(buffer).spec_next_seq(),
        final(buffer).unwrapped() == old(buffer).unwrapped(),
{
    let empty: VecDeque<GuiLogRecord> = VecDeque::new();
    assert(empty@.map_values(|x: GuiLogRecord| x@) =~= Seq::<LogRecordView>::empty());
    let unwrapped: Ghost<bool> = Ghost(buffer.unwrapped@);
    let next_seq = buffer.next_seq;
    *buffer = LogBuffer { records: empty, next_seq, unwrapped };
}


/// Every level's name reads back as that level: the name is plain
/// lower-case ASCII without surrounding whitespace, and `parse` maps it
/// back.
pub proof fn law_level_name_round_trips(level: GuiLogLevel)
    ensures
        all_ascii(trim(level.name())),
        GuiLogLevel::of_keyword(ascii_lower(trim(level.name()))) == level,
{
    reveal_strlit("error");
    reveal_strlit("warn");
    reveal_strlit("warning");
    reveal_strlit("info");
    reveal_strlit("debug");
    reveal_strlit("trace");
    let n = level.name();
    crate::text::lemma_trim_of_unpadded(n);
    assert(ascii_lower(n) =~= n);
}

/// A drain hands out only records that pass the filter, at most `limit`
/// of them, and keeps every other record: a record stays buffered only
/// if it fails the filter or the limit was already reached.
pub proof fn law_drain_partitions(s: Seq<LogRecordView>, min_level: Option<GuiLogLevel>, limit: nat)
    ensures
        drain_split(s, min_level, limit).0.len() + drain_split(s, min_level, limit).1.len() == s.len(),
        drain_split(s, min_level, limit).0.len() <= limit,
        forall|i: int|
            0 <= i < drain_split(s, min_level, limit).0.len() ==> passes(
                #[trigger] drain_split(s, min_level, limit).0[i],
                min_level,
            ),
        forall|i: int|
            0 <= i < drain_split(s, min_level, limit).1.len() ==> !passes(
                #[trigger] drain_split(s, min_level, limit).1[i],
                min_level,
            ) || drain_split(s, min_level, limit).0.len() == limit,
    decreases s.len(),
{
    if s.len() > 0 {
        law_drain_partitions(s.drop_last(), min_level, limit);
        let (o, k) = drain_split(s.drop_last(), min_level, limit);
        let (o2, k2) = drain_split(s, min_level, limit);
        if passes(s.last(), min_level) && o.len() < limit {
            assert forall|i: int| 0 <= i < o2.len() implies passes(#[trigger] o2[i], min_level) by {
                if i < o.len() {
                    assert(o2[i] == o[i]);
                }
            }
            assert forall|i: int| 0 <= i < k2.len() implies !passes(#[trigger] k2[i], min_level) || o2.len() == limit by {
                assert(k2[i] == k[i]);
            }
        } else {
            assert forall|i: int| 0 <= i < o2.len() implies passes(#[trigger] o2[i], min_level) by {
                assert(o2[i] == o[i]);
            }
            assert forall|i: int| 0 <= i < k2.len() implies !passes(#[trigger] k2[i], min_level) || o2.len() == limit by {
                if i < k.len() {
                    assert(k2[i] == k[i]);
                }
            }
        }
    }
}

/// An unfiltered drain of everything hands out the whole buffer, in
/// order, and leaves it empty.
pub proof fn law_full_drain_takes_all(s: Seq<LogRecordView>, limit: nat)
    requires
        s.len() <= limit,
    ensures
        drain_split(s, None, limit).0 == s,
        drain_split(s, None, limit).1 == Seq::<LogRecordView>::empty(),
    decreases s.len(),
{
    if s.len() > 0 {
        law_full_drain_takes_all(s.drop_last(), limit);
        assert(s.drop_last().push(s.last()) =~= s);
    }
}

/// Records are numbered in the order they are pushed: when the buffer's
/// numbers increase and stay below the next number, a push keeps it so
/// (unless the 64-bit counter wraps).
pub open spec fn numbered_in_order(s: Seq<LogRecordView>, next: u64) -> bool {
    &&& forall|i: int, j: int| 0 <= i < j < s.len() ==> #[trigger] s[i].seq < #[trigger] s[j].seq
    &&& forall|i: int| 0 <= i < s.len() ==> #[trigger] s[i].seq < next
}

pub proof fn law_push_keeps_numbering(s: Seq<LogRecordView>, next: u64, t: Seq<LogRecordView>)
    requires
        numbered_in_order(s, next),
        next < u64::MAX,
        t.len() >= 1,
        t.drop_last() == ring_evict(s, MAX_LOGS as nat),
        t.last().seq == next,
    ensures
        numbered_in_order(t, (next + 1) as u64),
{
    let e = ring_evict(s, MAX_LOGS as nat);
    assert forall|i: int| 0 <= i < e.len() implies #[trigger] e[i].seq < next by {
        if s.len() >= MAX_LOGS {
            assert(e[i] == s[i + 1]);
        }
    }
    assert forall|i: int, j: int| 0 <= i < j < t.len() implies #[trigger] t[i].seq < #[trigger] t[j].seq by {
        if j < t.len() - 1 {
            assert(t[i] == e[i] && t[j] == e[j]);
            if s.len() >= MAX_LOGS {
                assert(e == s.drop_first());
                assert(e.len() == t.len() - 1);
                assert(0 <= i < e.len());
                assert(s.drop_first()[i] == s[i + 1]);
                assert(e[i] == s[i + 1]);
                assert(e[j] == s[j + 1]);
                assert(s[i + 1].seq < s[j + 1].seq);
            } else {
                assert(e == s);
                assert(s[i].seq < s[j].seq);
            }
        } else {
            assert(t[i] == e[i]);
        }
    }
    assert forall|i: int| 0 <= i < t.len() implies #[trigger] t[i].seq < next + 1 by {
        if i < t.len() - 1 {
            assert(t[i] == e[i]);
        }
    }
}

/// A push evicts like the event ring: the log buffer, too, keeps the
/// newest `MAX_LOGS` records in order (see the event buffer's law).
pub proof fn law_push_is_a_ring_push<T>(s: Seq<T>, e: T, cap: nat)
    ensures
        ring_evict(s, cap).push(e) == crate::events::ring_push(s, e, cap),
{
}

} // verus!
