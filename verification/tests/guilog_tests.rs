use aether::guilog::{buffered_len, clear, drain_logs, peek_logs, push, GuiLogLevel, LogBuffer, MAX_LOGS};

#[test]
fn push_then_drain_fifo() {
    let mut buf = LogBuffer::new();
    push(&mut buf, GuiLogLevel::Info, "test", "hello");
    push(&mut buf, GuiLogLevel::Warn, "test", "careful");
    assert_eq!(buffered_len(&buf), 2);
    let got = drain_logs(&mut buf, 0, None);
    assert_eq!(got.len(), 2);
    assert_eq!(got[0].message, "hello");
    assert_eq!(got[1].level, GuiLogLevel::Warn);
    assert!(got[0].seq < got[1].seq);
}

#[test]
fn level_filter_keeps_severe_records_buffered() {
    let mut buf = LogBuffer::new();
    push(&mut buf, GuiLogLevel::Info, "t", "info-line");
    push(&mut buf, GuiLogLevel::Error, "t", "boom");
    let got = drain_logs(&mut buf, 0, Some(GuiLogLevel::Warn));
    assert_eq!(got.len(), 1);
    assert_eq!(got[0].message, "boom");
    assert_eq!(buffered_len(&buf), 1);
    clear(&mut buf);
}

#[test]
fn ring_caps_memory() {
    let mut buf = LogBuffer::new();
    for i in 0..(MAX_LOGS + 10) {
        push(&mut buf, GuiLogLevel::Debug, "t", &format!("line {i}"));
    }
    assert_eq!(buffered_len(&buf), MAX_LOGS);
    assert_eq!(peek_logs(&buf, MAX_LOGS)[0].message, "line 10");
    clear(&mut buf);
}

#[test]
fn level_parse_defaults_to_info() {
    assert_eq!(GuiLogLevel::parse("debug"), GuiLogLevel::Debug);
    assert_eq!(GuiLogLevel::parse("nonsense"), GuiLogLevel::Info);
}

#[test]
fn level_names_round_trip() {
    for l in [GuiLogLevel::Error, GuiLogLevel::Warn, GuiLogLevel::Info, GuiLogLevel::Debug, GuiLogLevel::Trace] {
        assert_eq!(GuiLogLevel::parse(l.as_str()), l);
    }
    assert_eq!(GuiLogLevel::Warn.as_str(), "warn");
}

#[test]
fn peek_does_not_consume_or_reorder() {
    let mut buf = LogBuffer::new();
    push(&mut buf, GuiLogLevel::Info, "t", "first");
    push(&mut buf, GuiLogLevel::Info, "t", "second");
    let peeked = peek_logs(&buf, 10);
    assert_eq!(peeked.len(), 2);
    assert_eq!(peeked[0].message, "first");
    assert_eq!(buffered_len(&buf), 2);
    let tail = peek_logs(&buf, 1);
    assert_eq!(tail.len(), 1);
    assert_eq!(tail[0].message, "second");
    clear(&mut buf);
}

#[test]
fn drain_with_max_takes_the_oldest_matching() {
    let mut buf = LogBuffer::new();
    push(&mut buf, GuiLogLevel::Error, "t", "e1");
    push(&mut buf, GuiLogLevel::Debug, "t", "d1");
    push(&mut buf, GuiLogLevel::Error, "t", "e2");
    push(&mut buf, GuiLogLevel::Error, "t", "e3");
    let got = drain_logs(&mut buf, 2, Some(GuiLogLevel::Error));
    let msgs: Vec<&str> = got.iter().map(|r| r.message.as_str()).collect();
    assert_eq!(msgs, vec!["e1", "e2"]);
    let rest = drain_logs(&mut buf, 0, None);
    let msgs: Vec<&str> = rest.iter().map(|r| r.message.as_str()).collect();
    assert_eq!(msgs, vec!["d1", "e3"]);
}

#[test]
fn record_stamps_keep_the_low_bits_and_read_zero_before_the_epoch() {
    assert_eq!(aether::guilog::millis_or_zero(None), 0);
    assert_eq!(aether::guilog::millis_or_zero(Some(1_700_000_000_000)), 1_700_000_000_000);
    assert_eq!(aether::guilog::millis_or_zero(Some((1u128 << 64) + 5)), 5);
    assert!(aether::guilog::now_ms() > 0);
}

#[test]
fn record_numbers_rise_across_drains() {
    let mut buf = LogBuffer::new();
    push(&mut buf, GuiLogLevel::Info, "t", "a");
    push(&mut buf, GuiLogLevel::Error, "t", "b");
    let first = drain_logs(&mut buf, 0, Some(GuiLogLevel::Error));
    push(&mut buf, GuiLogLevel::Info, "t", "c");
    let rest = drain_logs(&mut buf, 0, None);
    assert_eq!(first[0].seq, 2);
    let seqs: Vec<u64> = rest.iter().map(|r| r.seq).collect();
    assert_eq!(seqs, vec![1, 3]);
}
