use orderflow::book::{book_frame_kind, BookFrameKeys};
use orderflow::book::{
    accept_seq, compute_health, dom_gate, okx_checksum, unfinished_book_is_not_an_entry,
    BookHealth, BookIntegrity, BookMsgKind, DeltaStart, SeqInfo, WIRED,
};
use orderflow::domain::{QualityVector, Venue, VenueRole};

#[test]
fn wired() {
    assert!(WIRED);
}

#[test]
fn unfinished_book_is_never_an_entry() {
    assert!(unfinished_book_is_not_an_entry());
}

#[test]
fn health_names() {
    assert_eq!(BookHealth::Healthy.as_str(), "book_ok");
    assert_eq!(BookHealth::Bad.as_str(), "book_bad");
    assert!(BookHealth::Healthy.is_ok());
    assert!(!BookHealth::Bad.is_ok());
    assert!(!BookHealth::Rebuilding.is_ok());
}

#[test]
fn execution_dom_needs_healthy_book_resonance_does_not() {
    let g = dom_gate(VenueRole::Execution, BookHealth::Bad);
    assert!(!g.book_ok);
    assert!(!g.dom_entries_allowed);
    let g = dom_gate(VenueRole::Resonance, BookHealth::Bad);
    assert!(g.dom_entries_allowed);
    let g = dom_gate(VenueRole::Execution, BookHealth::Healthy);
    assert!(g.book_ok && g.dom_entries_allowed);
}

#[test]
fn okx_checksum_of_empty_book_is_crc_of_empty_text() {
    let empty: Vec<(String, String)> = Vec::new();
    assert_eq!(okx_checksum(&empty, &empty), 0);
}

#[test]
fn okx_checksum_interleaves_levels() {
    let bids = vec![("3366.1".to_string(), "7".to_string())];
    let asks = vec![("3366.8".to_string(), "9".to_string())];
    let text = "3366.1:7:3366.8:9";
    let want = crc32fast::hash(text.as_bytes()) as i32;
    assert_eq!(okx_checksum(&bids, &asks), want);
    let bids2 = vec![
        ("3366.1".to_string(), "7".to_string()),
        ("3366.0".to_string(), "6".to_string()),
    ];
    let text2 = "3366.1:7:3366.8:9:3366.0:6";
    assert_eq!(okx_checksum(&bids2, &asks), crc32fast::hash(text2.as_bytes()) as i32);
}

#[test]
fn integrity_starts_rebuilding_then_snapshot_heals() {
    let mut b = BookIntegrity::new(Venue::Okx);
    assert_eq!(b.health, BookHealth::Rebuilding);
    let snap = SeqInfo {
        kind: BookMsgKind::Snapshot,
        seq: Some(10),
        prev_seq: None,
        seq_from: None,
        checksum: None,
    };
    assert_eq!(b.begin(&snap), DeltaStart::Apply { reset: true });
    assert_eq!(b.rebuilds, 1);
    assert!(b.finish(&snap, 0, 5, 5, Some(99), Some(100), 5));
    assert_eq!(b.health, BookHealth::Healthy);
    assert_eq!(b.last_seq, Some(10));
    let mut q = QualityVector::default();
    b.apply_quality(&mut q);
    assert!(q.book_ok(Venue::Okx));
    assert!(!q.book_ok(Venue::Binance));
}

#[test]
fn health_is_bad_when_crossed() {
    assert_eq!(compute_health(1, 1, Some(10), Some(9), 1), BookHealth::Bad);
    assert_eq!(compute_health(0, 3, None, Some(9), 1), BookHealth::Rebuilding);
    assert_eq!(compute_health(2, 3, Some(8), Some(9), 3), BookHealth::Degraded);
    assert_eq!(compute_health(3, 3, Some(8), Some(9), 3), BookHealth::Healthy);
}

#[test]
fn okx_seq_needs_prev_to_match() {
    let d = SeqInfo {
        kind: BookMsgKind::Delta,
        seq: Some(11),
        prev_seq: Some(10),
        seq_from: None,
        checksum: None,
    };
    assert!(accept_seq(Venue::Okx, Some(10), &d));
    assert!(!accept_seq(Venue::Okx, Some(9), &d));
    assert!(!accept_seq(Venue::Okx, None, &d));
}

#[test]
fn okx_seq_gap_poisons_only_okx() {
    let mut okx = BookIntegrity::new(Venue::Okx);
    let mut bn = BookIntegrity::new(Venue::Binance);
    let snap = SeqInfo {
        kind: BookMsgKind::Snapshot,
        seq: Some(10),
        prev_seq: None,
        seq_from: None,
        checksum: None,
    };
    okx.begin(&snap);
    okx.finish(&snap, 0, 5, 5, Some(1), Some(2), 5);
    assert_eq!(okx.health, BookHealth::Healthy);
    // gap: prevSeqId 99 != 10
    let gap = SeqInfo {
        kind: BookMsgKind::Delta,
        seq: Some(11),
        prev_seq: Some(99),
        seq_from: None,
        checksum: None,
    };
    assert_eq!(okx.begin(&gap), DeltaStart::Rejected);
    assert_eq!(okx.health, BookHealth::Bad);
    assert_eq!(okx.seq_gap, 1);
    assert_eq!(okx.last_seq, None);
    let mut q = QualityVector::default();
    okx.apply_quality(&mut q);
    bn.apply_quality(&mut q);
    assert!(!q.book_ok(Venue::Okx));
    assert!(!q.book_ok(Venue::Binance), "Binance never got a snapshot");
    // Binance still rebuilding, not marked from the OKX gap
    let bn_snap = SeqInfo {
        kind: BookMsgKind::Snapshot,
        seq: Some(5),
        prev_seq: None,
        seq_from: None,
        checksum: None,
    };
    bn.begin(&bn_snap);
    bn.finish(&bn_snap, 0, 5, 5, Some(1), Some(2), 5);
    assert_eq!(bn.health, BookHealth::Healthy);
    let mut q = QualityVector::default();
    okx.apply_quality(&mut q);
    bn.apply_quality(&mut q);
    assert!(!q.book_ok(Venue::Okx));
    assert!(q.book_ok(Venue::Binance));
    assert!(!q.book_ok(Venue::Bybit));
    let r = dom_gate(VenueRole::Execution, okx.health);
    assert!(!r.dom_entries_allowed);
    assert_eq!(r.script_f, "not_evaluated");
    assert!(!r.read_evaluated);
    let rb = dom_gate(VenueRole::Resonance, bn.health);
    assert!(rb.dom_entries_allowed, "resonance book ok does not block OKX");
    assert_eq!(rb.resonance_read, "evaluated");
}

#[test]
fn binance_pu_gap_requires_rebuild() {
    let mut b = BookIntegrity::new(Venue::Binance);
    let snap = SeqInfo {
        kind: BookMsgKind::Snapshot,
        seq: Some(10),
        prev_seq: None,
        seq_from: None,
        checksum: None,
    };
    b.begin(&snap);
    b.finish(&snap, 0, 5, 5, Some(1), Some(2), 5);
    let first = SeqInfo {
        kind: BookMsgKind::Delta,
        seq: Some(15),
        prev_seq: None,
        seq_from: Some(9),
        checksum: None,
    };
    assert_eq!(b.begin(&first), DeltaStart::Apply { reset: false });
    b.finish(&first, 0, 5, 5, Some(1), Some(2), 5);
    let bad = SeqInfo {
        kind: BookMsgKind::Delta,
        seq: Some(30),
        prev_seq: Some(20),
        seq_from: Some(21),
        checksum: None,
    };
    assert_eq!(b.begin(&bad), DeltaStart::Rejected);
    let next = SeqInfo {
        kind: BookMsgKind::Delta,
        seq: Some(31),
        prev_seq: Some(30),
        seq_from: Some(31),
        checksum: None,
    };
    assert_eq!(b.begin(&next), DeltaStart::Rejected);
    assert_eq!(b.begin(&snap), DeltaStart::Apply { reset: true });
}

#[test]
fn bybit_u1_overwrites() {
    let d = SeqInfo { kind: BookMsgKind::Delta, seq: Some(1), prev_seq: None, seq_from: None, checksum: None };
    assert!(accept_seq(Venue::Bybit, Some(500), &d));
    assert!(accept_seq(Venue::Bybit, None, &d));
    let mut b = BookIntegrity::new(Venue::Bybit);
    assert_eq!(b.begin(&d), DeltaStart::Apply { reset: true });
    let same = SeqInfo { kind: BookMsgKind::Delta, seq: Some(7), prev_seq: None, seq_from: None, checksum: None };
    assert!(accept_seq(Venue::Bybit, Some(7), &same));
    assert!(accept_seq(Venue::Bybit, Some(6), &same));
    assert!(!accept_seq(Venue::Bybit, Some(5), &same));
}

#[test]
fn checksum_zero_is_ignored_nonzero_mismatch_rebuilds() {
    let mut b = BookIntegrity::new(Venue::Okx);
    let zero = SeqInfo {
        kind: BookMsgKind::Snapshot,
        seq: Some(1),
        prev_seq: None,
        seq_from: None,
        checksum: Some(0),
    };
    b.begin(&zero);
    assert!(b.finish(&zero, 12345, 5, 5, Some(1), Some(2), 5));
    let bad = SeqInfo {
        kind: BookMsgKind::Delta,
        seq: Some(2),
        prev_seq: Some(1),
        seq_from: None,
        checksum: Some(777),
    };
    b.begin(&bad);
    assert!(!b.finish(&bad, 12345, 5, 5, Some(1), Some(2), 5));
    assert_eq!(b.checksum_fail, 1);
    assert_eq!(b.health, BookHealth::Bad);
    assert_eq!(b.last_seq, None);
}

fn frame_keys() -> BookFrameKeys {
    BookFrameKeys {
        has_event: false,
        has_data: false,
        action: None,
        has_last_update_id: false,
        has_e: false,
        has_result: false,
        has_id: false,
        op: None,
        typ: None,
    }
}

#[test]
fn book_frames_control_snapshot_or_delta() {
    let mut k = frame_keys();
    k.has_event = true;
    assert_eq!(book_frame_kind(Venue::Okx, &k), None);
    k.has_data = true;
    assert_eq!(book_frame_kind(Venue::Okx, &k), Some(BookMsgKind::Snapshot));
    k.action = Some("update".to_string());
    assert_eq!(book_frame_kind(Venue::Okx, &k), Some(BookMsgKind::Delta));

    let mut b = frame_keys();
    b.has_result = true;
    b.has_id = true;
    assert_eq!(book_frame_kind(Venue::Binance, &b), None);
    b.has_last_update_id = true;
    assert_eq!(book_frame_kind(Venue::Binance, &b), Some(BookMsgKind::Snapshot));
    let mut d = frame_keys();
    d.has_e = true;
    d.has_last_update_id = true;
    assert_eq!(book_frame_kind(Venue::Binance, &d), Some(BookMsgKind::Delta));

    let mut y = frame_keys();
    y.op = Some("subscribe".to_string());
    assert_eq!(book_frame_kind(Venue::Bybit, &y), None);
    y.op = Some("unsubscribe".to_string());
    assert_eq!(book_frame_kind(Venue::Bybit, &y), Some(BookMsgKind::Snapshot));
    y.typ = Some("delta".to_string());
    assert_eq!(book_frame_kind(Venue::Bybit, &y), Some(BookMsgKind::Delta));
}
