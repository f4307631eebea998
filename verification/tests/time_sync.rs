use clock_sync_master::codec::Message;
use clock_sync_master::time_sync::{
    adjustment_payloads, compute_offset, CycleOutcome, SyncCycle,
};

#[test]
fn offset_concrete_exchange() {
    // send at 1000, receive at 1200: latency 100; the slave reported 5000,
    // compensated to 4900; the master read 5150, so the offset is 250.
    assert_eq!(compute_offset(5150, 5000, 1000, 1200), Some(250));
}

#[test]
fn offset_latency_truncates_toward_zero() {
    // Round trip of 3 ms: latency is 1 (3 / 2 truncated).
    assert_eq!(compute_offset(0, 0, 0, 3), Some(1));
    // A clock step back between send and receive: round trip -7, latency -3.
    assert_eq!(compute_offset(0, 0, 10, 3), Some(-3));
}

#[test]
fn offset_overflow_is_rejected() {
    assert_eq!(compute_offset(0, 0, i64::MIN, i64::MAX), None);
    assert_eq!(compute_offset(i64::MAX, -2, 0, 0), None);
}

#[test]
fn cycle_averages_offsets() {
    let mut cycle = SyncCycle::new(1000);
    // Offsets 100, 200, 300 (round trips of zero, so the offset is the
    // master reading minus the reported one).
    assert_eq!(cycle.record_response(900, 0, 0), Some(100));
    assert_eq!(cycle.record_response(800, 0, 0), Some(200));
    assert_eq!(cycle.record_response(700, 0, 0), Some(300));
    assert_eq!(cycle.valid_responses(), 3);
    assert_eq!(
        cycle.outcome(),
        CycleOutcome::Adjust {
            average_offset: 200
        }
    );
}

#[test]
fn cycle_average_truncates() {
    let mut cycle = SyncCycle::new(1000);
    // Offsets 100, 100, 1: the average 201 / 3 truncates to 67.
    cycle.record_response(900, 0, 0);
    cycle.record_response(900, 0, 0);
    cycle.record_response(999, 0, 0);
    assert_eq!(
        cycle.outcome(),
        CycleOutcome::Adjust { average_offset: 67 }
    );
}

#[test]
fn cycle_average_truncates_toward_zero_when_negative() {
    let mut cycle = SyncCycle::new(0);
    // Offsets -100, -100, -1: the average -201 / 3 truncates to -67.
    cycle.record_response(100, 0, 0);
    cycle.record_response(100, 0, 0);
    cycle.record_response(1, 0, 0);
    assert_eq!(
        cycle.outcome(),
        CycleOutcome::Adjust {
            average_offset: -67
        }
    );
}

#[test]
fn cycle_without_responses_adjusts_nothing() {
    let cycle = SyncCycle::new(123);
    assert_eq!(cycle.valid_responses(), 0);
    assert_eq!(cycle.outcome(), CycleOutcome::NoResponses);
    let snapshot = vec![("a".to_string(), 0), ("b".to_string(), 0)];
    let payloads = adjustment_payloads(&snapshot, &CycleOutcome::NoResponses);
    assert!(payloads.is_empty());
}

#[test]
fn cycle_rejects_overflowing_sums_and_keeps_its_state() {
    let mut cycle = SyncCycle::new(i64::MAX);
    assert_eq!(cycle.record_response(0, 0, 0), Some(i64::MAX));
    // A second maximal offset would overflow the running sum.
    assert_eq!(cycle.record_response(0, 0, 0), None);
    assert_eq!(cycle.valid_responses(), 1);
    assert_eq!(
        cycle.outcome(),
        CycleOutcome::Adjust {
            average_offset: i64::MAX
        }
    );
}

#[test]
fn adjustments_go_to_every_snapshot_member() {
    let snapshot = vec![
        ("10.0.0.1:9000".to_string(), 5),
        ("10.0.0.2:9000".to_string(), 6),
        ("10.0.0.3:9000".to_string(), 7),
    ];
    let payloads = adjustment_payloads(
        &snapshot,
        &CycleOutcome::Adjust {
            average_offset: -50,
        },
    );
    // Every snapshot member gets the same adjustment, the silent ones
    // included.
    assert_eq!(payloads.len(), 3);
    let expected = clock_sync_master::codec::encode(&Message::AdjustTime { adjustment: -50 });
    for (i, (addr, payload)) in payloads.iter().enumerate() {
        assert_eq!(addr, &snapshot[i].0);
        assert_eq!(payload, &expected);
        assert_eq!(payload, "{\"type\":\"adjust_time\",\"adjustment\":-50}");
    }
}
