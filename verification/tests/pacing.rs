use rust_ndi_viewer::frame::Frame;
use rust_ndi_viewer::pacer::newest;
use rust_ndi_viewer::pacer::Baseline;
use rust_ndi_viewer::pacer::PacedExchange;
use rust_ndi_viewer::pacer::PacingMode;
use rust_ndi_viewer::queue::PushOutcome;

const T: u64 = 1_000_000_000;
const MS: u64 = 1_000_000;

fn at(timecode: i64) -> Frame {
    Frame::new(1, 1, vec![0, 0, 0, 255], timecode).unwrap()
}

fn timecodes(frames: &Vec<Frame>) -> Vec<i64> {
    frames.iter().map(|f| f.timecode()).collect()
}

#[test]
fn deadline_is_anchor_plus_timecode_distance() {
    let baseline = Baseline { reference_timecode: 1_000, reference_instant: 5_000 };
    assert_eq!(baseline.deadline(1_000), 5_000);
    assert_eq!(baseline.deadline(1_010), 6_000);
    assert_eq!(baseline.deadline(101_000), 10_005_000);
}

#[test]
fn deadline_of_earlier_timecode_precedes_anchor() {
    let baseline = Baseline { reference_timecode: 1_000, reference_instant: 5_000 };
    assert_eq!(baseline.deadline(990), 4_000);
    assert_eq!(baseline.deadline(0), 5_000 - 100_000);
}

#[test]
fn deadline_does_not_overflow_at_extremes() {
    let baseline = Baseline { reference_timecode: i64::MIN, reference_instant: u64::MAX };
    let ticks = i64::MAX as i128 - i64::MIN as i128;
    assert_eq!(baseline.deadline(i64::MAX), u64::MAX as i128 + ticks * 100);
}

#[test]
fn example_scenario_three_frames_ten_ms_apart() {
    let mut exchange = PacedExchange::timecode_paced(30);
    exchange.push(at(0));
    exchange.push(at(100_000));
    exchange.push(at(200_000));
    assert_eq!(exchange.baseline(), None);

    let first = exchange.drain_ready(T);
    assert_eq!(timecodes(&first), vec![0]);
    assert_eq!(
        exchange.baseline(),
        Some(Baseline { reference_timecode: 0, reference_instant: T })
    );

    let second = exchange.drain_ready(T + 10 * MS);
    assert_eq!(timecodes(&second), vec![100_000]);

    let third = exchange.drain_ready(T + 25 * MS);
    assert_eq!(timecodes(&third), vec![200_000]);
    assert_eq!(exchange.len(), 0);
    assert_eq!(
        exchange.baseline(),
        Some(Baseline { reference_timecode: 0, reference_instant: T })
    );
}

#[test]
fn drain_releases_nothing_before_the_deadline() {
    let mut exchange = PacedExchange::timecode_paced(30);
    exchange.push(at(0));
    exchange.push(at(100_000));
    assert_eq!(timecodes(&exchange.drain_ready(T)), vec![0]);
    assert!(exchange.drain_ready(T + 10 * MS - 1).is_empty());
    assert_eq!(exchange.len(), 1);
    assert_eq!(timecodes(&exchange.drain_ready(T + 10 * MS)), vec![100_000]);
}

#[test]
fn drain_catches_up_with_three_due_frames() {
    let mut exchange = PacedExchange::timecode_paced(30);
    exchange.push(at(0));
    assert_eq!(timecodes(&exchange.drain_ready(T)), vec![0]);
    exchange.push(at(100_000));
    exchange.push(at(200_000));
    exchange.push(at(300_000));
    exchange.push(at(400_000));
    let now = T + 35 * MS;
    let emitted = exchange.drain_ready(now);
    assert_eq!(timecodes(&emitted), vec![100_000, 200_000, 300_000]);
    assert!(exchange.drain_ready(now).is_empty());
    assert_eq!(exchange.len(), 1);
}

#[test]
fn drain_on_empty_exchange_sets_no_anchor() {
    let mut exchange = PacedExchange::timecode_paced(4);
    assert!(exchange.drain_ready(T).is_empty());
    assert_eq!(exchange.baseline(), None);
    exchange.push(at(500));
    assert_eq!(timecodes(&exchange.drain_ready(T + 7)), vec![500]);
    assert_eq!(
        exchange.baseline(),
        Some(Baseline { reference_timecode: 500, reference_instant: T + 7 })
    );
}

#[test]
fn frame_with_timecode_before_anchor_is_due_at_once() {
    let mut exchange = PacedExchange::timecode_paced(4);
    exchange.push(at(1_000_000));
    assert_eq!(timecodes(&exchange.drain_ready(T)), vec![1_000_000]);
    exchange.push(at(10));
    exchange.push(at(2_000_000));
    assert_eq!(timecodes(&exchange.drain_ready(T)), vec![10]);
    assert_eq!(exchange.len(), 1);
}

#[test]
fn drain_stops_at_first_frame_not_due() {
    let mut exchange = PacedExchange::timecode_paced(8);
    exchange.push(at(0));
    exchange.push(at(900_000));
    exchange.push(at(100_000));
    assert_eq!(timecodes(&exchange.drain_ready(T)), vec![0]);
    assert!(exchange.drain_ready(T + 50 * MS).is_empty());
    assert_eq!(timecodes(&exchange.drain_ready(T + 90 * MS)), vec![900_000, 100_000]);
}

#[test]
fn paced_push_drops_oldest_on_overflow() {
    let mut exchange = PacedExchange::timecode_paced(2);
    assert_eq!(exchange.push(at(1)), 0);
    assert_eq!(exchange.push(at(2)), 0);
    assert_eq!(exchange.push(at(3)), 1);
    assert_eq!(exchange.len(), 2);
    assert_eq!(timecodes(&exchange.drain_ready(T)), vec![2]);
    assert_eq!(
        exchange.baseline(),
        Some(Baseline { reference_timecode: 2, reference_instant: T })
    );
}

#[test]
fn paced_try_operations_without_access() {
    let mut exchange = PacedExchange::timecode_paced(2);
    assert_eq!(PacedExchange::try_push(None, at(1)), PushOutcome::Contended);
    assert!(PacedExchange::try_drain_ready(None, T).is_empty());
    assert_eq!(
        PacedExchange::try_push(Some(&mut exchange), at(5)),
        PushOutcome::Stored { evicted: 0 }
    );
    assert_eq!(timecodes(&PacedExchange::try_drain_ready(Some(&mut exchange), T)), vec![5]);
}

#[test]
fn source_corrected_mode_keeps_only_the_latest_frame() {
    let mut exchange = PacedExchange::source_corrected(33);
    assert_eq!(exchange.mode(), PacingMode::SourceCorrected { tick_millis: 33 });
    exchange.push(at(900_000_000));
    exchange.push(at(5));
    assert_eq!(exchange.len(), 1);
    assert_eq!(timecodes(&exchange.drain_ready(0)), vec![5]);
    exchange.push(at(i64::MAX));
    assert_eq!(timecodes(&exchange.drain_ready(0)), vec![i64::MAX]);
    assert!(exchange.drain_ready(0).is_empty());
}

#[test]
fn timecode_mode_is_kept() {
    let exchange = PacedExchange::timecode_paced(30);
    assert_eq!(exchange.mode(), PacingMode::Timecode);
}

#[test]
fn newest_is_the_last_emitted() {
    assert!(newest(Vec::new()).is_none());
    let shown = newest(vec![at(1), at(2), at(3)]).unwrap();
    assert_eq!(shown.timecode(), 3);
}
