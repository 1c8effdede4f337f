use mix_server::clock::{Clock, EPOCH_GENESIS, EPOCH_PERIOD};
use mix_server::codec::{bytes_eq, le64_encode};

#[test]
fn time_at_splits_the_schedule() {
    let c = Clock::new(100, 10);
    let t = c.time_at(100);
    assert_eq!((t.epoch, t.elapsed, t.till), (0, 0, 10));
    let t = c.time_at(125);
    assert_eq!((t.epoch, t.elapsed, t.till), (2, 5, 5));
    let t = c.time_at(129);
    assert_eq!((t.epoch, t.elapsed, t.till), (2, 9, 1));
    let t = c.time_at(130);
    assert_eq!((t.epoch, t.elapsed, t.till), (3, 0, 10));
}

#[test]
fn katzenpost_schedule_constants() {
    let c = Clock::new_katzenpost();
    assert_eq!(c.period(), EPOCH_PERIOD);
    assert_eq!(EPOCH_PERIOD, 3 * 60 * 60);
    // Genesis is 2017-06-01 00:00:00 UTC.
    assert_eq!(EPOCH_GENESIS, 1496275200);
    let t = c.time_at(EPOCH_GENESIS + 2 * EPOCH_PERIOD + 17);
    assert_eq!(t.epoch, 2);
    assert_eq!(t.elapsed, 17);
    assert_eq!(t.till, EPOCH_PERIOD - 17);
}

#[test]
fn is_in_epoch_brackets_the_window() {
    let c = Clock::new(1000, 100);
    assert!(c.is_in_epoch(0, 1000));
    assert!(c.is_in_epoch(0, 1099));
    assert!(!c.is_in_epoch(0, 1100));
    assert!(c.is_in_epoch(3, 1300));
    assert!(c.is_in_epoch(3, 1399));
    assert!(!c.is_in_epoch(3, 1400));
    assert!(!c.is_in_epoch(3, 1299));
    assert!(!c.is_in_epoch(0, 999));
}

#[test]
fn now_lands_inside_its_epoch() {
    let c = Clock::new_katzenpost();
    let t = c.now().unwrap();
    assert!(t.elapsed < EPOCH_PERIOD);
    assert_eq!(t.elapsed + t.till, EPOCH_PERIOD);
}

#[test]
fn le64_is_little_endian() {
    assert_eq!(le64_encode(0), vec![0u8; 8]);
    assert_eq!(le64_encode(1), vec![1, 0, 0, 0, 0, 0, 0, 0]);
    assert_eq!(
        le64_encode(0x0102030405060708),
        vec![0x08, 0x07, 0x06, 0x05, 0x04, 0x03, 0x02, 0x01]
    );
    assert_eq!(le64_encode(u64::MAX), vec![0xff; 8]);
}

#[test]
fn bytes_eq_compares_contents() {
    assert!(bytes_eq(&vec![1, 2, 3], &vec![1, 2, 3]));
    assert!(!bytes_eq(&vec![1, 2, 3], &vec![1, 2, 4]));
    assert!(!bytes_eq(&vec![1, 2], &vec![1, 2, 3]));
    assert!(bytes_eq(&vec![], &vec![]));
}
