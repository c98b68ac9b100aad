use ic705_bridge::rsba1::rx::RxState;

#[test]
fn rx_delivers_in_order_and_drops_duplicates() {
    let mut rx = RxState::new();
    assert!(rx.on_seq(10));
    assert!(rx.on_seq(11));
    assert!(!rx.on_seq(11));
    assert!(rx.on_seq(12));
    assert!(rx.missing.is_empty());
}

#[test]
fn rx_tracks_gaps_and_accepts_retransmission_once() {
    let mut rx = RxState::new();
    assert!(rx.on_seq(10));
    assert!(rx.on_seq(13));
    assert_eq!(rx.missing.len(), 2);
    assert!(rx.missing.contains_key(&11));
    assert!(rx.missing.contains_key(&12));
    assert!(rx.on_seq(11));
    assert!(!rx.on_seq(11));
    assert_eq!(rx.missing.len(), 1);
}

#[test]
fn rx_flushes_on_huge_gap() {
    let mut rx = RxState::new();
    assert!(rx.on_seq(10));
    assert!(rx.on_seq(11));
    assert!(rx.on_seq(1000));
    assert!(rx.missing.is_empty());
    assert_eq!(rx.last_seq, Some(1000));
}

#[test]
fn rx_handles_u16_wraparound() {
    let mut rx = RxState::new();
    assert!(rx.on_seq(0xFFFE));
    assert!(rx.on_seq(0x0001));
    assert!(rx.missing.contains_key(&0xFFFF));
    assert!(rx.missing.contains_key(&0x0000));
}

#[test]
fn rx_flushes_when_small_gaps_add_up() {
    let mut rx = RxState::new();
    assert!(rx.on_seq(1));
    // 50 numbers skipped at once are still waited for.
    assert!(rx.on_seq(52));
    assert_eq!(rx.missing.len(), 50);
    // One more is too many.
    assert!(rx.on_seq(54));
    assert!(rx.missing.is_empty());
    assert_eq!(rx.last_seq, Some(54));
    // 51 at once are too many as well.
    assert!(rx.on_seq(106));
    assert!(rx.missing.is_empty());
}

#[test]
fn rx_drops_numbers_from_half_the_circle_behind() {
    let mut rx = RxState::new();
    assert!(rx.on_seq(0));
    assert!(!rx.on_seq(0x8000));
    assert!(rx.on_seq(0x7fff));
    assert_eq!(rx.last_seq, Some(0x7fff));
}

#[test]
fn a_missing_number_is_asked_for_four_times_then_given_up() {
    let mut rx = RxState::new();
    assert!(rx.on_seq(10));
    assert!(rx.on_seq(13));
    for _ in 0..4 {
        let mut due = rx.take_due();
        due.sort();
        assert_eq!(due, vec![11, 12]);
    }
    assert_eq!(rx.take_due(), Vec::<u16>::new());
    assert!(rx.missing.is_empty());
    assert!(!rx.on_seq(11));
}

#[test]
fn a_number_that_arrives_is_asked_for_no_longer() {
    let mut rx = RxState::new();
    assert!(rx.on_seq(10));
    assert!(rx.on_seq(13));
    assert_eq!(rx.take_due().len(), 2);
    assert!(rx.on_seq(12));
    assert_eq!(rx.take_due(), vec![11]);
}
