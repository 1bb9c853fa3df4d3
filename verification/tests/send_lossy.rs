use bytes::Bytes;

use foxglove_webtransport::send_lossy::{
    send_lossy, send_step, SendLossyResult, MAX_SEND_RETRIES,
};

fn frame(n: u8) -> Bytes {
    Bytes::from(vec![n])
}

#[test]
fn sends_where_there_is_room() {
    let (mut tx, mut rx) = flume::bounded(2);
    let result = send_lossy(&mut tx, &mut rx, frame(1), MAX_SEND_RETRIES);
    assert_eq!(result, SendLossyResult::Sent);
    assert_eq!(rx.try_recv().unwrap(), frame(1));
}

#[test]
fn the_oldest_makes_way() {
    let (mut tx, mut rx) = flume::bounded(2);
    for n in 1..=2 {
        assert_eq!(send_lossy(&mut tx, &mut rx, frame(n), 10), SendLossyResult::Sent);
    }
    assert_eq!(send_lossy(&mut tx, &mut rx, frame(3), 10), SendLossyResult::SentLossy(1));
    let left: Vec<Bytes> = rx.drain().collect();
    assert_eq!(left, vec![frame(2), frame(3)]);
}

#[test]
fn no_retries_no_loss() {
    let (mut tx, mut rx) = flume::bounded(1);
    assert_eq!(send_lossy(&mut tx, &mut rx, frame(1), 0), SendLossyResult::Sent);
    assert_eq!(send_lossy(&mut tx, &mut rx, frame(2), 0), SendLossyResult::ExhaustedRetries);
    assert_eq!(rx.try_recv().unwrap(), frame(1));
    assert!(rx.try_recv().is_err());
}

#[test]
fn a_queue_for_nothing_takes_nothing() {
    let (mut tx, mut rx) = flume::bounded(0);
    let result = send_lossy(&mut tx, &mut rx, frame(1), MAX_SEND_RETRIES);
    assert_eq!(result, SendLossyResult::ExhaustedRetries);
    assert!(rx.try_recv().is_err());
}

#[test]
fn steps_of_a_lossy_send() {
    assert_eq!(send_step(0, 0, 10, true), Some(SendLossyResult::Sent));
    assert_eq!(send_step(3, 0, 10, true), Some(SendLossyResult::Sent));
    assert_eq!(send_step(3, 2, 10, true), Some(SendLossyResult::SentLossy(2)));
    assert_eq!(send_step(9, 9, 10, false), None);
    assert_eq!(send_step(10, 10, 10, false), Some(SendLossyResult::ExhaustedRetries));
    assert_eq!(send_step(0, 0, 0, false), Some(SendLossyResult::ExhaustedRetries));
}
