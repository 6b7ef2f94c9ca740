use page_cache::errors::{ReceiveError, SendError};
use page_cache::oneshot::channel;

#[test]
fn test_oneshot_handle_receiver_drop() {
    let (mut ch, tx, rx) = channel::<u64>();

    rx.close(&mut ch);
    assert_eq!(tx.send(&mut ch, 69).unwrap_err(), SendError::Closed);
}

#[test]
fn test_oneshot_handle_sender_drop() {
    let (mut ch, tx, rx) = channel::<u64>();

    tx.close(&mut ch);
    assert_eq!(rx.recv(&mut ch).unwrap_err(), ReceiveError::Closed);
}

#[test]
fn test_oneshot_handle_sender_and_receiver_drop() {
    let (mut ch, tx, rx) = channel::<u64>();
    tx.close(&mut ch);
    rx.close(&mut ch);
}

#[test]
fn test_oneshot_send_then_receive() {
    let (mut ch, tx, rx) = channel::<u64>();

    tx.send(&mut ch, 69).unwrap();
    let data = match rx.recv(&mut ch) {
        Ok(num) => num,
        Err(_) => unreachable!(),
    };

    assert_eq!(data, 69);
}

#[test]
fn test_oneshot_send_after_receiver_took_value_is_impossible_twice() {
    // Consuming semantics: each half can be used at most once, so a second
    // send or receive is rejected by the compiler; this test documents the
    // exactly-once delivery on the value level.
    let (mut ch, tx, rx) = channel::<String>();
    tx.send(&mut ch, String::from("only once")).unwrap();
    assert_eq!(rx.recv(&mut ch).unwrap(), String::from("only once"));
}
