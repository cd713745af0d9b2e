use confirmation_watcher::digest::TransactionIdentifier;
use confirmation_watcher::watcher::{
    watch_events, watch_single, ResponseItem, StreamError, StreamEvent, WatchError,
};

fn d(w: u64) -> TransactionIdentifier {
    TransactionIdentifier::from_word(w)
}

fn tx(offset: u64, id: TransactionIdentifier) -> StreamEvent {
    StreamEvent::Item(ResponseItem::Transaction { offset, id })
}

fn batch(next_offset: u64) -> StreamEvent {
    StreamEvent::Item(ResponseItem::Batch { next_offset })
}

#[test]
fn scenario_all_confirmed_in_one_window() {
    let d1 = d(1);
    let d2 = d(2);
    let ids = vec![d1, d2];
    let events = vec![tx(1, d1), tx(2, d2)];
    let r = watch_events(&ids, &events);
    assert!(matches!(r, Some(Ok(()))));
}

#[test]
fn scenario_batch_boundary_then_reopen() {
    let d1 = d(1);
    let d2 = d(2);
    let ids = vec![d1, d2];
    let events = vec![batch(5), StreamEvent::End, tx(6, d1), tx(7, d2)];
    let r = watch_events(&ids, &events);
    assert!(matches!(r, Some(Ok(()))));
}

#[test]
fn scenario_nothing_before_deadline() {
    let d1 = d(1);
    let d2 = d(2);
    let ids = vec![d1, d2];
    let events = vec![StreamEvent::DeadlineExpired];
    let r = watch_events(&ids, &events);
    match r {
        Some(Err(WatchError::TimedOut { remaining })) => {
            assert_eq!(remaining.len(), 2);
            assert!(remaining.contains(&d1));
            assert!(remaining.contains(&d2));
        }
        other => panic!("expected a timeout, got {:?}", other),
    }
}

#[test]
fn scenario_stream_error_is_fatal() {
    let ids = vec![d(1), d(2)];
    let events = vec![StreamEvent::Error(StreamError::ConnectionLost)];
    let r = watch_events(&ids, &events);
    assert!(matches!(
        r,
        Some(Err(WatchError::StreamFailed { cause: StreamError::ConnectionLost }))
    ));
}

#[test]
fn reopen_failure_is_fatal() {
    let ids = vec![d(1)];
    let events = vec![StreamEvent::End, StreamEvent::Error(StreamError::ConnectionRefused)];
    let r = watch_events(&ids, &events);
    assert!(matches!(
        r,
        Some(Err(WatchError::StreamFailed { cause: StreamError::ConnectionRefused }))
    ));
}

#[test]
fn reopen_is_transparent_to_the_outcome() {
    let d1 = d(1);
    let d2 = d(2);
    let ids = vec![d1, d2];
    let joined = vec![tx(1, d1), tx(2, d2)];
    let split = vec![tx(1, d1), StreamEvent::End, tx(2, d2)];
    assert!(matches!(watch_events(&ids, &joined), Some(Ok(()))));
    assert!(matches!(watch_events(&ids, &split), Some(Ok(()))));
}

#[test]
fn duplicate_delivery_after_reopen_is_harmless() {
    let d1 = d(1);
    let d2 = d(2);
    let ids = vec![d1, d2];
    // the reopened window replays an already-observed transaction
    let events = vec![tx(1, d1), StreamEvent::End, tx(1, d1), tx(2, d2)];
    let r = watch_events(&ids, &events);
    assert!(matches!(r, Some(Ok(()))));
}

#[test]
fn deadline_stops_the_run_despite_later_items() {
    let d1 = d(1);
    let ids = vec![d1];
    // benign reopens do not push the deadline back, and items after the
    // deadline fired are never consulted
    let events = vec![
        StreamEvent::End,
        StreamEvent::End,
        StreamEvent::DeadlineExpired,
        tx(1, d1),
    ];
    let r = watch_events(&ids, &events);
    match r {
        Some(Err(WatchError::TimedOut { remaining })) => {
            assert_eq!(remaining, vec![d1]);
        }
        other => panic!("expected a timeout, got {:?}", other),
    }
}

#[test]
fn partial_confirmation_reported_at_timeout() {
    let d1 = d(1);
    let d2 = d(2);
    let ids = vec![d1, d2];
    let events = vec![tx(1, d1), StreamEvent::DeadlineExpired];
    let r = watch_events(&ids, &events);
    match r {
        Some(Err(WatchError::TimedOut { remaining })) => {
            assert_eq!(remaining, vec![d2]);
        }
        other => panic!("expected a timeout, got {:?}", other),
    }
}

#[test]
fn exhausted_events_yield_no_outcome() {
    let ids = vec![d(1)];
    let events = vec![batch(3)];
    let r = watch_events(&ids, &events);
    assert!(r.is_none());
}

#[test]
fn single_identifier_form() {
    let d1 = d(9);
    let events = vec![tx(4, d1)];
    let r = watch_single(&d1, &events);
    assert!(matches!(r, Some(Ok(()))));
}

#[test]
fn single_identifier_form_times_out() {
    let d1 = d(9);
    let events = vec![StreamEvent::DeadlineExpired];
    let r = watch_single(&d1, &events);
    match r {
        Some(Err(WatchError::TimedOut { remaining })) => {
            assert_eq!(remaining, vec![d1]);
        }
        other => panic!("expected a timeout, got {:?}", other),
    }
}

#[test]
fn satisfaction_is_detected_on_a_transaction_item() {
    // an empty watch set completes on the first transaction notification,
    // whichever transaction it reports
    let ids: Vec<TransactionIdentifier> = vec![];
    let events = vec![tx(1, d(42))];
    let r = watch_events(&ids, &events);
    assert!(matches!(r, Some(Ok(()))));
}
