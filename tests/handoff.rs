use async_mutex::cell::{handoff_received, Begin, Inner};
use async_mutex::error::AsyncMutexError;
use async_mutex::messages::{DestinationPort, MessageReceivedResponse, MoveTokenDirection};
use futures::sync::oneshot::{channel, Receiver};

fn take_free(cell: &mut Inner<u32>) -> u32 {
    match cell.begin_acquire() {
        Begin::Acquired(c) => c,
        Begin::Queued(_) => panic!("resource is held"),
        Begin::Broken => panic!("resource is broken"),
    }
}

fn queue(cell: &mut Inner<u32>) -> Receiver<u32> {
    match cell.begin_acquire() {
        Begin::Queued(rx) => rx,
        Begin::Acquired(_) => panic!("resource was free"),
        Begin::Broken => panic!("resource is broken"),
    }
}

fn received(rx: &mut Receiver<u32>) -> Option<u32> {
    handoff_received::<u32, ()>(rx.try_recv()).unwrap()
}

#[test]
fn waiters_served_in_arrival_order() {
    let mut cell = Inner::new(0u32);
    let v = take_free(&mut cell);
    let mut a = queue(&mut cell);
    let mut b = queue(&mut cell);
    let mut c = queue(&mut cell);

    cell.wakeup_next(v + 1);
    assert_eq!(received(&mut b), None);
    assert_eq!(received(&mut c), None);
    let v = received(&mut a).unwrap();
    assert_eq!(v, 1);

    cell.wakeup_next(v + 1);
    assert_eq!(received(&mut c), None);
    let v = received(&mut b).unwrap();
    assert_eq!(v, 2);

    cell.wakeup_next(v + 1);
    let v = received(&mut c).unwrap();
    assert_eq!(v, 3);

    cell.wakeup_next(v + 1);
    assert!(!cell.is_held());
    assert_eq!(take_free(&mut cell), 4);
}

#[test]
fn dropped_waiter_is_skipped() {
    let mut cell = Inner::new(7u32);
    let v = take_free(&mut cell);
    let a = queue(&mut cell);
    let mut b = queue(&mut cell);
    drop(a);

    cell.wakeup_next(v);
    assert_eq!(received(&mut b), Some(7));
    assert!(cell.is_held());
}

#[test]
fn resource_returns_when_every_waiter_is_gone() {
    let mut cell = Inner::new(5u32);
    let v = take_free(&mut cell);
    let a = queue(&mut cell);
    let b = queue(&mut cell);
    drop(a);
    drop(b);

    cell.wakeup_next(v + 10);
    assert!(!cell.is_held());
    assert!(!cell.is_broken());
    assert_eq!(take_free(&mut cell), 15);
}

#[test]
fn release_with_empty_queue_frees_the_cell() {
    let mut cell = Inner::new(3u32);
    let v = take_free(&mut cell);
    assert!(cell.is_held());
    cell.wakeup_next(v);
    assert!(!cell.is_held());
    assert_eq!(take_free(&mut cell), 3);
}

#[test]
fn error_recovers_for_queued_waiter() {
    let mut cell = Inner::new(0u32);
    let v = take_free(&mut cell);
    let mut b = queue(&mut cell);

    let out: Result<(u32, ()), (Option<u32>, ())> = Err((Some(v), ()));
    assert_eq!(cell.complete_move(out), Err(AsyncMutexError::Function(())));

    assert_eq!(cell.check_waiting::<()>(), Ok(()));
    let v = received(&mut b).unwrap();
    assert_eq!(v, 0);
    let out: Result<(u32, u32), (Option<u32>, ())> = Ok((v + 1, v + 1));
    assert_eq!(cell.complete_move(out), Ok(1));
}

#[test]
fn error_poisons_queued_and_later_acquirers() {
    let mut cell = Inner::new(0u32);
    let _v = take_free(&mut cell);
    let _b = queue(&mut cell);

    let out: Result<(u32, ()), (Option<u32>, &str)> = Err((None, "lost"));
    assert_eq!(cell.complete_move(out), Err(AsyncMutexError::Function("lost")));

    assert!(cell.is_broken());
    assert_eq!(cell.check_waiting::<()>(), Err(AsyncMutexError::ResourceBroken));
    for _ in 0..5 {
        assert!(matches!(cell.begin_acquire(), Begin::Broken));
        assert!(cell.is_broken());
    }
}

#[test]
fn held_cell_queues_new_acquirers() {
    let mut cell = Inner::new(9u32);
    let _v = take_free(&mut cell);
    let mut b = queue(&mut cell);
    assert_eq!(received(&mut b), None);
    assert!(cell.is_held());
}

#[test]
fn canceled_sender_is_reported() {
    let (tx, mut rx) = channel::<u32>();
    drop(tx);
    let r = handoff_received::<u32, ()>(rx.try_recv());
    assert_eq!(r, Err(AsyncMutexError::AwakenerCanceled));
}

#[test]
fn delivered_value_is_reported() {
    let (tx, mut rx) = channel::<u32>();
    tx.send(11).unwrap();
    let r = handoff_received::<u32, ()>(rx.try_recv());
    assert_eq!(r, Ok(Some(11)));
}

#[test]
fn borrow_outcome_is_mapped() {
    let mut cell = Inner::new(1u32);
    let v = take_free(&mut cell);
    assert_eq!(cell.complete_borrow(v, Ok::<u8, u8>(4)), Ok(4));
    let v = take_free(&mut cell);
    assert_eq!(cell.complete_borrow(v, Err::<u8, u8>(6)), Err(AsyncMutexError::Function(6)));
    assert_eq!(take_free(&mut cell), 1);
}

#[test]
fn dropped_then_live_sender_gets_five() {
    let mut cell = Inner::new(5u32);
    let v = take_free(&mut cell);
    let dropped = queue(&mut cell);
    let mut live = queue(&mut cell);
    drop(dropped);

    cell.wakeup_next(v);
    assert_eq!(received(&mut live), Some(5));
    assert!(cell.is_held());
    // the queue is empty: the next release frees the cell
    cell.wakeup_next(6);
    assert_eq!(take_free(&mut cell), 6);
}

#[test]
fn settle_stops_on_delivery() {
    let mut cell = Inner::new(2u32);
    let _v = take_free(&mut cell);
    assert_eq!(cell.settle(Ok(())), None);
    assert!(cell.is_held());
}

#[test]
fn settle_parks_value_when_no_waiter_is_left() {
    let mut cell = Inner::new(2u32);
    let _v = take_free(&mut cell);
    assert_eq!(cell.settle(Err(8)), None);
    assert_eq!(take_free(&mut cell), 8);
}

#[test]
fn settle_hands_value_on_to_next_waiter() {
    let mut cell = Inner::new(2u32);
    let _v = take_free(&mut cell);
    let _w = queue(&mut cell);
    assert_eq!(cell.settle(Err(8)), Some(8));
    assert!(cell.is_held());
}

#[test]
fn abandoned_move_poisons() {
    let mut cell = Inner::new(2u32);
    let _v = take_free(&mut cell);
    let _w = queue(&mut cell);
    cell.abandon(None);
    assert!(cell.is_broken());
    assert_eq!(cell.check_waiting::<()>(), Err(AsyncMutexError::ResourceBroken));
}

#[test]
fn abandoned_borrow_releases() {
    let mut cell = Inner::new(2u32);
    let v = take_free(&mut cell);
    let mut w = queue(&mut cell);
    cell.abandon(Some(v));
    assert_eq!(received(&mut w), Some(2));
}

#[test]
fn error_from_payload() {
    let e: AsyncMutexError<u16> = AsyncMutexError::from(12);
    assert_eq!(e, AsyncMutexError::Function(12));
}

#[test]
fn message_values() {
    let d = MoveTokenDirection::Incoming;
    assert!(matches!(d, MoveTokenDirection::Incoming));
    assert!(matches!(DestinationPort::AppManager(3), DestinationPort::AppManager(3)));
    let r = MessageReceivedResponse::Accept { response_data: vec![1, 2] };
    assert!(matches!(r, MessageReceivedResponse::Accept { .. }));
}
