use std::sync::atomic::{AtomicUsize, Ordering};
use std::sync::Arc;
use std::task::{Wake, Waker};

use slings::{
    check_features, registration_error, wait_outcome, BufRing, Cqe, Driver, Error, Output, Payload,
    Polled, EBUSY, EINTR, RESERVED_COOKIE,
};

struct Counter(AtomicUsize);

impl Wake for Counter {
    fn wake(self: Arc<Self>) {
        self.0.fetch_add(1, Ordering::SeqCst);
    }
}

fn counting_waker() -> (Arc<Counter>, Waker) {
    let c = Arc::new(Counter(AtomicUsize::new(0)));
    (c.clone(), Waker::from(c))
}

fn wakes(c: &Arc<Counter>) -> usize {
    c.0.load(Ordering::SeqCst)
}

fn driver() -> Driver {
    let d = Driver::new(BufRing::new(0, 4, 4, 64).unwrap());
    assert_eq!(d.in_flight(), 0);
    d
}

fn cqe(key: usize, result: i32, flags: u32) -> Cqe {
    Cqe { user_data: key as u64, result, flags }
}

#[test]
fn submit_poll_complete_frees_slot() {
    let mut d = driver();
    let mut h = d.submit(Payload::write(b"helloworld"));
    assert_eq!(d.in_flight(), 1);
    let (c, w) = counting_waker();
    assert!(matches!(d.poll(&mut h, w.clone()), Polled::Pending));
    d.dispatch(cqe(h.key(), 10, 0));
    assert_eq!(wakes(&c), 1);
    match d.poll(&mut h, w) {
        Polled::Ready(Ok(Output::Count(n))) => assert_eq!(n, 10),
        _ => panic!("expected ten bytes written"),
    }
    assert_eq!(d.in_flight(), 0);
    assert!(h.payload().is_none());
}

#[test]
fn completion_before_first_poll() {
    let mut d = driver();
    let mut h = d.submit(Payload::Shutdown);
    d.dispatch(cqe(h.key(), 0, 0));
    let (c, w) = counting_waker();
    assert!(matches!(d.poll(&mut h, w), Polled::Ready(Ok(Output::Done))));
    assert_eq!(wakes(&c), 0);
    assert_eq!(d.in_flight(), 0);
}

#[test]
fn repeated_polls_stay_waiting() {
    let mut d = driver();
    let mut h = d.submit(Payload::Close);
    let (c1, w1) = counting_waker();
    let (c2, w2) = counting_waker();
    assert!(matches!(d.poll(&mut h, w1.clone()), Polled::Pending));
    assert!(matches!(d.poll(&mut h, w1), Polled::Pending));
    assert!(matches!(d.poll(&mut h, w2), Polled::Pending));
    assert_eq!(d.in_flight(), 1);
    d.dispatch(cqe(h.key(), 0, 0));
    // only the newest waker is woken
    assert_eq!(wakes(&c1), 0);
    assert_eq!(wakes(&c2), 1);
}

#[test]
fn reserved_and_unknown_cookies_are_skipped() {
    let mut d = driver();
    let h = d.submit(Payload::Close);
    d.dispatch(Cqe { user_data: RESERVED_COOKIE, result: 0, flags: 0 });
    d.dispatch(cqe(h.key() + 100, 0, 0));
    assert_eq!(d.in_flight(), 1);
}

#[test]
fn drop_while_pending_keeps_payload_until_terminal() {
    let mut d = driver();
    let mut h = d.submit(Payload::Read);
    let key = h.key();
    let (_c, w) = counting_waker();
    assert!(matches!(d.poll(&mut h, w), Polled::Pending));
    assert_eq!(d.drop_handle(h), Some(key as u64));
    assert_eq!(d.in_flight(), 1);
    d.dispatch(cqe(key, 0, 2));
    assert_eq!(d.in_flight(), 1);
    d.dispatch(cqe(key, -125, 0));
    assert_eq!(d.in_flight(), 0);
}

#[test]
fn dropped_read_returns_selected_buffer() {
    let mut d = driver();
    let h = d.submit(Payload::Read);
    let key = h.key();
    let tail = d.buf_ring().published_tail();
    assert!(d.drop_handle(h).is_some());
    d.dispatch(cqe(key, 7, 1 | (2 << 16)));
    assert_eq!(d.in_flight(), 0);
    assert_eq!(d.buf_ring().published_tail(), tail.wrapping_add(1));
    // the buffer is not loaned, so a later read can receive it
    assert!(d.get_buf(slings::CqeResult { result: Ok(1), flags: 1 | (2 << 16) }).is_ok());
}

#[test]
fn drop_after_completion_frees_slot_without_cancel() {
    let mut d = driver();
    let h = d.submit(Payload::Close);
    d.dispatch(cqe(h.key(), 0, 0));
    assert_eq!(d.drop_handle(h), None);
    assert_eq!(d.in_flight(), 0);
}

#[test]
fn drop_after_output_changes_nothing() {
    let mut d = driver();
    let mut h = d.submit(Payload::Close);
    d.dispatch(cqe(h.key(), 0, 0));
    let (_c, w) = counting_waker();
    assert!(matches!(d.poll(&mut h, w), Polled::Ready(Ok(Output::Done))));
    let other = d.submit(Payload::Shutdown);
    assert_eq!(d.drop_handle(h), None);
    assert_eq!(d.in_flight(), 1);
    assert!(d.drop_handle(other).is_some());
}

#[test]
fn accept_multi_yields_each_then_terminal() {
    let mut d = driver();
    let mut h = d.submit(Payload::accept_multi());
    let key = h.key();
    let (c, w) = counting_waker();
    assert!(matches!(d.poll(&mut h, w.clone()), Polled::Pending));
    d.reap(&vec![cqe(key, 10, 2), cqe(key, 11, 2), cqe(key, 12, 2)]);
    assert_eq!(wakes(&c), 1);
    assert!(matches!(d.poll(&mut h, w.clone()), Polled::Pending));
    // the poll fed three items and woke the task again
    assert_eq!(wakes(&c), 2);
    assert_eq!(h.next_fd(), Some(Ok(10)));
    assert_eq!(h.next_fd(), Some(Ok(11)));
    assert_eq!(h.next_fd(), Some(Ok(12)));
    assert_eq!(h.next_fd(), None);
    d.dispatch(cqe(key, 13, 0));
    match d.poll(&mut h, w) {
        Polled::Ready(Ok(Output::Fd(fd))) => assert_eq!(fd, 13),
        _ => panic!("expected the terminal descriptor"),
    }
    assert_eq!(d.in_flight(), 0);
}

#[test]
fn multishot_terminal_in_batch_is_kept_for_next_poll() {
    let mut d = driver();
    let mut h = d.submit(Payload::accept_multi());
    let key = h.key();
    d.reap(&vec![cqe(key, 20, 2), cqe(key, -24, 0)]);
    let (_c, w) = counting_waker();
    assert!(matches!(d.poll(&mut h, w.clone()), Polled::Pending));
    assert_eq!(h.next_fd(), Some(Ok(20)));
    assert_eq!(h.next_fd(), None);
    assert!(matches!(d.poll(&mut h, w), Polled::Ready(Err(Error::Kernel(24)))));
    assert_eq!(d.in_flight(), 0);
}

#[test]
fn drop_streaming_multishot_is_ignored() {
    let mut d = driver();
    let h = d.submit(Payload::recv_multi());
    let key = h.key();
    d.dispatch(cqe(key, 4, 1 | 2 | (0 << 16)));
    assert_eq!(d.drop_handle(h), Some(key as u64));
    let tail = d.buf_ring().published_tail();
    d.dispatch(cqe(key, 4, 1 | 2 | (1 << 16)));
    assert_eq!(d.buf_ring().published_tail(), tail.wrapping_add(1));
    assert_eq!(d.in_flight(), 1);
    d.dispatch(cqe(key, 0, 0));
    assert_eq!(d.in_flight(), 0);
}

#[test]
fn drop_finished_multishot_frees_slot() {
    let mut d = driver();
    let h = d.submit(Payload::accept_multi());
    let key = h.key();
    d.reap(&vec![cqe(key, 3, 2), cqe(key, 4, 0)]);
    assert_eq!(d.drop_handle(h), None);
    assert_eq!(d.in_flight(), 0);
}

#[test]
fn recv_multi_buffers_come_through_handle() {
    let mut d = driver();
    let mut h = d.submit(Payload::recv_multi());
    let key = h.key();
    d.reap(&vec![cqe(key, 5, 1 | 2 | (1 << 16)), cqe(key, 6, 1 | 2 | (2 << 16))]);
    let (_c, w) = counting_waker();
    assert!(matches!(d.poll(&mut h, w), Polled::Pending));
    let b1 = h.next_buffer().unwrap().unwrap();
    let b2 = h.next_buffer().unwrap().unwrap();
    assert_eq!((b1.bid(), b1.len()), (1, 5));
    assert_eq!((b2.bid(), b2.len()), (2, 6));
    assert!(h.next_buffer().is_none());
    assert!(d.release(b1));
    assert!(d.release(b2));
}

#[test]
fn keys_are_distinct_while_in_flight() {
    let mut d = driver();
    let a = d.submit(Payload::Close);
    let b = d.submit(Payload::Close);
    assert_ne!(a.key(), b.key());
    assert_eq!(d.in_flight(), 2);
}

#[test]
fn wait_outcome_cases() {
    assert_eq!(wait_outcome(Ok(1)), Ok(true));
    assert_eq!(wait_outcome(Err(EBUSY)), Ok(false));
    assert_eq!(wait_outcome(Err(EINTR)), Ok(false));
    assert_eq!(wait_outcome(Err(9)), Err(Error::Kernel(9)));
}

#[test]
fn registration_error_cases() {
    assert_eq!(registration_error(22), Error::KernelTooOld);
    assert_eq!(registration_error(17), Error::AlreadyRegistered);
    assert_eq!(registration_error(1), Error::Kernel(1));
}

#[test]
fn feature_check_cases() {
    assert_eq!(check_features(true, true), Ok(()));
    assert_eq!(check_features(false, true), Err(Error::FeatureUnsupported));
    assert_eq!(check_features(true, false), Err(Error::FeatureUnsupported));
}

#[test]
fn reset_waker_before_first_poll() {
    let mut d = driver();
    let mut h = d.submit(Payload::timeout(0, 1));
    let (c, w) = counting_waker();
    d.reset_waker(h.key(), w.clone());
    d.dispatch(cqe(h.key(), -62, 0));
    assert_eq!(wakes(&c), 1);
    // once completed, a reset leaves the completion in place
    let (c2, w2) = counting_waker();
    d.reset_waker(h.key(), w2);
    assert!(matches!(d.poll(&mut h, w), Polled::Ready(Ok(Output::Done))));
    assert_eq!(wakes(&c2), 0);
}

#[test]
fn next_fd_on_single_shot_is_none() {
    let mut d = driver();
    let mut h = d.submit(Payload::accept());
    assert_eq!(h.next_fd(), None);
    assert!(h.next_buffer().is_none());
    assert!(h.payload().is_some());
}

#[test]
fn withdraw_frees_unsent_operation() {
    let mut d = driver();
    let h = d.submit(Payload::write(b"abc"));
    let other = d.submit(Payload::Close);
    d.withdraw(h);
    assert_eq!(d.in_flight(), 1);
    assert!(d.drop_handle(other).is_some());
}

#[test]
fn recv_multi_hands_out_queued_before_terminal() {
    let mut d = driver();
    let mut h = d.submit(Payload::recv_multi());
    let key = h.key();
    let (_c, w) = counting_waker();
    d.reap(&vec![cqe(key, 3, 1 | 2 | (0 << 16)), cqe(key, 4, 1 | 2 | (1 << 16)), cqe(key, 5, 1 | (2 << 16))]);
    // the first call polls: it queues the two items and keeps the terminal one
    assert!(matches!(d.poll_recv_multi(&mut h, w.clone()), slings::Next::Polled(Polled::Pending)));
    assert_eq!(h.queued(), 2);
    let first = match d.poll_recv_multi(&mut h, w.clone()) {
        slings::Next::Item(Ok(b)) => b,
        _ => panic!("expected the first queued buffer"),
    };
    assert_eq!((first.bid(), first.len()), (0, 3));
    let second = match d.poll_recv_multi(&mut h, w.clone()) {
        slings::Next::Item(Ok(b)) => b,
        _ => panic!("expected the second queued buffer"),
    };
    assert_eq!((second.bid(), second.len()), (1, 4));
    match d.poll_recv_multi(&mut h, w) {
        slings::Next::Polled(Polled::Ready(Ok(Output::Buffer(b)))) => assert_eq!((b.bid(), b.len()), (2, 5)),
        _ => panic!("expected the terminal buffer last"),
    }
    assert_eq!(d.in_flight(), 0);
}

#[test]
fn accept_multi_poller_orders_items_then_terminal() {
    let mut d = driver();
    let mut h = d.submit(Payload::accept_multi());
    let key = h.key();
    let (_c, w) = counting_waker();
    assert!(matches!(d.poll_accept_multi(&mut h, w.clone()), slings::Next::Polled(Polled::Pending)));
    d.reap(&vec![cqe(key, 7, 2), cqe(key, 8, 0)]);
    assert!(matches!(d.poll_accept_multi(&mut h, w.clone()), slings::Next::Polled(Polled::Pending)));
    assert!(matches!(d.poll_accept_multi(&mut h, w.clone()), slings::Next::Item(Ok(7))));
    assert!(matches!(d.poll_accept_multi(&mut h, w), slings::Next::Polled(Polled::Ready(Ok(Output::Fd(8))))));
}

#[test]
fn reserved_batch_leaves_ring_alone() {
    let mut d = driver();
    let tail = d.buf_ring().published_tail();
    d.reap(&vec![Cqe { user_data: RESERVED_COOKIE, result: -2, flags: 1 | (1 << 16) }]);
    assert_eq!(d.buf_ring().published_tail(), tail);
    assert!(d.get_buf(slings::CqeResult { result: Ok(2), flags: 1 | (1 << 16) }).is_ok());
}
