use slings::{
    AcceptMulti, BufRing, Cqe, CqeResult, Error, OpKind, Output, Payload, RecvMulti, ECANCELED,
    ETIME,
};

#[test]
fn cqe_result_lifts_negative_to_errno() {
    let c = CqeResult::from_cqe(Cqe { user_data: 3, result: -11, flags: 2 });
    assert_eq!(c.result, Err(Error::Kernel(11)));
    assert_eq!(c.flags, 2);
    assert!(c.more());
    let ok = CqeResult::from_cqe(Cqe { user_data: 3, result: 7, flags: 0 });
    assert_eq!(ok.result, Ok(7));
    assert!(!ok.more());
}

#[test]
fn cqe_most_negative_result() {
    let c = CqeResult::from_cqe(Cqe { user_data: 0, result: i32::MIN, flags: 0 });
    assert_eq!(c.result, Err(Error::Kernel(2147483648)));
}

#[test]
fn reserved_cookie_is_all_ones() {
    assert!(Cqe { user_data: u64::MAX, result: 0, flags: 0 }.is_reserved());
    assert!(!Cqe { user_data: 1, result: 0, flags: 0 }.is_reserved());
    assert!(Cqe { user_data: 1, result: 0, flags: 2 | 1 }.more());
}

fn ring() -> BufRing {
    BufRing::new(0, 4, 4, 64).unwrap()
}

#[test]
fn timeout_expiry_is_success() {
    let mut r = ring();
    let out = Payload::timeout(0, 10).complete(CqeResult { result: Err(Error::Kernel(ETIME)), flags: 0 }, &mut r);
    assert!(matches!(out, Ok(Output::Done)));
}

#[test]
fn timeout_cancelled_is_success() {
    let mut r = ring();
    let out = Payload::timeout(0, 10).complete(CqeResult { result: Err(Error::Kernel(ECANCELED)), flags: 0 }, &mut r);
    assert!(matches!(out, Ok(Output::Done)));
}

#[test]
fn timeout_other_error_propagates() {
    let mut r = ring();
    let out = Payload::timeout(1, 0).complete(CqeResult { result: Err(Error::Kernel(22)), flags: 0 }, &mut r);
    assert!(matches!(out, Err(Error::Kernel(22))));
}

#[test]
fn timeout_success_result_is_timed_out() {
    let mut r = ring();
    let out = Payload::timeout(1, 0).complete(CqeResult { result: Ok(0), flags: 0 }, &mut r);
    assert!(matches!(out, Err(Error::TimedOut)));
}

#[test]
fn timeout_payload_holds_seconds_and_nanos() {
    match Payload::timeout(2, 500) {
        Payload::Timeout { spec } => assert_eq!(spec, vec![2u64, 500]),
        _ => panic!("wrong payload"),
    }
}

#[test]
fn write_payload_copies_bytes_and_counts() {
    let p = Payload::write(b"helloworld");
    assert_eq!(p.op_kind(), OpKind::Write);
    match &p {
        Payload::Write { buf } => assert_eq!(buf.as_slice(), b"helloworld"),
        _ => panic!("wrong payload"),
    }
    let mut r = ring();
    let out = p.complete(CqeResult { result: Ok(10), flags: 0 }, &mut r);
    assert!(matches!(out, Ok(Output::Count(10))));
}

#[test]
fn send_error_propagates() {
    let mut r = ring();
    let out = Payload::send(b"abcde").complete(CqeResult { result: Err(Error::Kernel(32)), flags: 0 }, &mut r);
    assert!(matches!(out, Err(Error::Kernel(32))));
}

#[test]
fn accept_payload_and_output() {
    let p = Payload::accept();
    match &p {
        Payload::Accept { addr } => {
            assert_eq!(addr.len(), 17);
            assert_eq!(addr[16], 128);
        }
        _ => panic!("wrong payload"),
    }
    let mut r = ring();
    match p.complete(CqeResult { result: Ok(9), flags: 0 }, &mut r) {
        Ok(Output::Accepted { fd, addr }) => {
            assert_eq!(fd, 9);
            assert_eq!(addr.len(), 17);
        }
        _ => panic!("wrong output"),
    }
}

#[test]
fn read_without_buffer_is_not_found() {
    let mut r = ring();
    let out = Payload::Read.complete(CqeResult { result: Ok(3), flags: 0 }, &mut r);
    assert!(matches!(out, Err(Error::BufferNotFound)));
}

#[test]
fn recv_with_buffer_yields_holder() {
    let mut r = ring();
    match Payload::Recv.complete(CqeResult { result: Ok(5), flags: 1 | (2 << 16) }, &mut r) {
        Ok(Output::Buffer(h)) => {
            assert_eq!(h.bid(), 2);
            assert_eq!(h.len(), 5);
        }
        _ => panic!("wrong output"),
    }
}

#[test]
fn connect_and_shutdown_outputs() {
    let mut r = ring();
    assert!(matches!(Payload::Shutdown.complete(CqeResult { result: Ok(0), flags: 0 }, &mut r), Ok(Output::Done)));
    assert!(matches!(
        Payload::Connect { addr: vec![0; 17] }.complete(CqeResult { result: Err(Error::Kernel(111)), flags: 0 }, &mut r),
        Err(Error::Kernel(111))
    ));
}

#[test]
fn accept_multi_queue_is_fifo() {
    let mut m = AcceptMulti::new();
    m.update(CqeResult { result: Ok(5), flags: 2 });
    m.update(CqeResult { result: Err(Error::Kernel(24)), flags: 2 });
    assert_eq!(m.next(), Some(Ok(5)));
    assert_eq!(m.next(), Some(Err(Error::Kernel(24))));
    assert_eq!(m.next(), None);
}

#[test]
fn recv_multi_queue_resolves_buffers() {
    let mut r = ring();
    let mut m = RecvMulti::new();
    m.update(CqeResult { result: Ok(4), flags: 1 | 2 | (3 << 16) }, &mut r);
    m.update(CqeResult { result: Err(Error::Kernel(104)), flags: 2 }, &mut r);
    let first = m.next().unwrap().unwrap();
    assert_eq!(first.bid(), 3);
    assert_eq!(first.len(), 4);
    assert!(matches!(m.next(), Some(Err(Error::Kernel(104)))));
    assert!(m.next().is_none());
}

#[test]
fn recvmsg_yields_buffer_and_address_storage() {
    let mut r = ring();
    let mem: Vec<u64> = (0..25u64).collect();
    let p = Payload::RecvMsg { mem: mem.clone() };
    match p.complete(CqeResult { result: Ok(5), flags: 1 | (1 << 16) }, &mut r) {
        Ok(Output::BufferFrom { buf, addr }) => {
            assert_eq!(buf.bid(), 1);
            assert_eq!(buf.len(), 5);
            assert_eq!(addr, mem);
        }
        _ => panic!("wrong output"),
    }
}

#[test]
fn recvmsg_error_recycles_selected_buffer() {
    let mut r = ring();
    let tail = r.published_tail();
    let out = Payload::RecvMsg { mem: vec![0; 25] }.complete(CqeResult { result: Err(Error::Kernel(11)), flags: 1 | (3 << 16) }, &mut r);
    assert!(matches!(out, Err(Error::Kernel(11))));
    assert_eq!(r.published_tail(), tail.wrapping_add(1));
}
