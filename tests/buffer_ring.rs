use slings::{next_pow2, BufRing, Builder, CqeResult, Error, MAX_RING_ENTRIES};

#[test]
fn builder_defaults() {
    let b = Builder::new(7);
    assert_eq!(b.bgid, 7);
    assert_eq!(b.ring_entries, 128);
    assert_eq!(b.buf_cnt, 0);
    assert_eq!(b.buf_len, 4096);
}

#[test]
fn builder_setters_change_one_field() {
    let b = Builder::new(1).ring_entries(16).buf_cnt(8).buf_len(512);
    assert_eq!(b, Builder { bgid: 1, ring_entries: 16, buf_cnt: 8, buf_len: 512 });
}

#[test]
fn build_defaults_takes_count_from_entries() {
    let ring = Builder::new(3).build().unwrap();
    assert_eq!(ring.bgid(), 3);
    assert_eq!(ring.ring_entries(), 128);
    assert_eq!(ring.buf_cnt(), 128);
    assert_eq!(ring.buf_capacity(), 4096);
    assert_eq!(ring.published_tail(), 128);
}

#[test]
fn build_rounds_entries_to_power_of_two() {
    let ring = Builder::new(0).ring_entries(100).buf_cnt(10).buf_len(64).build().unwrap();
    assert_eq!(ring.ring_entries(), 128);
    assert_eq!(ring.buf_cnt(), 10);
}

#[test]
fn build_grows_ring_to_buffer_count() {
    let ring = Builder::new(0).ring_entries(100).buf_cnt(200).buf_len(64).build().unwrap();
    assert_eq!(ring.ring_entries(), 256);
    assert_eq!(ring.buf_cnt(), 200);
}

#[test]
fn build_rejects_too_many_entries() {
    let r = Builder::new(0).ring_entries(40000).buf_cnt(1).build();
    assert_eq!(r.err(), Some(Error::InvalidInput));
}

#[test]
fn build_accepts_largest_ring() {
    let ring = Builder::new(0).ring_entries(MAX_RING_ENTRIES).buf_cnt(1).buf_len(1).build().unwrap();
    assert_eq!(ring.ring_entries(), 32768);
}

#[test]
fn build_rejects_zero_length() {
    let r = Builder::new(0).buf_len(0).build();
    assert_eq!(r.err(), Some(Error::InvalidInput));
}

#[test]
fn build_zero_entries_zero_count_is_invalid() {
    let r = Builder::new(0).ring_entries(0).buf_cnt(0).build();
    assert_eq!(r.err(), Some(Error::InvalidInput));
}

#[test]
fn next_pow2_values() {
    assert_eq!(next_pow2(0), 1);
    assert_eq!(next_pow2(1), 1);
    assert_eq!(next_pow2(3), 4);
    assert_eq!(next_pow2(128), 128);
    assert_eq!(next_pow2(129), 256);
    assert_eq!(next_pow2(32768), 32768);
}

#[test]
fn ring_new_rejects_bad_arguments() {
    assert_eq!(BufRing::new(0, 3, 2, 8).err(), Some(Error::InvalidInput));
    assert_eq!(BufRing::new(0, 4, 5, 8).err(), Some(Error::InvalidInput));
    assert_eq!(BufRing::new(0, 4, 0, 8).err(), Some(Error::InvalidInput));
    assert_eq!(BufRing::new(0, 4, 4, 0).err(), Some(Error::InvalidInput));
    assert!(BufRing::new(0, 4, 4, 8).is_ok());
}

#[test]
fn fresh_ring_publishes_every_buffer_in_order() {
    let ring = BufRing::new(9, 4, 3, 32).unwrap();
    assert_eq!(ring.published_tail(), 3);
    for i in 0..3u16 {
        let e = ring.slot(i);
        assert_eq!(e.bid, i);
        assert_eq!(e.len, 32);
    }
    assert_eq!(ring.buffer(2).len(), 32);
}

#[test]
fn single_entry_ring_read_release_read() {
    let mut ring = Builder::new(5).ring_entries(1).buf_cnt(1).buf_len(16).build().unwrap();
    assert_eq!(ring.ring_entries(), 1);
    let h = ring.get_buf(5, 0).unwrap();
    assert_eq!(h.bid(), 0);
    assert_eq!(h.len(), 5);
    assert_eq!(ring.data(&h).len(), 5);
    assert!(ring.release(h));
    assert_eq!(ring.published_tail(), 2);
    assert_eq!(ring.slot(0).bid, 0);
    let h2 = ring.get_buf(3, 0).unwrap();
    assert_eq!(h2.len(), 3);
    assert!(ring.release(h2));
}

#[test]
fn loaned_buffer_cannot_be_received_twice() {
    let mut ring = BufRing::new(0, 2, 2, 8).unwrap();
    let h = ring.get_buf(4, 1).unwrap();
    assert_eq!(ring.get_buf(4, 1).err(), Some(Error::BufferNotFound));
    assert!(ring.release(h));
    assert!(ring.get_buf(4, 1).is_ok());
}

#[test]
fn get_buf_unknown_bid_is_not_found() {
    let mut ring = BufRing::new(0, 2, 2, 8).unwrap();
    assert_eq!(ring.get_buf(1, 2).err(), Some(Error::BufferNotFound));
}

#[test]
fn get_buf_too_long_republishes() {
    let mut ring = BufRing::new(0, 2, 2, 8).unwrap();
    let tail = ring.published_tail();
    assert_eq!(ring.get_buf(9, 0).err(), Some(Error::InvalidInput));
    assert_eq!(ring.published_tail(), tail.wrapping_add(1));
    assert!(ring.get_buf(8, 0).is_ok());
}

#[test]
fn null_holder_release_changes_nothing() {
    let mut ring = BufRing::new(0, 2, 2, 8).unwrap();
    let h = slings::BufferHolder::default();
    assert!(!h.is_owned());
    assert!(h.is_empty());
    assert!(!ring.release(h));
    assert_eq!(ring.published_tail(), 2);
}

#[test]
fn release_writes_slot_at_masked_tail() {
    let mut ring = BufRing::new(0, 4, 2, 8).unwrap();
    let h = ring.get_buf(1, 1).unwrap();
    assert!(ring.release(h));
    // tail was 2: the entry goes to slot 2 and the tail becomes 3
    assert_eq!(ring.slot(2).bid, 1);
    assert_eq!(ring.published_tail(), 3);
}

#[test]
fn get_error_with_buffer_recycles_it() {
    let mut ring = BufRing::new(0, 2, 2, 8).unwrap();
    let cqe = CqeResult { result: Err(Error::Kernel(104)), flags: 1 | (1 << 16) };
    assert_eq!(ring.get(cqe).err(), Some(Error::Kernel(104)));
    assert_eq!(ring.published_tail(), 3);
    // the old tail was 2, so the entry lands in slot 2 & mask = 0
    assert_eq!(ring.slot(0).bid, 1);
}

#[test]
fn get_success_without_buffer_is_not_found() {
    let mut ring = BufRing::new(0, 2, 2, 8).unwrap();
    let cqe = CqeResult { result: Ok(4), flags: 0 };
    assert_eq!(ring.get(cqe).err(), Some(Error::BufferNotFound));
}

#[test]
fn get_success_with_buffer_hands_it_out() {
    let mut ring = BufRing::new(0, 2, 2, 8).unwrap();
    let cqe = CqeResult { result: Ok(6), flags: 1 | (1 << 16) };
    let h = ring.get(cqe).unwrap();
    assert_eq!(h.bid(), 1);
    assert_eq!(h.len(), 6);
}
