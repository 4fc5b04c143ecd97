use quicsock::streams::{register_pair, HandleCounter, StreamMap, CLOSE_CODE, CLOSE_REASON};

#[test]
fn handles_are_contiguous_from_zero() {
    let mut counter = HandleCounter::new();
    let mut sends: StreamMap<&str> = StreamMap::new();
    let mut recvs: StreamMap<&str> = StreamMap::new();
    let mut handles = Vec::new();
    for _ in 0..5 {
        handles.push(register_pair(&mut counter, &mut sends, &mut recvs, "s", "r").unwrap());
    }
    assert_eq!(handles, vec![0, 1, 2, 3, 4]);
    assert_eq!(counter.peek(), 5);
    for h in 0..5u64 {
        assert!(sends.contains(h));
        assert!(recvs.contains(h));
    }
    assert!(!sends.contains(5));
}

#[test]
fn open_and_accept_share_one_counter() {
    let mut counter = HandleCounter::new();
    assert_eq!(counter.allocate(), Some(0));
    assert_eq!(counter.allocate(), Some(1));
    let mut sends: StreamMap<u8> = StreamMap::new();
    let mut recvs: StreamMap<u8> = StreamMap::new();
    assert_eq!(register_pair(&mut counter, &mut sends, &mut recvs, 7, 8), Some(2));
}

#[test]
fn take_of_unknown_handle_has_no_effect() {
    let mut counter = HandleCounter::new();
    let mut sends: StreamMap<u32> = StreamMap::new();
    let mut recvs: StreamMap<u32> = StreamMap::new();
    let h = register_pair(&mut counter, &mut sends, &mut recvs, 10, 20).unwrap();
    assert_eq!(sends.take(42), None);
    assert!(sends.contains(h));
    assert_eq!(recvs.take(42), None);
    assert!(recvs.contains(h));
}

#[test]
fn take_and_restore_keep_the_handle() {
    let mut counter = HandleCounter::new();
    let mut sends: StreamMap<u32> = StreamMap::new();
    let mut recvs: StreamMap<u32> = StreamMap::new();
    let h = register_pair(&mut counter, &mut sends, &mut recvs, 10, 20).unwrap();
    assert_eq!(sends.take(h), Some(10));
    assert!(!sends.contains(h));
    sends.restore(h, 10);
    assert!(sends.contains(h));
    assert_eq!(recvs.take(h), Some(20));
}

#[test]
fn close_constants() {
    assert_eq!(CLOSE_CODE, 0);
    assert_eq!(CLOSE_REASON, "done");
}
