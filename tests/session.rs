use quicsock::session::{plan_send, start_receive, ReceiveStart};
use quicsock::streams::{register_pair, HandleCounter, StreamMap};

fn one_stream() -> (StreamMap<&'static str>, StreamMap<&'static str>, u64) {
    let mut counter = HandleCounter::new();
    let mut sends = StreamMap::new();
    let mut recvs = StreamMap::new();
    let h = register_pair(&mut counter, &mut sends, &mut recvs, "send", "recv").unwrap();
    (sends, recvs, h)
}

#[test]
fn send_on_unopened_handle_does_nothing() {
    let (mut sends, _, h) = one_stream();
    assert!(plan_send(&mut sends, h + 1, b"payload").is_none());
    assert!(sends.contains(h));
}

#[test]
fn send_on_open_handle_takes_the_stream_and_cuts_chunks() {
    let (mut sends, _, h) = one_stream();
    let data = vec![7u8; 2050];
    let plan = plan_send(&mut sends, h, &data).unwrap();
    assert_eq!(plan.stream, "send");
    assert_eq!(plan.chunks.len(), 3);
    assert_eq!(plan.chunks[2], vec![7u8; 2]);
    assert!(!sends.contains(h));
    let empty = plan_send(&mut { let (s, _, _) = one_stream(); s }, 0, &[]).unwrap();
    assert!(empty.chunks.is_empty());
}

#[test]
fn receive_on_unopened_handle_is_empty() {
    let (_, mut recvs, h) = one_stream();
    match start_receive(&mut recvs, h + 3) {
        ReceiveStart::Done(payload) => assert!(payload.is_empty()),
        ReceiveStart::Read(..) => panic!("an unopened handle has nothing to read"),
    }
    assert!(recvs.contains(h));
}

#[test]
fn receive_on_open_handle_takes_the_stream() {
    let (_, mut recvs, h) = one_stream();
    match start_receive(&mut recvs, h) {
        ReceiveStart::Read(stream, buffer) => {
            assert_eq!(stream, "recv");
            assert!(buffer.finish().is_empty());
        }
        ReceiveStart::Done(_) => panic!("an open handle is read"),
    }
    assert!(!recvs.contains(h));
}
