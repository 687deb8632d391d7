use inquira::pump::{OutputPump, PumpEvent};

#[test]
fn chunks_become_output_events_in_read_order() {
    let mut p = OutputPump::new("s1".to_string());
    let mut seen = String::new();
    for chunk in [&b"a"[..], &b"b"[..], &b"echo hi\r\nhi\r\n"[..]] {
        match p.on_chunk(chunk) {
            PumpEvent::Data(d) => {
                assert_eq!(d.session_id, "s1");
                seen.push_str(&d.data);
            }
            PumpEvent::Exit(_) => panic!("ended early"),
        }
    }
    assert_eq!(seen, "abecho hi\r\nhi\r\n");
    assert!(seen.contains("hi"));
    assert!(p.is_running());
}

#[test]
fn end_of_stream_emits_one_exit() {
    let mut p = OutputPump::new("s2".to_string());
    assert!(matches!(p.on_chunk(b"x"), PumpEvent::Data(_)));
    match p.on_chunk(b"") {
        PumpEvent::Exit(e) => assert_eq!(e.session_id, "s2"),
        PumpEvent::Data(_) => panic!("empty read forwarded"),
    }
    assert!(!p.is_running());
}

#[test]
fn read_error_emits_one_exit() {
    let mut p = OutputPump::new("s3".to_string());
    let e = p.on_read_error();
    assert_eq!(e.session_id, "s3");
    assert!(!p.is_running());
}

#[test]
fn invalid_utf8_is_replaced_not_fatal() {
    let mut p = OutputPump::new("s4".to_string());
    match p.on_chunk(&[b'o', b'k', 0xff, 0xfe]) {
        PumpEvent::Data(d) => assert_eq!(d.data, "ok\u{fffd}\u{fffd}"),
        PumpEvent::Exit(_) => panic!("ended"),
    }
    match p.on_chunk("é".as_bytes()) {
        PumpEvent::Data(d) => assert_eq!(d.data, "é"),
        PumpEvent::Exit(_) => panic!("ended"),
    }
}
