use ffctl::{expected_echo, request_frame, Error, ErrorKind, Event, Exchange, Step};

fn finished(step: Step) -> Result<String, Error> {
    match step {
        Step::Finished(r) => r,
        Step::ReadLine => panic!("the exchange should be over"),
    }
}

fn line(s: &str) -> Event {
    Event::Line(s.as_bytes().to_vec())
}

#[test]
fn request_frames() {
    assert_eq!(request_frame("M105", ""), b"~M105\r\n".to_vec());
    assert_eq!(request_frame("M601", "S1"), b"~M601 S1\r\n".to_vec());
    assert_eq!(expected_echo("M119"), b"CMD M119 Received.\r\n".to_vec());
}

#[test]
fn reply_is_collected_up_to_the_sentinel() {
    let mut ex = Exchange::new("M105");
    assert!(matches!(ex.step(line("CMD M105 Received.\r\n")), Step::ReadLine));
    assert!(matches!(ex.step(line("T0:210/210 B:45/0\r\n")), Step::ReadLine));
    let text = finished(ex.step(line("ok\r\n"))).unwrap();
    assert_eq!(text, "T0:210/210 B:45/0\r\n");
    assert!(ex.is_done());
}

#[test]
fn sentinel_may_close_the_last_payload_line() {
    let mut ex = Exchange::new("M27");
    assert!(matches!(ex.step(line("CMD M27 Received.\r\n")), Step::ReadLine));
    let text = finished(ex.step(line("SD printing byte 42/100ok\r\n"))).unwrap();
    assert_eq!(text, "SD printing byte 42/100");
}

#[test]
fn empty_reply() {
    let mut ex = Exchange::new("G28");
    assert!(matches!(ex.step(line("CMD G28 Received.\r\n")), Step::ReadLine));
    assert!(matches!(ex.step(line("\n")), Step::ReadLine));
    assert_eq!(finished(ex.step(line("ok\r\n"))), Ok("\n".to_string()));
}

#[test]
fn wrong_echo_is_a_protocol_error() {
    let mut ex = Exchange::new("M105");
    let err = finished(ex.step(line("CMD M119 Received.\r\n"))).unwrap_err();
    assert_eq!(err, Error::UnexpectedEcho(b"CMD M119 Received.\r\n".to_vec()));
    assert_eq!(err.kind(), ErrorKind::Protocol);
    assert!(ex.is_done());
}

#[test]
fn echo_without_carriage_return_is_refused() {
    let mut ex = Exchange::new("M105");
    let err = finished(ex.step(line("CMD M105 Received.\n"))).unwrap_err();
    assert_eq!(err.kind(), ErrorKind::Protocol);
}

#[test]
fn failed_echo_read_is_a_protocol_error() {
    let mut ex = Exchange::new("M105");
    let err = finished(ex.step(Event::Failed(b"CMD".to_vec()))).unwrap_err();
    assert_eq!(err, Error::UnexpectedEcho(b"CMD".to_vec()));
}

#[test]
fn closed_connection_during_reply_is_a_transport_error() {
    let mut ex = Exchange::new("M115");
    assert!(matches!(ex.step(line("CMD M115 Received.\r\n")), Step::ReadLine));
    assert!(matches!(ex.step(line("Machine Type: X\r\n")), Step::ReadLine));
    let err = finished(ex.step(line("partial"))).unwrap_err();
    assert_eq!(err, Error::ConnectionLost);
    assert_eq!(err.kind(), ErrorKind::Transport);

    let mut ex = Exchange::new("M115");
    assert!(matches!(ex.step(line("CMD M115 Received.\r\n")), Step::ReadLine));
    assert_eq!(finished(ex.step(line(""))), Err(Error::ConnectionLost));

    let mut ex = Exchange::new("M115");
    assert!(matches!(ex.step(line("CMD M115 Received.\r\n")), Step::ReadLine));
    assert_eq!(finished(ex.step(Event::Failed(vec![]))), Err(Error::ConnectionLost));
}

#[test]
fn invalid_utf8_reply_is_a_decode_error() {
    let mut ex = Exchange::new("M115");
    assert!(matches!(ex.step(line("CMD M115 Received.\r\n")), Step::ReadLine));
    let err = finished(ex.step(Event::Line(vec![0xff, b'o', b'k', b'\r', b'\n']))).unwrap_err();
    assert_eq!(err, Error::InvalidUtf8(vec![0xff]));
    assert_eq!(err.kind(), ErrorKind::Decode);
}
