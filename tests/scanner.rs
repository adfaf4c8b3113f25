use ffctl::scanner::{GROUP_PORT, LOCAL_PORT, NAME_FIELD_LEN};
use ffctl::{machine_name, probe, Discovery, Error, ErrorKind, Next, Received};

fn reply(name: &[u8], total: usize) -> Vec<u8> {
    let mut d = name.to_vec();
    d.resize(total, 0);
    d
}

#[test]
fn scan_with_no_reply_yields_nothing() {
    let mut scan = Discovery::new();
    assert!(!scan.is_over());
    assert!(matches!(scan.step(Received::TimedOut), Next::End));
    assert!(scan.is_over());
}

#[test]
fn scan_yields_each_reply_then_ends() {
    let mut scan = Discovery::new();
    match scan.step(Received::Datagram(reply(b"Adventurer3", 140))) {
        Next::Device(Ok(name)) => assert_eq!(name, "Adventurer3"),
        _ => panic!("expected a device"),
    }
    assert!(!scan.is_over());
    match scan.step(Received::Datagram(reply(b"Adventurer3", 140))) {
        Next::Device(Ok(name)) => assert_eq!(name, "Adventurer3"),
        _ => panic!("expected the same device again"),
    }
    assert!(matches!(scan.step(Received::TimedOut), Next::End));
    assert!(scan.is_over());
}

#[test]
fn scan_ends_after_a_failure() {
    let mut scan = Discovery::new();
    assert!(matches!(scan.step(Received::Failed), Next::Failure));
    assert!(scan.is_over());
}

#[test]
fn name_fills_the_whole_field() {
    let d = vec![b'x'; 200];
    assert_eq!(machine_name(&d).unwrap(), "x".repeat(NAME_FIELD_LEN));
}

#[test]
fn short_or_invalid_names_fail() {
    let err = machine_name(&[b'a'; 10]).unwrap_err();
    assert_eq!(err, Error::ShortDatagram(10));
    assert_eq!(err.kind(), ErrorKind::Protocol);
    let err = machine_name(&reply(&[0xc3, 0x28], 128)).unwrap_err();
    assert_eq!(err, Error::InvalidUtf8(vec![0xc3, 0x28]));
}

#[test]
fn probe_and_ports() {
    assert_eq!(probe(), vec![0xc0, 0xa8, 0x01, 0x0c, 0x46, 0x51, 0x00, 0x00]);
    assert_eq!(LOCAL_PORT, 18001);
    assert_eq!(GROUP_PORT, 19000);
}
