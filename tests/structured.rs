use ffctl::structured::{file_names, Object, MAX_LIST_LEN};
use ffctl::{Error, ErrorKind};

fn listing_packet() -> Vec<u8> {
    vec![
        0x44, 0xaa, 0xaa, 0x44, 0x00, 0x00, 0x00, 0x05, 0x3a, 0x3a, 0xa3, 0xa3, 0x00, 0x00, 0x00,
        0x0c, 0x2f, 0x64, 0x61, 0x74, 0x61, 0x2f, 0x4e, 0x4d, 0x33, 0x2e, 0x67, 0x78, 0x3a, 0x3a,
        0xa3, 0xa3, 0x00, 0x00, 0x00, 0x17, 0x2f, 0x64, 0x61, 0x74, 0x61, 0x2f, 0x6e, 0x6f, 0x7a,
        0x7a, 0x6c, 0x65, 0x5f, 0x72, 0x65, 0x6d, 0x6f, 0x76, 0x65, 0x72, 0x2e, 0x67, 0x78, 0x3a,
        0x3a, 0xa3, 0xa3, 0x00, 0x00, 0x00, 0x13, 0x2f, 0x64, 0x61, 0x74, 0x61, 0x2f, 0x46, 0x69,
        0x67, 0x68, 0x74, 0x65, 0x72, 0x5f, 0x30, 0x31, 0x2e, 0x67, 0x78, 0x3a, 0x3a, 0xa3, 0xa3,
        0x00, 0x00, 0x00, 0x17, 0x2f, 0x64, 0x61, 0x74, 0x61, 0x2f, 0x42, 0x75, 0x66, 0x66, 0x5f,
        0x42, 0x65, 0x65, 0x72, 0x5f, 0x6d, 0x75, 0x67, 0x73, 0x2e, 0x67, 0x78, 0x3a, 0x3a, 0xa3,
        0xa3, 0x00, 0x00, 0x00, 0x15, 0x2f, 0x64, 0x61, 0x74, 0x61, 0x2f, 0x32, 0x30, 0x6d, 0x6d,
        0x5f, 0x42, 0x6f, 0x78, 0x2d, 0x50, 0x4c, 0x41, 0x2e, 0x67, 0x78,
    ]
}

#[test]
fn test_deserialize() {
    let packet = listing_packet();
    let (actual, used) = Object::read(&packet).unwrap();
    let expected = Object::Vector(vec![
        Object::String("/data/NM3.gx".into()),
        Object::String("/data/nozzle_remover.gx".into()),
        Object::String("/data/Fighter_01.gx".into()),
        Object::String("/data/Buff_Beer_mugs.gx".into()),
        Object::String("/data/20mm_Box-PLA.gx".into()),
    ]);
    assert_eq!(actual, expected);
    assert_eq!(used, packet.len());
}

#[test]
fn listing_yields_file_names() {
    let (obj, _) = Object::read(&listing_packet()).unwrap();
    let names = file_names(obj).unwrap();
    assert_eq!(names.len(), 5);
    assert_eq!(names[0], "/data/NM3.gx");
    assert_eq!(names[4], "/data/20mm_Box-PLA.gx");
}

#[test]
fn trailing_bytes_are_left_unread() {
    let mut packet = vec![0x3a, 0x3a, 0xa3, 0xa3, 0, 0, 0, 2, b'h', b'i'];
    packet.extend_from_slice(&[1, 2, 3]);
    let (obj, used) = Object::read(&packet).unwrap();
    assert_eq!(obj, Object::String("hi".into()));
    assert_eq!(used, 10);
}

#[test]
fn oversized_list_fails_on_its_header() {
    let packet = vec![0x44, 0xaa, 0xaa, 0x44, 0x00, 0x01, 0x00, 0x01];
    let err = Object::read(&packet).unwrap_err();
    assert_eq!(err, Error::OversizedList(65537));
    assert_eq!(err.kind(), ErrorKind::ResourceLimit);
    let huge = vec![0x44, 0xaa, 0xaa, 0x44, 0xff, 0xff, 0xff, 0xff, 0x3a];
    assert_eq!(Object::read(&huge).unwrap_err(), Error::OversizedList(u32::MAX));
}

#[test]
fn list_at_the_limit_is_read_until_the_input_ends() {
    let packet = vec![0x44, 0xaa, 0xaa, 0x44, 0x00, 0x01, 0x00, 0x00];
    assert_eq!(MAX_LIST_LEN, 65536);
    assert_eq!(Object::read(&packet).unwrap_err(), Error::Truncated);
}

#[test]
fn empty_list_and_empty_text() {
    let packet = vec![0x44, 0xaa, 0xaa, 0x44, 0, 0, 0, 0];
    assert_eq!(Object::read(&packet).unwrap(), (Object::Vector(vec![]), 8));
    let text = vec![0x3a, 0x3a, 0xa3, 0xa3, 0, 0, 0, 0];
    assert_eq!(Object::read(&text).unwrap(), (Object::String(String::new()), 8));
}

#[test]
fn nested_lists_are_decoded() {
    let packet = vec![
        0x44, 0xaa, 0xaa, 0x44, 0, 0, 0, 2, 0x44, 0xaa, 0xaa, 0x44, 0, 0, 0, 1, 0x3a, 0x3a, 0xa3,
        0xa3, 0, 0, 0, 1, b'a', 0x3a, 0x3a, 0xa3, 0xa3, 0, 0, 0, 1, b'b',
    ];
    let (obj, used) = Object::read(&packet).unwrap();
    assert_eq!(used, packet.len());
    assert_eq!(
        obj,
        Object::Vector(vec![
            Object::Vector(vec![Object::String("a".into())]),
            Object::String("b".into()),
        ])
    );
}

#[test]
fn unknown_tag_is_a_decode_error() {
    let err = Object::read(&[0x01, 0x02, 0x03, 0x04]).unwrap_err();
    assert_eq!(err, Error::UnknownTag(0x01020304));
    assert_eq!(err.kind(), ErrorKind::Decode);
}

#[test]
fn blob_tag_is_not_implemented() {
    let err = Object::read(&[0x2a, 0x2a, 0xa2, 0xa2, 0, 0, 0, 0]).unwrap_err();
    assert_eq!(err, Error::UnsupportedTag(0x2A2AA2A2));
    assert_eq!(err.kind(), ErrorKind::NotImplemented);
}

#[test]
fn truncated_input_fails() {
    assert_eq!(Object::read(&[0x3a, 0x3a]).unwrap_err(), Error::Truncated);
    assert_eq!(Object::read(&[0x3a, 0x3a, 0xa3, 0xa3, 0, 0, 0, 5, b'a']).unwrap_err(), Error::Truncated);
    let err = Object::read(&[0x44, 0xaa, 0xaa, 0x44, 0, 0, 0, 2, 0x3a, 0x3a, 0xa3, 0xa3, 0, 0, 0, 0])
        .unwrap_err();
    assert_eq!(err, Error::Truncated);
    assert_eq!(err.kind(), ErrorKind::Transport);
}

#[test]
fn invalid_utf8_text_fails() {
    let err = Object::read(&[0x3a, 0x3a, 0xa3, 0xa3, 0, 0, 0, 2, 0xff, 0xfe]).unwrap_err();
    assert_eq!(err, Error::InvalidUtf8(vec![0xff, 0xfe]));
    assert_eq!(err.kind(), ErrorKind::Decode);
}

#[test]
fn into_vec_and_into_string() {
    assert_eq!(Object::String("x".into()).into_string(), Some("x".to_string()));
    assert_eq!(Object::String("x".into()).into_vec(), None);
    assert_eq!(Object::Vector(vec![]).into_vec(), Some(vec![]));
    assert_eq!(Object::Vector(vec![]).into_string(), None);
    assert_eq!(Object::Blob(vec![1]).into_string(), None);
}

#[test]
fn listing_of_wrong_shape_is_a_type_mismatch() {
    let err = file_names(Object::String("x".into())).unwrap_err();
    assert_eq!(err, Error::NotAList);
    assert_eq!(err.kind(), ErrorKind::TypeMismatch);
    let mixed = Object::Vector(vec![Object::String("a".into()), Object::Vector(vec![])]);
    assert_eq!(file_names(mixed).unwrap_err(), Error::NotText);
}
