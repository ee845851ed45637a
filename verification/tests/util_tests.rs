use topic_vote::error::TopicError;
use topic_vote::util::{str_pack, str_unpack};

#[test]
fn test_str_pack_unpack() {
    let str_test = b"tests";
    let mut str_bytes: Vec<u8> = vec![0u8; 100];
    str_pack(str_test, &mut str_bytes).unwrap();

    let unpack_str = str_unpack(&str_bytes);
    assert_eq!(str_test.to_vec(), unpack_str);
}

#[test]
fn test_str_empty_round_trip() {
    let mut buf: Vec<u8> = vec![0u8; 100];
    str_pack(b"", &mut buf).unwrap();
    assert_eq!(buf[0], b'|');
    assert_eq!(str_unpack(&buf), Vec::<u8>::new());
}

#[test]
fn test_str_longest_name_round_trip() {
    let name: Vec<u8> = vec![b'a'; 99];
    let mut buf: Vec<u8> = vec![0u8; 100];
    str_pack(&name, &mut buf).unwrap();
    assert_eq!(buf[99], b'|');
    assert_eq!(str_unpack(&buf), name);
}

#[test]
fn test_str_no_delimiter_decodes_empty() {
    let buf: Vec<u8> = vec![b'x'; 100];
    assert_eq!(str_unpack(&buf), Vec::<u8>::new());
}

#[test]
fn test_str_delimiter_first_decodes_empty() {
    let mut buf: Vec<u8> = vec![b'x'; 100];
    buf[0] = b'|';
    assert_eq!(str_unpack(&buf), Vec::<u8>::new());
}

#[test]
fn test_str_pack_keeps_tail() {
    let mut buf: Vec<u8> = vec![7u8; 100];
    str_pack(b"ab", &mut buf).unwrap();
    assert_eq!(&buf[..3], &[b'a', b'b', b'|']);
    assert_eq!(buf[3], 7);
    assert_eq!(buf[99], 7);
    assert_eq!(str_unpack(&buf), b"ab".to_vec());
}

#[test]
fn test_str_pack_too_long() {
    let name: Vec<u8> = vec![b'a'; 100];
    let mut buf: Vec<u8> = vec![7u8; 100];
    assert_eq!(str_pack(&name, &mut buf), Err(TopicError::FieldTooLong));
    assert_eq!(buf, vec![7u8; 100]);
}
