use topic_vote::error::TopicError;
use topic_vote::instruction::TopicInstruction;

#[test]
fn test_pack_create_topic_wire_format() {
    let i = TopicInstruction::CreateTopic {
        topic_name: b"lunch".to_vec(),
        option_name: b"pizza".to_vec(),
    };
    assert_eq!(i.pack(), b"\x00lunch|pizza".to_vec());
}

#[test]
fn test_pack_other_wire_formats() {
    let add = TopicInstruction::AddOption { option_name: b"tacos".to_vec() };
    assert_eq!(add.pack(), b"\x01tacos".to_vec());
    let vote = TopicInstruction::VoteTopic { opt_idx: 7 };
    assert_eq!(vote.pack(), vec![2u8, 7u8]);
    let fin = TopicInstruction::FinishTopic;
    assert_eq!(fin.pack(), vec![3u8]);
}

#[test]
fn test_unpack_create_topic() {
    let i = TopicInstruction::unpack(b"\x00lunch|pizza").unwrap();
    match i {
        TopicInstruction::CreateTopic { topic_name, option_name } => {
            assert_eq!(topic_name, b"lunch".to_vec());
            assert_eq!(option_name, b"pizza".to_vec());
        }
        _ => panic!("wrong variant"),
    }
}

#[test]
fn test_unpack_round_trip() {
    for i in [
        TopicInstruction::CreateTopic {
            topic_name: b"a".to_vec(),
            option_name: b"b".to_vec(),
        },
        TopicInstruction::AddOption { option_name: b"c".to_vec() },
        TopicInstruction::VoteTopic { opt_idx: 3 },
        TopicInstruction::FinishTopic,
    ] {
        let packed = i.pack();
        let back = TopicInstruction::unpack(&packed).unwrap();
        assert_eq!(back.pack(), packed);
    }
}

#[test]
fn test_unpack_create_without_delimiter_drops_first_byte() {
    // No delimiter: the split index defaults to zero, the topic name decodes
    // to empty and the byte at the split point is dropped.
    let i = TopicInstruction::unpack(b"\x00abc").unwrap();
    match i {
        TopicInstruction::CreateTopic { topic_name, option_name } => {
            assert_eq!(topic_name, Vec::<u8>::new());
            assert_eq!(option_name, b"bc".to_vec());
        }
        _ => panic!("wrong variant"),
    }
}

#[test]
fn test_unpack_empty_input() {
    assert!(matches!(
        TopicInstruction::unpack(b""),
        Err(TopicError::InvalidInstructionData)
    ));
}

#[test]
fn test_unpack_unknown_tag() {
    assert!(matches!(
        TopicInstruction::unpack(&[9u8]),
        Err(TopicError::InvalidInstructionData)
    ));
}

#[test]
fn test_unpack_vote_without_index() {
    assert!(matches!(
        TopicInstruction::unpack(&[2u8]),
        Err(TopicError::InvalidInstructionData)
    ));
}

#[test]
fn test_unpack_create_empty_payload() {
    assert!(matches!(
        TopicInstruction::unpack(&[0u8]),
        Err(TopicError::InvalidInstructionData)
    ));
}

#[test]
fn test_unpack_option_name_may_carry_delimiter() {
    // Delimiters inside a decoded option name pass through the decoder; the
    // state layer stores only the text before the first one.
    let i = TopicInstruction::unpack(b"\x01bad|name").unwrap();
    match i {
        TopicInstruction::AddOption { option_name } => {
            assert_eq!(option_name, b"bad|name".to_vec());
        }
        _ => panic!("wrong variant"),
    }
    let i = TopicInstruction::unpack(b"\x00topic|bad|name").unwrap();
    match i {
        TopicInstruction::CreateTopic { topic_name, option_name } => {
            assert_eq!(topic_name, b"topic".to_vec());
            assert_eq!(option_name, b"bad|name".to_vec());
        }
        _ => panic!("wrong variant"),
    }
}

#[test]
fn test_unpack_option_name_with_delimiter_round_trips() {
    let i = TopicInstruction::AddOption { option_name: b"a|b".to_vec() };
    let packed = i.pack();
    let back = TopicInstruction::unpack(&packed).unwrap();
    assert_eq!(back.pack(), packed);
}

#[test]
fn test_unpack_invalid_text_rejected() {
    // 0xFF can never appear in well-formed UTF-8.
    assert!(matches!(
        TopicInstruction::unpack(&[1u8, 0xFF]),
        Err(TopicError::InvalidInstructionData)
    ));
    // Invalid bytes in the topic name part.
    assert!(matches!(
        TopicInstruction::unpack(&[0u8, 0xFF, b'|', b'a']),
        Err(TopicError::InvalidInstructionData)
    ));
    // Invalid bytes in the option name part.
    assert!(matches!(
        TopicInstruction::unpack(&[0u8, b'a', b'|', 0xC2]),
        Err(TopicError::InvalidInstructionData)
    ));
    // A truncated multi-byte sequence.
    assert!(matches!(
        TopicInstruction::unpack(&[1u8, 0xE2, 0x82]),
        Err(TopicError::InvalidInstructionData)
    ));
}

#[test]
fn test_unpack_multibyte_text_accepted() {
    // A two-byte and a three-byte scalar, both well-formed.
    let i = TopicInstruction::unpack(&[1u8, 0xC3, 0xA9, 0xE2, 0x82, 0xAC]).unwrap();
    match i {
        TopicInstruction::AddOption { option_name } => {
            assert_eq!(option_name, vec![0xC3, 0xA9, 0xE2, 0x82, 0xAC]);
        }
        _ => panic!("wrong variant"),
    }
}
