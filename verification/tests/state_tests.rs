use topic_vote::error::TopicError;
use topic_vote::key::Key;
use topic_vote::state::{Topic, TopicOption};

fn key(n: u8) -> Key {
    let mut bytes = vec![0u8; 32];
    bytes[0] = n;
    Key::new(bytes)
}

#[test]
fn test_option_pack_unpack() {
    let pkey = Key::default();
    let mut opt = TopicOption::new(&pkey, 0, b"test_option");
    let mut data = TopicOption::empty_bytes();
    opt.add_voter(&key(1)).unwrap();
    opt.pack_into_slice(&mut data);

    let opt2 = TopicOption::unpack_from_slice(&data).unwrap();
    assert_eq!(opt, opt2);
}

#[test]
fn test_topic_pack_unpack() {
    let pk = key(1);
    let mut topic = Topic::new(b"test_topic", &pk);
    topic.add_option(&pk, b"option_name").unwrap();
    let mut data = Topic::empty_bytes();
    topic.pack_into_slice(&mut data);

    let topic2 = Topic::unpack_from_slice(&data).unwrap();
    assert_eq!(topic, topic2);
}

#[test]
fn test_pack_is_deterministic() {
    let pk = key(2);
    let mut topic = Topic::new(b"dinner", &pk);
    topic.add_option(&pk, b"soup").unwrap();
    topic.options[0].add_voter(&key(3)).unwrap();
    let mut a = Topic::empty_bytes();
    let mut b = vec![9u8; Topic::get_packed_len()];
    topic.pack_into_slice(&mut a);
    topic.pack_into_slice(&mut b);
    assert_eq!(a, b);
}

#[test]
fn test_unpack_wrong_length_is_malformed() {
    let data = vec![0u8; Topic::get_packed_len() - 1];
    assert_eq!(Topic::unpack_from_slice(&data), Err(TopicError::MalformedRecord));
    let data = vec![0u8; TopicOption::get_packed_len() + 1];
    assert_eq!(TopicOption::unpack_from_slice(&data), Err(TopicError::MalformedRecord));
}

#[test]
fn test_unpack_count_out_of_range_is_malformed() {
    let mut data = Topic::empty_bytes();
    data[11040] = 10;
    assert_eq!(Topic::unpack_from_slice(&data), Err(TopicError::MalformedRecord));

    let mut data = TopicOption::empty_bytes();
    data[1093] = 30;
    assert_eq!(TopicOption::unpack_from_slice(&data), Err(TopicError::MalformedRecord));
}

#[test]
fn test_set_name_too_long() {
    let pk = key(4);
    let mut topic = Topic::new(b"t", &pk);
    let long = vec![b'x'; 100];
    assert_eq!(topic.set_name(&long), Err(TopicError::FieldTooLong));
    assert_eq!(topic.name, b"t".to_vec());
    assert_eq!(topic.set_name(b"renamed"), Ok(()));
    assert_eq!(topic.name, b"renamed".to_vec());
}

#[test]
fn test_add_option_cap() {
    let pk = key(5);
    let mut topic = Topic::new(b"t", &pk);
    for i in 0..9u8 {
        assert_eq!(topic.add_option(&pk, &[b'a' + i]), Ok(()));
    }
    assert_eq!(topic.opt_current_idx(), 9);
    assert_eq!(topic.add_option(&pk, b"one_too_many"), Err(TopicError::TooManyOptions));
    assert_eq!(topic.opt_current_idx(), 9);
}

#[test]
fn test_add_voter_cap() {
    let pk = key(6);
    let mut opt = TopicOption::new(&pk, 0, b"opt");
    for i in 0..29u8 {
        assert_eq!(opt.add_voter(&key(i)), Ok(()));
    }
    assert_eq!(opt.current_voter_index(), 29);
    assert_eq!(opt.add_voter(&key(29)), Err(TopicError::TooManyVoters));
    assert_eq!(opt.current_voter_index(), 29);
}

#[test]
fn test_vote_invalid_index() {
    let pk = key(7);
    let mut topic = Topic::new(b"t", &pk);
    topic.add_option(&pk, b"only").unwrap();
    assert_eq!(topic.vote(1, &key(8)), Err(TopicError::InvalidOptionIndex));
    assert_eq!(topic.vote(0, &key(8)), Ok(()));
    assert_eq!(topic.options[0].current_voter_index(), 1);
}

#[test]
fn test_finalize_tallies_winner() {
    let pk = key(9);
    let mut topic = Topic::new(b"t", &pk);
    topic.add_option(&pk, b"a").unwrap();
    topic.add_option(&pk, b"b").unwrap();
    topic.vote(1, &key(10)).unwrap();
    topic.vote(1, &key(11)).unwrap();
    topic.vote(0, &key(12)).unwrap();
    topic.finalize().unwrap();
    assert!(topic.is_finished);
    assert_eq!(topic.result_idx, 1);
}

#[test]
fn test_finalize_tie_picks_lowest_index() {
    let pk = key(13);
    let mut topic = Topic::new(b"t", &pk);
    topic.add_option(&pk, b"a").unwrap();
    topic.add_option(&pk, b"b").unwrap();
    topic.vote(0, &key(14)).unwrap();
    topic.vote(1, &key(15)).unwrap();
    topic.finalize().unwrap();
    assert_eq!(topic.result_idx, 0);
}

#[test]
fn test_fresh_buffer_is_uninitialized() {
    let data = Topic::empty_bytes();
    let topic = Topic::unpack_from_slice(&data).unwrap();
    assert!(topic.name_is_empty());
    assert_eq!(topic.opt_current_idx(), 0);
    assert!(!topic.is_finished);
}

#[test]
fn test_stored_name_truncates_at_delimiter() {
    let pk = key(20);
    let mut topic = Topic::new(b"top|ic", &pk);
    assert_eq!(topic.name, b"top".to_vec());
    topic.set_name(b"x|y").unwrap();
    assert_eq!(topic.name, b"x".to_vec());
    topic.add_option(&pk, b"a|b").unwrap();
    assert_eq!(topic.options[0].name, b"a".to_vec());

    let opt = TopicOption::new(&pk, 3, b"left|right");
    assert_eq!(opt.name, b"left".to_vec());
}
