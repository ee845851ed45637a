use topic_vote::error::TopicError;
use topic_vote::instruction::TopicInstruction;
use topic_vote::key::Key;
use topic_vote::processor::{Participant, Processor, TopicAccount};
use topic_vote::state::Topic;

fn key(n: u8) -> Key {
    let mut bytes = vec![0u8; 32];
    bytes[0] = n;
    Key::new(bytes)
}

fn new_suite() -> (Key, TopicAccount, Participant) {
    let program_id = Key::default();
    let topic_account = TopicAccount {
        key: key(100),
        owner: Key::default(),
        data: Topic::empty_bytes(),
    };
    let topic_owner = Participant { key: key(101), is_signer: true };
    (program_id, topic_account, topic_owner)
}

fn run(
    program_id: &Key,
    account: &mut TopicAccount,
    actor: &Participant,
    instruction: TopicInstruction,
) -> Result<(), TopicError> {
    let data = instruction.pack();
    Processor::process(program_id, account, actor, &data)
}

fn create(
    program_id: &Key,
    account: &mut TopicAccount,
    actor: &Participant,
    topic_name: &[u8],
    option_name: &[u8],
) -> Result<(), TopicError> {
    run(program_id, account, actor, TopicInstruction::CreateTopic {
        topic_name: topic_name.to_vec(),
        option_name: option_name.to_vec(),
    })
}

fn add_option(
    program_id: &Key,
    account: &mut TopicAccount,
    actor: &Participant,
    option_name: &[u8],
) -> Result<(), TopicError> {
    run(program_id, account, actor, TopicInstruction::AddOption {
        option_name: option_name.to_vec(),
    })
}

fn vote(
    program_id: &Key,
    account: &mut TopicAccount,
    voter: &Participant,
    opt_idx: u8,
) -> Result<(), TopicError> {
    run(program_id, account, voter, TopicInstruction::VoteTopic { opt_idx })
}

fn finish(
    program_id: &Key,
    account: &mut TopicAccount,
    actor: &Participant,
) -> Result<(), TopicError> {
    run(program_id, account, actor, TopicInstruction::FinishTopic)
}

fn topic_eq(account: &TopicAccount, expect: &Topic) -> Result<bool, TopicError> {
    let topic = Topic::unpack_from_slice(&account.data)?;
    Ok(topic.eq(expect))
}

#[test]
fn test_create_topic() {
    let (pid, mut acc, owner) = new_suite();
    let topic_name = b"test_topic";
    let opt_name = b"test_option";
    create(&pid, &mut acc, &owner, topic_name, opt_name).unwrap();
    let mut expect = Topic::new(b"test_topic", &owner.key);
    expect.add_option(&acc.key, opt_name).unwrap();
    assert_eq!(Ok(true), topic_eq(&acc, &expect));

    assert_eq!(
        Err(TopicError::AlreadyInitialized),
        create(&pid, &mut acc, &owner, b"test_topic_2", b"test_option")
    )
}

#[test]
fn test_add_option() {
    let (pid, mut acc, owner) = new_suite();
    let topic_name = b"test_topic";
    let opt_name = b"test_option";
    create(&pid, &mut acc, &owner, topic_name, opt_name).unwrap();
    let mut expect_topic = Topic::new(topic_name, &owner.key);
    expect_topic.add_option(&acc.key, opt_name).unwrap();
    let opt_name = b"test_option2";
    add_option(&pid, &mut acc, &owner, opt_name).unwrap();
    expect_topic.add_option(&acc.key, opt_name).unwrap();

    assert_eq!(Ok(true), topic_eq(&acc, &expect_topic))
}

#[test]
fn test_vote() {
    let (pid, mut acc, owner) = new_suite();
    let topic_name = b"test_topic";
    let opt_name = b"test_option";
    let opt_name2 = b"test_option2";
    create(&pid, &mut acc, &owner, topic_name, opt_name).unwrap();
    add_option(&pid, &mut acc, &owner, opt_name2).unwrap();
    let mut expect_topic = Topic::new(topic_name, &owner.key);
    expect_topic.add_option(&acc.key, opt_name).unwrap();
    expect_topic.add_option(&acc.key, opt_name2).unwrap();

    let voter = Participant { key: key(102), is_signer: true };
    vote(&pid, &mut acc, &voter, 0).unwrap();
    expect_topic.options[0].add_voter(&voter.key).unwrap();
    assert_eq!(Ok(true), topic_eq(&acc, &expect_topic))
}

#[test]
fn test_finish_topic() {
    let (pid, mut acc, owner) = new_suite();
    let topic_name = b"test_topic";
    let opt_name = b"test_option";
    let opt_name2 = b"test_option2";
    create(&pid, &mut acc, &owner, topic_name, opt_name).unwrap();
    add_option(&pid, &mut acc, &owner, opt_name2).unwrap();
    let mut expect_topic = Topic::new(topic_name, &owner.key);
    expect_topic.add_option(&acc.key, opt_name).unwrap();
    expect_topic.add_option(&acc.key, opt_name2).unwrap();
    finish(&pid, &mut acc, &owner).unwrap();
    expect_topic.is_finished = true;
    // No votes were cast: both options tie at zero, so the tally picks the
    // lowest index.
    expect_topic.result_idx = 0;
    assert_eq!(Ok(true), topic_eq(&acc, &expect_topic))
}

#[test]
fn test_scenario_lunch() {
    let (pid, mut acc, owner) = new_suite();
    create(&pid, &mut acc, &owner, b"Lunch", b"Pizza").unwrap();
    let topic = Topic::unpack_from_slice(&acc.data).unwrap();
    assert_eq!(topic.opt_current_idx(), 1);
    assert_eq!(topic.name, b"Lunch".to_vec());

    add_option(&pid, &mut acc, &owner, b"Tacos").unwrap();
    let topic = Topic::unpack_from_slice(&acc.data).unwrap();
    assert_eq!(topic.opt_current_idx(), 2);

    let alice = Participant { key: key(102), is_signer: true };
    let bob = Participant { key: key(103), is_signer: true };
    vote(&pid, &mut acc, &alice, 0).unwrap();
    vote(&pid, &mut acc, &bob, 0).unwrap();
    let topic = Topic::unpack_from_slice(&acc.data).unwrap();
    assert_eq!(topic.options[0].current_voter_index(), 2);

    finish(&pid, &mut acc, &owner).unwrap();
    let topic = Topic::unpack_from_slice(&acc.data).unwrap();
    assert!(topic.is_finished);
    // Pizza got both votes, so it wins.
    assert_eq!(topic.result_idx, 0);
}

#[test]
fn test_gate_illegal_owner() {
    let (pid, mut acc, owner) = new_suite();
    acc.owner = key(50);
    let before = acc.data.clone();
    assert_eq!(
        Err(TopicError::IllegalOwner),
        create(&pid, &mut acc, &owner, b"t", b"o")
    );
    assert_eq!(before, acc.data);
}

#[test]
fn test_gate_missing_signature() {
    let (pid, mut acc, _) = new_suite();
    let unsigned = Participant { key: key(101), is_signer: false };
    let before = acc.data.clone();
    assert_eq!(
        Err(TopicError::MissingRequiredSignature),
        create(&pid, &mut acc, &unsigned, b"t", b"o")
    );
    assert_eq!(before, acc.data);
}

#[test]
fn test_gate_malformed_buffer() {
    let (pid, mut acc, owner) = new_suite();
    acc.data.pop();
    assert_eq!(
        Err(TopicError::MalformedRecord),
        create(&pid, &mut acc, &owner, b"t", b"o")
    );
}

#[test]
fn test_state_gating_uninitialized() {
    let (pid, mut acc, owner) = new_suite();
    let before = acc.data.clone();
    assert_eq!(
        Err(TopicError::InvalidAccountData),
        add_option(&pid, &mut acc, &owner, b"o")
    );
    assert_eq!(Err(TopicError::InvalidAccountData), vote(&pid, &mut acc, &owner, 0));
    assert_eq!(Err(TopicError::InvalidAccountData), finish(&pid, &mut acc, &owner));
    assert_eq!(before, acc.data);
}

#[test]
fn test_state_gating_finished() {
    let (pid, mut acc, owner) = new_suite();
    create(&pid, &mut acc, &owner, b"t", b"o").unwrap();
    finish(&pid, &mut acc, &owner).unwrap();
    let before = acc.data.clone();
    assert_eq!(
        Err(TopicError::InvalidAccountData),
        add_option(&pid, &mut acc, &owner, b"o2")
    );
    assert_eq!(Err(TopicError::InvalidAccountData), vote(&pid, &mut acc, &owner, 0));
    assert_eq!(Err(TopicError::InvalidAccountData), finish(&pid, &mut acc, &owner));
    assert_eq!(
        Err(TopicError::AlreadyInitialized),
        create(&pid, &mut acc, &owner, b"t2", b"o2")
    );
    assert_eq!(before, acc.data);
}

#[test]
fn test_finish_wrong_owner() {
    let (pid, mut acc, owner) = new_suite();
    create(&pid, &mut acc, &owner, b"t", b"o").unwrap();
    let intruder = Participant { key: key(66), is_signer: true };
    let before = acc.data.clone();
    assert_eq!(Err(TopicError::IllegalOwner), finish(&pid, &mut acc, &intruder));
    assert_eq!(before, acc.data);
}

#[test]
fn test_option_growth_and_cap() {
    let (pid, mut acc, owner) = new_suite();
    create(&pid, &mut acc, &owner, b"t", b"first").unwrap();
    for i in 0..8u8 {
        add_option(&pid, &mut acc, &owner, &[b'a' + i]).unwrap();
        let topic = Topic::unpack_from_slice(&acc.data).unwrap();
        assert_eq!(topic.opt_current_idx(), i + 2);
    }
    let before = acc.data.clone();
    assert_eq!(
        Err(TopicError::TooManyOptions),
        add_option(&pid, &mut acc, &owner, b"overflow")
    );
    assert_eq!(before, acc.data);
}

#[test]
fn test_vote_bounds_and_cap() {
    let (pid, mut acc, owner) = new_suite();
    create(&pid, &mut acc, &owner, b"t", b"o").unwrap();
    for i in 0..29u8 {
        let voter = Participant { key: key(i), is_signer: true };
        vote(&pid, &mut acc, &voter, 0).unwrap();
        let topic = Topic::unpack_from_slice(&acc.data).unwrap();
        assert_eq!(topic.options[0].current_voter_index(), i + 1);
    }
    let before = acc.data.clone();
    let voter = Participant { key: key(29), is_signer: true };
    assert_eq!(Err(TopicError::TooManyVoters), vote(&pid, &mut acc, &voter, 0));
    assert_eq!(before, acc.data);
}

#[test]
fn test_vote_index_out_of_range() {
    let (pid, mut acc, owner) = new_suite();
    create(&pid, &mut acc, &owner, b"t", b"o").unwrap();
    let before = acc.data.clone();
    assert_eq!(Err(TopicError::InvalidOptionIndex), vote(&pid, &mut acc, &owner, 1));
    assert_eq!(before, acc.data);
}

#[test]
fn test_create_name_too_long() {
    let (pid, mut acc, owner) = new_suite();
    let long = vec![b'x'; 100];
    let before = acc.data.clone();
    assert_eq!(
        Err(TopicError::FieldTooLong),
        create(&pid, &mut acc, &owner, &long, b"o")
    );
    assert_eq!(
        Err(TopicError::FieldTooLong),
        create(&pid, &mut acc, &owner, b"t", &long)
    );
    assert_eq!(before, acc.data);
}

#[test]
fn test_bad_instruction_stream() {
    let (pid, mut acc, owner) = new_suite();
    let before = acc.data.clone();
    assert_eq!(
        Err(TopicError::InvalidInstructionData),
        Processor::process(&pid, &mut acc, &owner, &[])
    );
    assert_eq!(
        Err(TopicError::InvalidInstructionData),
        Processor::process(&pid, &mut acc, &owner, &[9u8])
    );
    assert_eq!(before, acc.data);
}

#[test]
fn test_add_option_stores_prefix_before_delimiter() {
    // The wire accepts an option name carrying the delimiter; the state
    // machine stores the text before the first one, which is what the
    // stored field decodes back to.
    let (pid, mut acc, owner) = new_suite();
    create(&pid, &mut acc, &owner, b"t", b"first").unwrap();
    add_option(&pid, &mut acc, &owner, b"bad|name").unwrap();
    let topic = Topic::unpack_from_slice(&acc.data).unwrap();
    assert_eq!(topic.opt_current_idx(), 2);
    assert_eq!(topic.options[1].name, b"bad".to_vec());
}
