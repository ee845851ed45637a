use vstd::prelude::*;

use crate::error::TopicError;
use crate::instruction::{TopicInstruction, decoded_option_name, decoded_topic_name, instr_ok};
use crate::key::{Key, wf_key};
use crate::state::{
    MAX_OPTIONS, MAX_VOTERS, OptionV, Topic, TopicV, new_option_v, spec_pack_topic,
    spec_parse_topic, spec_winner, topic_bytes_ok, wf_topic,
};
use crate::util::{MAX_NAME_LEN, delim_prefix, lemma_delim_prefix};

verus! {

/// The verified facts the execution environment supplies about one acting
/// participant: its identity and whether it signed the transaction.
pub struct Participant {
    pub key: Key,
    pub is_signer: bool,
}

/// The ledger slot a topic lives in: its address, the program that owns
/// it, and its raw byte buffer.
pub struct TopicAccount {
    /// The slot's own address; options record it as their parent.
    pub key: Key,
    /// The program that owns the slot; every operation checks it.
    pub owner: Key,
    /// The slot's storage: exactly one packed topic.
    pub data: Vec<u8>,
}

/// The state machine: it owns no state itself; every call reads the
/// supplied buffer, validates, mutates and writes it back.
pub struct Processor {}

/// The error the authorization and unpacking prelude of every operation
/// returns, if any: the account must be owned by the program, the acting
/// participant must have signed, and the buffer must parse.
pub open spec fn spec_gate(
    program_id: Seq<u8>,
    account_owner: Seq<u8>,
    is_signer: bool,
    b: Seq<u8>,
) -> Option<TopicError> {
    if account_owner != program_id {
        Some(TopicError::IllegalOwner)
    } else if !is_signer {
        Some(TopicError::MissingRequiredSignature)
    } else if !topic_bytes_ok(b) {
        Some(TopicError::MalformedRecord)
    } else {
        None
    }
}

/// What CreateTopic does to a parsed topic: only an uninitialized topic
/// (empty name) may be created; the acting participant becomes the owner
/// and the first option is appended. Of each name, only the text before
/// its first delimiter is stored: that prefix is what the stored field
/// decodes back to.
pub open spec fn spec_create(
    t0: TopicV,
    topic_key: Seq<u8>,
    actor_key: Seq<u8>,
    topic_name: Seq<u8>,
    option_name: Seq<u8>,
) -> Result<TopicV, TopicError> {
    if t0.name.len() != 0 {
        Err(TopicError::AlreadyInitialized)
    } else if topic_name.len() > MAX_NAME_LEN {
        Err(TopicError::FieldTooLong)
    } else if t0.options.len() >= MAX_OPTIONS {
        Err(TopicError::TooManyOptions)
    } else if option_name.len() > MAX_NAME_LEN {
        Err(TopicError::FieldTooLong)
    } else {
        Ok(TopicV {
            name: delim_prefix(topic_name),
            options: t0.options.push(
                new_option_v(topic_key, t0.options.len() as u8, delim_prefix(option_name)),
            ),
            owner: actor_key,
            result_idx: t0.result_idx,
            is_finished: t0.is_finished,
        })
    }
}

/// What AddOption does to a parsed topic: only an open topic (named, not
/// finished) takes another option, up to the usable cap. Only the text
/// before the name's first delimiter is stored: that prefix is what the
/// stored field decodes back to.
pub open spec fn spec_add_option(
    t0: TopicV,
    topic_key: Seq<u8>,
    option_name: Seq<u8>,
) -> Result<TopicV, TopicError> {
    if t0.name.len() == 0 || t0.is_finished {
        Err(TopicError::InvalidAccountData)
    } else if t0.options.len() >= MAX_OPTIONS {
        Err(TopicError::TooManyOptions)
    } else if option_name.len() > MAX_NAME_LEN {
        Err(TopicError::FieldTooLong)
    } else {
        Ok(TopicV {
            options: t0.options.push(
                new_option_v(topic_key, t0.options.len() as u8, delim_prefix(option_name)),
            ),
            ..t0
        })
    }
}

/// What VoteTopic does to a parsed topic: only an open topic takes votes,
/// only populated options can be voted for, up to the usable voter cap.
pub open spec fn spec_vote(t0: TopicV, voter_key: Seq<u8>, opt_idx: u8) -> Result<
    TopicV,
    TopicError,
> {
    if t0.name.len() == 0 || t0.is_finished {
        Err(TopicError::InvalidAccountData)
    } else if opt_idx as int >= t0.options.len() {
        Err(TopicError::InvalidOptionIndex)
    } else if t0.options[opt_idx as int].voters.len() >= MAX_VOTERS {
        Err(TopicError::TooManyVoters)
    } else {
        Ok(TopicV {
            options: t0.options.update(
                opt_idx as int,
                (OptionV {
                    voters: t0.options[opt_idx as int].voters.push(voter_key),
                    ..t0.options[opt_idx as int]
                }),
            ),
            ..t0
        })
    }
}

/// What FinishTopic does to a parsed topic: only the recorded owner may
/// finish an open topic; the winning option is tallied and the topic
/// becomes terminal.
pub open spec fn spec_finish(t0: TopicV, actor_key: Seq<u8>) -> Result<TopicV, TopicError> {
    if t0.name.len() == 0 || t0.is_finished {
        Err(TopicError::InvalidAccountData)
    } else if t0.owner != actor_key {
        Err(TopicError::IllegalOwner)
    } else {
        Ok(TopicV {
            is_finished: true,
            result_idx: spec_winner(t0.options) as u8,
            ..t0
        })
    }
}

/// The state transition a decodable instruction stream asks for, applied
/// to a parsed topic once the authorization prelude has found no fault.
pub open spec fn spec_transition(
    input: Seq<u8>,
    t0: TopicV,
    topic_key: Seq<u8>,
    actor_key: Seq<u8>,
) -> Result<TopicV, TopicError> {
    if input[0] == 0 {
        spec_create(
            t0,
            topic_key,
            actor_key,
            decoded_topic_name(input.skip(1)),
            decoded_option_name(input.skip(1)),
        )
    } else if input[0] == 1 {
        spec_add_option(t0, topic_key, input.skip(1))
    } else if input[0] == 2 {
        spec_vote(t0, actor_key, input[1])
    } else {
        spec_finish(t0, actor_key)
    }
}

/// What one full call of the processor does: decode the instruction, run
/// the authorization prelude, apply the transition.
pub open spec fn spec_process(
    program_id: Seq<u8>,
    account_key: Seq<u8>,
    account_owner: Seq<u8>,
    b: Seq<u8>,
    actor_key: Seq<u8>,
    is_signer: bool,
    input: Seq<u8>,
) -> Result<TopicV, TopicError> {
    if !instr_ok(input) {
        Err(TopicError::InvalidInstructionData)
    } else {
        match spec_gate(program_id, account_owner, is_signer, b) {
            Some(e) => Err(e),
            None => spec_transition(input, spec_parse_topic(b), account_key, actor_key),
        }
    }
}

impl Processor {
    /// Creates a topic in an uninitialized slot: checks ownership and the
    /// signature, decodes the buffer, names the topic, records the acting
    /// participant as owner and appends the first option. On any failure
    /// the buffer is untouched.
    pub fn process_create_topic(
        program_id: &Key,
        topic_account: &mut TopicAccount,
        topic_owner: &Participant,
        topic_name: &Vec<u8>,
        option_name: &Vec<u8>,
    ) -> (r: Result<(), TopicError>)
        requires
            wf_key(old(topic_account).key@),
            wf_key(topic_owner.key@),
        ensures
            final(topic_account).key@ == old(topic_account).key@,
            final(topic_account).owner@ == old(topic_account).owner@,
            match spec_gate(
                program_id@,
                old(topic_account).owner@,
                topic_owner.is_signer,
                old(topic_account).data@,
            ) {
                Some(e) => r == Err::<(), TopicError>(e) && final(topic_account).data@ == old(
                    topic_account,
                ).data@,
                None => match spec_create(
                    spec_parse_topic(old(topic_account).data@),
                    old(topic_account).key@,
                    topic_owner.key@,
                    topic_name@,
                    option_name@,
                ) {
                    Err(e) => r == Err::<(), TopicError>(e) && final(topic_account).data@ == old(
                        topic_account,
                    ).data@,
                    Ok(t1) => r == Ok::<(), TopicError>(()) && final(topic_account).data@
                        == spec_pack_topic(t1) && wf_topic(t1),
                },
            },
    {
        if topic_account.owner != *program_id {
            return Err(TopicError::IllegalOwner);
        }
        if !topic_owner.is_signer {
            return Err(TopicError::MissingRequiredSignature);
        }
        let mut topic = match Topic::unpack_from_slice(topic_account.data.as_slice()) {
            Ok(t) => t,
            Err(e) => {
                return Err(e);
            },
        };
        if !topic.name_is_empty() {
            return Err(TopicError::AlreadyInitialized);
        }
        match topic.set_name(topic_name.as_slice()) {
            Ok(u) => u,
            Err(e) => {
                return Err(e);
            },
        };
        topic.owner = topic_owner.key.dup();
        proof {
            lemma_delim_prefix(topic_name@);
        }
        match topic.add_option(&topic_account.key, option_name.as_slice()) {
            Ok(u) => u,
            Err(e) => {
                return Err(e);
            },
        };
        topic.pack_into_slice(&mut topic_account.data);
        Ok(())
    }

    /// Appends an option to an open topic: any signed participant may add
    /// one. On any failure the buffer is untouched.
    pub fn process_add_option(
        program_id: &Key,
        topic_account: &mut TopicAccount,
        option_adder: &Participant,
        option_name: &Vec<u8>,
    ) -> (r: Result<(), TopicError>)
        requires
            wf_key(old(topic_account).key@),
        ensures
            final(topic_account).key@ == old(topic_account).key@,
            final(topic_account).owner@ == old(topic_account).owner@,
            match spec_gate(
                program_id@,
                old(topic_account).owner@,
                option_adder.is_signer,
                old(topic_account).data@,
            ) {
                Some(e) => r == Err::<(), TopicError>(e) && final(topic_account).data@ == old(
                    topic_account,
                ).data@,
                None => match spec_add_option(
                    spec_parse_topic(old(topic_account).data@),
                    old(topic_account).key@,
                    option_name@,
                ) {
                    Err(e) => r == Err::<(), TopicError>(e) && final(topic_account).data@ == old(
                        topic_account,
                    ).data@,
                    Ok(t1) => r == Ok::<(), TopicError>(()) && final(topic_account).data@
                        == spec_pack_topic(t1) && wf_topic(t1),
                },
            },
    {
        if topic_account.owner != *program_id {
            return Err(TopicError::IllegalOwner);
        }
        if !option_adder.is_signer {
            return Err(TopicError::MissingRequiredSignature);
        }
        let mut topic = match Topic::unpack_from_slice(topic_account.data.as_slice()) {
            Ok(t) => t,
            Err(e) => {
                return Err(e);
            },
        };
        if topic.name_is_empty() || topic.is_finished {
            return Err(TopicError::InvalidAccountData);
        }
        match topic.add_option(&topic_account.key, option_name.as_slice()) {
            Ok(u) => u,
            Err(e) => {
                return Err(e);
            },
        };
        topic.pack_into_slice(&mut topic_account.data);
        Ok(())
    }

    /// Records a vote on an open topic: any signed participant may vote,
    /// any number of times. On any failure the buffer is untouched.
    pub fn process_vote(
        program_id: &Key,
        topic_account: &mut TopicAccount,
        voter: &Participant,
        opt_idx: u8,
    ) -> (r: Result<(), TopicError>)
        requires
            wf_key(voter.key@),
        ensures
            final(topic_account).key@ == old(topic_account).key@,
            final(topic_account).owner@ == old(topic_account).owner@,
            match spec_gate(
                program_id@,
                old(topic_account).owner@,
                voter.is_signer,
                old(topic_account).data@,
            ) {
                Some(e) => r == Err::<(), TopicError>(e) && final(topic_account).data@ == old(
                    topic_account,
                ).data@,
                None => match spec_vote(
                    spec_parse_topic(old(topic_account).data@),
                    voter.key@,
                    opt_idx,
                ) {
                    Err(e) => r == Err::<(), TopicError>(e) && final(topic_account).data@ == old(
                        topic_account,
                    ).data@,
                    Ok(t1) => r == Ok::<(), TopicError>(()) && final(topic_account).data@
                        == spec_pack_topic(t1) && wf_topic(t1),
                },
            },
    {
        if topic_account.owner != *program_id {
            return Err(TopicError::IllegalOwner);
        }
        if !voter.is_signer {
            return Err(TopicError::MissingRequiredSignature);
        }
        let mut topic = match Topic::unpack_from_slice(topic_account.data.as_slice()) {
            Ok(t) => t,
            Err(e) => {
                return Err(e);
            },
        };
        if topic.name_is_empty() || topic.is_finished {
            return Err(TopicError::InvalidAccountData);
        }
        match topic.vote(opt_idx, &voter.key) {
            Ok(u) => u,
            Err(e) => {
                return Err(e);
            },
        };
        topic.pack_into_slice(&mut topic_account.data);
        Ok(())
    }

    /// Finishes an open topic: only its recorded owner, signed, may do so;
    /// the winning option is tallied into `result_idx`. On any failure the
    /// buffer is untouched.
    pub fn process_finish(
        program_id: &Key,
        topic_account: &mut TopicAccount,
        topic_owner: &Participant,
    ) -> (r: Result<(), TopicError>)
        ensures
            final(topic_account).key@ == old(topic_account).key@,
            final(topic_account).owner@ == old(topic_account).owner@,
            match spec_gate(
                program_id@,
                old(topic_account).owner@,
                topic_owner.is_signer,
                old(topic_account).data@,
            ) {
                Some(e) => r == Err::<(), TopicError>(e) && final(topic_account).data@ == old(
                    topic_account,
                ).data@,
                None => match spec_finish(
                    spec_parse_topic(old(topic_account).data@),
                    topic_owner.key@,
                ) {
                    Err(e) => r == Err::<(), TopicError>(e) && final(topic_account).data@ == old(
                        topic_account,
                    ).data@,
                    Ok(t1) => r == Ok::<(), TopicError>(()) && final(topic_account).data@
                        == spec_pack_topic(t1) && wf_topic(t1),
                },
            },
    {
        if topic_account.owner != *program_id {
            return Err(TopicError::IllegalOwner);
        }
        if !topic_owner.is_signer {
            return Err(TopicError::MissingRequiredSignature);
        }
        let mut topic = match Topic::unpack_from_slice(topic_account.data.as_slice()) {
            Ok(t) => t,
            Err(e) => {
                return Err(e);
            },
        };
        if topic.name_is_empty() || topic.is_finished {
            return Err(TopicError::InvalidAccountData);
        }
        if topic.owner != topic_owner.key {
            return Err(TopicError::IllegalOwner);
        }
        match topic.finalize() {
            Ok(u) => u,
            Err(e) => {
                return Err(e);
            },
        };
        topic.pack_into_slice(&mut topic_account.data);
        Ok(())
    }

    /// One full call: decodes the instruction stream, then dispatches to
    /// the operation it names. On any failure the buffer is untouched.
    pub fn process(
        program_id: &Key,
        topic_account: &mut TopicAccount,
        actor: &Participant,
        input: &[u8],
    ) -> (r: Result<(), TopicError>)
        requires
            wf_key(old(topic_account).key@),
            wf_key(actor.key@),
        ensures
            final(topic_account).key@ == old(topic_account).key@,
            final(topic_account).owner@ == old(topic_account).owner@,
            match spec_process(
                program_id@,
                old(topic_account).key@,
                old(topic_account).owner@,
                old(topic_account).data@,
                actor.key@,
                actor.is_signer,
                input@,
            ) {
                Err(e) => r == Err::<(), TopicError>(e) && final(topic_account).data@ == old(
                    topic_account,
                ).data@,
                Ok(t1) => r == Ok::<(), TopicError>(()) && final(topic_account).data@
                    == spec_pack_topic(t1) && wf_topic(t1),
            },
    {
        let instruction = match TopicInstruction::unpack(input) {
            Ok(i) => i,
            Err(e) => {
                return Err(e);
            },
        };
        match instruction {
            TopicInstruction::CreateTopic { topic_name, option_name } => {
                Self::process_create_topic(
                    program_id,
                    topic_account,
                    actor,
                    &topic_name,
                    &option_name,
                )
            },
            TopicInstruction::AddOption { option_name } => {
                Self::process_add_option(program_id, topic_account, actor, &option_name)
            },
            TopicInstruction::VoteTopic { opt_idx } => {
                Self::process_vote(program_id, topic_account, actor, opt_idx)
            },
            TopicInstruction::FinishTopic => {
                Self::process_finish(program_id, topic_account, actor)
            },
        }
    }
}

} // verus!
