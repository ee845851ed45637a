use vstd::prelude::*;

use crate::error::TopicError;
use crate::util::{
    DELIM, bytes_range, delim_pos, has_delim, is_utf8, is_valid_utf8, lemma_delim_pos,
    lemma_delim_pos_unique,
};

verus! {

/// One decoded operation of the wire protocol.
///
/// Wire layout: one tag byte, then the payload. Tag 0 is CreateTopic (topic
/// name, a delimiter, option name), tag 1 is AddOption (option name), tag 2
/// is VoteTopic (one index byte), tag 3 is FinishTopic (no payload).
pub enum TopicInstruction {
    CreateTopic { topic_name: Vec<u8>, option_name: Vec<u8> },
    AddOption { option_name: Vec<u8> },
    VoteTopic { opt_idx: u8 },
    FinishTopic,
}

/// Where a CreateTopic payload splits: at its first delimiter, or at zero
/// when there is none.
pub open spec fn split_pos(rest: Seq<u8>) -> int {
    if has_delim(rest) {
        delim_pos(rest)
    } else {
        0
    }
}

/// The topic name a CreateTopic payload decodes to: the bytes before the
/// split point.
pub open spec fn decoded_topic_name(rest: Seq<u8>) -> Seq<u8> {
    rest.take(split_pos(rest))
}

/// The option name a CreateTopic payload decodes to: the bytes after the
/// split point, the byte at the split point dropped.
pub open spec fn decoded_option_name(rest: Seq<u8>) -> Seq<u8> {
    rest.skip(split_pos(rest) + 1)
}

/// Whether a byte stream decodes to an instruction: it is non-empty, its
/// tag is known, a CreateTopic payload has a byte to drop at its split
/// point, a VoteTopic payload has its index byte, and every decoded name
/// is valid text (well-formed UTF-8).
pub open spec fn instr_ok(b: Seq<u8>) -> bool {
    &&& b.len() >= 1
    &&& (b[0] == 0 || b[0] == 1 || b[0] == 2 || b[0] == 3)
    &&& (b[0] == 0 ==> split_pos(b.skip(1)) < b.skip(1).len() && is_utf8(
        decoded_topic_name(b.skip(1)),
    ) && is_utf8(decoded_option_name(b.skip(1))))
    &&& (b[0] == 1 ==> is_utf8(b.skip(1)))
    &&& (b[0] == 2 ==> b.len() >= 2)
}

/// The byte stream an instruction encodes to: its tag, then its payload,
/// with no padding.
pub open spec fn spec_pack_instruction(i: TopicInstruction) -> Seq<u8> {
    match i {
        TopicInstruction::CreateTopic { topic_name, option_name } => seq![0u8] + topic_name@
            + seq![DELIM] + option_name@,
        TopicInstruction::AddOption { option_name } => seq![1u8] + option_name@,
        TopicInstruction::VoteTopic { opt_idx } => seq![2u8, opt_idx],
        TopicInstruction::FinishTopic => seq![3u8],
    }
}

/// Whether an instruction's names are valid text, with CreateTopic's topic
/// name also free of the delimiter that ends it on the wire, so that its
/// encoding decodes back to it.
pub open spec fn instr_names_ok(i: TopicInstruction) -> bool {
    match i {
        TopicInstruction::CreateTopic { topic_name, option_name } => !has_delim(topic_name@)
            && is_utf8(topic_name@) && is_utf8(option_name@),
        TopicInstruction::AddOption { option_name } => is_utf8(option_name@),
        TopicInstruction::VoteTopic { opt_idx } => true,
        TopicInstruction::FinishTopic => true,
    }
}

/// Appends every byte of `src` to `buf`.
fn push_bytes(buf: &mut Vec<u8>, src: &Vec<u8>)
    ensures
        final(buf)@ == old(buf)@ + src@,
{
    let n = src.len();
    let mut i: usize = 0;
    while i < n
        invariant
            i <= n,
            n == src@.len(),
            buf@ == old(buf)@ + src@.take(i as int),
        decreases n - i,
    {
        proof {
            assert((old(buf)@ + src@.take(i as int)).push(src@[i as int]) =~= old(buf)@
                + src@.take(i as int + 1));
        }
        buf.push(src[i]);
        i += 1;
    }
    proof {
        assert(old(buf)@ + src@.take(n as int) =~= old(buf)@ + src@);
    }
}

impl TopicInstruction {
    /// Decodes an instruction from a byte stream. Fails with
    /// `InvalidInstructionData` when the stream is empty, the tag is
    /// unknown, a CreateTopic payload has no byte to drop at its split
    /// point, a VoteTopic payload lacks its index byte, or a decoded name
    /// is not valid text.
    pub fn unpack(input: &[u8]) -> (r: Result<TopicInstruction, TopicError>)
        ensures
            r is Ok <==> instr_ok(input@),
            r is Err ==> r == Err::<TopicInstruction, TopicError>(
                TopicError::InvalidInstructionData,
            ),
            instr_ok(input@) && input@[0] == 0 ==> (r matches Ok(
                TopicInstruction::CreateTopic { topic_name, option_name },
            ) && topic_name@ == decoded_topic_name(input@.skip(1)) && option_name@
                == decoded_option_name(input@.skip(1))),
            instr_ok(input@) && input@[0] == 1 ==> (r matches Ok(
                TopicInstruction::AddOption { option_name },
            ) && option_name@ == input@.skip(1)),
            instr_ok(input@) && input@[0] == 2 ==> (r matches Ok(
                TopicInstruction::VoteTopic { opt_idx },
            ) && opt_idx == input@[1]),
            instr_ok(input@) && input@[0] == 3 ==> r == Ok::<TopicInstruction, TopicError>(
                TopicInstruction::FinishTopic,
            ),
    {
        let n = input.len();
        if n == 0 {
            return Err(TopicError::InvalidInstructionData);
        }
        let tag = input[0];
        let ghost rest = input@.skip(1);
        proof {
            assert(rest.len() == n - 1);
            assert(forall|j: int| 0 <= j < rest.len() ==> rest[j] == input@[j + 1]);
        }
        if tag == 0 {
            let mut i: usize = 1;
            while i < n && input[i] != DELIM
                invariant
                    1 <= i <= n,
                    n == input@.len(),
                    forall|j: int| 1 <= j < i ==> input@[j] != DELIM,
                decreases n - i,
            {
                i += 1;
            }
            proof {
                lemma_delim_pos(rest);
                if i < n {
                    lemma_delim_pos_unique(rest, i - 1);
                    assert(has_delim(rest));
                } else {
                    lemma_delim_pos_unique(rest, rest.len() as int);
                    assert(!has_delim(rest));
                }
            }
            let split_index: usize = if i < n {
                i - 1
            } else {
                0
            };
            proof {
                assert(split_index as int == split_pos(rest));
            }
            if split_index >= n - 1 {
                return Err(TopicError::InvalidInstructionData);
            }
            let topic_name = bytes_range(input, 1, split_index);
            let option_name = bytes_range(input, split_index + 2, n - split_index - 2);
            proof {
                assert(topic_name@ =~= decoded_topic_name(rest));
                assert(option_name@ =~= decoded_option_name(rest));
            }
            if !is_valid_utf8(topic_name.as_slice()) {
                return Err(TopicError::InvalidInstructionData);
            }
            if !is_valid_utf8(option_name.as_slice()) {
                return Err(TopicError::InvalidInstructionData);
            }
            Ok(TopicInstruction::CreateTopic { topic_name, option_name })
        } else if tag == 1 {
            let option_name = bytes_range(input, 1, n - 1);
            proof {
                assert(option_name@ =~= rest);
            }
            if !is_valid_utf8(option_name.as_slice()) {
                return Err(TopicError::InvalidInstructionData);
            }
            Ok(TopicInstruction::AddOption { option_name })
        } else if tag == 2 {
            if n < 2 {
                return Err(TopicError::InvalidInstructionData);
            }
            let opt_idx = input[1];
            Ok(TopicInstruction::VoteTopic { opt_idx })
        } else if tag == 3 {
            Ok(TopicInstruction::FinishTopic)
        } else {
            Err(TopicError::InvalidInstructionData)
        }
    }

    /// Encodes this instruction: the tag byte, then the payload, with no
    /// padding.
    pub fn pack(&self) -> (r: Vec<u8>)
        ensures
            r@ == spec_pack_instruction(*self),
    {
        let mut buf: Vec<u8> = Vec::new();
        match self {
            TopicInstruction::CreateTopic { topic_name, option_name } => {
                buf.push(0);
                push_bytes(&mut buf, topic_name);
                buf.push(DELIM);
                push_bytes(&mut buf, option_name);
                proof {
                    assert(buf@ =~= seq![0u8] + topic_name@ + seq![DELIM] + option_name@);
                }
            },
            TopicInstruction::AddOption { option_name } => {
                buf.push(1);
                push_bytes(&mut buf, option_name);
                proof {
                    assert(buf@ =~= seq![1u8] + option_name@);
                }
            },
            TopicInstruction::VoteTopic { opt_idx } => {
                buf.push(2);
                buf.push(*opt_idx);
                proof {
                    assert(buf@ =~= seq![2u8, *opt_idx]);
                }
            },
            TopicInstruction::FinishTopic => {
                buf.push(3);
                proof {
                    assert(buf@ =~= seq![3u8]);
                }
            },
        }
        buf
    }
}

/// Encode/decode inverse law: an instruction whose names are free of the
/// delimiter encodes to a stream that decodes, and the decoded fields are
/// the instruction's own.
pub proof fn lemma_instruction_round_trip(i: TopicInstruction)
    requires
        instr_names_ok(i),
    ensures
        instr_ok(spec_pack_instruction(i)),
        (i matches TopicInstruction::CreateTopic { topic_name, option_name } ==> decoded_topic_name(
            spec_pack_instruction(i).skip(1),
        ) == topic_name@ && decoded_option_name(spec_pack_instruction(i).skip(1)) == option_name@),
        (i matches TopicInstruction::AddOption { option_name } ==> spec_pack_instruction(i).skip(1)
            == option_name@),
        (i matches TopicInstruction::VoteTopic { opt_idx } ==> spec_pack_instruction(i)[1]
            == opt_idx),
{
    let b = spec_pack_instruction(i);
    match i {
        TopicInstruction::CreateTopic { topic_name, option_name } => {
            let rest = b.skip(1);
            assert(rest =~= topic_name@ + seq![DELIM] + option_name@);
            assert(forall|j: int| 0 <= j < topic_name@.len() ==> rest[j] == topic_name@[j]);
            assert(rest[topic_name@.len() as int] == DELIM);
            assert forall|j: int| 0 <= j < topic_name@.len() implies rest[j] != DELIM by {
                assert(!has_delim(topic_name@));
            }
            lemma_delim_pos_unique(rest, topic_name@.len() as int);
            assert(has_delim(rest));
            assert(split_pos(rest) == topic_name@.len());
            assert(rest.take(topic_name@.len() as int) =~= topic_name@);
            assert(rest.skip(topic_name@.len() as int + 1) =~= option_name@);
        },
        TopicInstruction::AddOption { option_name } => {
            assert(b.skip(1) =~= option_name@);
        },
        TopicInstruction::VoteTopic { opt_idx } => {
            assert(b.len() == 2);
        },
        TopicInstruction::FinishTopic => {
        },
    }
}

} // verus!
