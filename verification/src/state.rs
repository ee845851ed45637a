use vstd::prelude::*;

use crate::error::TopicError;
use crate::key::{Key, KEY_LEN, copy_keys, wf_key};
use crate::util::{
    MAX_NAME_LEN, copy_bytes, delim_prefix, name_field_byte, name_prefix, spec_parse_name,
    valid_name, zero_bytes,
};

verus! {

/// Number of option slots a packed topic reserves.
pub const OPTION_SLOTS: usize = 10;

/// Number of options a topic can actually hold: the last slot is a reserved
/// sentinel, never assigned.
pub const MAX_OPTIONS: usize = 9;

/// Number of voter slots a packed option reserves.
pub const VOTER_SLOTS: usize = 30;

/// Number of voters an option can actually hold: the last slot is a
/// reserved sentinel, never assigned.
pub const MAX_VOTERS: usize = 29;

/// Packed length of one option: 32 parent key + 1 index + 100 name
/// + 30 * 32 voters + 1 count.
pub const OPTION_PACKED_LEN: usize = 1094;

/// Packed length of one topic: 100 name + 10 * 1094 options + 1 count
/// + 32 owner + 1 result + 1 finished.
pub const TOPIC_PACKED_LEN: usize = 11075;

/// One voting choice, embedded by value inside its parent topic.
#[derive(Debug)]
pub struct TopicOption {
    /// Identity of the parent topic's account; an audit back-reference.
    pub belongs_to: Key,
    /// This option's position within the parent's option sequence.
    pub belongs_idx: u8,
    /// The option's display text.
    pub name: Vec<u8>,
    /// The identities recorded as having voted for this option.
    pub voters: Vec<Key>,
}

/// The mathematical value of a [`TopicOption`].
#[verifier::ext_equal]
pub struct OptionV {
    pub belongs_to: Seq<u8>,
    pub belongs_idx: u8,
    pub name: Seq<u8>,
    pub voters: Seq<Seq<u8>>,
}

impl View for TopicOption {
    type V = OptionV;

    open spec fn view(&self) -> OptionV {
        OptionV {
            belongs_to: self.belongs_to@,
            belongs_idx: self.belongs_idx,
            name: self.name@,
            voters: Seq::new(self.voters@.len(), |i: int| self.voters@[i]@),
        }
    }
}

/// The root entity: one topic per ledger slot.
#[derive(Debug)]
pub struct Topic {
    /// The topic's display text; empty means the topic is uninitialized.
    pub name: Vec<u8>,
    /// The populated options, in creation order.
    pub options: Vec<TopicOption>,
    /// The identity permitted to finalize the topic; set once at creation.
    pub owner: Key,
    /// Index of the winning option once finalized; zero before that.
    pub result_idx: u8,
    /// Terminal-state flag: once set, no further mutation is permitted.
    pub is_finished: bool,
}

/// The mathematical value of a [`Topic`].
#[verifier::ext_equal]
pub struct TopicV {
    pub name: Seq<u8>,
    pub options: Seq<OptionV>,
    pub owner: Seq<u8>,
    pub result_idx: u8,
    pub is_finished: bool,
}

impl View for Topic {
    type V = TopicV;

    open spec fn view(&self) -> TopicV {
        TopicV {
            name: self.name@,
            options: Seq::new(self.options@.len(), |i: int| self.options@[i]@),
            owner: self.owner@,
            result_idx: self.result_idx,
            is_finished: self.is_finished,
        }
    }
}

/// Structural invariant of an option value.
pub open spec fn wf_option(o: OptionV) -> bool {
    &&& wf_key(o.belongs_to)
    &&& valid_name(o.name)
    &&& o.voters.len() <= MAX_VOTERS
    &&& forall|i: int| 0 <= i < o.voters.len() ==> wf_key(#[trigger] o.voters[i])
}

/// Structural invariant of a topic value; it holds after every successful
/// operation.
pub open spec fn wf_topic(t: TopicV) -> bool {
    &&& valid_name(t.name)
    &&& wf_key(t.owner)
    &&& t.options.len() <= MAX_OPTIONS
    &&& forall|i: int| 0 <= i < t.options.len() ==> wf_option(#[trigger] t.options[i])
}

/// Byte `i` of a packed key field; keys are written verbatim.
pub open spec fn key_byte(k: Seq<u8>, i: int) -> u8 {
    if 0 <= i < k.len() {
        k[i]
    } else {
        0
    }
}

/// Byte `i` of the packed form of an option.
///
/// Layout: parent key at 0, slot index at 32, name field at 33, voter keys
/// at 133 (30 slots of 32 bytes, unused ones zero), voter count at 1093.
pub open spec fn packed_option_byte(o: OptionV, i: int) -> u8 {
    if i < 32 {
        key_byte(o.belongs_to, i)
    } else if i == 32 {
        o.belongs_idx
    } else if i < 133 {
        name_field_byte(o.name, i - 33)
    } else if i < 1093 {
        let slot = (i - 133) / 32;
        let off = (i - 133) % 32;
        if slot < o.voters.len() {
            key_byte(o.voters[slot], off)
        } else {
            0
        }
    } else {
        o.voters.len() as u8
    }
}

/// The packed form of an option.
pub open spec fn spec_pack_option(o: OptionV) -> Seq<u8> {
    Seq::new(OPTION_PACKED_LEN as nat, |i: int| packed_option_byte(o, i))
}

/// Byte `i` of the packed form of a topic.
///
/// Layout: name field at 0, option slots at 100 (10 slots of 1094 bytes,
/// unused ones zero), option count at 11040, owner key at 11041, result
/// index at 11073, finished flag at 11074.
pub open spec fn packed_topic_byte(t: TopicV, i: int) -> u8 {
    if i < 100 {
        name_field_byte(t.name, i)
    } else if i < 11040 {
        let slot = (i - 100) / 1094;
        let off = (i - 100) % 1094;
        if slot < t.options.len() {
            packed_option_byte(t.options[slot], off)
        } else {
            0
        }
    } else if i == 11040 {
        t.options.len() as u8
    } else if i < 11073 {
        key_byte(t.owner, i - 11041)
    } else if i == 11073 {
        t.result_idx
    } else {
        if t.is_finished {
            1
        } else {
            0
        }
    }
}

/// The packed form of a topic.
pub open spec fn spec_pack_topic(t: TopicV) -> Seq<u8> {
    Seq::new(TOPIC_PACKED_LEN as nat, |i: int| packed_topic_byte(t, i))
}

/// The 1094-byte region of option slot `i` inside a packed topic.
pub open spec fn option_region(b: Seq<u8>, i: int) -> Seq<u8> {
    b.subrange(100 + 1094 * i, 1194 + 1094 * i)
}

/// Whether a buffer parses as an option: exact length, voter count in
/// range.
pub open spec fn option_bytes_ok(b: Seq<u8>) -> bool {
    b.len() == OPTION_PACKED_LEN && b[1093] <= MAX_VOTERS
}

/// The option value a 1094-byte buffer decodes to.
pub open spec fn spec_parse_option(b: Seq<u8>) -> OptionV {
    OptionV {
        belongs_to: b.subrange(0, 32),
        belongs_idx: b[32],
        name: spec_parse_name(b.subrange(33, 133)),
        voters: Seq::new(b[1093] as nat, |i: int| b.subrange(133 + 32 * i, 165 + 32 * i)),
    }
}

/// Whether a buffer parses as a topic: exact length, option count in
/// range, and every populated option slot in range too.
pub open spec fn topic_bytes_ok(b: Seq<u8>) -> bool {
    &&& b.len() == TOPIC_PACKED_LEN
    &&& b[11040] <= MAX_OPTIONS
    &&& forall|i: int| 0 <= i < b[11040] ==> option_bytes_ok(#[trigger] option_region(b, i))
}

/// The topic value an 11075-byte buffer decodes to.
pub open spec fn spec_parse_topic(b: Seq<u8>) -> TopicV {
    TopicV {
        name: spec_parse_name(b.subrange(0, 100)),
        options: Seq::new(b[11040] as nat, |i: int| spec_parse_option(option_region(b, i))),
        owner: b.subrange(11041, 11073),
        result_idx: b[11073],
        is_finished: b[11074] == 1,
    }
}

impl PartialEq for TopicOption {
    fn eq(&self, other: &TopicOption) -> (r: bool)
    {
        let r = self.belongs_to == other.belongs_to && self.belongs_idx == other.belongs_idx
            && self.name == other.name && self.voters == other.voters;
        proof {
            if r {
                assert(self.name@ =~= other.name@);
                assert(self@.voters =~~= other@.voters);
                assert(self@ =~~= other@);
            } else {
                if self@ == other@ {
                    assert(self.name@ == other.name@);
                    assert(self.voters@.len() == other.voters@.len()) by {
                        assert(self@.voters.len() == other@.voters.len());
                    }
                    assert forall|i: int| 0 <= i < self.voters@.len()
                        implies #[trigger] self.voters@[i]@ == other.voters@[i]@ by {
                        assert(self@.voters[i] == other@.voters[i]);
                    }
                }
            }
        }
        r
    }
}

impl vstd::std_specs::cmp::PartialEqSpecImpl for TopicOption {
    open spec fn obeys_eq_spec() -> bool {
        true
    }

    open spec fn eq_spec(&self, other: &TopicOption) -> bool {
        self@ == other@
    }
}

impl Eq for TopicOption {}

impl PartialEq for Topic {
    fn eq(&self, other: &Topic) -> (r: bool)
    {
        let r = self.name == other.name && self.options == other.options
            && self.owner == other.owner && self.result_idx == other.result_idx
            && self.is_finished == other.is_finished;
        proof {
            if r {
                assert(self.name@ =~= other.name@);
                assert(self@.options =~~= other@.options);
                assert(self@ =~~= other@);
            } else {
                if self@ == other@ {
                    assert(self.name@ == other.name@);
                    assert(self.options@.len() == other.options@.len()) by {
                        assert(self@.options.len() == other@.options.len());
                    }
                    assert forall|i: int| 0 <= i < self.options@.len()
                        implies #[trigger] self.options@[i]@ == other.options@[i]@ by {
                        assert(self@.options[i] == other@.options[i]);
                    }
                }
            }
        }
        r
    }
}

impl vstd::std_specs::cmp::PartialEqSpecImpl for Topic {
    open spec fn obeys_eq_spec() -> bool {
        true
    }

    open spec fn eq_spec(&self, other: &Topic) -> bool {
        self@ == other@
    }
}

impl Eq for Topic {}

/// The option value a freshly added option takes: no voters yet.
pub open spec fn new_option_v(belongs_to: Seq<u8>, belongs_idx: u8, name: Seq<u8>) -> OptionV {
    OptionV { belongs_to, belongs_idx, name, voters: Seq::empty() }
}

/// The best option among the first `n`: the one with the most voters,
/// earliest position winning ties.
pub open spec fn winner_upto(opts: Seq<OptionV>, n: int) -> int
    decreases n,
{
    if n <= 1 {
        0
    } else {
        let w = winner_upto(opts, n - 1);
        if opts[n - 1].voters.len() > opts[w].voters.len() {
            n - 1
        } else {
            w
        }
    }
}

/// The index of the winning option: the highest voter count, ties broken by
/// the lowest index. Zero when there are no options.
pub open spec fn spec_winner(opts: Seq<OptionV>) -> int {
    winner_upto(opts, opts.len() as int)
}

impl Default for TopicOption {
    /// An unpopulated option: zero parent key, no text, no voters.
    fn default() -> (r: TopicOption)
        ensures
            r@ == (OptionV {
                belongs_to: Seq::new(KEY_LEN as nat, |i: int| 0u8),
                belongs_idx: 0u8,
                name: Seq::<u8>::empty(),
                voters: Seq::<Seq<u8>>::empty(),
            }),
            wf_option(r@),
    {
        let r = TopicOption {
            belongs_to: Key::default(),
            belongs_idx: 0,
            name: Vec::new(),
            voters: Vec::new(),
        };
        proof {
            assert(r@.voters =~= Seq::<Seq<u8>>::empty());
        }
        r
    }
}

impl TopicOption {
    /// A fresh option for slot `belongs_idx` of the topic at `belongs_to`.
    /// Only the text before the name's first delimiter is kept: that prefix
    /// is what the stored name field decodes back to.
    pub fn new(belongs_to: &Key, belongs_idx: u8, name: &[u8]) -> (r: TopicOption)
        requires
            wf_key(belongs_to@),
            name@.len() <= MAX_NAME_LEN,
        ensures
            r@ == new_option_v(belongs_to@, belongs_idx, delim_prefix(name@)),
            wf_option(r@),
    {
        let r = TopicOption {
            belongs_to: belongs_to.dup(),
            belongs_idx,
            name: name_prefix(name),
            voters: Vec::new(),
        };
        proof {
            assert(r@.voters =~= Seq::<Seq<u8>>::empty());
        }
        r
    }

    /// Records one more vote, unless the voter slots are exhausted; on
    /// failure the option is left unchanged.
    pub fn add_voter(&mut self, voter: &Key) -> (r: Result<(), TopicError>)
        requires
            wf_option(old(self)@),
            wf_key(voter@),
        ensures
            old(self)@.voters.len() == MAX_VOTERS ==> r == Err::<(), TopicError>(
                TopicError::TooManyVoters,
            ) && *final(self) == *old(self),
            old(self)@.voters.len() < MAX_VOTERS ==> r == Ok::<(), TopicError>(()) && final(self)@
                == (OptionV { voters: old(self)@.voters.push(voter@), ..old(self)@ }) && wf_option(
                final(self)@,
            ),
    {
        if self.voters.len() == MAX_VOTERS {
            return Err(TopicError::TooManyVoters);
        }
        self.voters.push(voter.dup());
        proof {
            assert(self@.voters =~= old(self)@.voters.push(voter@));
        }
        Ok(())
    }

    /// Count of recorded votes for this option.
    pub fn current_voter_index(&self) -> (r: u8)
        requires
            self@.voters.len() <= MAX_VOTERS,
        ensures
            r as int == self@.voters.len(),
    {
        self.voters.len() as u8
    }

    /// The packed length of one option.
    pub fn get_packed_len() -> (r: usize)
        ensures
            r == OPTION_PACKED_LEN,
    {
        OPTION_PACKED_LEN
    }

    /// A zeroed buffer of the packed option length.
    pub fn empty_bytes() -> (r: Vec<u8>)
        ensures
            r@ == Seq::new(OPTION_PACKED_LEN as nat, |i: int| 0u8),
    {
        zero_bytes(OPTION_PACKED_LEN)
    }
}

impl Default for Topic {
    /// An uninitialized topic: empty name, no options, zero owner.
    fn default() -> (r: Topic)
        ensures
            r@ == (TopicV {
                name: Seq::<u8>::empty(),
                options: Seq::<OptionV>::empty(),
                owner: Seq::new(KEY_LEN as nat, |i: int| 0u8),
                result_idx: 0u8,
                is_finished: false,
            }),
            wf_topic(r@),
    {
        let r = Topic {
            name: Vec::new(),
            options: Vec::new(),
            owner: Key::default(),
            result_idx: 0,
            is_finished: false,
        };
        proof {
            assert(r@.options =~= Seq::<OptionV>::empty());
        }
        r
    }
}

impl Topic {
    /// A fresh topic named `name`, owned by `owner`, with no options yet.
    /// Only the text before the name's first delimiter is kept: that prefix
    /// is what the stored name field decodes back to.
    pub fn new(name: &[u8], owner: &Key) -> (r: Topic)
        requires
            name@.len() <= MAX_NAME_LEN,
            wf_key(owner@),
        ensures
            r@ == (TopicV {
                name: delim_prefix(name@),
                options: Seq::<OptionV>::empty(),
                owner: owner@,
                result_idx: 0u8,
                is_finished: false,
            }),
            wf_topic(r@),
    {
        let r = Topic {
            name: name_prefix(name),
            options: Vec::new(),
            owner: owner.dup(),
            result_idx: 0,
            is_finished: false,
        };
        proof {
            assert(r@.options =~= Seq::<OptionV>::empty());
        }
        r
    }

    /// Marks the topic finished and records the winning option: the one
    /// with the most voters, ties broken by the lowest index.
    pub fn finalize(&mut self) -> (r: Result<(), TopicError>)
        requires
            wf_topic(old(self)@),
        ensures
            r == Ok::<(), TopicError>(()),
            final(self)@ == (TopicV {
                is_finished: true,
                result_idx: spec_winner(old(self)@.options) as u8,
                ..old(self)@
            }),
            wf_topic(final(self)@),
    {
        let n = self.options.len();
        let mut w: usize = 0;
        let mut i: usize = 1;
        while i < n
            invariant
                n == self@.options.len(),
                n <= MAX_OPTIONS,
                1 <= i,
                i <= n || i == 1,
                w < i,
                w as int == winner_upto(self@.options, i as int),
            decreases n - i,
        {
            proof {
                assert(self@.options[i as int].voters.len() == self.options@[i as int].voters@.len());
                assert(self@.options[w as int].voters.len() == self.options@[w as int].voters@.len());
            }
            if self.options[i].voters.len() > self.options[w].voters.len() {
                w = i;
            }
            i += 1;
        }
        proof {
            if n == 0 {
                assert(winner_upto(self@.options, 1) == 0);
                assert(spec_winner(self@.options) == 0);
            }
            assert(w as int == spec_winner(self@.options));
        }
        self.is_finished = true;
        self.result_idx = w as u8;
        proof {
            assert(self@ =~= (TopicV {
                is_finished: true,
                result_idx: spec_winner(old(self)@.options) as u8,
                ..old(self)@
            }));
        }
        Ok(())
    }

    /// Replaces the topic's name, unless the text is too long for its
    /// field; on failure the topic is left unchanged. Only the text before
    /// the name's first delimiter is kept: that prefix is what the stored
    /// name field decodes back to.
    pub fn set_name(&mut self, name: &[u8]) -> (r: Result<(), TopicError>)
        ensures
            name@.len() > MAX_NAME_LEN ==> r == Err::<(), TopicError>(TopicError::FieldTooLong)
                && *final(self) == *old(self),
            name@.len() <= MAX_NAME_LEN ==> r == Ok::<(), TopicError>(()) && final(self)@
                == (TopicV { name: delim_prefix(name@), ..old(self)@ }),
    {
        if name.len() > MAX_NAME_LEN {
            return Err(TopicError::FieldTooLong);
        }
        self.name = name_prefix(name);
        Ok(())
    }

    /// Whether the topic is still uninitialized: its name decodes to the
    /// empty string.
    pub fn name_is_empty(&self) -> (r: bool)
        ensures
            r == (self@.name.len() == 0),
    {
        self.name.len() == 0
    }

    /// Appends one option named `opt_name`, unless the usable option slots
    /// are exhausted or the text is too long; on failure the topic is left
    /// unchanged. Only the text before the name's first delimiter is kept:
    /// that prefix is what the stored name field decodes back to.
    pub fn add_option(&mut self, topic_key: &Key, opt_name: &[u8]) -> (r: Result<
        (),
        TopicError,
    >)
        requires
            wf_topic(old(self)@),
            wf_key(topic_key@),
        ensures
            old(self)@.options.len() == MAX_OPTIONS ==> r == Err::<(), TopicError>(
                TopicError::TooManyOptions,
            ) && *final(self) == *old(self),
            old(self)@.options.len() < MAX_OPTIONS && opt_name@.len() > MAX_NAME_LEN ==> r
                == Err::<(), TopicError>(TopicError::FieldTooLong) && *final(self) == *old(self),
            old(self)@.options.len() < MAX_OPTIONS && opt_name@.len() <= MAX_NAME_LEN ==> r
                == Ok::<(), TopicError>(()) && final(self)@ == (TopicV {
                options: old(self)@.options.push(
                    new_option_v(topic_key@, old(self)@.options.len() as u8, delim_prefix(opt_name@)),
                ),
                ..old(self)@
            }) && wf_topic(final(self)@),
    {
        if self.options.len() == MAX_OPTIONS {
            return Err(TopicError::TooManyOptions);
        }
        if opt_name.len() > MAX_NAME_LEN {
            return Err(TopicError::FieldTooLong);
        }
        let idx = self.options.len() as u8;
        let opt = TopicOption::new(topic_key, idx, opt_name);
        self.options.push(opt);
        proof {
            assert(self@.options =~= old(self)@.options.push(
                new_option_v(topic_key@, old(self)@.options.len() as u8, delim_prefix(opt_name@)),
            ));
        }
        Ok(())
    }

    /// Records a vote by `voter` for the option at `opt_idx`, unless that
    /// slot is not populated or its voter slots are exhausted; on failure
    /// the topic is left unchanged.
    pub fn vote(&mut self, opt_idx: u8, voter: &Key) -> (r: Result<(), TopicError>)
        requires
            wf_topic(old(self)@),
            wf_key(voter@),
        ensures
            opt_idx as int >= old(self)@.options.len() ==> r == Err::<(), TopicError>(
                TopicError::InvalidOptionIndex,
            ) && *final(self) == *old(self),
            (opt_idx as int) < old(self)@.options.len() && old(self)@.options[opt_idx as int]
                .voters.len() == MAX_VOTERS ==> r == Err::<(), TopicError>(
                TopicError::TooManyVoters,
            ) && *final(self) == *old(self),
            (opt_idx as int) < old(self)@.options.len() && old(self)@.options[opt_idx as int]
                .voters.len() < MAX_VOTERS ==> r == Ok::<(), TopicError>(()) && final(self)@
                == (TopicV {
                options: old(self)@.options.update(
                    opt_idx as int,
                    (OptionV {
                        voters: old(self)@.options[opt_idx as int].voters.push(voter@),
                        ..old(self)@.options[opt_idx as int]
                    }),
                ),
                ..old(self)@
            }) && wf_topic(final(self)@),
    {
        let i = opt_idx as usize;
        if i >= self.options.len() {
            return Err(TopicError::InvalidOptionIndex);
        }
        if self.options[i].voters.len() == MAX_VOTERS {
            return Err(TopicError::TooManyVoters);
        }
        let mut voters = copy_keys(&self.options[i].voters);
        voters.push(voter.dup());
        let newopt = TopicOption {
            belongs_to: self.options[i].belongs_to.dup(),
            belongs_idx: self.options[i].belongs_idx,
            name: copy_bytes(self.options[i].name.as_slice()),
            voters,
        };
        proof {
            assert(newopt@.voters =~= old(self)@.options[opt_idx as int].voters.push(voter@));
            assert(newopt@ =~= (OptionV {
                voters: old(self)@.options[opt_idx as int].voters.push(voter@),
                ..old(self)@.options[opt_idx as int]
            }));
        }
        self.options[i] = newopt;
        proof {
            assert(self@.options =~= old(self)@.options.update(
                opt_idx as int,
                (OptionV {
                    voters: old(self)@.options[opt_idx as int].voters.push(voter@),
                    ..old(self)@.options[opt_idx as int]
                }),
            ));
        }
        Ok(())
    }

    /// Count of populated option slots.
    pub fn opt_current_idx(&self) -> (r: u8)
        requires
            self@.options.len() <= MAX_OPTIONS,
        ensures
            r as int == self@.options.len(),
    {
        self.options.len() as u8
    }

    /// The packed length of one topic.
    pub fn get_packed_len() -> (r: usize)
        ensures
            r == TOPIC_PACKED_LEN,
    {
        TOPIC_PACKED_LEN
    }

    /// A zeroed buffer of the packed topic length: the state a freshly
    /// allocated ledger slot is in.
    pub fn empty_bytes() -> (r: Vec<u8>)
        ensures
            r@ == Seq::new(TOPIC_PACKED_LEN as nat, |i: int| 0u8),
    {
        zero_bytes(TOPIC_PACKED_LEN)
    }
}

} // verus!
