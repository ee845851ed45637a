use vstd::prelude::*;

use crate::error::TopicError;
use crate::key::{Key, KEY_LEN, wf_key};
use crate::state::{
    MAX_OPTIONS, MAX_VOTERS, OPTION_PACKED_LEN, OPTION_SLOTS, OptionV, TOPIC_PACKED_LEN, Topic,
    TopicOption, TopicV, VOTER_SLOTS, option_bytes_ok, option_region, packed_option_byte,
    packed_topic_byte, spec_pack_option, spec_pack_topic, spec_parse_option, spec_parse_topic,
    topic_bytes_ok, wf_option, wf_topic,
};
use crate::util::{
    DELIM, MAX_NAME_LEN, NAME_FIELD_LEN, bytes_range, lemma_name_round_trip, name_field_byte,
    spec_name_field, str_unpack,
};

verus! {

/// Position `j` of slot `s` lands in slot `s` at offset `j` when slots are
/// `w` bytes wide.
proof fn lemma_slot_index(w: int, s: int, j: int)
    requires
        1 <= w,
        0 <= s,
        0 <= j < w,
    ensures
        (w * s + j) / w == s,
        (w * s + j) % w == j,
{
    assert(w * s == s * w) by (nonlinear_arith);
    vstd::arithmetic::div_mod::lemma_fundamental_div_mod_converse(w * s + j, w, s, j);
}

/// Reads the 32-byte identity that starts at `start`.
fn read_key_at(src: &[u8], start: usize) -> (r: Key)
    requires
        start + KEY_LEN <= src@.len(),
    ensures
        r@ == src@.subrange(start as int, start as int + KEY_LEN),
        wf_key(r@),
{
    Key::new(bytes_range(src, start, KEY_LEN))
}

/// Writes the 32 bytes of `key` at `start`; everything else is untouched.
fn write_key_at(dst: &mut Vec<u8>, start: usize, key: &Key)
    requires
        wf_key(key@),
        start + KEY_LEN <= old(dst)@.len(),
    ensures
        final(dst)@.len() == old(dst)@.len(),
        forall|j: int| 0 <= j < KEY_LEN ==> final(dst)@[start + j] == key@[j],
        forall|j: int|
            0 <= j < old(dst)@.len() && !(start <= j < start + KEY_LEN) ==> final(dst)@[j]
                == old(dst)@[j],
{
    let total = dst.len();
    let mut j: usize = 0;
    while j < KEY_LEN
        invariant
            j <= KEY_LEN,
            wf_key(key@),
            start + KEY_LEN <= total,
            total == dst@.len(),
            dst@.len() == old(dst)@.len(),
            forall|k: int| 0 <= k < j ==> dst@[start + k] == key@[k],
            forall|k: int|
                0 <= k < old(dst)@.len() && !(start <= k < start + KEY_LEN) ==> dst@[k]
                    == old(dst)@[k],
        decreases KEY_LEN - j,
    {
        dst[start + j] = key.bytes[j];
        j += 1;
    }
}

/// Writes `len` zero bytes at `start`; everything else is untouched.
fn zero_region(dst: &mut Vec<u8>, start: usize, len: usize)
    requires
        start + len <= old(dst)@.len(),
    ensures
        final(dst)@.len() == old(dst)@.len(),
        forall|j: int| start <= j < start + len ==> final(dst)@[j] == 0u8,
        forall|j: int|
            0 <= j < old(dst)@.len() && !(start <= j < start + len) ==> final(dst)@[j] == old(dst)@[j],
{
    let total = dst.len();
    let mut j: usize = 0;
    while j < len
        invariant
            j <= len,
            start + len <= total,
            total == dst@.len(),
            dst@.len() == old(dst)@.len(),
            forall|k: int| start <= k < start + j ==> dst@[k] == 0u8,
            forall|k: int|
                0 <= k < old(dst)@.len() && !(start <= k < start + len) ==> dst@[k] == old(dst)@[k],
        decreases len - j,
    {
        dst[start + j] = 0;
        j += 1;
    }
}

/// Writes the canonical 100-byte name field for `name` at `start`: the
/// text, one delimiter, zeroes; everything else is untouched.
fn write_name_at(dst: &mut Vec<u8>, start: usize, name: &Vec<u8>)
    requires
        name@.len() <= MAX_NAME_LEN,
        start + NAME_FIELD_LEN <= old(dst)@.len(),
    ensures
        final(dst)@.len() == old(dst)@.len(),
        forall|j: int|
            0 <= j < NAME_FIELD_LEN ==> final(dst)@[start + j] == name_field_byte(name@, j),
        forall|j: int|
            0 <= j < old(dst)@.len() && !(start <= j < start + NAME_FIELD_LEN) ==> final(dst)@[j] == old(dst)@[j],
{
    let total = dst.len();
    let n = name.len();
    let mut j: usize = 0;
    while j < NAME_FIELD_LEN
        invariant
            j <= NAME_FIELD_LEN,
            n == name@.len(),
            n <= MAX_NAME_LEN,
            start + NAME_FIELD_LEN <= total,
            total == dst@.len(),
            dst@.len() == old(dst)@.len(),
            forall|k: int| 0 <= k < j ==> dst@[start + k] == name_field_byte(name@, k),
            forall|k: int|
                0 <= k < old(dst)@.len() && !(start <= k < start + NAME_FIELD_LEN) ==> dst@[k]
                    == old(dst)@[k],
        decreases NAME_FIELD_LEN - j,
    {
        let b: u8 = if j < n {
            name[j]
        } else if j == n {
            DELIM
        } else {
            0
        };
        dst[start + j] = b;
        j += 1;
    }
}

/// Writes the packed form of option `o` at `start`; everything else is
/// untouched.
fn write_option_at(dst: &mut Vec<u8>, start: usize, o: &TopicOption)
    requires
        wf_option(o@),
        start + OPTION_PACKED_LEN <= old(dst)@.len(),
    ensures
        final(dst)@.len() == old(dst)@.len(),
        forall|j: int|
            0 <= j < OPTION_PACKED_LEN ==> final(dst)@[start + j] == packed_option_byte(o@, j),
        forall|j: int|
            0 <= j < old(dst)@.len() && !(start <= j < start + OPTION_PACKED_LEN) ==> final(dst)@[j] == old(dst)@[j],
{
    let total = dst.len();
    write_key_at(dst, start, &o.belongs_to);
    dst[start + 32] = o.belongs_idx;
    write_name_at(dst, start + 33, &o.name);
    proof {
        assert forall|j: int| 0 <= j < 133 implies dst@[start + j] == packed_option_byte(
            o@,
            j,
        ) by {
            if 33 <= j < 133 {
                assert(dst@[start + 33 + (j - 33)] == name_field_byte(o.name@, j - 33));
            }
        }
    }
    let n = o.voters.len();
    let mut s: usize = 0;
    while s < VOTER_SLOTS
        invariant
            s <= VOTER_SLOTS,
            n == o.voters@.len(),
            wf_option(o@),
            start + OPTION_PACKED_LEN <= total,
            total == dst@.len(),
            dst@.len() == old(dst)@.len(),
            forall|j: int| 0 <= j < 133 + 32 * s ==> dst@[start + j] == packed_option_byte(o@, j),
            forall|j: int|
                0 <= j < old(dst)@.len() && !(start <= j < start + OPTION_PACKED_LEN) ==> dst@[j]
                    == old(dst)@[j],
        decreases VOTER_SLOTS - s,
    {
        if s < n {
            proof {
                assert(o@.voters[s as int] == o.voters@[s as int]@);
                assert(wf_key(o@.voters[s as int]));
            }
            write_key_at(dst, start + 133 + 32 * s, &o.voters[s]);
            proof {
                assert forall|j: int| 0 <= j < 133 + 32 * (s + 1) implies dst@[start + j]
                    == packed_option_byte(o@, j) by {
                    if 133 + 32 * (s as int) <= j {
                        let off = j - 133 - 32 * (s as int);
                        lemma_slot_index(32, s as int, off);
                        assert(dst@[start + 133 + 32 * (s as int) + off] == o.voters@[s as int]@[off]);
                    }
                }
            }
        } else {
            zero_region(dst, start + 133 + 32 * s, KEY_LEN);
            proof {
                assert forall|j: int| 0 <= j < 133 + 32 * (s + 1) implies dst@[start + j]
                    == packed_option_byte(o@, j) by {
                    if 133 + 32 * (s as int) <= j {
                        let off = j - 133 - 32 * (s as int);
                        lemma_slot_index(32, s as int, off);
                        assert(dst@[start + 133 + 32 * (s as int) + off] == 0u8);
                    }
                }
            }
        }
        s += 1;
    }
    let count: u8 = n as u8;
    dst[start + 1093] = count;
}

/// Reads the option packed at `start`; fails when the stored voter count
/// is out of range.
fn parse_option_at(src: &[u8], start: usize) -> (r: Result<TopicOption, TopicError>)
    requires
        start + OPTION_PACKED_LEN <= src@.len(),
    ensures
        r is Ok <==> option_bytes_ok(
            src@.subrange(start as int, start as int + OPTION_PACKED_LEN),
        ),
        r matches Ok(o) ==> o@ == spec_parse_option(
            src@.subrange(start as int, start as int + OPTION_PACKED_LEN),
        ) && wf_option(o@),
        r is Err ==> r == Err::<TopicOption, TopicError>(TopicError::MalformedRecord),
{
    let total = src.len();
    let ghost region = src@.subrange(start as int, start as int + OPTION_PACKED_LEN);
    let count = src[start + 1093];
    proof {
        assert(region[1093] == src@[start as int + 1093]);
    }
    if count as usize > MAX_VOTERS {
        return Err(TopicError::MalformedRecord);
    }
    let belongs_to = read_key_at(src, start);
    let belongs_idx = src[start + 32];
    let name_field = bytes_range(src, start + 33, NAME_FIELD_LEN);
    let name = str_unpack(name_field.as_slice());
    let mut voters: Vec<Key> = Vec::new();
    let n = count as usize;
    let mut s: usize = 0;
    while s < n
        invariant
            s <= n,
            n <= MAX_VOTERS,
            start + OPTION_PACKED_LEN <= total,
            total == src@.len(),
            voters@.len() == s,
            forall|t: int|
                0 <= t < s ==> #[trigger] voters@[t]@ == src@.subrange(
                    start as int + 133 + 32 * t,
                    start as int + 165 + 32 * t,
                ),
        decreases n - s,
    {
        voters.push(read_key_at(src, start + 133 + 32 * s));
        s += 1;
    }
    let o = TopicOption { belongs_to, belongs_idx, name, voters };
    proof {
        let p = spec_parse_option(region);
        assert(region.subrange(0, 32) =~= src@.subrange(start as int, start as int + 32));
        assert(region[32] == src@[start as int + 32]);
        assert(region.subrange(33, 133) =~= src@.subrange(
            start as int + 33,
            start as int + 133,
        ));
        assert(o@.name == p.name);
        assert forall|t: int| 0 <= t < n implies o@.voters[t] == p.voters[t] by {
            assert(o@.voters[t] == o.voters@[t]@);
            assert(region.subrange(133 + 32 * t, 165 + 32 * t) =~= src@.subrange(
                start as int + 133 + 32 * t,
                start as int + 165 + 32 * t,
            ));
        }
        assert(o@.voters =~= p.voters);
        assert(o@ == p);
    }
    Ok(o)
}

impl TopicOption {
    /// Serializes this option into a buffer of exactly its packed length.
    pub fn pack_into_slice(&self, dst: &mut Vec<u8>)
        requires
            wf_option(self@),
            old(dst)@.len() == OPTION_PACKED_LEN,
        ensures
            final(dst)@ == spec_pack_option(self@),
    {
        write_option_at(dst, 0, self);
        proof {
            assert(dst@ =~= spec_pack_option(self@));
        }
    }

    /// Deserializes an option from a buffer; fails with `MalformedRecord`
    /// unless the buffer has exactly the packed length and its voter count
    /// is in range.
    pub fn unpack_from_slice(src: &[u8]) -> (r: Result<TopicOption, TopicError>)
        ensures
            r is Ok <==> option_bytes_ok(src@),
            r matches Ok(o) ==> o@ == spec_parse_option(src@) && wf_option(o@),
            r is Err ==> r == Err::<TopicOption, TopicError>(TopicError::MalformedRecord),
    {
        if src.len() != OPTION_PACKED_LEN {
            return Err(TopicError::MalformedRecord);
        }
        proof {
            assert(src@.subrange(0, OPTION_PACKED_LEN as int) =~= src@);
        }
        parse_option_at(src, 0)
    }
}

/// Packing then parsing an option yields the option back, and the packed
/// bytes always parse.
pub proof fn lemma_option_round_trip(o: OptionV)
    requires
        wf_option(o),
    ensures
        option_bytes_ok(spec_pack_option(o)),
        spec_parse_option(spec_pack_option(o)) == o,
{
    let b = spec_pack_option(o);
    assert(b[1093] == o.voters.len() as u8);
    assert(option_bytes_ok(b));
    let p = spec_parse_option(b);
    assert(b.subrange(0, 32) =~= o.belongs_to);
    assert(b[32] == o.belongs_idx);
    assert(b.subrange(33, 133) =~= spec_name_field(o.name)) by {
        assert forall|j: int| 0 <= j < 100 implies b.subrange(33, 133)[j] == name_field_byte(
            o.name,
            j,
        ) by {
            assert(b[33 + j] == packed_option_byte(o, 33 + j));
        }
    }
    lemma_name_round_trip(o.name);
    assert(p.name == o.name);
    assert(p.voters.len() == o.voters.len());
    assert forall|t: int| 0 <= t < o.voters.len() implies p.voters[t] == o.voters[t] by {
        assert forall|j: int| 0 <= j < 32 implies b.subrange(133 + 32 * t, 165 + 32 * t)[j]
            == o.voters[t][j] by {
            lemma_slot_index(32, t, j);
            assert(b[133 + 32 * t + j] == packed_option_byte(o, 133 + 32 * t + j));
        }
        assert(b.subrange(133 + 32 * t, 165 + 32 * t) =~= o.voters[t]);
    }
    assert(p.voters =~= o.voters);
    assert(p == o);
}

/// Option slot `i` of a packed topic holds exactly the packed form of
/// option `i`.
proof fn lemma_topic_option_region(t: TopicV, i: int)
    requires
        wf_topic(t),
        0 <= i < t.options.len(),
    ensures
        option_region(spec_pack_topic(t), i) == spec_pack_option(t.options[i]),
{
    let b = spec_pack_topic(t);
    assert forall|j: int| 0 <= j < 1094 implies option_region(b, i)[j] == packed_option_byte(
        t.options[i],
        j,
    ) by {
        lemma_slot_index(1094, i, j);
        assert(b[100 + 1094 * i + j] == packed_topic_byte(t, 100 + 1094 * i + j));
    }
    assert(option_region(b, i) =~= spec_pack_option(t.options[i]));
}

impl Topic {
    /// Serializes this topic into a buffer of exactly its packed length.
    /// The output is canonical: unused option and voter slots are zeroed,
    /// so equal topics always pack to identical bytes.
    pub fn pack_into_slice(&self, dst: &mut Vec<u8>)
        requires
            wf_topic(self@),
            old(dst)@.len() == TOPIC_PACKED_LEN,
        ensures
            final(dst)@ == spec_pack_topic(self@),
    {
        let total = dst.len();
        write_name_at(dst, 0, &self.name);
        proof {
            assert forall|j: int| 0 <= j < 100 implies dst@[j] == packed_topic_byte(
                self@,
                j,
            ) by {
                assert(dst@[0 + j] == name_field_byte(self.name@, j));
            }
        }
        let nopts = self.options.len();
        let mut s: usize = 0;
        while s < OPTION_SLOTS
            invariant
                s <= OPTION_SLOTS,
                nopts == self.options@.len(),
                wf_topic(self@),
                total == TOPIC_PACKED_LEN,
                total == dst@.len(),
                forall|j: int| 0 <= j < 100 + 1094 * s ==> dst@[j] == packed_topic_byte(self@, j),
            decreases OPTION_SLOTS - s,
        {
            if s < nopts {
                proof {
                    assert(self@.options[s as int] == self.options@[s as int]@);
                    assert(wf_option(self@.options[s as int]));
                }
                write_option_at(dst, 100 + 1094 * s, &self.options[s]);
                proof {
                    assert forall|j: int| 0 <= j < 100 + 1094 * (s + 1) implies dst@[j]
                        == packed_topic_byte(self@, j) by {
                        if 100 + 1094 * (s as int) <= j {
                            let off = j - 100 - 1094 * (s as int);
                            lemma_slot_index(1094, s as int, off);
                            assert(dst@[100 + 1094 * (s as int) + off] == packed_option_byte(
                                self@.options[s as int],
                                off,
                            ));
                        }
                    }
                }
            } else {
                zero_region(dst, 100 + 1094 * s, OPTION_PACKED_LEN);
                proof {
                    assert forall|j: int| 0 <= j < 100 + 1094 * (s + 1) implies dst@[j]
                        == packed_topic_byte(self@, j) by {
                        if 100 + 1094 * (s as int) <= j {
                            let off = j - 100 - 1094 * (s as int);
                            lemma_slot_index(1094, s as int, off);
                            assert(dst@[100 + 1094 * (s as int) + off] == 0u8);
                        }
                    }
                }
            }
            s += 1;
        }
        let count: u8 = nopts as u8;
        dst[11040] = count;
        write_key_at(dst, 11041, &self.owner);
        dst[11073] = self.result_idx;
        let fin: u8 = if self.is_finished {
            1
        } else {
            0
        };
        dst[11074] = fin;
        proof {
            assert forall|i: int| 0 <= i < TOPIC_PACKED_LEN implies dst@[i]
                == packed_topic_byte(self@, i) by {
                if 11041 <= i < 11073 {
                    assert(dst@[11041 + (i - 11041)] == self.owner@[i - 11041]);
                }
            }
            assert(dst@ =~= spec_pack_topic(self@));
        }
    }

    /// Deserializes a topic from a buffer; fails with `MalformedRecord`
    /// unless the buffer has exactly the packed length and every occupancy
    /// count is in range.
    pub fn unpack_from_slice(src: &[u8]) -> (r: Result<Topic, TopicError>)
        ensures
            r is Ok <==> topic_bytes_ok(src@),
            r matches Ok(t) ==> t@ == spec_parse_topic(src@) && wf_topic(t@),
            r is Err ==> r == Err::<Topic, TopicError>(TopicError::MalformedRecord),
    {
        if src.len() != TOPIC_PACKED_LEN {
            return Err(TopicError::MalformedRecord);
        }
        let count = src[11040];
        if count as usize > MAX_OPTIONS {
            return Err(TopicError::MalformedRecord);
        }
        let name_field = bytes_range(src, 0, NAME_FIELD_LEN);
        let name = str_unpack(name_field.as_slice());
        let mut options: Vec<TopicOption> = Vec::new();
        let n = count as usize;
        let mut s: usize = 0;
        while s < n
            invariant
                s <= n,
                n <= MAX_OPTIONS,
                src@.len() == TOPIC_PACKED_LEN,
                n == src@[11040] as int,
                options@.len() == s,
                forall|t: int| 0 <= t < s ==> option_bytes_ok(#[trigger] option_region(src@, t)),
                forall|t: int|
                    0 <= t < s ==> (#[trigger] options@[t])@ == spec_parse_option(
                        option_region(src@, t),
                    ) && wf_option(options@[t]@),
            decreases n - s,
        {
            let start = 100 + 1094 * s;
            proof {
                assert(src@.subrange(start as int, start as int + OPTION_PACKED_LEN)
                    =~= option_region(src@, s as int));
            }
            match parse_option_at(src, start) {
                Ok(o) => {
                    options.push(o);
                },
                Err(e) => {
                    proof {
                        assert(!option_bytes_ok(option_region(src@, s as int)));
                        assert(!topic_bytes_ok(src@));
                    }
                    return Err(e);
                },
            }
            s += 1;
        }
        let owner = read_key_at(src, 11041);
        let result_idx = src[11073];
        let finished_byte = src[11074];
        let is_finished = finished_byte == 1;
        let t = Topic { name, options, owner, result_idx, is_finished };
        proof {
            assert(topic_bytes_ok(src@));
            let p = spec_parse_topic(src@);
            assert(t@.name == p.name);
            assert(t@.options.len() == p.options.len());
            assert forall|i: int| 0 <= i < n implies t@.options[i] == p.options[i] by {
                assert(t@.options[i] == options@[i]@);
            }
            assert(t@.options =~= p.options);
            assert(t@.owner == p.owner);
            assert(t@ == p);
            assert(wf_topic(t@));
        }
        Ok(t)
    }
}

/// Round trip: packing any well-formed topic then parsing the bytes yields
/// the same topic value, and the packed bytes always parse. Packing is a
/// function of the topic value alone, so it is deterministic.
pub proof fn lemma_topic_round_trip(t: TopicV)
    requires
        wf_topic(t),
    ensures
        topic_bytes_ok(spec_pack_topic(t)),
        spec_parse_topic(spec_pack_topic(t)) == t,
{
    let b = spec_pack_topic(t);
    assert(b[11040] == t.options.len() as u8);
    assert forall|i: int| 0 <= i < b[11040] implies option_bytes_ok(
        #[trigger] option_region(b, i),
    ) by {
        lemma_topic_option_region(t, i);
        lemma_option_round_trip(t.options[i]);
    }
    assert(topic_bytes_ok(b));
    let p = spec_parse_topic(b);
    assert(b.subrange(0, 100) =~= spec_name_field(t.name)) by {
        assert forall|j: int| 0 <= j < 100 implies b.subrange(0, 100)[j] == name_field_byte(
            t.name,
            j,
        ) by {
            assert(b[j] == packed_topic_byte(t, j));
        }
    }
    lemma_name_round_trip(t.name);
    assert(p.name == t.name);
    assert(p.options.len() == t.options.len());
    assert forall|i: int| 0 <= i < t.options.len() implies p.options[i] == t.options[i] by {
        lemma_topic_option_region(t, i);
        lemma_option_round_trip(t.options[i]);
    }
    assert(p.options =~= t.options);
    assert(b.subrange(11041, 11073) =~= t.owner) by {
        assert forall|j: int| 0 <= j < 32 implies b.subrange(11041, 11073)[j] == t.owner[j] by {
            assert(b[11041 + j] == packed_topic_byte(t, 11041 + j));
        }
    }
    assert(p.result_idx == t.result_idx);
    assert(p.is_finished == t.is_finished);
    assert(p == t);
}

} // verus!
