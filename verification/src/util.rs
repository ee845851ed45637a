use vstd::prelude::*;

use crate::error::TopicError;

verus! {

/// The byte that terminates the text inside a name field: `|`.
pub const DELIM: u8 = 124;

/// Width in bytes of a packed name field.
pub const NAME_FIELD_LEN: usize = 100;

/// Longest text a name field can hold: one byte is reserved for the
/// delimiter that terminates it.
pub const MAX_NAME_LEN: usize = 99;

/// Index of the first delimiter byte in `s`, or `s.len()` when there is
/// none.
pub open spec fn delim_pos(s: Seq<u8>) -> int
    decreases s.len(),
{
    if s.len() == 0 {
        0
    } else if s[0] == DELIM {
        0
    } else {
        1 + delim_pos(s.drop_first())
    }
}

/// Whether `s` holds a delimiter byte anywhere.
pub open spec fn has_delim(s: Seq<u8>) -> bool {
    exists|i: int| 0 <= i < s.len() && s[i] == DELIM
}

/// Text a name field can hold: short enough for the delimiter to follow it,
/// and free of the delimiter itself.
pub open spec fn valid_name(s: Seq<u8>) -> bool {
    s.len() <= MAX_NAME_LEN && !has_delim(s)
}

/// Byte `i` of the canonical packed form of `name`: the text itself, one
/// delimiter, then zeroes.
pub open spec fn name_field_byte(name: Seq<u8>, i: int) -> u8 {
    if i < name.len() {
        name[i]
    } else if i == name.len() {
        DELIM
    } else {
        0
    }
}

/// The canonical 100-byte field holding `name`.
pub open spec fn spec_name_field(name: Seq<u8>) -> Seq<u8> {
    Seq::new(NAME_FIELD_LEN as nat, |i: int| name_field_byte(name, i))
}

/// The text a name field decodes to: everything before the first delimiter,
/// or empty when the delimiter is absent or comes first.
pub open spec fn spec_parse_name(s: Seq<u8>) -> Seq<u8> {
    if delim_pos(s) < s.len() {
        s.take(delim_pos(s))
    } else {
        Seq::empty()
    }
}

/// `delim_pos` points at the first delimiter: everything before it is some
/// other byte, and it lands on a delimiter whenever one exists.
pub proof fn lemma_delim_pos(s: Seq<u8>)
    ensures
        0 <= delim_pos(s) <= s.len(),
        forall|i: int| 0 <= i < delim_pos(s) ==> s[i] != DELIM,
        delim_pos(s) < s.len() ==> s[delim_pos(s)] == DELIM,
        has_delim(s) <==> delim_pos(s) < s.len(),
    decreases s.len(),
{
    if s.len() == 0 {
        assert(!has_delim(s));
    } else if s[0] == DELIM {
        assert(has_delim(s));
    } else {
        let t = s.drop_first();
        lemma_delim_pos(t);
        assert(forall|i: int| 0 <= i < t.len() ==> t[i] == s[i + 1]);
        assert(forall|i: int| 0 <= i < delim_pos(s) ==> s[i] != DELIM) by {
            assert(forall|i: int| 1 <= i < delim_pos(s) ==> s[i] == t[i - 1] && t[i - 1] != DELIM);
        }
        if delim_pos(t) < t.len() {
            assert(s[delim_pos(s)] == t[delim_pos(t)]);
            assert(has_delim(s));
        } else {
            assert(forall|i: int| 0 <= i < s.len() ==> s[i] != DELIM);
            assert(!has_delim(s));
        }
    }
}

/// A position with no delimiter before it, and a delimiter (or the end of
/// the sequence) at it, is exactly `delim_pos`.
pub proof fn lemma_delim_pos_unique(s: Seq<u8>, k: int)
    requires
        0 <= k <= s.len(),
        forall|i: int| 0 <= i < k ==> s[i] != DELIM,
        k < s.len() ==> s[k] == DELIM,
    ensures
        delim_pos(s) == k,
{
    lemma_delim_pos(s);
    if delim_pos(s) < k {
        assert(s[delim_pos(s)] == DELIM);
    }
    if k < delim_pos(s) {
        assert(s[k] != DELIM);
    }
}

/// Text field law: a valid name written to a field reads back unchanged.
/// The empty name is valid, so it round-trips to empty.
pub proof fn lemma_name_round_trip(name: Seq<u8>)
    requires
        valid_name(name),
    ensures
        spec_parse_name(spec_name_field(name)) == name,
{
    let f = spec_name_field(name);
    assert(forall|i: int| 0 <= i < name.len() ==> f[i] == name[i] && f[i] != DELIM);
    assert(f[name.len() as int] == DELIM);
    lemma_delim_pos_unique(f, name.len() as int);
    assert(f.take(name.len() as int) =~= name);
}

/// Whatever a 100-byte field holds, the text it decodes to is a valid name.
pub proof fn lemma_parse_name_valid(s: Seq<u8>)
    requires
        s.len() == NAME_FIELD_LEN,
    ensures
        valid_name(spec_parse_name(s)),
{
    lemma_delim_pos(s);
    let p = delim_pos(s);
    if p < s.len() {
        let r = s.take(p);
        assert(forall|i: int| 0 <= i < r.len() ==> r[i] == s[i] && s[i] != DELIM);
        assert(!has_delim(r));
    }
}

/// Decodes the text held in a 100-byte name field: the bytes before the
/// first delimiter, or empty when the delimiter is absent or comes first.
pub fn str_unpack(src: &[u8]) -> (r: Vec<u8>)
    requires
        src@.len() == NAME_FIELD_LEN,
    ensures
        r@ == spec_parse_name(src@),
        valid_name(r@),
{
    proof {
        lemma_parse_name_valid(src@);
    }
    let mut i: usize = 0;
    while i < NAME_FIELD_LEN && src[i] != DELIM
        invariant
            i <= NAME_FIELD_LEN,
            src@.len() == NAME_FIELD_LEN,
            forall|j: int| 0 <= j < i ==> src@[j] != DELIM,
        decreases NAME_FIELD_LEN - i,
    {
        i += 1;
    }
    proof {
        if i < NAME_FIELD_LEN {
            lemma_delim_pos_unique(src@, i as int);
        } else {
            lemma_delim_pos_unique(src@, NAME_FIELD_LEN as int);
        }
    }
    let split_index: usize = if i < NAME_FIELD_LEN {
        i
    } else {
        0
    };
    if split_index == 0 {
        let r: Vec<u8> = Vec::new();
        proof {
            assert(r@ =~= spec_parse_name(src@));
        }
        return r;
    }
    let mut r: Vec<u8> = Vec::new();
    let mut j: usize = 0;
    while j < split_index
        invariant
            j <= split_index,
            split_index < NAME_FIELD_LEN,
            src@.len() == NAME_FIELD_LEN,
            r@.len() == j,
            forall|k: int| 0 <= k < j ==> r@[k] == src@[k],
        decreases split_index - j,
    {
        r.push(src[j]);
        j += 1;
    }
    proof {
        assert(r@ =~= src@.take(split_index as int));
    }
    r
}

/// Writes `name` into a 100-byte name field: its bytes, then one delimiter.
/// Bytes after the delimiter keep whatever the field held before. Text too
/// long for the field fails with `FieldTooLong` and writes nothing.
pub fn str_pack(name: &[u8], dst: &mut Vec<u8>) -> (r: Result<(), TopicError>)
    requires
        old(dst)@.len() == NAME_FIELD_LEN,
    ensures
        name@.len() > MAX_NAME_LEN ==> r == Err::<(), TopicError>(TopicError::FieldTooLong)
            && final(dst)@ == old(dst)@,
        name@.len() <= MAX_NAME_LEN ==> r == Ok::<(), TopicError>(()),
        final(dst)@.len() == NAME_FIELD_LEN,
        name@.len() <= MAX_NAME_LEN ==> forall|i: int|
            0 <= i <= name@.len() ==> final(dst)@[i] == name_field_byte(name@, i),
        name@.len() <= MAX_NAME_LEN ==> forall|i: int|
            name@.len() < i < NAME_FIELD_LEN ==> final(dst)@[i] == old(dst)@[i],
{
    if name.len() > MAX_NAME_LEN {
        return Err(TopicError::FieldTooLong);
    }
    let n = name.len();
    let mut i: usize = 0;
    while i < n
        invariant
            i <= n,
            n == name@.len(),
            n <= MAX_NAME_LEN,
            dst@.len() == NAME_FIELD_LEN,
            forall|j: int| 0 <= j < i ==> dst@[j] == name@[j],
            forall|j: int| i <= j < NAME_FIELD_LEN ==> dst@[j] == old(dst)@[j],
        decreases n - i,
    {
        dst[i] = name[i];
        i += 1;
    }
    dst[n] = DELIM;
    Ok(())
}

/// An independent copy of a byte slice.
pub fn copy_bytes(src: &[u8]) -> (r: Vec<u8>)
    ensures
        r@ == src@,
{
    let n = src.len();
    let mut r: Vec<u8> = Vec::new();
    let mut i: usize = 0;
    while i < n
        invariant
            i <= n,
            n == src@.len(),
            r@.len() == i,
            forall|j: int| 0 <= j < i ==> r@[j] == src@[j],
        decreases n - i,
    {
        r.push(src[i]);
        i += 1;
    }
    proof {
        assert(r@ =~= src@);
    }
    r
}

/// A vector of `n` zero bytes.
pub fn zero_bytes(n: usize) -> (r: Vec<u8>)
    ensures
        r@ == Seq::new(n as nat, |i: int| 0u8),
{
    let mut r: Vec<u8> = Vec::new();
    let mut i: usize = 0;
    while i < n
        invariant
            i <= n,
            r@.len() == i,
            forall|j: int| 0 <= j < i ==> r@[j] == 0u8,
        decreases n - i,
    {
        r.push(0);
        i += 1;
    }
    proof {
        assert(r@ =~= Seq::new(n as nat, |i: int| 0u8));
    }
    r
}

/// The `len` bytes of `src` that start at `start`, as an owned vector.
pub fn bytes_range(src: &[u8], start: usize, len: usize) -> (r: Vec<u8>)
    requires
        start + len <= src@.len(),
    ensures
        r@ == src@.subrange(start as int, start as int + len as int),
{
    let n = src.len();
    let mut r: Vec<u8> = Vec::new();
    let mut i: usize = 0;
    while i < len
        invariant
            i <= len,
            n == src@.len(),
            start + len <= n,
            r@.len() == i,
            forall|j: int| 0 <= j < i ==> r@[j] == src@[start + j],
        decreases len - i,
    {
        r.push(src[start + i]);
        i += 1;
    }
    proof {
        assert(r@ =~= src@.subrange(start as int, start as int + len as int));
    }
    r
}

/// The text before the first delimiter of `s`: all of `s` when there is
/// none. Storing a name keeps exactly this prefix, which is what the
/// stored field decodes back to.
pub open spec fn delim_prefix(s: Seq<u8>) -> Seq<u8> {
    s.take(delim_pos(s))
}

/// The stored prefix of a name is free of the delimiter, no longer than
/// the name, and the name itself when the name carries no delimiter.
pub proof fn lemma_delim_prefix(s: Seq<u8>)
    ensures
        !has_delim(delim_prefix(s)),
        delim_prefix(s).len() <= s.len(),
        !has_delim(s) ==> delim_prefix(s) == s,
{
    lemma_delim_pos(s);
    let p = delim_prefix(s);
    assert(forall|i: int| 0 <= i < p.len() ==> p[i] == s[i] && s[i] != DELIM);
    assert(!has_delim(p));
    if !has_delim(s) {
        assert(p =~= s);
    }
}

/// The bytes of `name` before its first delimiter, as an owned vector.
pub fn name_prefix(name: &[u8]) -> (r: Vec<u8>)
    ensures
        r@ == delim_prefix(name@),
        !has_delim(r@),
        r@.len() <= name@.len(),
{
    proof {
        lemma_delim_prefix(name@);
    }
    let n = name.len();
    let mut i: usize = 0;
    while i < n && name[i] != DELIM
        invariant
            i <= n,
            n == name@.len(),
            forall|j: int| 0 <= j < i ==> name@[j] != DELIM,
        decreases n - i,
    {
        i += 1;
    }
    proof {
        if i < n {
            lemma_delim_pos_unique(name@, i as int);
        } else {
            lemma_delim_pos_unique(name@, n as int);
        }
    }
    let mut r: Vec<u8> = Vec::new();
    let mut j: usize = 0;
    while j < i
        invariant
            j <= i,
            i <= n,
            n == name@.len(),
            r@.len() == j,
            forall|k: int| 0 <= k < j ==> r@[k] == name@[k],
        decreases i - j,
    {
        r.push(name[j]);
        j += 1;
    }
    proof {
        assert(r@ =~= name@.take(i as int));
    }
    r
}

/// Whether `b` is a UTF-8 continuation byte.
pub open spec fn is_utf8_cont(b: u8) -> bool {
    0x80 <= b <= 0xBF
}

/// Length of the well-formed UTF-8 scalar encoding that starts at `i` in
/// `s`, or zero when none does: one byte below 0x80; two, three or four
/// bytes for the longer forms, with overlong encodings, surrogates and
/// values beyond 0x10FFFF excluded.
pub open spec fn utf8_step_at(s: Seq<u8>, i: int) -> int {
    if i + 1 <= s.len() && s[i] < 0x80 {
        1
    } else if i + 2 <= s.len() && 0xC2 <= s[i] <= 0xDF && is_utf8_cont(s[i + 1]) {
        2
    } else if i + 3 <= s.len() && s[i] == 0xE0 && 0xA0 <= s[i + 1] <= 0xBF && is_utf8_cont(
        s[i + 2],
    ) {
        3
    } else if i + 3 <= s.len() && 0xE1 <= s[i] <= 0xEC && is_utf8_cont(s[i + 1]) && is_utf8_cont(
        s[i + 2],
    ) {
        3
    } else if i + 3 <= s.len() && s[i] == 0xED && 0x80 <= s[i + 1] <= 0x9F && is_utf8_cont(
        s[i + 2],
    ) {
        3
    } else if i + 3 <= s.len() && 0xEE <= s[i] <= 0xEF && is_utf8_cont(s[i + 1]) && is_utf8_cont(
        s[i + 2],
    ) {
        3
    } else if i + 4 <= s.len() && s[i] == 0xF0 && 0x90 <= s[i + 1] <= 0xBF && is_utf8_cont(
        s[i + 2],
    ) && is_utf8_cont(s[i + 3]) {
        4
    } else if i + 4 <= s.len() && 0xF1 <= s[i] <= 0xF3 && is_utf8_cont(s[i + 1]) && is_utf8_cont(
        s[i + 2],
    ) && is_utf8_cont(s[i + 3]) {
        4
    } else if i + 4 <= s.len() && s[i] == 0xF4 && 0x80 <= s[i + 1] <= 0x8F && is_utf8_cont(
        s[i + 2],
    ) && is_utf8_cont(s[i + 3]) {
        4
    } else {
        0
    }
}

/// Whether the bytes of `s` from `i` on are a well-formed UTF-8 sequence.
pub open spec fn is_utf8_from(s: Seq<u8>, i: int) -> bool
    decreases s.len() - i,
{
    if i >= s.len() {
        true
    } else {
        utf8_step_at(s, i) > 0 && is_utf8_from(s, i + utf8_step_at(s, i))
    }
}

/// Whether `s` is a well-formed UTF-8 byte sequence.
pub open spec fn is_utf8(s: Seq<u8>) -> bool {
    is_utf8_from(s, 0)
}

/// Whether `src` is a well-formed UTF-8 byte sequence.
pub fn is_valid_utf8(src: &[u8]) -> (r: bool)
    ensures
        r == is_utf8(src@),
{
    let n = src.len();
    let mut i: usize = 0;
    while i < n
        invariant
            i <= n,
            n == src@.len(),
            is_utf8(src@) <==> is_utf8_from(src@, i as int),
        decreases n - i,
    {
        let b0 = src[i];
        let k: usize;
        if b0 < 0x80 {
            k = 1;
        } else if 0xC2 <= b0 && b0 <= 0xDF {
            if !(n - i >= 2 && is_cont(src[i + 1])) {
                proof {
                    assert(utf8_step_at(src@, i as int) == 0);
                }
                return false;
            }
            k = 2;
        } else if b0 == 0xE0 {
            if !(n - i >= 3 && 0xA0 <= src[i + 1] && src[i + 1] <= 0xBF && is_cont(src[i + 2])) {
                proof {
                    assert(utf8_step_at(src@, i as int) == 0);
                }
                return false;
            }
            k = 3;
        } else if 0xE1 <= b0 && b0 <= 0xEC {
            if !(n - i >= 3 && is_cont(src[i + 1]) && is_cont(src[i + 2])) {
                proof {
                    assert(utf8_step_at(src@, i as int) == 0);
                }
                return false;
            }
            k = 3;
        } else if b0 == 0xED {
            if !(n - i >= 3 && 0x80 <= src[i + 1] && src[i + 1] <= 0x9F && is_cont(src[i + 2])) {
                proof {
                    assert(utf8_step_at(src@, i as int) == 0);
                }
                return false;
            }
            k = 3;
        } else if 0xEE <= b0 && b0 <= 0xEF {
            if !(n - i >= 3 && is_cont(src[i + 1]) && is_cont(src[i + 2])) {
                proof {
                    assert(utf8_step_at(src@, i as int) == 0);
                }
                return false;
            }
            k = 3;
        } else if b0 == 0xF0 {
            if !(n - i >= 4 && 0x90 <= src[i + 1] && src[i + 1] <= 0xBF && is_cont(src[i + 2])
                && is_cont(src[i + 3])) {
                proof {
                    assert(utf8_step_at(src@, i as int) == 0);
                }
                return false;
            }
            k = 4;
        } else if 0xF1 <= b0 && b0 <= 0xF3 {
            if !(n - i >= 4 && is_cont(src[i + 1]) && is_cont(src[i + 2]) && is_cont(src[i + 3])) {
                proof {
                    assert(utf8_step_at(src@, i as int) == 0);
                }
                return false;
            }
            k = 4;
        } else if b0 == 0xF4 {
            if !(n - i >= 4 && 0x80 <= src[i + 1] && src[i + 1] <= 0x8F && is_cont(src[i + 2])
                && is_cont(src[i + 3])) {
                proof {
                    assert(utf8_step_at(src@, i as int) == 0);
                }
                return false;
            }
            k = 4;
        } else {
            proof {
                assert(utf8_step_at(src@, i as int) == 0);
            }
            return false;
        }
        proof {
            assert(utf8_step_at(src@, i as int) == k as int);
        }
        i += k;
    }
    true
}

/// Whether `b` is a UTF-8 continuation byte.
fn is_cont(b: u8) -> (r: bool)
    ensures
        r == is_utf8_cont(b),
{
    0x80 <= b && b <= 0xBF
}

} // verus!
