use vstd::prelude::*;

verus! {

/// Number of bytes in a participant identity.
pub const KEY_LEN: usize = 32;

/// A participant identity: a fixed-width opaque byte string.
///
/// A well-formed identity holds exactly [`KEY_LEN`] bytes; see [`wf_key`].
#[derive(Debug)]
pub struct Key {
    pub bytes: Vec<u8>,
}

impl View for Key {
    type V = Seq<u8>;

    open spec fn view(&self) -> Seq<u8> {
        self.bytes@
    }
}

/// A well-formed identity holds exactly `KEY_LEN` bytes.
pub open spec fn wf_key(k: Seq<u8>) -> bool {
    k.len() == KEY_LEN
}

impl PartialEq for Key {
    fn eq(&self, other: &Key) -> (r: bool)
    {
        let r = self.bytes == other.bytes;
        proof {
            if r {
                assert(self.bytes@ =~= other.bytes@);
            }
        }
        r
    }
}

impl vstd::std_specs::cmp::PartialEqSpecImpl for Key {
    open spec fn obeys_eq_spec() -> bool {
        true
    }

    open spec fn eq_spec(&self, other: &Key) -> bool {
        self@ == other@
    }
}

impl Eq for Key {}

impl Default for Key {
    /// The all-zero identity.
    fn default() -> (r: Key)
        ensures
            r@ == Seq::new(KEY_LEN as nat, |i: int| 0u8),
            wf_key(r@),
    {
        let mut bytes: Vec<u8> = Vec::new();
        let mut i: usize = 0;
        while i < KEY_LEN
            invariant
                i <= KEY_LEN,
                bytes@.len() == i,
                forall|j: int| 0 <= j < i ==> bytes@[j] == 0u8,
            decreases KEY_LEN - i,
        {
            bytes.push(0);
            i += 1;
        }
        proof {
            assert(bytes@ =~= Seq::new(KEY_LEN as nat, |i: int| 0u8));
        }
        Key { bytes }
    }
}

impl Key {
    /// Builds an identity from its bytes.
    pub fn new(bytes: Vec<u8>) -> (r: Key)
        requires
            wf_key(bytes@),
        ensures
            r@ == bytes@,
    {
        Key { bytes }
    }

    /// An independent copy of this identity.
    pub fn dup(&self) -> (r: Key)
        ensures
            r@ == self@,
    {
        let mut bytes: Vec<u8> = Vec::new();
        let mut i: usize = 0;
        let n = self.bytes.len();
        while i < n
            invariant
                i <= n,
                n == self.bytes@.len(),
                bytes@.len() == i,
                forall|j: int| 0 <= j < i ==> bytes@[j] == self.bytes@[j],
            decreases n - i,
        {
            bytes.push(self.bytes[i]);
            i += 1;
        }
        proof {
            assert(bytes@ =~= self.bytes@);
        }
        Key { bytes }
    }
}

/// An independent copy of a list of identities; the copies carry the same
/// bytes.
pub fn copy_keys(src: &Vec<Key>) -> (r: Vec<Key>)
    ensures
        r@.len() == src@.len(),
        forall|i: int| 0 <= i < src@.len() ==> #[trigger] r@[i]@ == src@[i]@,
{
    let n = src.len();
    let mut r: Vec<Key> = Vec::new();
    let mut i: usize = 0;
    while i < n
        invariant
            i <= n,
            n == src@.len(),
            r@.len() == i,
            forall|j: int| 0 <= j < i ==> #[trigger] r@[j]@ == src@[j]@,
        decreases n - i,
    {
        r.push(src[i].dup());
        i += 1;
    }
    r
}

} // verus!
