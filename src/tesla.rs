use sha2::Digest;
use vstd::prelude::*;

use crate::fields::bit_in_byte;
use crate::fields::bits_to_bytes;
use crate::fields::flag_bit;
use crate::gst::lemma_previous_subframe_seconds;
use crate::gst::Gst;

verus! {

/// Largest key that a chain can carry, in bytes.
pub const MAX_KEY_BYTES: usize = 32;

/// The hash function that a TESLA chain uses.
#[derive(Debug, Clone, Copy, PartialEq, Eq, Hash, Structural)]
pub enum HashFunction {
    Sha256,
    Sha3_256,
    Reserved,
}

/// The parameters of a TESLA chain that the one-way function reads.
#[derive(Debug, Clone, Copy, PartialEq, Eq, Hash, Structural)]
pub struct ChainParameters {
    pub hash: HashFunction,
    pub alpha: u64,
}

/// Why a chain step could not be computed.
#[derive(Debug, Clone, Copy, PartialEq, Eq, Hash, Structural)]
pub enum ChainError {
    /// The chain names the reserved hash function value.
    ReservedHashFunction,
}

/// A TESLA chain key, anchored at the start of a subframe.
#[derive(Debug, Clone, Copy, Eq, Hash)]
pub struct Key {
    data: [u8; 32],
    size: usize,
    gst_subframe: Gst,
}

impl PartialEq for Key {
    /// Two keys are equal when their buffers, bit lengths and anchors are.
    fn eq(&self, o: &Key) -> (r: bool) {
        if self.size != o.size || self.gst_subframe != o.gst_subframe {
            return false;
        }
        let mut i: usize = 0;
        while i < MAX_KEY_BYTES
            invariant
                i <= MAX_KEY_BYTES,
                forall|j: int| 0 <= j < i ==> self.data@[j] == o.data@[j],
            decreases MAX_KEY_BYTES - i,
        {
            if self.data[i] != o.data[i] {
                return false;
            }
            i = i + 1;
        }
        proof {
            assert(self.data@ =~= o.data@);
        }
        true
    }
}

impl vstd::std_specs::cmp::PartialEqSpecImpl for Key {
    open spec fn obeys_eq_spec() -> bool {
        true
    }

    closed spec fn eq_spec(&self, o: &Key) -> bool {
        self.data@ == o.data@ && self.size == o.size && self.gst_subframe == o.gst_subframe
    }
}

/// What SHA-256 gives for a message.
pub uninterp spec fn sha256_of(m: Seq<u8>) -> Seq<u8>;

/// What SHA3-256 gives for a message.
pub uninterp spec fn sha3_256_of(m: Seq<u8>) -> Seq<u8>;

/// Relies on sha2::Sha256::digest: the digest of the whole message, 32 bytes.
#[verifier::external_body]
fn sha256(m: &[u8]) -> (r: [u8; 32])
    ensures
        r@ == sha256_of(m@),
{
    sha2::Sha256::digest(m).into()
}

/// Relies on sha3::Sha3_256::digest: the digest of the whole message, 32 bytes.
#[verifier::external_body]
fn sha3_256(m: &[u8]) -> (r: [u8; 32])
    ensures
        r@ == sha3_256_of(m@),
{
    sha3::Sha3_256::digest(m).into()
}

/// The digest that a chain's hash function gives for a message.
pub open spec fn digest_of(h: HashFunction, m: Seq<u8>) -> Seq<u8> {
    match h {
        HashFunction::Sha256 => sha256_of(m),
        HashFunction::Sha3_256 => sha3_256_of(m),
        HashFunction::Reserved => Seq::empty(),
    }
}

/// The 32-bit word that encodes a time: 12 bits of week, then 20 bits of
/// time of week.
pub open spec fn gst_word(g: Gst) -> u32 {
    ((g.wn as u32) << 20u32) | g.tow
}

/// A 32-bit word as 4 bytes, most significant first.
pub open spec fn be32(w: u32) -> Seq<u8> {
    seq![(w >> 24u32) as u8, (w >> 16u32) as u8, (w >> 8u32) as u8, w as u8]
}

/// The low 48 bits of a word as 6 bytes, most significant first.
pub open spec fn be48(a: u64) -> Seq<u8> {
    seq![
        (a >> 40u64) as u8,
        (a >> 32u64) as u8,
        (a >> 24u64) as u8,
        (a >> 16u64) as u8,
        (a >> 8u64) as u8,
        a as u8,
    ]
}

impl Key {
    /// The key's bytes, as many as its bit length covers.
    pub closed spec fn bytes(self) -> Seq<u8> {
        self.data@.subrange(0, (self.size / 8) as int)
    }

    /// The key's length in bits.
    pub closed spec fn bit_len(self) -> nat {
        self.size as nat
    }

    /// The start of the subframe the key is anchored at.
    pub closed spec fn anchor(self) -> Gst {
        self.gst_subframe
    }

    /// A key holds whole bytes, at most 32 of them, zero past its length,
    /// and is anchored at the start of a subframe.
    pub closed spec fn wf(self) -> bool {
        &&& self.size % 8 == 0
        &&& self.size <= 8 * MAX_KEY_BYTES
        &&& self.gst_subframe.wf()
        &&& self.gst_subframe.tow % 30 == 0
        &&& forall|i: int| (self.size / 8) as int <= i < 32 ==> self.data@[i] == 0
    }

    /// One step of the chain can be taken from this key: a key anchored at
    /// the start of week 0 has no earlier subframe.
    pub open spec fn can_step(self) -> bool {
        self.anchor().tow == 0 ==> self.anchor().wn > 0
    }

    /// The message that the one-way function hashes: the key, the previous
    /// subframe's time word, and the low 48 bits of alpha.
    pub open spec fn owf_message_spec(self, params: ChainParameters) -> Seq<u8> {
        self.bytes() + be32(gst_word(self.anchor().previous_subframe_spec())) + be48(params.alpha)
    }

    /// The key one step earlier in the chain, built from the digest of
    /// this key's message.
    pub open spec fn step_from_digest_spec(self, digest: Seq<u8>, k: Key) -> bool {
        &&& k.wf()
        &&& k.bit_len() == self.bit_len()
        &&& k.anchor() == self.anchor().previous_subframe_spec()
        &&& k.bytes() == digest.subrange(0, (self.bit_len() / 8) as int)
    }

    /// Builds a key from its bytes, anchored at the start of a subframe.
    pub fn from_slice(slice: &[u8], gst: Gst) -> (r: Key)
        requires
            slice@.len() <= MAX_KEY_BYTES,
            gst.wf(),
            gst.tow % 30 == 0,
        ensures
            r.wf(),
            r.bytes() == slice@,
            r.bit_len() == 8 * slice@.len(),
            r.anchor() == gst,
    {
        let mut data = [0u8; 32];
        let n = slice.len();
        let mut i: usize = 0;
        while i < n
            invariant
                i <= n,
                n == slice@.len(),
                n <= MAX_KEY_BYTES,
                forall|j: int| 0 <= j < i ==> data@[j] == slice@[j],
                forall|j: int| i <= j < 32 ==> data@[j] == 0,
            decreases n - i,
        {
            data[i] = slice[i];
            i = i + 1;
        }
        let r = Key { data, size: 8 * n, gst_subframe: gst };
        assert(r.bytes() =~= slice@);
        r
    }

    /// Builds a key from its bits, most significant bit of each byte first,
    /// anchored at the start of a subframe.
    pub fn from_bitslice(slice: &[bool], gst: Gst) -> (r: Key)
        requires
            slice@.len() % 8 == 0,
            slice@.len() <= 8 * MAX_KEY_BYTES,
            gst.wf(),
            gst.tow % 30 == 0,
        ensures
            r.wf(),
            r.bit_len() == slice@.len(),
            r.bytes().len() == slice@.len() / 8,
            r.anchor() == gst,
            forall|j: int, m: int|
                0 <= j < slice@.len() / 8 && 0 <= m < 8 ==> #[trigger] bit_in_byte(r.bytes()[j], m)
                    == flag_bit(slice@, 8 * j + m),
    {
        let bytes = bits_to_bytes(slice, slice.len() / 8);
        let r = Key::from_slice(bytes.as_slice(), gst);
        assert(r.bytes() == bytes@);
        r
    }

    /// The message that the one-way function hashes for this key: its bytes,
    /// the previous subframe's time word, and the low 48 bits of alpha.
    pub fn owf_message(&self, params: &ChainParameters) -> (r: Vec<u8>)
        requires
            self.wf(),
            self.can_step(),
        ensures
            r@ == self.owf_message_spec(*params),
    {
        let size = self.size / 8;
        let mut buffer: Vec<u8> = Vec::new();
        let mut i: usize = 0;
        while i < size
            invariant
                i <= size,
                size == self.size / 8,
                self.wf(),
                buffer@ == self.data@.subrange(0, i as int),
            decreases size - i,
        {
            buffer.push(self.data[i]);
            i = i + 1;
            assert(buffer@ =~= self.data@.subrange(0, i as int));
        }
        let prev = self.gst_subframe.previous_subframe();
        let word: u32 = ((prev.wn as u32) << 20u32) | prev.tow;
        buffer.push((word >> 24u32) as u8);
        buffer.push((word >> 16u32) as u8);
        buffer.push((word >> 8u32) as u8);
        buffer.push(word as u8);
        let a = params.alpha;
        buffer.push((a >> 40u64) as u8);
        buffer.push((a >> 32u64) as u8);
        buffer.push((a >> 24u64) as u8);
        buffer.push((a >> 16u64) as u8);
        buffer.push((a >> 8u64) as u8);
        buffer.push(a as u8);
        assert(buffer@ =~= self.owf_message_spec(*params));
        buffer
    }

    /// The key one step earlier in the chain, given the digest of this
    /// key's message: the digest cut to this key's length, anchored one
    /// subframe earlier.
    pub fn from_digest(&self, digest: &[u8; 32]) -> (r: Key)
        requires
            self.wf(),
            self.can_step(),
        ensures
            self.step_from_digest_spec(digest@, r),
    {
        let size = self.size / 8;
        let mut data = [0u8; 32];
        let mut i: usize = 0;
        while i < size
            invariant
                i <= size,
                size == self.size / 8,
                self.wf(),
                forall|j: int| 0 <= j < i ==> data@[j] == digest@[j],
                forall|j: int| i <= j < 32 ==> data@[j] == 0,
            decreases size - i,
        {
            data[i] = digest[i];
            i = i + 1;
        }
        let r = Key { data, size: self.size, gst_subframe: self.gst_subframe.previous_subframe() };
        assert(r.bytes() =~= digest@.subrange(0, size as int));
        r
    }

    /// Takes one step back along the chain: the key anchored one subframe
    /// earlier, which is the digest of this key's message cut to this key's
    /// length. The reserved hash function value gives an error.
    pub fn one_way_function(&self, params: &ChainParameters) -> (r: Result<Key, ChainError>)
        requires
            self.wf(),
            params.hash != HashFunction::Reserved ==> self.can_step(),
        ensures
            r is Err <==> params.hash == HashFunction::Reserved,
            r is Err ==> r == Err::<Key, ChainError>(ChainError::ReservedHashFunction),
            r is Ok ==> self.step_from_digest_spec(
                digest_of(params.hash, self.owf_message_spec(*params)),
                r->Ok_0,
            ),
    {
        match params.hash {
            HashFunction::Sha256 => {
                let m = self.owf_message(params);
                let d = sha256(m.as_slice());
                Ok(self.from_digest(&d))
            },
            HashFunction::Sha3_256 => {
                let m = self.owf_message(params);
                let d = sha3_256(m.as_slice());
                Ok(self.from_digest(&d))
            },
            HashFunction::Reserved => Err(ChainError::ReservedHashFunction),
        }
    }

    /// What a well formed key holds: whole bytes, at most 32 of them, and an
    /// anchor that is a well formed subframe start.
    pub proof fn lemma_wf(self)
        requires
            self.wf(),
        ensures
            self.bit_len() % 8 == 0,
            self.bit_len() <= 8 * MAX_KEY_BYTES,
            self.bytes().len() == self.bit_len() / 8,
            self.anchor().wf(),
            self.anchor().tow % 30 == 0,
    {
    }

    /// Returns the start of the subframe the key is anchored at.
    pub fn gst_subframe(&self) -> (r: Gst)
        ensures
            r == self.anchor(),
    {
        self.gst_subframe
    }

    /// Returns the key's length in bits.
    pub fn size(&self) -> (r: usize)
        ensures
            r == self.bit_len(),
    {
        self.size
    }
}

/// A run of keys of one chain: each key after the first is what the
/// one-way function gives for the key before it.
pub open spec fn is_chain(ks: Seq<Key>, params: ChainParameters) -> bool {
    forall|i: int|
        0 <= i < ks.len() - 1 ==> #[trigger] ks[i].step_from_digest_spec(
            digest_of(params.hash, ks[i].owf_message_spec(params)),
            ks[i + 1],
        )
}

/// Walking a chain back from a key anchored at a subframe start: as long as
/// the anchor stays at or after the start of week 0, each key can take the
/// next step, and `n` steps move the anchor exactly `30 n` seconds earlier,
/// across week boundaries, keeping the key's length.
pub proof fn lemma_chain_steps(ks: Seq<Key>, params: ChainParameters)
    requires
        ks.len() >= 1,
        ks[0].wf(),
        is_chain(ks, params),
        ks[0].anchor().seconds() >= 30 * (ks.len() - 1),
    ensures
        forall|i: int|
            0 <= i < ks.len() ==> #[trigger] ks[i].wf() && ks[i].anchor().seconds() == ks[0].anchor().seconds()
                - 30 * i && ks[i].bit_len() == ks[0].bit_len(),
        forall|i: int| 0 <= i < ks.len() - 1 ==> #[trigger] ks[i].can_step(),
    decreases ks.len(),
{
    if ks.len() > 1 {
        let prefix = ks.drop_last();
        assert forall|i: int| 0 <= i < prefix.len() - 1 implies #[trigger] prefix[i].step_from_digest_spec(
            digest_of(params.hash, prefix[i].owf_message_spec(params)),
            prefix[i + 1],
        ) by {
            assert(ks[i].step_from_digest_spec(
                digest_of(params.hash, ks[i].owf_message_spec(params)),
                ks[i + 1],
            ));
        }
        lemma_chain_steps(prefix, params);
        let j = ks.len() - 2;
        let k = ks[j];
        assert(prefix[j] == k);
        assert(k.wf());
        lemma_previous_subframe_seconds(k.anchor());
        assert(k.step_from_digest_spec(
            digest_of(params.hash, k.owf_message_spec(params)),
            ks[j + 1],
        ));
        assert forall|i: int| 0 <= i < ks.len() implies #[trigger] ks[i].wf() && ks[i].anchor().seconds()
            == ks[0].anchor().seconds() - 30 * i && ks[i].bit_len() == ks[0].bit_len() by {
            if i < ks.len() - 1 {
                assert(prefix[i] == ks[i]);
            }
        }
        assert forall|i: int| 0 <= i < ks.len() - 1 implies #[trigger] ks[i].can_step() by {
            assert(ks[i].wf());
            lemma_previous_subframe_seconds(ks[i].anchor());
        }
    }
}

} // verus!
