use vstd::prelude::*;

use crate::digest::{Digest, DIGEST_LENGTH_BYTES};
use chksum_hash_sha2_224::Update;

verus! {

/// The SHA-2 224 digest of a byte sequence.
pub uninterp spec fn sha2_224(data: Seq<u8>) -> Seq<u8>;

/// The bytes that an in-progress `Update` state has taken in since it was
/// created or last reset, in order.
pub uninterp spec fn absorbed(state: Update) -> Seq<u8>;

#[verifier::external_type_specification]
#[verifier::external_body]
pub struct ExUpdate(Update);

/// Relies on chksum_hash_sha2_224::Update::new: a state that has taken in no bytes.
pub assume_specification[ Update::new ]() -> (r: Update)
    ensures
        absorbed(r) == Seq::<u8>::empty(),
;

/// Relies on the derived Clone of chksum_hash_sha2_224::Update: a field-wise
/// copy, so the copy has taken in the same bytes.
pub assume_specification[ <Update as Clone>::clone ](state: &Update) -> (r: Update)
    ensures
        absorbed(r) == absorbed(*state),
;

/// Relies on chksum_hash_sha2_224::Update::update: the bytes are appended to
/// what the state has taken in (blocks are compressed, the rest buffered).
#[verifier::external_body]
fn absorb(state: &mut Update, data: &[u8])
    ensures
        absorbed(*final(state)) == absorbed(*old(state)) + data@,
{
    state.update(data);
}

/// Relies on chksum_hash_sha2_224::Update::reset: the state is set back to
/// that of a new one.
#[verifier::external_body]
fn restart(state: &mut Update)
    ensures
        absorbed(*final(state)) == Seq::<u8>::empty(),
{
    state.reset();
}

/// Relies on chksum_hash_sha2_224::Update::digest: it pads a copy of the state
/// and returns the SHA-2 224 digest of the bytes taken in; the state is unchanged.
#[verifier::external_body]
fn finish(state: &Update) -> (r: [u8; DIGEST_LENGTH_BYTES])
    ensures
        r@ == sha2_224(absorbed(*state)),
{
    state.digest().into_inner()
}

/// Hashing is deterministic: digests of equal byte sequences are the same digest.
pub proof fn lemma_hash_deterministic(s1: Seq<u8>, s2: Seq<u8>, d1: Digest, d2: Digest)
    requires
        s1 == s2,
        d1@ == sha2_224(s1),
        d2@ == sha2_224(s2),
    ensures
        d1 == d2,
{
    crate::digest::lemma_digest_view_injective(d1, d2);
}

/// Feeding `s1` and then `s2` into a state that holds `start` leaves it
/// holding what feeding `s1 + s2` in one call does, so both give one digest.
pub proof fn lemma_chunking_independent(start: Seq<u8>, s1: Seq<u8>, s2: Seq<u8>)
    ensures
        start + s1 + s2 == start + (s1 + s2),
        sha2_224(start + s1 + s2) == sha2_224(start + (s1 + s2)),
{
    assert(start + s1 + s2 =~= start + (s1 + s2));
}

/// A state that was reset holds what a new state holds, so the two have
/// one digest, that of no bytes.
pub proof fn lemma_reset_is_new(reset: SHA2_224, fresh: SHA2_224)
    requires
        reset@ == Seq::<u8>::empty(),
        fresh@ == Seq::<u8>::empty(),
    ensures
        reset@ == fresh@,
        sha2_224(reset@) == sha2_224(Seq::<u8>::empty()),
{
}

/// An incremental SHA-2 224 hash state.
#[derive(Debug)]
pub struct SHA2_224 {
    inner: Update,
}

impl View for SHA2_224 {
    type V = Seq<u8>;

    /// The bytes fed in since creation or the last reset.
    closed spec fn view(&self) -> Seq<u8> {
        absorbed(self.inner)
    }
}

impl SHA2_224 {
    /// Computes the digest of `data` in one step.
    pub fn hash(data: &[u8]) -> (r: Digest)
        ensures
            r@ == sha2_224(data@),
    {
        let mut hash = Self::new();
        hash.update(data);
        proof {
            assert(Seq::<u8>::empty() + data@ =~= data@);
        }
        hash.digest()
    }

    /// A state that has been fed no bytes.
    pub fn new() -> (r: SHA2_224)
        ensures
            r@ == Seq::<u8>::empty(),
    {
        let inner = Update::new();
        SHA2_224 { inner }
    }

    /// Feeds `data` after the bytes fed so far.
    pub fn update(&mut self, data: &[u8])
        ensures
            final(self)@ == old(self)@ + data@,
    {
        absorb(&mut self.inner, data);
    }

    /// Discards every byte fed so far.
    pub fn reset(&mut self)
        ensures
            final(self)@ == Seq::<u8>::empty(),
    {
        restart(&mut self.inner);
    }

    /// The digest of the bytes fed so far; the state is left as it is.
    pub fn digest(&self) -> (r: Digest)
        ensures
            r@ == sha2_224(self@),
    {
        Digest::new(finish(&self.inner))
    }
}

impl Clone for SHA2_224 {
    /// A state that has been fed the same bytes.
    fn clone(&self) -> (r: SHA2_224)
        ensures
            r@ == self@,
    {
        SHA2_224 { inner: self.inner.clone() }
    }
}

impl Default for SHA2_224 {
    fn default() -> (r: SHA2_224)
        ensures
            r@ == Seq::<u8>::empty(),
    {
        SHA2_224::new()
    }
}

} // verus!
