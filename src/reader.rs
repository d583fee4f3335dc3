use vstd::prelude::*;

use crate::digest::Digest;
use crate::hash::{sha2_224, SHA2_224};
use crate::source::{joined, reduce, Error, Source};

verus! {

/// Wraps a byte source and hashes every byte that a read delivers.
///
/// The reads themselves are made on the wrapped source (see `get_mut`); each
/// outcome is then handed to `record_read`, which passes it back unchanged.
pub struct Reader<R> {
    inner: R,
    hash: SHA2_224,
    exhausted: bool,
}

/// A `Reader` over a source that is read asynchronously.
pub type AsyncReader<R> = Reader<R>;

impl<R> Reader<R> {
    /// The bytes hashed so far: those of the starting state, then every byte delivered.
    pub closed spec fn fed(&self) -> Seq<u8> {
        self.hash@
    }

    /// The wrapped source.
    pub closed spec fn source(&self) -> R {
        self.inner
    }

    /// Whether a read has delivered no bytes (the end of the stream).
    pub closed spec fn at_end(&self) -> bool {
        self.exhausted
    }

    /// Wraps `inner` with a fresh hash state.
    pub fn new(inner: R) -> (r: Reader<R>)
        ensures
            r.fed() == Seq::<u8>::empty(),
            r.source() == inner,
            !r.at_end(),
    {
        Reader { inner, hash: SHA2_224::new(), exhausted: false }
    }

    /// Wraps `inner`, continuing from the given hash state.
    pub fn with_hash(inner: R, hash: SHA2_224) -> (r: Reader<R>)
        ensures
            r.fed() == hash@,
            r.source() == inner,
            !r.at_end(),
    {
        Reader { inner, hash, exhausted: false }
    }

    /// Gives the wrapped source back.
    pub fn into_inner(self) -> (r: R)
        ensures
            r == self.source(),
    {
        self.inner
    }

    /// The wrapped source, to read from.
    pub fn get_mut(&mut self) -> (r: &mut R)
        ensures
            *r == old(self).source(),
            final(self).source() == *final(r),
            final(self).fed() == old(self).fed(),
            final(self).at_end() == old(self).at_end(),
    {
        &mut self.inner
    }

    /// Whether a read has delivered no bytes.
    pub fn is_exhausted(&self) -> (r: bool)
        ensures
            r == self.at_end(),
    {
        self.exhausted
    }

    /// Takes the outcome of a read into `buf` on the wrapped source and
    /// returns it unchanged; the bytes it delivered, `buf[..n]`, are hashed.
    /// A failed read hashes nothing; a read of no bytes marks the end.
    pub fn record_read<E>(&mut self, buf: &[u8], result: Result<usize, E>) -> (r: Result<
        usize,
        E,
    >)
        requires
            result is Ok ==> result->Ok_0 <= buf@.len(),
        ensures
            r == result,
            final(self).source() == old(self).source(),
            match result {
                Ok(n) => {
                    &&& final(self).fed() == old(self).fed() + buf@.take(n as int)
                    &&& final(self).at_end() == (old(self).at_end() || n == 0)
                },
                Err(_) => final(self).fed() == old(self).fed() && final(self).at_end() == old(
                    self,
                ).at_end(),
            },
    {
        match result {
            Ok(n) => {
                if n == 0 {
                    self.exhausted = true;
                } else {
                    self.hash.update(buf.split_at(n).0);
                }
                proof {
                    if n == 0 {
                        assert(old(self).fed() + buf@.take(0) =~= old(self).fed());
                    }
                }
                Ok(n)
            },
            Err(e) => Err(e),
        }
    }

    /// The digest of the bytes hashed so far; valid at any point.
    pub fn digest(&self) -> (r: Digest)
        ensures
            r@ == sha2_224(self.fed()),
    {
        self.hash.digest()
    }
}

/// Wraps `inner` with a fresh hash state.
pub fn new<R>(inner: R) -> (r: Reader<R>)
    ensures
        r.fed() == Seq::<u8>::empty(),
        r.source() == inner,
        !r.at_end(),
{
    Reader::new(inner)
}

/// Wraps `inner`, continuing from the given hash state.
pub fn with_hash<R>(inner: R, hash: SHA2_224) -> (r: Reader<R>)
    ensures
        r.fed() == hash@,
        r.source() == inner,
        !r.at_end(),
{
    Reader::with_hash(inner, hash)
}

/// Wraps an asynchronous source with a fresh hash state.
pub fn async_new<R>(inner: R) -> (r: AsyncReader<R>)
    ensures
        r.fed() == Seq::<u8>::empty(),
        r.source() == inner,
        !r.at_end(),
{
    Reader::new(inner)
}

/// Wraps an asynchronous source, continuing from the given hash state.
pub fn async_with_hash<R>(inner: R, hash: SHA2_224) -> (r: AsyncReader<R>)
    ensures
        r.fed() == hash@,
        r.source() == inner,
        !r.at_end(),
{
    Reader::with_hash(inner, hash)
}

/// Tracks a wrapper over successive calls: if, from a fresh state, each call
/// hashed the next delivered chunk, then after `k` calls it has hashed the first
/// `k` chunks joined, and after all of them exactly what `chksum` of a stream
/// of those chunks reduces to; so its digest is that `chksum`'s digest.
pub proof fn lemma_tee_matches_chksum<R>(states: Seq<Reader<R>>, chunks: Vec<Vec<u8>>)
    requires
        states.len() == chunks@.len() + 1,
        states[0].fed() == Seq::<u8>::empty(),
        forall|i: int|
            0 <= i < chunks@.len() ==> #[trigger] states[i + 1].fed() == states[i].fed()
                + chunks@[i]@,
    ensures
        forall|k: int| 0 <= k <= chunks@.len() ==> #[trigger] states[k].fed() == joined(chunks@.take(k)),
        reduce(Source::Stream(chunks)) == Ok::<Seq<u8>, Error>(states.last().fed()),
{
    assert forall|k: int| 0 <= k <= chunks@.len() implies #[trigger] states[k].fed() == joined(
        chunks@.take(k),
    ) by {
        lemma_prefix_fed(states, chunks, k);
    }
    assert(chunks@.take(chunks@.len() as int) =~= chunks@);
}

proof fn lemma_prefix_fed<R>(states: Seq<Reader<R>>, chunks: Vec<Vec<u8>>, k: int)
    requires
        states.len() == chunks@.len() + 1,
        states[0].fed() == Seq::<u8>::empty(),
        forall|i: int|
            0 <= i < chunks@.len() ==> #[trigger] states[i + 1].fed() == states[i].fed()
                + chunks@[i]@,
        0 <= k <= chunks@.len(),
    ensures
        states[k].fed() == joined(chunks@.take(k)),
    decreases k,
{
    if k == 0 {
        assert(chunks@.take(0) =~= Seq::<Vec<u8>>::empty());
    } else {
        lemma_prefix_fed(states, chunks, k - 1);
        assert(chunks@.take(k).drop_last() =~= chunks@.take(k - 1));
        assert(states[(k - 1) + 1].fed() == states[k - 1].fed() + chunks@[k - 1]@);
    }
}

} // verus!
