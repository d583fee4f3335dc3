use vstd::prelude::*;

use crate::digest::Digest;
use crate::hash::{sha2_224, SHA2_224};
use crate::source::{joined, reduce, Error, Source};

verus! {

/// Wraps a byte sink and hashes every byte that the sink accepts.
///
/// The writes themselves are made on the wrapped sink (see `get_mut`); each
/// outcome is then handed to `record_write`, which passes it back unchanged.
pub struct Writer<W> {
    inner: W,
    hash: SHA2_224,
}

/// A `Writer` over a sink that is written asynchronously.
pub type AsyncWriter<W> = Writer<W>;

impl<W> Writer<W> {
    /// The bytes hashed so far: those of the starting state, then every byte accepted.
    pub closed spec fn fed(&self) -> Seq<u8> {
        self.hash@
    }

    /// The wrapped sink.
    pub closed spec fn sink(&self) -> W {
        self.inner
    }

    /// Wraps `inner` with a fresh hash state.
    pub fn new(inner: W) -> (r: Writer<W>)
        ensures
            r.fed() == Seq::<u8>::empty(),
            r.sink() == inner,
    {
        Writer { inner, hash: SHA2_224::new() }
    }

    /// Wraps `inner`, continuing from the given hash state.
    pub fn with_hash(inner: W, hash: SHA2_224) -> (r: Writer<W>)
        ensures
            r.fed() == hash@,
            r.sink() == inner,
    {
        Writer { inner, hash }
    }

    /// Gives the wrapped sink back.
    pub fn into_inner(self) -> (r: W)
        ensures
            r == self.sink(),
    {
        self.inner
    }

    /// The wrapped sink, to write to.
    pub fn get_mut(&mut self) -> (r: &mut W)
        ensures
            *r == old(self).sink(),
            final(self).sink() == *final(r),
            final(self).fed() == old(self).fed(),
    {
        &mut self.inner
    }

    /// Takes the outcome of a write of `buf` to the wrapped sink and returns
    /// it unchanged; the prefix that the sink accepted, `buf[..n]`, is hashed.
    /// A failed write hashes nothing.
    pub fn record_write<E>(&mut self, buf: &[u8], result: Result<usize, E>) -> (r: Result<
        usize,
        E,
    >)
        requires
            result is Ok ==> result->Ok_0 <= buf@.len(),
        ensures
            r == result,
            final(self).sink() == old(self).sink(),
            match result {
                Ok(n) => final(self).fed() == old(self).fed() + buf@.take(n as int),
                Err(_) => final(self).fed() == old(self).fed(),
            },
    {
        match result {
            Ok(n) => {
                self.hash.update(buf.split_at(n).0);
                Ok(n)
            },
            Err(e) => Err(e),
        }
    }

    /// The digest of the bytes hashed so far; valid at any point.
    pub fn digest(&self) -> (r: Digest)
        ensures
            r@ == sha2_224(self.fed()),
    {
        self.hash.digest()
    }
}

/// Wraps `inner` with a fresh hash state.
pub fn new<W>(inner: W) -> (r: Writer<W>)
    ensures
        r.fed() == Seq::<u8>::empty(),
        r.sink() == inner,
{
    Writer::new(inner)
}

/// Wraps `inner`, continuing from the given hash state.
pub fn with_hash<W>(inner: W, hash: SHA2_224) -> (r: Writer<W>)
    ensures
        r.fed() == hash@,
        r.sink() == inner,
{
    Writer::with_hash(inner, hash)
}

/// Wraps an asynchronous sink with a fresh hash state.
pub fn async_new<W>(inner: W) -> (r: AsyncWriter<W>)
    ensures
        r.fed() == Seq::<u8>::empty(),
        r.sink() == inner,
{
    Writer::new(inner)
}

/// Wraps an asynchronous sink, continuing from the given hash state.
pub fn async_with_hash<W>(inner: W, hash: SHA2_224) -> (r: AsyncWriter<W>)
    ensures
        r.fed() == hash@,
        r.sink() == inner,
{
    Writer::with_hash(inner, hash)
}

/// Tracks a wrapper over successive calls: if, from a fresh state, each call
/// hashed the next accepted chunk, then after `k` calls it has hashed the first
/// `k` chunks joined, and after all of them exactly what `chksum` of a stream
/// of those chunks reduces to; so its digest is that `chksum`'s digest.
pub proof fn lemma_tee_matches_chksum<W>(states: Seq<Writer<W>>, chunks: Vec<Vec<u8>>)
    requires
        states.len() == chunks@.len() + 1,
        states[0].fed() == Seq::<u8>::empty(),
        forall|i: int|
            0 <= i < chunks@.len() ==> #[trigger] states[i + 1].fed() == states[i].fed()
                + chunks@[i]@,
    ensures
        forall|k: int| 0 <= k <= chunks@.len() ==> #[trigger] states[k].fed() == joined(chunks@.take(k)),
        reduce(Source::Stream(chunks)) == Ok::<Seq<u8>, Error>(states.last().fed()),
{
    assert forall|k: int| 0 <= k <= chunks@.len() implies #[trigger] states[k].fed() == joined(
        chunks@.take(k),
    ) by {
        lemma_prefix_fed(states, chunks, k);
    }
    assert(chunks@.take(chunks@.len() as int) =~= chunks@);
}

proof fn lemma_prefix_fed<W>(states: Seq<Writer<W>>, chunks: Vec<Vec<u8>>, k: int)
    requires
        states.len() == chunks@.len() + 1,
        states[0].fed() == Seq::<u8>::empty(),
        forall|i: int|
            0 <= i < chunks@.len() ==> #[trigger] states[i + 1].fed() == states[i].fed()
                + chunks@[i]@,
        0 <= k <= chunks@.len(),
    ensures
        states[k].fed() == joined(chunks@.take(k)),
    decreases k,
{
    if k == 0 {
        assert(chunks@.take(0) =~= Seq::<Vec<u8>>::empty());
    } else {
        lemma_prefix_fed(states, chunks, k - 1);
        assert(chunks@.take(k).drop_last() =~= chunks@.take(k - 1));
        assert(states[(k - 1) + 1].fed() == states[k - 1].fed() + chunks@[k - 1]@);
    }
}

} // verus!
