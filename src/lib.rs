//! SHA-2 224 digests of bytes, streams and directory trees, with tee
//! wrappers that hash what passes through a reader or a writer.

use vstd::prelude::*;

pub mod digest;
pub mod hash;
pub mod reader;
pub mod source;
pub mod writer;

pub use crate::digest::Digest;
pub use crate::hash::SHA2_224;
pub use crate::reader::Reader;
pub use crate::source::{Error, Source};
pub use crate::writer::Writer;

use crate::hash::sha2_224;
use crate::source::reduce;

verus! {

/// Creates a new hash state.
pub fn new() -> (r: SHA2_224)
    ensures
        r@ == Seq::<u8>::empty(),
{
    SHA2_224::new()
}

/// Creates a hash state in its default, empty condition.
pub fn default() -> (r: SHA2_224)
    ensures
        r@ == Seq::<u8>::empty(),
{
    SHA2_224::default()
}

/// Computes the digest of bytes held in memory; this cannot fail.
pub fn hash(data: &[u8]) -> (r: Digest)
    ensures
        r@ == sha2_224(data@),
{
    SHA2_224::hash(data)
}

/// Computes the digest of what `data` reduces to, or returns the first error
/// met while reducing it; no digest is produced then.
pub fn chksum(data: Source) -> (r: Result<Digest, Error>)
    ensures
        match reduce(data) {
            Ok(bytes) => r is Ok && r->Ok_0@ == sha2_224(bytes),
            Err(e) => r == Err::<Digest, Error>(e),
        },
{
    let mut hash = SHA2_224::new();
    match crate::source::chksum_with(&mut hash, data) {
        Ok(()) => {
            proof {
                if let Ok(bytes) = reduce(data) {
                    assert(Seq::<u8>::empty() + bytes =~= bytes);
                }
            }
            Ok(hash.digest())
        },
        Err(e) => Err(e),
    }
}

} // verus!
