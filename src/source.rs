use vstd::prelude::*;

use crate::hash::SHA2_224;

verus! {

broadcast use {vstd::seq::axiom_seq_subrange_decreases, vstd::std_specs::vec::axiom_vec_decreases_to_view};

#[verifier::external_type_specification]
#[verifier::external_body]
pub struct ExIoError(std::io::Error);

/// Why a digest could not be computed.
#[derive(Debug)]
pub enum Error {
    /// Opening, reading or listing something failed.
    Io(std::io::Error),
    /// A directory entry that is neither a regular file nor a directory.
    UnsupportedFile,
}

/// An input, as the bytes and entries it yields in order.
#[derive(Debug)]
pub enum Source {
    /// Bytes held in memory (also the bytes of a text).
    Bytes(Vec<u8>),
    /// A stream read to its end (an open file, standard input): its chunks in read order.
    Stream(Vec<Vec<u8>>),
    /// A directory: its entries in the order the listing gave them.
    Directory(Vec<Source>),
    /// An entry that is neither a regular file nor a directory.
    Unsupported,
    /// An open, read or listing that failed with this error.
    Failed(std::io::Error),
}

/// `first`, then `second`: the first error wins, else the bytes are concatenated.
pub open spec fn followed_by(first: Result<Seq<u8>, Error>, second: Result<Seq<u8>, Error>) -> Result<
    Seq<u8>,
    Error,
> {
    match first {
        Err(e) => Err(e),
        Ok(a) => match second {
            Err(e) => Err(e),
            Ok(b) => Ok(a + b),
        },
    }
}

/// The chunks of a stream, concatenated in order.
pub open spec fn joined(chunks: Seq<Vec<u8>>) -> Seq<u8>
    decreases chunks.len(),
{
    if chunks.len() == 0 {
        Seq::empty()
    } else {
        joined(chunks.drop_last()) + chunks.last()@
    }
}

/// The bytes that a source reduces to, depth first and in listing order, or
/// the first error met on the way.
pub open spec fn reduce(source: Source) -> Result<Seq<u8>, Error>
    decreases source,
{
    match source {
        Source::Bytes(b) => Ok(b@),
        Source::Stream(chunks) => Ok(joined(chunks@)),
        Source::Directory(entries) => reduce_all(entries@),
        Source::Unsupported => Err(Error::UnsupportedFile),
        Source::Failed(e) => Err(Error::Io(e)),
    }
}

/// The sources of `entries` reduced one after the other.
pub open spec fn reduce_all(entries: Seq<Source>) -> Result<Seq<u8>, Error>
    decreases entries,
{
    if entries.len() == 0 {
        Ok(Seq::empty())
    } else {
        followed_by(reduce_all(entries.drop_last()), reduce(entries.last()))
    }
}

} // verus!

verus! {

/// The number of nodes in a source.
pub open spec fn size(source: Source) -> nat
    decreases source,
{
    match source {
        Source::Directory(entries) => 1 + size_all(entries@),
        _ => 1,
    }
}

/// The number of nodes in all of `entries`.
pub open spec fn size_all(entries: Seq<Source>) -> nat
    decreases entries,
{
    if entries.len() == 0 {
        0
    } else {
        size_all(entries.drop_last()) + size(entries.last())
    }
}

/// What a stack of pending sources reduces to; the last one is taken first.
pub open spec fn reduce_stack(stack: Seq<Source>) -> Result<Seq<u8>, Error>
    decreases stack.len(),
{
    if stack.len() == 0 {
        Ok(Seq::empty())
    } else {
        followed_by(reduce(stack.last()), reduce_stack(stack.drop_last()))
    }
}

/// The number of nodes in a stack of pending sources.
pub open spec fn size_stack(stack: Seq<Source>) -> nat
    decreases stack.len(),
{
    if stack.len() == 0 {
        0
    } else {
        size(stack.last()) + size_stack(stack.drop_last())
    }
}

proof fn lemma_followed_by_assoc(
    a: Result<Seq<u8>, Error>,
    b: Result<Seq<u8>, Error>,
    c: Result<Seq<u8>, Error>,
)
    ensures
        followed_by(followed_by(a, b), c) == followed_by(a, followed_by(b, c)),
{
    if let (Ok(x), Ok(y), Ok(z)) = (a, b, c) {
        assert(x + y + z =~= x + (y + z));
    }
}

/// Feeds what `source` reduces to into `hash`, taking pending sources from an
/// explicit stack, so that deep directory trees need no deep call stack.
pub fn chksum_with(hash: &mut SHA2_224, source: Source) -> (r: Result<(), Error>)
    ensures
        match reduce(source) {
            Ok(bytes) => r is Ok && final(hash)@ == old(hash)@ + bytes,
            Err(e) => r == Err::<(), Error>(e),
        },
{
    let ghost h0 = hash@;
    let mut stack: Vec<Source> = Vec::new();
    stack.push(source);
    proof {
        assert(stack@.drop_last() =~= Seq::<Source>::empty());
        assert(reduce_stack(Seq::<Source>::empty()) == Ok::<Seq<u8>, Error>(Seq::<u8>::empty()));
        if let Ok(b) = reduce(source) {
            assert(b + Seq::<u8>::empty() =~= b);
        }
    }
    while stack.len() > 0
        invariant
            followed_by(Ok(hash@), reduce_stack(stack@)) == followed_by(Ok(h0), reduce(source)),
        decreases size_stack(stack@),
    {
        let ghost before = stack@;
        let ghost fed = hash@;
        let next = stack.pop().unwrap();
        proof {
            assert(before.drop_last() =~= stack@);
            lemma_followed_by_assoc(Ok(fed), reduce(next), reduce_stack(stack@));
        }
        match next {
            Source::Bytes(bytes) => {
                hash.update(bytes.as_slice());
                proof {
                    lemma_followed_by_assoc(Ok(fed), Ok(bytes@), reduce_stack(stack@));
                }
            },
            Source::Stream(chunks) => {
                let mut i: usize = 0;
                while i < chunks.len()
                    invariant
                        i <= chunks.len(),
                        hash@ == fed + joined(chunks@.take(i as int)),
                    decreases chunks.len() - i,
                {
                    proof {
                        assert(chunks@.take(i as int + 1).drop_last() =~= chunks@.take(i as int));
                    }
                    hash.update(chunks[i].as_slice());
                    i = i + 1;
                    proof {
                        assert(fed + joined(chunks@.take(i as int - 1)) + chunks@[i as int - 1]@
                            =~= fed + joined(chunks@.take(i as int)));
                    }
                }
                proof {
                    assert(chunks@.take(i as int) =~= chunks@);
                    lemma_followed_by_assoc(Ok(fed), Ok(joined(chunks@)), reduce_stack(stack@));
                }
            },
            Source::Directory(entries) => {
                let mut entries = entries;
                while entries.len() > 0
                    invariant
                        followed_by(Ok(hash@), followed_by(reduce_all(entries@), reduce_stack(stack@)))
                            == followed_by(Ok(h0), reduce(source)),
                        size_all(entries@) + size_stack(stack@) < size_stack(before),
                    decreases entries.len(),
                {
                    let ghost rest = entries@;
                    let ghost below = stack@;
                    let entry = entries.pop().unwrap();
                    proof {
                        assert(rest.drop_last() =~= entries@);
                        lemma_followed_by_assoc(
                            reduce_all(entries@),
                            reduce(entry),
                            reduce_stack(stack@),
                        );
                    }
                    stack.push(entry);
                    proof {
                        assert(stack@.drop_last() =~= below);
                    }
                }
            },
            Source::Unsupported => {
                return Err(Error::UnsupportedFile);
            },
            Source::Failed(e) => {
                return Err(Error::Io(e));
            },
        }
    }
    proof {
        if let Ok(b) = reduce(source) {
            assert(hash@ + Seq::<u8>::empty() =~= hash@);
        }
    }
    Ok(())
}

} // verus!

verus! {

/// A directory with no entries reduces to no bytes, as zero bytes in memory do.
pub proof fn lemma_empty_directory(entries: Vec<Source>, nothing: Vec<u8>)
    requires
        entries@.len() == 0,
        nothing@.len() == 0,
    ensures
        reduce(Source::Directory(entries)) == reduce(Source::Bytes(nothing)),
        reduce(Source::Directory(entries)) == Ok::<Seq<u8>, Error>(Seq::empty()),
{
    assert(nothing@ =~= Seq::<u8>::empty());
}

/// A directory whose one entry is a file reduces to that file's bytes, so
/// to the same bytes as its content held in memory; an empty file gives no bytes.
pub proof fn lemma_directory_with_one_file(
    entries: Vec<Source>,
    chunks: Vec<Vec<u8>>,
    content: Vec<u8>,
)
    requires
        entries@ == seq![Source::Stream(chunks)],
        joined(chunks@) == content@,
    ensures
        reduce(Source::Directory(entries)) == reduce(Source::Bytes(content)),
        content@.len() == 0 ==> reduce(Source::Directory(entries)) == Ok::<Seq<u8>, Error>(
            Seq::empty(),
        ),
{
    assert(entries@.drop_last() =~= Seq::<Source>::empty());
    assert(reduce_all(entries@.drop_last()) == Ok::<Seq<u8>, Error>(Seq::empty()));
    assert(reduce(entries@.last()) == Ok::<Seq<u8>, Error>(content@));
    assert(Seq::<u8>::empty() + content@ =~= content@);
    if content@.len() == 0 {
        assert(content@ =~= Seq::<u8>::empty());
    }
}

/// A stream read in any chunks reduces to the same bytes as its content
/// held in memory, and a directory listing reduces to its entries one after
/// the other, whichever way it was reached.
pub proof fn lemma_handle_matches_content(chunks: Vec<Vec<u8>>, content: Vec<u8>, entries: Vec<Source>)
    requires
        joined(chunks@) == content@,
    ensures
        reduce(Source::Stream(chunks)) == reduce(Source::Bytes(content)),
        reduce(Source::Directory(entries)) == reduce_all(entries@),
{
}

/// Whether a source holds, at any depth, an entry of an unsupported kind.
pub open spec fn holds_unsupported(source: Source) -> bool
    decreases source,
{
    match source {
        Source::Unsupported => true,
        Source::Directory(entries) => any_holds_unsupported(entries@),
        _ => false,
    }
}

/// Whether one of `entries` holds, at any depth, an entry of an unsupported kind.
pub open spec fn any_holds_unsupported(entries: Seq<Source>) -> bool
    decreases entries,
{
    if entries.len() == 0 {
        false
    } else {
        any_holds_unsupported(entries.drop_last()) || holds_unsupported(entries.last())
    }
}

/// A source that holds an unsupported entry anywhere reduces to an error,
/// so `chksum` gives no digest for it.
pub proof fn lemma_unsupported_fails(source: Source)
    requires
        holds_unsupported(source),
    ensures
        reduce(source) is Err,
    decreases source,
{
    if let Source::Directory(entries) = source {
        lemma_any_unsupported_fails(entries@);
    }
}

/// Entries one of which holds an unsupported entry reduce to an error.
pub proof fn lemma_any_unsupported_fails(entries: Seq<Source>)
    requires
        any_holds_unsupported(entries),
    ensures
        reduce_all(entries) is Err,
    decreases entries,
{
    if entries.len() > 0 {
        if any_holds_unsupported(entries.drop_last()) {
            lemma_any_unsupported_fails(entries.drop_last());
        } else {
            lemma_unsupported_fails(entries.last());
        }
    }
}

} // verus!
