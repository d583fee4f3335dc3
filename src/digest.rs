use vstd::prelude::*;

verus! {

/// Number of bytes in a SHA-2 224 digest.
pub const DIGEST_LENGTH_BYTES: usize = 28;

/// The lowercase hexadecimal digit for a value below sixteen.
pub open spec fn hex_digit_lower(n: u8) -> char {
    if n < 10 {
        ((n + 48) as char)
    } else {
        ((n + 87) as char)
    }
}

/// The uppercase hexadecimal digit for a value below sixteen.
pub open spec fn hex_digit_upper(n: u8) -> char {
    if n < 10 {
        ((n + 48) as char)
    } else {
        ((n + 55) as char)
    }
}

/// Two lowercase digits per byte, most significant nibble first.
pub open spec fn hex_lower(bytes: Seq<u8>) -> Seq<char>
    decreases bytes.len(),
{
    if bytes.len() == 0 {
        Seq::empty()
    } else {
        seq![hex_digit_lower(bytes[0] / 16), hex_digit_lower(bytes[0] % 16)] + hex_lower(
            bytes.drop_first(),
        )
    }
}

/// Two uppercase digits per byte, most significant nibble first.
pub open spec fn hex_upper(bytes: Seq<u8>) -> Seq<char>
    decreases bytes.len(),
{
    if bytes.len() == 0 {
        Seq::empty()
    } else {
        seq![hex_digit_upper(bytes[0] / 16), hex_digit_upper(bytes[0] % 16)] + hex_upper(
            bytes.drop_first(),
        )
    }
}

/// Relies on chksum_hash_sha2_224::Digest::to_hex_lowercase, which formats
/// each byte with `{:02x}` in order.
#[verifier::external_body]
fn encode_lower(bytes: &[u8; DIGEST_LENGTH_BYTES]) -> (r: String)
    ensures
        r@ == hex_lower(bytes@),
{
    chksum_hash_sha2_224::Digest::new(*bytes).to_hex_lowercase()
}

/// Relies on chksum_hash_sha2_224::Digest::to_hex_uppercase, which formats
/// each byte with `{:02X}` in order.
#[verifier::external_body]
fn encode_upper(bytes: &[u8; DIGEST_LENGTH_BYTES]) -> (r: String)
    ensures
        r@ == hex_upper(bytes@),
{
    chksum_hash_sha2_224::Digest::new(*bytes).to_hex_uppercase()
}

/// A finished SHA-2 224 digest: a fixed number of bytes.
#[derive(Clone, Copy, Debug, PartialEq, Eq)]
pub struct Digest {
    bytes: [u8; DIGEST_LENGTH_BYTES],
}

impl View for Digest {
    type V = Seq<u8>;

    closed spec fn view(&self) -> Seq<u8> {
        self.bytes@
    }
}

/// Two digests with the same bytes are the same digest.
pub proof fn lemma_digest_view_injective(a: Digest, b: Digest)
    requires
        a@ == b@,
    ensures
        a == b,
{
    assert forall|i: int| 0 <= i < DIGEST_LENGTH_BYTES implies a.bytes[i] == b.bytes[i] by {
        assert(a.bytes@[i] == b.bytes@[i]);
    }
    assert(a.bytes =~= b.bytes);
}

impl Digest {
    /// Wraps the given digest bytes.
    pub fn new(digest: [u8; DIGEST_LENGTH_BYTES]) -> (r: Digest)
        ensures
            r@ == digest@,
    {
        Digest { bytes: digest }
    }

    /// The digest's bytes.
    pub fn as_bytes(&self) -> (r: &[u8])
        ensures
            r@ == self@,
    {
        self.bytes.as_slice()
    }

    /// Consumes the digest and returns its bytes.
    pub fn into_inner(self) -> (r: [u8; DIGEST_LENGTH_BYTES])
        ensures
            r@ == self@,
    {
        self.bytes
    }

    /// Lowercase hexadecimal form, two digits per byte.
    pub fn to_hex_lowercase(&self) -> (r: String)
        ensures
            r@ == hex_lower(self@),
    {
        encode_lower(&self.bytes)
    }

    /// Uppercase hexadecimal form, two digits per byte.
    pub fn to_hex_uppercase(&self) -> (r: String)
        ensures
            r@ == hex_upper(self@),
    {
        encode_upper(&self.bytes)
    }
}

} // verus!
