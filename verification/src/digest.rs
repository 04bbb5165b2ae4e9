//! Content fingerprints: MD5 digests, computed by the `md5` crate, and the
//! text in which they are shown and sent.

use vstd::prelude::*;

verus! {

/// The number of bytes the file reader asks for at a time.
pub const CHUNK_SIZE: usize = 4096;

/// `md5::Context`, the state of a digest in the making. Nothing is known of
/// what is inside it but what `context_data` says it has taken in.
#[verifier::external_type_specification]
#[verifier::external_body]
pub struct ExContext(md5::Context);

/// The MD5 digest of `data`, as `md5::compute` and `md5::Context::compute`
/// return it: a function of the bytes alone.
pub uninterp spec fn md5_digest(data: Seq<u8>) -> Seq<u8>;

/// The bytes that a hashing context has taken in so far, in order.
pub uninterp spec fn context_data(context: md5::Context) -> Seq<u8>;

/// `md5::Context::new`: a context that has taken in nothing.
#[verifier::external_body]
pub(crate) fn context_new() -> (context: md5::Context)
    ensures
        context_data(context) == Seq::<u8>::empty(),
{
    md5::Context::new()
}

/// `md5::Context::consume`: the context has taken in `data` after what it
/// held before.
#[verifier::external_body]
pub(crate) fn context_consume(context: &mut md5::Context, data: &[u8])
    ensures
        context_data(*final(context)) == context_data(*old(context)) + data@,
{
    context.consume(data)
}

/// `md5::Context::compute`: the digest of everything the context has taken
/// in, as its sixteen bytes.
#[verifier::external_body]
pub(crate) fn context_compute(context: md5::Context) -> (digest: [u8; 16])
    ensures
        digest@ == md5_digest(context_data(context)),
{
    context.compute().0
}

/// The sixteen digits of lower-case hexadecimal.
pub open spec fn hex_digits() -> Seq<char> {
    seq!['0', '1', '2', '3', '4', '5', '6', '7', '8', '9', 'a', 'b', 'c', 'd', 'e', 'f']
}

/// `bytes` written as two lower-case hexadecimal digits per byte, high digit
/// first.
pub open spec fn hex_lower(bytes: Seq<u8>) -> Seq<char>
    decreases bytes.len(),
{
    if bytes.len() == 0 {
        Seq::empty()
    } else {
        hex_lower(bytes.drop_last()).push(hex_digits()[bytes.last() as int / 16]).push(
            hex_digits()[bytes.last() as int % 16],
        )
    }
}

/// The `LowerHex` form of `md5::Digest`, which `format!("{:x}", ..)` gives:
/// each byte in turn as two lower-case hexadecimal digits.
#[verifier::external_body]
pub(crate) fn digest_hex(digest: &[u8; 16]) -> (text: String)
    ensures
        text@ == hex_lower(digest@),
{
    format!("{:x}", md5::Digest(*digest))
}

/// A fingerprint has two characters for each byte of the digest.
pub proof fn lemma_hex_lower_len(bytes: Seq<u8>)
    ensures
        hex_lower(bytes).len() == 2 * bytes.len(),
    decreases bytes.len(),
{
    if bytes.len() > 0 {
        lemma_hex_lower_len(bytes.drop_last());
    }
}

/// Different bytes are written differently: two sequences of the same
/// length with the same hexadecimal form are the same sequence.
pub proof fn lemma_hex_lower_injective(a: Seq<u8>, b: Seq<u8>)
    requires
        a.len() == b.len(),
        hex_lower(a) == hex_lower(b),
    ensures
        a == b,
    decreases a.len(),
{
    if a.len() > 0 {
        lemma_hex_lower_len(a.drop_last());
        lemma_hex_lower_len(b.drop_last());
        let x = a.last() as int;
        let y = b.last() as int;
        let front_a = hex_lower(a.drop_last());
        let front_b = hex_lower(b.drop_last());
        let n = front_a.len() as int;
        assert(hex_lower(a)[n] == hex_digits()[x / 16]);
        assert(hex_lower(a)[n + 1] == hex_digits()[x % 16]);
        assert(hex_lower(b)[n] == hex_digits()[y / 16]);
        assert(hex_lower(b)[n + 1] == hex_digits()[y % 16]);
        assert(forall|i: int, j: int|
            0 <= i < 16 && 0 <= j < 16 && #[trigger] hex_digits()[i] == #[trigger] hex_digits()[j]
                ==> i == j);
        assert(x / 16 == y / 16 && x % 16 == y % 16);
        assert(x == y);
        assert(front_a =~= hex_lower(a).subrange(0, n));
        assert(front_b =~= hex_lower(b).subrange(0, n));
        lemma_hex_lower_injective(a.drop_last(), b.drop_last());
        assert(a =~= a.drop_last().push(a.last()));
        assert(b =~= b.drop_last().push(b.last()));
    } else {
        assert(a =~= b);
    }
}

} // verus!
