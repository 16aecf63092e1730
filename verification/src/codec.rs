//! The outside byte codecs the wire framing is built from: the CRC-32
//! (IEEE) checksum of `crc32fast` and the COBS byte stuffing of `cobs`.
//! Apart from the encoding-length bound, nothing here is proved; each
//! trusted item's doc comment says what is taken on trust.

use vstd::prelude::*;

verus! {

/// The CRC-32 (IEEE) checksum `crc32fast::hash` computes of `data`.
pub uninterp spec fn spec_crc32(data: Seq<u8>) -> u32;

/// The COBS encoding `cobs::encode` writes for `source` (without the
/// trailing zero delimiter).
pub uninterp spec fn spec_cobs_encode(source: Seq<u8>) -> Seq<u8>;

/// What `cobs::decode` decodes from `source` into a destination of
/// `capacity` bytes: the decoded bytes, or `None` when it reports an error.
pub uninterp spec fn spec_cobs_decode(source: Seq<u8>, capacity: nat) -> Option<Seq<u8>>;

/// The bound `cobs::max_encoding_length` gives: `n` plus one overhead byte
/// per started block of 254 bytes.
pub open spec fn spec_max_encoding_length(n: nat) -> nat {
    n + (n + 253) / 254
}

#[verifier::external_type_specification]
#[verifier::external_body]
pub struct ExCobsDecodeError(cobs::DecodeError);

/// `crc32fast::hash`: a function of the bytes alone, named `spec_crc32`.
#[verifier::external_body]
pub(crate) fn crc32(data: &[u8]) -> (checksum: u32)
    ensures
        checksum == spec_crc32(data@),
{
    crc32fast::hash(data)
}

/// The bound `cobs::max_encoding_length` gives: `n` plus one overhead byte
/// per started block of 254 bytes. Its whole behaviour is this sum, so it is
/// computed here and proved against `spec_max_encoding_length`; callers
/// keep the sum within `usize`.
pub(crate) fn max_encoding_length(n: usize) -> (len: usize)
    requires
        spec_max_encoding_length(n as nat) <= usize::MAX,
    ensures
        len == spec_max_encoding_length(n as nat),
{
    let blocks: usize = n / 254 + if n % 254 != 0 { 1 } else { 0 };
    assert(blocks == (n + 253) / 254) by (nonlinear_arith)
        requires
            blocks == n / 254 + if n % 254 != 0 { 1int } else { 0int },
    ;
    n + blocks
}

/// `cobs::encode`, which panics when `dest` is shorter than
/// `max_encoding_length(source.len())`. Claimed of it, as the crate
/// documents and its source shows: it writes `spec_cobs_encode(source)` at
/// the front of `dest` and returns its length; that encoding never holds
/// the zero byte and is no longer than `max_encoding_length`; for a
/// non-empty source it is not empty and `cobs::decode` gives `source` back
/// from it whenever the destination can hold `source` (an empty source
/// encodes to nothing, which does not decode). What it leaves in `dest`
/// past the returned length is not stated.
#[verifier::external_body]
pub(crate) fn cobs_encode(source: &[u8], dest: &mut [u8]) -> (used: usize)
    requires
        old(dest)@.len() >= spec_max_encoding_length(source@.len()),
    ensures
        final(dest)@.len() == old(dest)@.len(),
        used <= final(dest)@.len(),
        final(dest)@.take(used as int) == spec_cobs_encode(source@),
        used <= spec_max_encoding_length(source@.len()),
        source@.len() > 0 ==> used > 0,
        forall|i: int| 0 <= i < used ==> final(dest)@[i] != 0u8,
        source@.len() > 0 ==> forall|capacity: nat|
            capacity >= source@.len() ==> spec_cobs_decode(final(dest)@.take(used as int), capacity)
                == Some(source@),
{
    cobs::encode(source, dest)
}

/// `cobs::decode` into `dest`: succeeds exactly when `spec_cobs_decode`
/// is `Some`, and then returns the decoded length with the decoded bytes
/// at the front of `dest`. What it leaves in the rest of `dest`, and which
/// `DecodeError` it reports, is not stated.
#[verifier::external_body]
pub(crate) fn cobs_decode(source: &[u8], dest: &mut [u8]) -> (result: Result<usize, cobs::DecodeError>)
    ensures
        final(dest)@.len() == old(dest)@.len(),
        result is Ok <==> spec_cobs_decode(source@, old(dest)@.len()) is Some,
        result matches Ok(n) ==> n <= final(dest)@.len() && final(dest)@.take(n as int)
            == spec_cobs_decode(source@, old(dest)@.len())->Some_0,
{
    cobs::decode(source, dest)
}

} // verus!
