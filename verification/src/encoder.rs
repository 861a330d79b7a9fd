//! The sample encoder: a block of 32-bit samples as a block of bytes.

use vstd::prelude::*;
use vstd::slice::slice_subrange;
use crate::byte_order::{lemma_sample_round_trip, sample_bytes, sample_from_bytes, ByteOrder};

verus! {

/// The byte image of `samples`: four bytes for each sample, in the order of
/// the samples, each sample's bytes in the given byte order.
pub open spec fn encoded(order: ByteOrder, samples: Seq<u32>) -> Seq<u8> {
    Seq::new(4 * samples.len(), |k: int| sample_bytes(order, samples[k / 4])[k % 4])
}

/// The samples whose byte image is `bytes`; trailing bytes that do not make
/// up a whole sample are left out.
pub open spec fn decoded(order: ByteOrder, bytes: Seq<u8>) -> Seq<u32> {
    Seq::new(
        (bytes.len() / 4) as nat,
        |i: int| sample_from_bytes(order, bytes.subrange(4 * i, 4 * i + 4)),
    )
}

/// `after` is `before` with the byte image of `samples` written over its
/// first `4 * samples.len()` bytes and nothing else changed.
pub open spec fn encoded_into(
    order: ByteOrder,
    samples: Seq<u32>,
    before: Seq<u8>,
    after: Seq<u8>,
) -> bool {
    &&& 4 * samples.len() <= before.len()
    &&& after.len() == before.len()
    &&& after.subrange(0, 4 * samples.len() as int) == encoded(order, samples)
    &&& after.subrange(4 * samples.len() as int, after.len() as int) == before.subrange(
        4 * samples.len() as int,
        before.len() as int,
    )
}

/// Why a block of samples could not be encoded.
#[derive(Clone, Copy, Debug, PartialEq, Eq, Structural)]
pub enum EncodeError {
    /// The destination holds fewer than four bytes for each sample.
    DestinationTooSmall,
}

/// The number of bytes that `count` samples take, where a `usize` can hold
/// it.
pub fn required_len(count: usize) -> (len: Option<usize>)
    ensures
        4 * count <= usize::MAX ==> len == Some((4 * count) as usize),
        4 * count > usize::MAX ==> len.is_none(),
{
    if count <= usize::MAX / 4 {
        Some(4 * count)
    } else {
        None
    }
}

/// Writes the byte image of `src` over the first `4 * src.len()` bytes of
/// `dest` and returns that part of `dest`.
pub fn convert_to_u8<'a>(src: &[u32], dest: &'a mut [u8], order: ByteOrder) -> (out: &'a [u8])
    requires
        4 * src@.len() <= old(dest)@.len(),
    ensures
        encoded_into(order, src@, old(dest)@, final(dest)@),
        out@ == encoded(order, src@),
{
    let count: usize = src.len();
    let capacity: usize = dest.len();
    let mut i: usize = 0;
    while i < count
        invariant
            0 <= i <= count,
            count == src@.len(),
            dest@.len() == old(dest)@.len(),
            dest@.len() == capacity,
            4 * count <= dest@.len(),
            forall|k: int| 0 <= k < 4 * i ==> dest@[k] == encoded(order, src@)[k],
            forall|k: int| 4 * i <= k < dest@.len() ==> dest@[k] == old(dest)@[k],
        decreases count - i,
    {
        let bytes = order.bytes_of(src[i]);
        let at: usize = 4 * i;
        dest[at] = bytes[0];
        dest[at + 1] = bytes[1];
        dest[at + 2] = bytes[2];
        dest[at + 3] = bytes[3];
        i += 1;
    }
    assert(dest@.subrange(0, 4 * count) =~= encoded(order, src@));
    assert(dest@.subrange(4 * count, dest@.len() as int) =~= old(dest)@.subrange(
        4 * count,
        old(dest)@.len() as int,
    ));
    slice_subrange(dest, 0, 4 * count)
}

/// As `convert_to_u8`, for a destination of any size: a destination that is
/// too small is reported and left as it was.
pub fn try_convert_to_u8<'a>(src: &[u32], dest: &'a mut [u8], order: ByteOrder) -> (result: Result<
    &'a [u8],
    EncodeError,
>)
    ensures
        4 * src@.len() <= old(dest)@.len() ==> result.is_ok() && result.unwrap()@ == encoded(
            order,
            src@,
        ) && encoded_into(order, src@, old(dest)@, final(dest)@),
        4 * src@.len() > old(dest)@.len() ==> (result matches Err(
            EncodeError::DestinationTooSmall,
        )) && final(dest)@ == old(dest)@,
{
    if src.len() <= dest.len() / 4 {
        Ok(convert_to_u8(src, dest, order))
    } else {
        Err(EncodeError::DestinationTooSmall)
    }
}

/// Encoding is a function of the samples and the byte order alone: two
/// destinations of the same size that received the same samples hold the
/// same encoded bytes, and are equal throughout where the samples fill them.
pub proof fn lemma_encoding_repeatable(
    order: ByteOrder,
    samples: Seq<u32>,
    before1: Seq<u8>,
    after1: Seq<u8>,
    before2: Seq<u8>,
    after2: Seq<u8>,
)
    requires
        before1.len() == before2.len(),
        encoded_into(order, samples, before1, after1),
        encoded_into(order, samples, before2, after2),
    ensures
        after1.subrange(0, 4 * samples.len() as int) == after2.subrange(
            0,
            4 * samples.len() as int,
        ),
        before1.len() == 4 * samples.len() ==> after1 == after2,
        before1 == before2 ==> after1 == after2,
{
    let n = 4 * samples.len();
    assert(after1 =~= after1.subrange(0, n as int) + after1.subrange(n as int, after1.len() as int));
    assert(after2 =~= after2.subrange(0, n as int) + after2.subrange(n as int, after2.len() as int));
    if before1.len() == n {
        assert(after1.subrange(n as int, after1.len() as int) =~= after2.subrange(
            n as int,
            after2.len() as int,
        ));
    }
}

/// Reading an encoded block back in the same byte order gives the samples
/// that were encoded, bit for bit.
pub proof fn lemma_decode_encoded(order: ByteOrder, samples: Seq<u32>)
    ensures
        encoded(order, samples).len() == 4 * samples.len(),
        decoded(order, encoded(order, samples)) == samples,
{
    let bytes = encoded(order, samples);
    assert forall|i: int| 0 <= i < samples.len() implies decoded(order, bytes)[i] == samples[i] by {
        lemma_sample_round_trip(order, samples[i]);
        assert(bytes.subrange(4 * i, 4 * i + 4) =~= sample_bytes(order, samples[i]));
    }
    assert(decoded(order, bytes) =~= samples);
}

} // verus!
