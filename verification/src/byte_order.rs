//! Byte orders and the byte image of one 32-bit sample.

use vstd::prelude::*;

verus! {

/// The order in which the four bytes of a sample are laid out.
#[derive(Clone, Copy, Debug, PartialEq, Eq, Structural)]
pub enum ByteOrder {
    /// Least significant byte first.
    Little,
    /// Most significant byte first.
    Big,
}

/// Byte `k` (0 is the least significant) of `bits`.
pub open spec fn byte_of(bits: u32, k: int) -> u8 {
    ((bits as int / pow256(k)) % 256) as u8
}

/// 256 to the power `k`, for the four byte positions of a sample.
pub open spec fn pow256(k: int) -> int {
    if k <= 0 {
        1
    } else if k == 1 {
        0x100
    } else if k == 2 {
        0x1_0000
    } else {
        0x100_0000
    }
}

/// The four bytes of `bits` in the given order.
pub open spec fn sample_bytes(order: ByteOrder, bits: u32) -> Seq<u8> {
    match order {
        ByteOrder::Little => seq![byte_of(bits, 0), byte_of(bits, 1), byte_of(bits, 2), byte_of(bits, 3)],
        ByteOrder::Big => seq![byte_of(bits, 3), byte_of(bits, 2), byte_of(bits, 1), byte_of(bits, 0)],
    }
}

/// The sample whose four bytes in the given order are `bytes`.
pub open spec fn sample_from_bytes(order: ByteOrder, bytes: Seq<u8>) -> u32
    recommends
        bytes.len() == 4,
{
    match order {
        ByteOrder::Little => (bytes[0] as int + pow256(1) * bytes[1] as int + pow256(2)
            * bytes[2] as int + pow256(3) * bytes[3] as int) as u32,
        ByteOrder::Big => (bytes[3] as int + pow256(1) * bytes[2] as int + pow256(2)
            * bytes[1] as int + pow256(3) * bytes[0] as int) as u32,
    }
}

/// Reading the four bytes of a sample back in the same order gives the
/// sample.
pub proof fn lemma_sample_round_trip(order: ByteOrder, bits: u32)
    ensures
        sample_bytes(order, bits).len() == 4,
        sample_from_bytes(order, sample_bytes(order, bits)) == bits,
{
    let x = bits as int;
    assert(x == x % 256 + 256 * ((x / 256) % 256) + 65536 * ((x / 65536) % 256) + 16777216 * ((x
        / 16777216) % 256));
}

/// `u32::to_ne_bytes`: the four bytes of `bits` as they lie in memory, which
/// is either least significant byte first or most significant byte first.
#[verifier::external_body]
fn to_native_bytes(bits: u32) -> (bytes: [u8; 4])
    ensures
        bytes@ == sample_bytes(ByteOrder::Little, bits) || bytes@ == sample_bytes(
            ByteOrder::Big,
            bits,
        ),
{
    bits.to_ne_bytes()
}

/// A sample whose four bytes all differ, so that its byte image tells the
/// two byte orders apart.
pub const PROBE: u32 = 0x0102_0304;

/// The byte order in which `bytes` is the image of `PROBE`, if there is one.
pub open spec fn order_of_probe(bytes: Seq<u8>) -> Option<ByteOrder> {
    if bytes == sample_bytes(ByteOrder::Little, PROBE) {
        Some(ByteOrder::Little)
    } else if bytes == sample_bytes(ByteOrder::Big, PROBE) {
        Some(ByteOrder::Big)
    } else {
        None
    }
}

/// The byte images of `PROBE`, byte by byte.
pub proof fn lemma_probe_images()
    ensures
        sample_bytes(ByteOrder::Little, PROBE) == seq![4u8, 3u8, 2u8, 1u8],
        sample_bytes(ByteOrder::Big, PROBE) == seq![1u8, 2u8, 3u8, 4u8],
{
    assert(sample_bytes(ByteOrder::Little, PROBE) =~= seq![4u8, 3u8, 2u8, 1u8]);
    assert(sample_bytes(ByteOrder::Big, PROBE) =~= seq![1u8, 2u8, 3u8, 4u8]);
}

impl ByteOrder {
    /// Tells the byte order from the byte image of `PROBE`.
    pub fn from_probe(bytes: [u8; 4]) -> (order: Option<ByteOrder>)
        ensures
            order == order_of_probe(bytes@),
    {
        proof {
            lemma_probe_images();
        }
        if bytes[0] == 4 && bytes[1] == 3 && bytes[2] == 2 && bytes[3] == 1 {
            assert(bytes@ =~= seq![4u8, 3u8, 2u8, 1u8]);
            Some(ByteOrder::Little)
        } else if bytes[0] == 1 && bytes[1] == 2 && bytes[2] == 3 && bytes[3] == 4 {
            assert(bytes@ =~= seq![1u8, 2u8, 3u8, 4u8]);
            Some(ByteOrder::Big)
        } else {
            None
        }
    }

    /// The byte order of the machine that runs this call, found by laying
    /// out `PROBE` in memory. Which of the two it is depends on the machine,
    /// so nothing is promised of the result.
    pub fn native() -> (order: ByteOrder) {
        let found = ByteOrder::from_probe(to_native_bytes(PROBE));
        found.unwrap()
    }

    /// The four bytes of `bits` in this order.
    pub fn bytes_of(self, bits: u32) -> (bytes: [u8; 4])
        ensures
            bytes@ == sample_bytes(self, bits),
    {
        let b0: u8 = (bits % 0x100) as u8;
        let b1: u8 = ((bits / 0x100) % 0x100) as u8;
        let b2: u8 = ((bits / 0x1_0000) % 0x100) as u8;
        let b3: u8 = ((bits / 0x100_0000) % 0x100) as u8;
        let bytes = match self {
            ByteOrder::Little => [b0, b1, b2, b3],
            ByteOrder::Big => [b3, b2, b1, b0],
        };
        assert(bytes@ =~= sample_bytes(self, bits));
        bytes
    }
}

} // verus!
