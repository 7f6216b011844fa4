//! Construction of the Wake-on-LAN magic packet.

use vstd::prelude::*;
use crate::mac::Mac;

verus! {

/// Why packet assembly failed. Both variants guard internal invariants
/// that a well-typed address can never break; they are explicit error
/// values rather than assertions.
#[derive(Debug, PartialEq, Eq, Structural, Clone, Copy)]
pub enum WolError {
    /// The per-repetition source slice was not exactly six bytes long.
    InvalidBufferLength,
    /// The assembled packet was not exactly 102 bytes long.
    InvalidPacketSize,
}

/// The magic packet for a six-octet address `m`: a preamble of six
/// `0xff` bytes followed by `m` repeated sixteen times, 102 bytes in all.
pub open spec fn magic_packet_bytes(m: Seq<u8>) -> Seq<u8> {
    Seq::new(102, |i: int| if i < 6 { 0xffu8 } else { m[(i - 6) % 6] })
}

/// The `k`-th six-byte repetition of the address inside a packet:
/// bytes `6 + 6k` up to `12 + 6k`.
pub open spec fn repetition(p: Seq<u8>, k: int) -> Seq<u8> {
    p.subrange(6 + 6 * k, 12 + 6 * k)
}

/// Shape of the magic packet for a six-octet address: 102 bytes,
/// non-empty, the first six bytes all `0xff`, and the remaining 96
/// bytes the address repeated sixteen times.
pub proof fn lemma_magic_packet_shape(m: Seq<u8>)
    requires
        m.len() == 6,
    ensures
        magic_packet_bytes(m).len() == 102,
        magic_packet_bytes(m).len() > 0,
        forall|i: int| 0 <= i < 6 ==> #[trigger] magic_packet_bytes(m)[i] == 0xffu8,
        forall|k: int| 0 <= k < 16 ==> #[trigger] repetition(magic_packet_bytes(m), k) == m,
{
    assert forall|k: int| 0 <= k < 16 implies #[trigger] repetition(magic_packet_bytes(m), k)
        == m by {
        assert forall|j: int| 0 <= j < 6 implies repetition(magic_packet_bytes(m), k)[j]
            == m[j] by {
            assert((6 * k + j) % 6 == j) by (nonlinear_arith)
                requires
                    0 <= j < 6,
                    0 <= k,
            {
            }
        }
        assert(repetition(magic_packet_bytes(m), k) =~= m);
    }
}

/// Building is deterministic: two packets built from the same address
/// are byte-identical.
pub proof fn lemma_build_deterministic(m: Seq<u8>, p1: Seq<u8>, p2: Seq<u8>)
    requires
        p1 == magic_packet_bytes(m),
        p2 == magic_packet_bytes(m),
    ensures
        p1 == p2,
{
}

/// Builds the magic packet for `mac`: always succeeds, and the payload
/// is exactly `magic_packet_bytes(mac@)`.
pub fn build_packet(mac: &Mac) -> (r: Result<Vec<u8>, WolError>)
    ensures
        r matches Ok(p) && p@ == magic_packet_bytes(mac@),
{
    let mut packet: Vec<u8> = Vec::new();
    let mut i: usize = 0;
    while i < 6
        invariant
            i <= 6,
            packet@.len() == i,
            forall|t: int| 0 <= t < i ==> packet@[t] == 0xffu8,
        decreases 6 - i,
    {
        packet.push(0xff);
        i = i + 1;
    }

    let payload = mac.as_bytes();
    if payload.len() == 6 {
        let mut k: usize = 0;
        while k < 16
            invariant
                k <= 16,
                payload@ == mac@,
                packet@.len() == 6 + 6 * k,
                forall|t: int| 0 <= t < 6 ==> packet@[t] == 0xffu8,
                forall|t: int| 6 <= t < 6 + 6 * k ==> packet@[t] == mac@[(t - 6) % 6],
            decreases 16 - k,
        {
            let mut j: usize = 0;
            while j < 6
                invariant
                    k < 16,
                    j <= 6,
                    payload@ == mac@,
                    packet@.len() == 6 + 6 * k + j,
                    forall|t: int| 0 <= t < 6 ==> packet@[t] == 0xffu8,
                    forall|t: int| 6 <= t < 6 + 6 * k + j ==> packet@[t] == mac@[(t - 6) % 6],
                decreases 6 - j,
            {
                packet.push(payload[j]);
                proof {
                    assert((6 * k + j) % 6 == j) by (nonlinear_arith)
                        requires 0 <= j < 6, 0 <= k,
                    {}
                }
                j = j + 1;
            }
            k = k + 1;
        }
    } else {
        return Err(WolError::InvalidBufferLength);
    }

    if packet.len() == 102 {
        proof {
            assert(packet@ =~= magic_packet_bytes(mac@));
        }
        Ok(packet)
    } else {
        Err(WolError::InvalidPacketSize)
    }
}

} // verus!
