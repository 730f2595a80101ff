//! The entropy pool: three independent sources, each hashed with SHA-256, then
//! xor-folded into one 256-bit seed. Sampling the sources is the device's part;
//! these functions take the samples.

use vstd::prelude::*;
use crate::crypto::{sha256, sha256_of};

verus! {

/// The least significant byte of each sample.
pub open spec fn low_bytes(samples: Seq<u32>) -> Seq<u8> {
    Seq::new(samples.len(), |i: int| (samples[i] & 0xff) as u8)
}

/// The eight bytes of a 64-bit value, least significant first.
pub open spec fn le_u64_bytes(t: u64) -> Seq<u8> {
    seq![
        (t & 0xff) as u8,
        ((t >> 8u64) & 0xff) as u8,
        ((t >> 16u64) & 0xff) as u8,
        ((t >> 24u64) & 0xff) as u8,
        ((t >> 32u64) & 0xff) as u8,
        ((t >> 40u64) & 0xff) as u8,
        ((t >> 48u64) & 0xff) as u8,
        ((t >> 56u64) & 0xff) as u8,
    ]
}

/// The bytes of each timer snapshot in turn.
pub open spec fn tick_bytes(ticks: Seq<u64>) -> Seq<u8>
    decreases ticks.len(),
{
    if ticks.len() == 0 {
        Seq::empty()
    } else {
        tick_bytes(ticks.drop_last()) + le_u64_bytes(ticks.last())
    }
}

/// Bytewise xor of three 32-byte values.
pub open spec fn xor3(a: Seq<u8>, b: Seq<u8>, c: Seq<u8>) -> Seq<u8> {
    Seq::new(32, |i: int| a[i] ^ b[i] ^ c[i])
}

/// Entropy of the on-chip RAM as found at boot: the digest of its contents.
pub fn get_ram_entropy(ram: &[u8]) -> (r: [u8; 32])
    ensures
        r@ == sha256_of(ram@),
{
    sha256(ram)
}

/// Entropy of the temperature sensor: the digest of the least significant byte
/// of every sample, in order.
pub fn get_temp_entropy(samples: &[u32]) -> (r: [u8; 32])
    ensures
        r@ == sha256_of(low_bytes(samples@)),
{
    let mut lsb: Vec<u8> = Vec::new();
    let mut i: usize = 0;
    while i < samples.len()
        invariant
            i <= samples@.len(),
            lsb@ == low_bytes(samples@.subrange(0, i as int)),
        decreases samples@.len() - i,
    {
        lsb.push((samples[i] & 0xff) as u8);
        i = i + 1;
        assert(lsb@ =~= low_bytes(samples@.subrange(0, i as int)));
    }
    assert(samples@.subrange(0, samples@.len() as int) =~= samples@);
    sha256(lsb.as_slice())
}

/// Entropy of the free-running tick timer: the digest of the snapshots, eight
/// bytes each.
pub fn get_timer_entropy(ticks: &[u64]) -> (r: [u8; 32])
    ensures
        r@ == sha256_of(tick_bytes(ticks@)),
{
    let mut bytes: Vec<u8> = Vec::new();
    let mut i: usize = 0;
    while i < ticks.len()
        invariant
            i <= ticks@.len(),
            bytes@ == tick_bytes(ticks@.subrange(0, i as int)),
        decreases ticks@.len() - i,
    {
        let t = ticks[i];
        let ghost before = bytes@;
        bytes.push((t & 0xff) as u8);
        bytes.push(((t >> 8u64) & 0xff) as u8);
        bytes.push(((t >> 16u64) & 0xff) as u8);
        bytes.push(((t >> 24u64) & 0xff) as u8);
        bytes.push(((t >> 32u64) & 0xff) as u8);
        bytes.push(((t >> 40u64) & 0xff) as u8);
        bytes.push(((t >> 48u64) & 0xff) as u8);
        bytes.push(((t >> 56u64) & 0xff) as u8);
        assert(ticks@.subrange(0, i + 1).drop_last() =~= ticks@.subrange(0, i as int));
        i = i + 1;
        assert(bytes@ =~= before + le_u64_bytes(t));
    }
    assert(ticks@.subrange(0, ticks@.len() as int) =~= ticks@);
    sha256(bytes.as_slice())
}

/// The pool's seed: the three source digests xor-folded.
pub fn get_combined_entropy(ram: &[u8; 32], temp: &[u8; 32], timer: &[u8; 32]) -> (r: [u8; 32])
    ensures
        r@ == xor3(ram@, temp@, timer@),
{
    let mut out: [u8; 32] = [0u8; 32];
    let mut i: usize = 0;
    while i < 32
        invariant
            i <= 32,
            out@.len() == 32,
            forall|j: int| 0 <= j < i ==> #[trigger] out@[j] == ram@[j] ^ temp@[j] ^ timer@[j],
        decreases 32 - i,
    {
        out[i] = ram[i] ^ temp[i] ^ timer[i];
        i = i + 1;
    }
    assert(out@ =~= xor3(ram@, temp@, timer@));
    out
}

} // verus!
