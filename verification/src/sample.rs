//! The sample record that the sampling facility hands back, and its wire
//! layout.
//!
//! A record is eight little-endian 64-bit words, in the order of the fields
//! of [`Sample`]. The layout is fixed by the facility.

use vstd::prelude::*;
use vstd::std_specs::cmp::PartialEqSpecImpl;
use crate::ibs::{IbsOpCtl, IbsOpData, IbsOpData2, IbsOpData3};

verus! {

/// Size of one sample record on the wire, in bytes.
pub const SAMPLE_SIZE: usize = 64;

/// Number of 64-bit words in one sample record.
pub const SAMPLE_WORDS: usize = 8;

/// A sample taken by the sampling facility.
#[derive(Clone, Copy, Debug, Default)]
pub struct Sample {
    /// IBS OP sampling status register (IBS_OP_CTL).
    pub ctl: IbsOpCtl,
    /// Origin instruction pointer for this sample (IBS_OP_RIP).
    pub rip: u64,
    /// Sample data (IBS_OP_DATA).
    pub data: IbsOpData,
    /// Sample data (IBS_OP_DATA2).
    pub data2: IbsOpData2,
    /// Sample data (IBS_OP_DATA3).
    pub data3: IbsOpData3,
    /// Linear address for tagged memory accesses (IBS_DC_LINADDR).
    pub linad: u64,
    /// Physical address for tagged memory accesses (IBS_DC_PHYSADDR).
    pub phyad: u64,
    /// Sampled branch target address (BP_IBSTGT_RIP).
    pub tgt_rip: u64,
}

impl Sample {
    /// Two samples are the same when all fields but the control word agree:
    /// the control word holds a running counter that differs between
    /// otherwise identical samples.
    pub open spec fn same(&self, other: &Sample) -> bool {
        &&& self.rip == other.rip
        &&& self.data == other.data
        &&& self.data2 == other.data2
        &&& self.data3 == other.data3
        &&& self.linad == other.linad
        &&& self.phyad == other.phyad
        &&& self.tgt_rip == other.tgt_rip
    }
}

impl PartialEq for Sample {
    fn eq(&self, other: &Sample) -> (r: bool) {
        self.rip == other.rip && self.data.0 == other.data.0 && self.data2.0 == other.data2.0
            && self.data3.0 == other.data3.0 && self.linad == other.linad && self.phyad
            == other.phyad && self.tgt_rip == other.tgt_rip
    }
}

impl PartialEqSpecImpl for Sample {
    open spec fn obeys_eq_spec() -> bool {
        true
    }

    open spec fn eq_spec(&self, other: &Sample) -> bool {
        self.same(other)
    }
}

impl Eq for Sample {

}

/// `Hash::hash` of `u64`: the number is fed to the hasher. Nothing is
/// claimed of what the hasher makes of it.
pub assume_specification<H: core::hash::Hasher>[ <u64 as core::hash::Hash>::hash ](
    x: &u64,
    state: &mut H,
);

/// Hashing leaves the control word out, as the equality does: samples
/// that are the same hash alike.
impl core::hash::Hash for Sample {
    fn hash<H: core::hash::Hasher>(&self, state: &mut H) {
        self.rip.hash(state);
        self.data.0.hash(state);
        self.data2.0.hash(state);
        self.data3.0.hash(state);
        self.linad.hash(state);
        self.phyad.hash(state);
        self.tgt_rip.hash(state);
    }
}

/// The value of eight bytes read as a little-endian number.
pub open spec fn le_u64(b: Seq<u8>) -> nat
    recommends
        b.len() == 8,
{
    (b[0] as nat) + 0x100 * (b[1] as nat) + 0x1_0000 * (b[2] as nat) + 0x100_0000 * (b[3] as nat)
        + 0x1_0000_0000 * (b[4] as nat) + 0x100_0000_0000 * (b[5] as nat) + 0x1_0000_0000_0000 * (
    b[6] as nat) + 0x100_0000_0000_0000 * (b[7] as nat)
}

/// The `i`-th little-endian 64-bit word of `bytes`.
pub open spec fn word_at(bytes: Seq<u8>, i: int) -> nat {
    le_u64(bytes.subrange(8 * i, 8 * i + 8))
}

/// The `k`-th sample record of `bytes`.
pub open spec fn sample_at(bytes: Seq<u8>, k: int) -> Sample {
    Sample {
        ctl: IbsOpCtl(word_at(bytes, 8 * k) as u64),
        rip: word_at(bytes, 8 * k + 1) as u64,
        data: IbsOpData(word_at(bytes, 8 * k + 2) as u64),
        data2: IbsOpData2(word_at(bytes, 8 * k + 3) as u64),
        data3: IbsOpData3(word_at(bytes, 8 * k + 4) as u64),
        linad: word_at(bytes, 8 * k + 5) as u64,
        phyad: word_at(bytes, 8 * k + 6) as u64,
        tgt_rip: word_at(bytes, 8 * k + 7) as u64,
    }
}

/// The samples that a buffer of whole records holds, in order.
pub open spec fn samples_of(bytes: Seq<u8>) -> Seq<Sample> {
    Seq::new((bytes.len() / 64) as nat, |k: int| sample_at(bytes, k))
}

/// Reads the `i`-th little-endian 64-bit word of `bytes`.
pub fn read_word(bytes: &[u8], i: usize) -> (w: u64)
    requires
        8 * i + 8 <= bytes.len(),
    ensures
        w == word_at(bytes@, i as int),
{
    let off: usize = 8 * i;
    let ghost b = bytes@.subrange(8 * i, 8 * i + 8);
    proof {
        assert(forall|j: int| 0 <= j < 8 ==> b[j] == bytes@[off + j]);
    }
    let b0: u64 = bytes[off] as u64;
    let b1: u64 = bytes[off + 1] as u64;
    let b2: u64 = bytes[off + 2] as u64;
    let b3: u64 = bytes[off + 3] as u64;
    let b4: u64 = bytes[off + 4] as u64;
    let b5: u64 = bytes[off + 5] as u64;
    let b6: u64 = bytes[off + 6] as u64;
    let b7: u64 = bytes[off + 7] as u64;
    b0 + 0x100 * b1 + 0x1_0000 * b2 + 0x100_0000 * b3 + 0x1_0000_0000 * b4 + 0x100_0000_0000 * b5
        + 0x1_0000_0000_0000 * b6 + 0x100_0000_0000_0000 * b7
}

impl Sample {
    /// Decodes the `k`-th sample record of `bytes`.
    pub fn from_bytes(bytes: &[u8], k: usize) -> (s: Sample)
        requires
            64 * k + 64 <= bytes.len(),
        ensures
            s == sample_at(bytes@, k as int),
    {
        let base: usize = 8 * k;
        Sample {
            ctl: IbsOpCtl(read_word(bytes, base)),
            rip: read_word(bytes, base + 1),
            data: IbsOpData(read_word(bytes, base + 2)),
            data2: IbsOpData2(read_word(bytes, base + 3)),
            data3: IbsOpData3(read_word(bytes, base + 4)),
            linad: read_word(bytes, base + 5),
            phyad: read_word(bytes, base + 6),
            tgt_rip: read_word(bytes, base + 7),
        }
    }
}

/// Decodes a buffer of sample records. A buffer that does not hold a whole
/// number of records holds none that can be trusted, and gives `None`.
pub fn decode_samples(bytes: &[u8]) -> (r: Option<Vec<Sample>>)
    ensures
        r is Some <==> bytes@.len() % 64 == 0,
        r matches Some(v) ==> v@ == samples_of(bytes@),
{
    if bytes.len() % SAMPLE_SIZE != 0 {
        None
    } else {
        Some(decode_records(bytes))
    }
}

/// Decodes the whole sample records of a buffer, in order. Bytes behind
/// the last whole record are left out.
pub fn decode_records(bytes: &[u8]) -> (r: Vec<Sample>)
    ensures
        r@ == samples_of(bytes@),
{
    let n: usize = bytes.len() / SAMPLE_SIZE;
    let mut v: Vec<Sample> = Vec::new();
    let mut k: usize = 0;
    while k < n
        invariant
            k <= n,
            n == bytes@.len() / 64,
            v@.len() == k,
            forall|j: int| 0 <= j < k ==> v@[j] == sample_at(bytes@, j),
        decreases n - k,
    {
        let s = Sample::from_bytes(bytes, k);
        v.push(s);
        k += 1;
    }
    proof {
        assert(v@ =~= samples_of(bytes@));
    }
    v
}

/// The number of bytes that `count` sample records take on the wire, where
/// that number can be represented.
pub fn wire_len(count: usize) -> (r: Option<usize>)
    ensures
        r is Some <==> count * 64 <= usize::MAX,
        r matches Some(n) ==> n == count * 64,
{
    count.checked_mul(SAMPLE_SIZE)
}

} // verus!
