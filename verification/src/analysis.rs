//! Analysis of the samples of one test: which samples belong to the target
//! instruction, and which memory accesses they record.

use vstd::prelude::*;
use vstd::string::StringExecFns;
use crate::access::{AccessSet, MemoryAccess};
use crate::text::{decimal, hex, pad_left, push_decimal, push_hex};
use crate::ibs::{IbsOpData, IbsOpData2, IbsOpData3};
use crate::sample::Sample;

verus! {

/// What a sample tells about the sampled op, without the program counter.
#[derive(Copy, Clone, Debug, PartialEq, Eq, Structural, PartialOrd, Ord, Hash)]
pub struct SampleInfo {
    pub data: IbsOpData,
    pub data2: IbsOpData2,
    pub data3: IbsOpData3,
    pub linad: u64,
    pub phyad: u64,
    pub tgt_rip: u64,
}

/// The digit that stands for a flag: 1 where it is set, 0 where not.
pub open spec fn flag_text(flag: bool) -> Seq<char> {
    if flag {
        "1"@
    } else {
        "0"@
    }
}

impl SampleInfo {
    /// The information as one line of text: both retirement counters in
    /// five decimal digits, the microcode and branch flags, and the
    /// physical and the branch target address in sixteen hexadecimal
    /// digits.
    pub open spec fn text(self) -> Seq<char> {
        "[t2r="@ + pad_left(decimal(self.data.spec_tag_to_ret_ctr()), 5, '0') + " c2r="@
            + pad_left(decimal(self.data.spec_comp_to_ret_ctr()), 5, '0') + " uc="@ + flag_text(
            self.data.op_microcode(),
        ) + " brn_ret="@ + flag_text(self.data.op_brn_ret()) + " brn_tkn="@ + flag_text(
            self.data.op_brn_taken(),
        ) + " brn_msp="@ + flag_text(self.data.op_brn_misp()) + " phy="@ + pad_left(
            hex(self.phyad as nat),
            16,
            '0',
        ) + " tgt="@ + pad_left(hex(self.tgt_rip as nat), 16, '0')
    }

    /// The information as one line of text.
    pub fn as_string(&self) -> (res: String)
        ensures
            res@ == self.text(),
    {
        let mut res = String::new();
        res.append("[t2r=");
        push_decimal(&mut res, self.data.tag_to_ret_ctr(), 5, '0');
        res.append(" c2r=");
        push_decimal(&mut res, self.data.comp_to_ret_ctr(), 5, '0');
        res.append(" uc=");
        res.append(if self.data.op_microcode() { "1" } else { "0" });
        res.append(" brn_ret=");
        res.append(if self.data.op_brn_ret() { "1" } else { "0" });
        res.append(" brn_tkn=");
        res.append(if self.data.op_brn_taken() { "1" } else { "0" });
        res.append(" brn_msp=");
        res.append(if self.data.op_brn_misp() { "1" } else { "0" });
        res.append(" phy=");
        push_hex(&mut res, self.phyad, 16);
        res.append(" tgt=");
        push_hex(&mut res, self.tgt_rip, 16);
        proof {
            assert(res@ =~= self.text());
        }
        res
    }

    pub fn from_sample(s: &Sample) -> (r: SampleInfo)
        ensures
            r == (SampleInfo {
                data: s.data,
                data2: s.data2,
                data3: s.data3,
                linad: s.linad,
                phyad: s.phyad,
                tgt_rip: s.tgt_rip,
            }),
    {
        SampleInfo {
            data: s.data,
            data2: s.data2,
            data3: s.data3,
            linad: s.linad,
            phyad: s.phyad,
            tgt_rip: s.tgt_rip,
        }
    }
}

/// The program counter of an instruction that lies `offset` bytes into
/// code loaded at `base`.
pub open spec fn spec_target_rip(base: u64, offset: usize) -> int {
    base + offset
}

/// The program counter of an instruction that lies `offset` bytes into
/// code loaded at `base`, where the address space holds it.
pub fn target_rip(base: u64, offset: usize) -> (r: Option<u64>)
    ensures
        r is Some <==> base + offset <= u64::MAX,
        r matches Some(rip) ==> rip == spec_target_rip(base, offset),
{
    base.checked_add(offset as u64)
}

/// Extending a sequence by one item extends what a filter keeps of it by
/// that item, or by nothing.
pub proof fn lemma_filter_step<A>(s: Seq<A>, pred: spec_fn(A) -> bool, i: int)
    requires
        0 <= i < s.len(),
    ensures
        s.take(i + 1).filter(pred) == if pred(s[i]) {
            s.take(i).filter(pred).push(s[i])
        } else {
            s.take(i).filter(pred)
        },
{
    reveal(Seq::filter);
    assert(s.take(i + 1).drop_last() =~= s.take(i));
    assert(s.take(i + 1).last() == s[i]);
}

/// The samples whose origin program counter is `tgt_rip`, in the order in
/// which they were taken.
pub fn filter_by_rip(samples: &[Sample], tgt_rip: u64) -> (r: Vec<Sample>)
    ensures
        r@ == samples@.filter(|s: Sample| s.rip == tgt_rip),
{
    let ghost pred = |s: Sample| s.rip == tgt_rip;
    let mut r: Vec<Sample> = Vec::new();
    let mut i: usize = 0;
    proof {
        reveal(Seq::filter);
        assert(samples@.take(0).filter(pred) =~= Seq::<Sample>::empty());
    }
    while i < samples.len()
        invariant
            i <= samples@.len(),
            pred == (|s: Sample| s.rip == tgt_rip),
            r@ == samples@.take(i as int).filter(pred),
        decreases samples@.len() - i,
    {
        proof {
            lemma_filter_step(samples@, pred, i as int);
        }
        if samples[i].rip == tgt_rip {
            r.push(samples[i]);
        }
        i += 1;
    }
    proof {
        assert(samples@.take(samples@.len() as int) =~= samples@);
    }
    r
}

/// Whether one of `picked` is the same as `s`.
pub open spec fn has_same(picked: Seq<Sample>, s: Sample) -> bool {
    exists|i: int| 0 <= i < picked.len() && picked[i].same(&s)
}

/// Whether `picked` holds one sample for each sample of `samples`, up to
/// sameness: no two of `picked` are the same, each of them is one of
/// `samples`, and each of `samples` is the same as one of them.
pub open spec fn represents(picked: Seq<Sample>, samples: Seq<Sample>) -> bool {
    &&& forall|i: int, j: int|
        #![trigger picked[i], picked[j]]
        0 <= i < j < picked.len() ==> !picked[i].same(&picked[j])
    &&& forall|i: int| 0 <= i < picked.len() ==> #[trigger] samples.contains(picked[i])
    &&& forall|k: int| 0 <= k < samples.len() ==> #[trigger] has_same(picked, samples[k])
}

/// Of samples that are the same, the first: the samples of `samples`, in
/// order, without those that are the same as one before them.
pub open spec fn firsts(samples: Seq<Sample>) -> Seq<Sample>
    decreases samples.len(),
{
    if samples.len() == 0 {
        Seq::empty()
    } else {
        let before = firsts(samples.drop_last());
        if has_same(before, samples.last()) {
            before
        } else {
            before.push(samples.last())
        }
    }
}

/// The first of the samples that are the same represent all samples.
pub proof fn lemma_firsts_represent(samples: Seq<Sample>)
    ensures
        represents(firsts(samples), samples),
    decreases samples.len(),
{
    if samples.len() > 0 {
        let head = samples.drop_last();
        let s = samples.last();
        lemma_firsts_represent(head);
        assert(head.push(s) =~= samples);
        let picked = firsts(head);
        assert forall|i: int| 0 <= i < picked.len() implies #[trigger] samples.contains(
            picked[i],
        ) by {
            assert(head.contains(picked[i]));
            let w = choose|w: int| 0 <= w < head.len() && head[w] == picked[i];
            assert(samples[w] == picked[i]);
        }
        if has_same(picked, s) {
            assert forall|k: int| 0 <= k < samples.len() implies #[trigger] has_same(
                picked,
                samples[k],
            ) by {
                if k < head.len() {
                    assert(has_same(picked, head[k]));
                }
            }
        } else {
            let both = picked.push(s);
            assert forall|i: int, j: int|
                #![trigger both[i], both[j]]
                0 <= i < j < both.len() implies !both[i].same(&both[j]) by {
                if j < picked.len() {
                    assert(!picked[i].same(&picked[j]));
                } else {
                    if both[i].same(&both[j]) {
                        assert(picked[i].same(&s));
                    }
                }
            }
            assert forall|i: int| 0 <= i < both.len() implies #[trigger] samples.contains(
                both[i],
            ) by {
                if i < picked.len() {
                    assert(samples.contains(picked[i]));
                } else {
                    assert(samples[samples.len() - 1] == both[i]);
                }
            }
            assert forall|k: int| 0 <= k < samples.len() implies #[trigger] has_same(
                both,
                samples[k],
            ) by {
                if k < head.len() {
                    assert(has_same(picked, head[k]));
                    let i = choose|i: int| 0 <= i < picked.len() && picked[i].same(&head[k]);
                    assert(both[i].same(&samples[k]));
                } else {
                    assert(both[picked.len() as int].same(&samples[k]));
                }
            }
        }
    }
}

/// Whether one of `picked` is the same as `s`.
fn holds_same(picked: &Vec<Sample>, s: &Sample) -> (r: bool)
    ensures
        r == has_same(picked@, *s),
{
    let mut i: usize = 0;
    while i < picked.len()
        invariant
            i <= picked@.len(),
            forall|m: int| 0 <= m < i ==> !(#[trigger] picked@[m]).same(s),
        decreases picked@.len() - i,
    {
        if picked[i] == *s {
            return true;
        }
        i += 1;
    }
    false
}

/// The unique samples of the instruction at `tgt_rip`: of samples that
/// are the same, the first is kept. They represent all samples of the
/// instruction.
pub fn uniq_samples(samples: &[Sample], tgt_rip: u64) -> (r: Vec<Sample>)
    ensures
        r@ == firsts(samples@.filter(|s: Sample| s.rip == tgt_rip)),
        represents(r@, samples@.filter(|s: Sample| s.rip == tgt_rip)),
{
    let found = filter_by_rip(samples, tgt_rip);
    let ghost all = found@;
    let mut uniq: Vec<Sample> = Vec::new();
    let mut k: usize = 0;
    proof {
        assert(all.take(0) =~= Seq::<Sample>::empty());
    }
    while k < found.len()
        invariant
            k <= all.len(),
            all == found@,
            uniq@ == firsts(all.take(k as int)),
        decreases all.len() - k,
    {
        let s = found[k];
        proof {
            assert(all.take(k + 1).drop_last() =~= all.take(k as int));
            assert(all.take(k + 1).last() == s);
        }
        if !holds_same(&uniq, &s) {
            uniq.push(s);
        }
        k += 1;
    }
    proof {
        assert(all.take(all.len() as int) =~= all);
        lemma_firsts_represent(all);
    }
    uniq
}

/// The access that the `i`-th sample records for the instruction at
/// `tgt_rip`, if it records one.
pub open spec fn access_at(samples: Seq<Sample>, tgt_rip: u64, i: int) -> Option<MemoryAccess> {
    if samples[i].rip == tgt_rip {
        MemoryAccess::of_sample(samples[i])
    } else {
        None
    }
}

/// The accesses that the samples record for the instruction at `tgt_rip`.
pub open spec fn uniq_accesses(samples: Seq<Sample>, tgt_rip: u64) -> Set<MemoryAccess> {
    Set::new(
        |a: MemoryAccess|
            exists|i: int| 0 <= i < samples.len() && access_at(samples, tgt_rip, i) == Some(a),
    )
}

/// A sample of the instruction at `tgt_rip` that records an access puts
/// that access into the set, which is then not empty.
pub proof fn lemma_recorded_access_is_member(samples: Seq<Sample>, tgt_rip: u64, i: int)
    requires
        0 <= i < samples.len(),
        samples[i].rip == tgt_rip,
        MemoryAccess::of_sample(samples[i]) is Some,
    ensures
        uniq_accesses(samples, tgt_rip).contains(MemoryAccess::of_sample(samples[i])->0),
        uniq_accesses(samples, tgt_rip) != Set::<MemoryAccess>::empty(),
{
    let a = MemoryAccess::of_sample(samples[i])->0;
    assert(access_at(samples, tgt_rip, i) == Some(a));
    assert(uniq_accesses(samples, tgt_rip).contains(a));
}

/// Every member of the set is recorded by a sample of the instruction at
/// `tgt_rip` whose program counter is valid: the sample has the physical
/// address of the member, and its flags give the kind of the member.
/// Samples of other instructions add nothing.
pub proof fn lemma_member_is_recorded(samples: Seq<Sample>, tgt_rip: u64, a: MemoryAccess)
    requires
        uniq_accesses(samples, tgt_rip).contains(a),
    ensures
        exists|i: int|
            {
                &&& 0 <= i < samples.len()
                &&& (#[trigger] samples[i]).rip == tgt_rip
                &&& !samples[i].data.rip_invalid()
                &&& MemoryAccess::of_sample(samples[i]) == Some(a)
                &&& a.phys == samples[i].phyad
                &&& Some(a.kind) == crate::access::MemoryAccessKind::of_flags(
                    samples[i].data3.st_op(),
                    samples[i].data3.ld_op(),
                )
            },
{
    let i = choose|i: int| 0 <= i < samples.len() && access_at(samples, tgt_rip, i) == Some(a);
    assert(samples[i].rip == tgt_rip);
}

/// Samples taken twice give the same set as samples taken once.
pub proof fn lemma_doubled_samples(samples: Seq<Sample>, tgt_rip: u64)
    ensures
        uniq_accesses(samples + samples, tgt_rip) == uniq_accesses(samples, tgt_rip),
{
    let twice = samples + samples;
    assert forall|a: MemoryAccess|
        uniq_accesses(twice, tgt_rip).contains(a) <==> uniq_accesses(samples, tgt_rip).contains(
            a,
        ) by {
        if uniq_accesses(twice, tgt_rip).contains(a) {
            let i = choose|i: int|
                0 <= i < twice.len() && access_at(twice, tgt_rip, i) == Some(a);
            let k = if i < samples.len() {
                i
            } else {
                i - samples.len()
            };
            assert(twice[i] == samples[k]);
            assert(access_at(samples, tgt_rip, k) == Some(a));
        }
        if uniq_accesses(samples, tgt_rip).contains(a) {
            let i = choose|i: int|
                0 <= i < samples.len() && access_at(samples, tgt_rip, i) == Some(a);
            assert(twice[i] == samples[i]);
            assert(access_at(twice, tgt_rip, i) == Some(a));
        }
    }
    assert(uniq_accesses(twice, tgt_rip) =~= uniq_accesses(samples, tgt_rip));
}

/// Return the set of the *unique* memory accesses in some set of samples.
pub fn get_uniq_accesses(samples: &[Sample], tgt_rip: u64) -> (r: AccessSet)
    ensures
        r@ == uniq_accesses(samples@, tgt_rip),
{
    let mut uniq = AccessSet::new();
    let mut i: usize = 0;
    proof {
        assert(uniq@ =~= uniq_accesses(samples@.take(0), tgt_rip));
    }
    while i < samples.len()
        invariant
            i <= samples@.len(),
            uniq@ == uniq_accesses(samples@.take(i as int), tgt_rip),
        decreases samples@.len() - i,
    {
        let ghost before = uniq@;
        let sample = &samples[i];
        let mut found: Option<MemoryAccess> = None;
        if sample.rip == tgt_rip {
            found = MemoryAccess::from_sample(sample);
        }
        if let Some(access) = found {
            uniq.insert(access);
        }
        proof {
            let s0 = samples@.take(i as int);
            let s1 = samples@.take(i + 1);
            assert(found == access_at(samples@, tgt_rip, i as int));
            assert forall|a: MemoryAccess| uniq@.contains(a) <==> uniq_accesses(
                s1,
                tgt_rip,
            ).contains(a) by {
                if uniq_accesses(s1, tgt_rip).contains(a) {
                    let k = choose|k: int|
                        0 <= k < s1.len() && access_at(s1, tgt_rip, k) == Some(a);
                    if k < i {
                        assert(access_at(s0, tgt_rip, k) == Some(a));
                    }
                }
                if before.contains(a) {
                    let k = choose|k: int|
                        0 <= k < s0.len() && access_at(s0, tgt_rip, k) == Some(a);
                    assert(access_at(s1, tgt_rip, k) == Some(a));
                }
                if found == Some(a) {
                    assert(access_at(s1, tgt_rip, i as int) == Some(a));
                }
            }
            assert(uniq@ =~= uniq_accesses(s1, tgt_rip));
        }
        i += 1;
    }
    proof {
        assert(samples@.take(samples@.len() as int) =~= samples@);
    }
    uniq
}

} // verus!
