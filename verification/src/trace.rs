//! Traces of micro-ops: one decoded sample for each retirement offset at
//! which the facility had something to report.

use vstd::prelude::*;
use vstd::string::StringExecFns;
use crate::analysis::lemma_filter_step;
use crate::ibs::NbDataSrc;
use crate::ioctl::{PreciseArgs, MAX_OFFSET};
use crate::sample::Sample;
use crate::text::{decimal, pad_left, push_decimal};

verus! {

/// Properties of sampled load/store ops.
#[derive(Clone, Copy, Debug, PartialEq, Eq, Structural, Hash)]
pub struct LdstProps {
    /// Width of the access in bytes.
    pub width: usize,
    pub locked: bool,
    pub uc: bool,
    pub wc: bool,
    pub swpf: bool,
    pub src: NbDataSrc,
}

/// The tag under which a data source is shown; nothing for an invalid
/// source.
pub open spec fn src_text(src: NbDataSrc) -> Seq<char> {
    match src {
        NbDataSrc::Dram => "[dram]"@,
        NbDataSrc::Invalid => Seq::empty(),
        NbDataSrc::Cache => "[cache]"@,
        NbDataSrc::Other => "[other]"@,
        NbDataSrc::Reserved1 => "[res1]"@,
        NbDataSrc::Reserved4 => "[res4]"@,
        NbDataSrc::Reserved5 => "[res5]"@,
        NbDataSrc::Reserved6 => "[res6]"@,
    }
}

/// `tag` where `flag` holds, and nothing where it does not.
pub open spec fn tag_if(flag: bool, tag: Seq<char>) -> Seq<char> {
    if flag {
        tag
    } else {
        Seq::empty()
    }
}

impl LdstProps {
    /// The properties that a sample records of a load or store.
    pub open spec fn of_sample(s: Sample) -> LdstProps {
        LdstProps {
            width: s.data3.op_mem_width().spec_bytes() as usize,
            locked: s.data3.dc_locked_op(),
            uc: s.data3.dc_uc_mem_acc(),
            wc: s.data3.dc_wc_mem_acc(),
            swpf: s.data3.sw_pf(),
            src: s.data2.data_src(),
        }
    }

    /// The properties as text: the width in bytes, right-aligned in three
    /// columns, then a tag for each flag that is set, then the data source.
    pub open spec fn text(self) -> Seq<char> {
        "["@ + pad_left(decimal(self.width as nat), 3, ' ') + "b]"@ + tag_if(
            self.locked,
            "[lock]"@,
        ) + tag_if(self.uc, "[uc]"@) + tag_if(self.wc, "[wc]"@) + tag_if(self.swpf, "[swpf]"@)
            + src_text(self.src)
    }

    pub fn from_sample(s: &Sample) -> (r: LdstProps)
        ensures
            r == LdstProps::of_sample(*s),
    {
        LdstProps {
            width: s.data3.op_mem_width().bytes(),
            locked: s.data3.dc_locked_op(),
            uc: s.data3.dc_uc_mem_acc(),
            wc: s.data3.dc_wc_mem_acc(),
            swpf: s.data3.sw_pf(),
            src: s.data2.data_src(),
        }
    }

    /// Return a string with the "properties" of this op.
    pub fn as_string(&self) -> (res: String)
        ensures
            res@ == self.text(),
    {
        let mut res = String::new();
        res.append("[");
        push_decimal(&mut res, self.width as u64, 3, ' ');
        res.append("b]");
        if self.locked {
            res.append("[lock]");
        }
        if self.uc {
            res.append("[uc]");
        }
        if self.wc {
            res.append("[wc]");
        }
        if self.swpf {
            res.append("[swpf]");
        }
        match self.src {
            NbDataSrc::Dram => res.append("[dram]"),
            NbDataSrc::Invalid => {},
            NbDataSrc::Cache => res.append("[cache]"),
            NbDataSrc::Other => res.append("[other]"),
            NbDataSrc::Reserved1 => res.append("[res1]"),
            NbDataSrc::Reserved4 => res.append("[res4]"),
            NbDataSrc::Reserved5 => res.append("[res5]"),
            NbDataSrc::Reserved6 => res.append("[res6]"),
        }
        proof {
            assert(res@ =~= self.text());
        }
        res
    }
}

/// Properties of sampled branch ops.
#[derive(Clone, Copy, Debug, PartialEq, Eq, Structural, Hash)]
pub struct BrnProps {
    pub misp: bool,
    pub retired: bool,
    pub taken: bool,
    pub retrn: bool,
    pub fused: bool,
}

impl BrnProps {
    /// The properties that a sample records of a branch.
    pub open spec fn of_sample(s: Sample) -> BrnProps {
        BrnProps {
            misp: s.data.op_brn_misp(),
            retired: s.data.op_brn_ret(),
            taken: s.data.op_brn_taken(),
            retrn: s.data.op_return(),
            fused: s.data.op_brn_fuse(),
        }
    }

    /// The properties as text: retired or speculative, taken or not,
    /// mispredicted or not, then a tag for a return and one for a fused
    /// branch.
    pub open spec fn text(self) -> Seq<char> {
        (if self.retired {
            "[retire]"@
        } else {
            "[specul]"@
        }) + (if self.taken {
            "[t]"@
        } else {
            "[nt]"@
        }) + (if self.misp {
            "[miss]"@
        } else {
            "[hit]"@
        }) + tag_if(self.retrn, "[return]"@) + tag_if(self.fused, "[fused]"@)
    }

    pub fn from_sample(s: &Sample) -> (r: BrnProps)
        ensures
            r == BrnProps::of_sample(*s),
    {
        BrnProps {
            misp: s.data.op_brn_misp(),
            retired: s.data.op_brn_ret(),
            taken: s.data.op_brn_taken(),
            retrn: s.data.op_return(),
            fused: s.data.op_brn_fuse(),
        }
    }

    /// Return a string with the "properties" of this op.
    pub fn as_string(&self) -> (res: String)
        ensures
            res@ == self.text(),
    {
        let mut res = String::new();
        let miss = if self.misp {
            "[miss]"
        } else {
            "[hit]"
        };
        let ret = if self.retired {
            "[retire]"
        } else {
            "[specul]"
        };
        let dir = if self.taken {
            "[t]"
        } else {
            "[nt]"
        };
        res.append(ret);
        res.append(dir);
        res.append(miss);
        if self.retrn {
            res.append("[return]");
        }
        if self.fused {
            res.append("[fused]");
        }
        proof {
            assert(res@ =~= self.text());
        }
        res
    }
}

/// A micro-op corresponding to a [`Sample`] in some [`Trace`].
#[derive(Clone, Copy, Debug, PartialEq, Eq, Structural, Hash)]
#[allow(inconsistent_fields)]
pub enum TraceOp {
    /// Load op
    Ld { lin: u64, phy: u64, prop: LdstProps },
    /// Store op
    St { lin: u64, phy: u64, prop: LdstProps },
    /// Load/Store op
    Ldst { lin: u64, phy: u64, prop: LdstProps },
    /// Branch op, with the address that the branch went to
    Brn { tgt: u64, prop: BrnProps },
    /// Register op
    Reg {  },
}

impl TraceOp {
    /// Whether the sample is tagged as a branch in any way.
    pub open spec fn is_branch(s: Sample) -> bool {
        s.data.op_brn_fuse() || s.data.op_brn_ret() || s.data.op_return() || s.data.op_brn_misp()
            || s.data.op_brn_taken()
    }

    /// The micro-op that a sample records. A load or store is one even
    /// where it is tagged as a branch as well.
    pub open spec fn of_sample(s: Sample) -> TraceOp {
        let prop = LdstProps::of_sample(s);
        if s.data3.ld_op() && s.data3.st_op() {
            TraceOp::Ldst { lin: s.linad, phy: s.phyad, prop }
        } else if s.data3.ld_op() {
            TraceOp::Ld { lin: s.linad, phy: s.phyad, prop }
        } else if s.data3.st_op() {
            TraceOp::St { lin: s.linad, phy: s.phyad, prop }
        } else if TraceOp::is_branch(s) {
            TraceOp::Brn { tgt: s.tgt_rip, prop: BrnProps::of_sample(s) }
        } else {
            TraceOp::Reg {  }
        }
    }

    /// The two-letter name of the kind of op.
    pub open spec fn mnemonic_text(self) -> Seq<char> {
        match self {
            TraceOp::Ld { .. } => "LD"@,
            TraceOp::St { .. } => "ST"@,
            TraceOp::Ldst { .. } => "LS"@,
            TraceOp::Reg {  } => "RG"@,
            TraceOp::Brn { .. } => "BR"@,
        }
    }

    /// The properties of the op as text; a register op has none.
    pub open spec fn prop_text(self) -> Seq<char> {
        match self {
            TraceOp::Reg {  } => Seq::empty(),
            TraceOp::Ld { lin, phy, prop } => prop.text(),
            TraceOp::St { lin, phy, prop } => prop.text(),
            TraceOp::Ldst { lin, phy, prop } => prop.text(),
            TraceOp::Brn { tgt, prop } => prop.text(),
        }
    }

    /// Create a [`TraceOp`] from the given [`Sample`].
    pub fn from_sample(s: &Sample) -> (r: TraceOp)
        ensures
            r == TraceOp::of_sample(*s),
    {
        let is_st = s.data3.st_op();
        let is_ld = s.data3.ld_op();
        let is_brn = s.data.op_brn_fuse() || s.data.op_brn_ret() || s.data.op_return()
            || s.data.op_brn_misp() || s.data.op_brn_taken();
        if is_ld || is_st {
            let prop = LdstProps::from_sample(s);
            if is_ld && is_st {
                TraceOp::Ldst { lin: s.linad, phy: s.phyad, prop }
            } else if is_ld {
                TraceOp::Ld { lin: s.linad, phy: s.phyad, prop }
            } else {
                TraceOp::St { lin: s.linad, phy: s.phyad, prop }
            }
        } else if is_brn {
            let prop = BrnProps::from_sample(s);
            TraceOp::Brn { tgt: s.tgt_rip, prop }
        } else {
            TraceOp::Reg {  }
        }
    }

    /// Return the "mnemonic" for this op.
    pub fn mnemonic(&self) -> (r: &'static str)
        ensures
            r@ == self.mnemonic_text(),
    {
        match self {
            TraceOp::Ld { .. } => "LD",
            TraceOp::St { .. } => "ST",
            TraceOp::Ldst { .. } => "LS",
            TraceOp::Reg {  } => "RG",
            TraceOp::Brn { .. } => "BR",
        }
    }

    /// Return a string with the "properties" of this op.
    pub fn propstring(&self) -> (res: String)
        ensures
            res@ == self.prop_text(),
    {
        match self {
            TraceOp::Reg {  } => String::new(),
            TraceOp::Ld { lin, phy, prop } => prop.as_string(),
            TraceOp::St { lin, phy, prop } => prop.as_string(),
            TraceOp::Ldst { lin, phy, prop } => prop.as_string(),
            TraceOp::Brn { tgt, prop } => prop.as_string(),
        }
    }
}

/// One sampled micro-op of a trace.
#[derive(Clone, Copy, Debug, PartialEq, Eq, Structural, Hash)]
pub struct TraceEntry {
    /// The retirement offset that was asked for.
    pub offset: usize,
    /// The program counter of the sampled op.
    pub rip: u64,
    /// Cycles from tagging to retirement.
    pub tag_to_retire: u64,
    /// Cycles from completion to retirement.
    pub complete_to_retire: u64,
    /// Whether the op came from microcode.
    pub ucode: bool,
    /// The decoded op.
    pub op: TraceOp,
}

impl TraceEntry {
    /// The entry for the sample that came back for `offset`.
    pub open spec fn of_sample(offset: usize, s: Sample) -> TraceEntry {
        TraceEntry {
            offset,
            rip: s.rip,
            tag_to_retire: s.data.spec_tag_to_ret_ctr() as u64,
            complete_to_retire: s.data.spec_comp_to_ret_ctr() as u64,
            ucode: s.data.op_microcode(),
            op: TraceOp::of_sample(s),
        }
    }

    /// The entry for the sample that came back for `offset`.
    pub fn from_sample(offset: usize, s: &Sample) -> (r: TraceEntry)
        ensures
            r == TraceEntry::of_sample(offset, *s),
    {
        TraceEntry {
            offset,
            rip: s.rip,
            tag_to_retire: s.data.tag_to_ret_ctr(),
            complete_to_retire: s.data.comp_to_ret_ctr(),
            ucode: s.data.op_microcode(),
            op: TraceOp::from_sample(s),
        }
    }

    /// Cycles from tagging to completion, where the two counters allow it:
    /// `None` where completion is counted later than tagging.
    pub fn tag_to_complete(&self) -> (r: Option<u64>)
        ensures
            r is Some <==> self.complete_to_retire <= self.tag_to_retire,
            r matches Some(c) ==> c == self.tag_to_retire - self.complete_to_retire,
    {
        self.tag_to_retire.checked_sub(self.complete_to_retire)
    }
}

/// A range of retirement offsets, both ends included. It is empty where
/// `first` is greater than `last`.
#[derive(Clone, Copy, Debug, PartialEq, Eq, Structural, Hash)]
pub struct OffsetRange {
    pub first: usize,
    pub last: usize,
}

impl OffsetRange {
    /// The number of offsets in the range.
    pub open spec fn count(self) -> nat {
        if self.first <= self.last {
            (self.last - self.first + 1) as nat
        } else {
            0
        }
    }

    pub fn new(first: usize, last: usize) -> (r: OffsetRange)
        ensures
            r == (OffsetRange { first, last }),
    {
        OffsetRange { first, last }
    }
}

/// A collection of samples corresponding to a "trace" of micro-ops in
/// dispatched/retired order.
#[derive(Clone, Debug)]
pub struct Trace {
    /// User-defined annotation
    pub annotation: String,
    /// Range of sampled offsets
    pub offset_range: OffsetRange,
    /// Program counter of the instruction marked as the "target" in user code
    pub target_rip: u64,
    /// Container for the samples, in the order of collection
    pub samples: Vec<TraceEntry>,
}

/// The entry that the samples returned for one offset give: that of the
/// first sample, and none where no sample came back.
pub open spec fn entry_of(offset: usize, res: Seq<Sample>) -> Option<TraceEntry> {
    if res.len() > 0 {
        Some(TraceEntry::of_sample(offset, res[0]))
    } else {
        None
    }
}

/// The entries of a trace, given what came back for each of the offsets
/// from `first` on, in turn.
pub open spec fn entries_of(first: usize, results: Seq<Seq<Sample>>) -> Seq<TraceEntry>
    decreases results.len(),
{
    if results.len() == 0 {
        Seq::empty()
    } else {
        let before = entries_of(first, results.drop_last());
        match entry_of((first + results.len() - 1) as usize, results.last()) {
            Some(e) => before.push(e),
            None => before,
        }
    }
}

/// A trace has at most one entry for each offset, and its entries come in
/// ascending order of their offsets, which lie where the results do.
pub proof fn lemma_entries_of(first: usize, results: Seq<Seq<Sample>>)
    requires
        first + results.len() <= usize::MAX + 1,
    ensures
        entries_of(first, results).len() <= results.len(),
        forall|k: int|
            0 <= k < entries_of(first, results).len() ==> first <= (#[trigger] entries_of(
                first,
                results,
            )[k]).offset < first + results.len(),
        forall|j: int, k: int|
            0 <= j < k < entries_of(first, results).len() ==> entries_of(first, results)[j].offset
                < entries_of(first, results)[k].offset,
        forall|k: int|
            0 <= k < entries_of(first, results).len() ==> {
                let e = #[trigger] entries_of(first, results)[k];
                &&& results[e.offset - first].len() > 0
                &&& e == TraceEntry::of_sample(e.offset, results[e.offset - first][0])
            },
    decreases results.len(),
{
    if results.len() > 0 {
        lemma_entries_of(first, results.drop_last());
        let before = entries_of(first, results.drop_last());
        assert forall|k: int| 0 <= k < before.len() implies {
            let e = #[trigger] before[k];
            results.drop_last()[e.offset - first] == results[e.offset - first]
        } by {}
    }
}

impl Trace {
    /// Set the annotation.
    pub fn annotate(&mut self, s: &str)
        ensures
            final(self).annotation@ == s@,
            final(self).offset_range == old(self).offset_range,
            final(self).target_rip == old(self).target_rip,
            final(self).samples == old(self).samples,
    {
        self.annotation = String::from_str(s);
    }

    /// Keep only the entries whose program counter is `rip`, in their
    /// order.
    pub fn retain_rip(&mut self, rip: u64)
        ensures
            final(self).samples@ == old(self).samples@.filter(|e: TraceEntry| e.rip == rip),
            final(self).annotation == old(self).annotation,
            final(self).offset_range == old(self).offset_range,
            final(self).target_rip == old(self).target_rip,
    {
        let ghost pred = |e: TraceEntry| e.rip == rip;
        let ghost all = self.samples@;
        let mut kept: Vec<TraceEntry> = Vec::new();
        let mut i: usize = 0;
        proof {
            reveal(Seq::filter);
            assert(all.take(0).filter(pred) =~= Seq::<TraceEntry>::empty());
        }
        while i < self.samples.len()
            invariant
                i <= all.len(),
                self.samples@ == all,
                self.annotation == old(self).annotation,
                self.offset_range == old(self).offset_range,
                self.target_rip == old(self).target_rip,
                pred == (|e: TraceEntry| e.rip == rip),
                kept@ == all.take(i as int).filter(pred),
            decreases all.len() - i,
        {
            proof {
                lemma_filter_step(all, pred, i as int);
            }
            if self.samples[i].rip == rip {
                kept.push(self.samples[i]);
            }
            i += 1;
        }
        proof {
            assert(all.take(all.len() as int) =~= all);
        }
        self.samples = kept;
    }
}

/// The collection of a trace, one retirement offset at a time.
///
/// The collector says which precise measurement is due next, and takes
/// what came back for it. The measuring itself is the caller's part.
pub struct TraceCollector {
    target_rip: u64,
    rdi_val: usize,
    range: OffsetRange,
    taken: usize,
    samples: Vec<TraceEntry>,
    results: Ghost<Seq<Seq<Sample>>>,
}

impl TraceCollector {
    #[verifier::type_invariant]
    spec fn consistent(self) -> bool {
        &&& self.range.first <= self.range.last ==> self.range.last <= MAX_OFFSET
        &&& self.taken == self.results@.len()
        &&& self.results@.len() <= self.range.count()
        &&& self.samples@ == entries_of(self.range.first, self.results@)
    }

    /// What came back so far, for each offset from the first on.
    pub closed spec fn results(&self) -> Seq<Seq<Sample>> {
        self.results@
    }

    /// The range of offsets to collect.
    pub closed spec fn range(&self) -> OffsetRange {
        self.range
    }

    /// The program counter of the target instruction.
    pub closed spec fn target_rip(&self) -> u64 {
        self.target_rip
    }

    /// The word handed to the measured code with each measurement.
    pub closed spec fn rdi_val(&self) -> usize {
        self.rdi_val
    }

    /// Whether something came back for every offset of the range.
    pub open spec fn spec_finished(&self) -> bool {
        self.results().len() == self.range().count()
    }

    /// Starts the collection of a trace over `range`, for code whose target
    /// instruction lies at `target_rip`. No offset of the range may exceed
    /// the greatest that the device accepts.
    pub fn new(target_rip: u64, range: OffsetRange, rdi_val: usize) -> (r: TraceCollector)
        requires
            range.first <= range.last ==> range.last <= MAX_OFFSET,
        ensures
            r.results() == Seq::<Seq<Sample>>::empty(),
            r.range() == range,
            r.target_rip() == target_rip,
            r.rdi_val() == rdi_val,
    {
        TraceCollector {
            target_rip,
            rdi_val,
            range,
            taken: 0,
            samples: Vec::new(),
            results: Ghost(Seq::empty()),
        }
    }

    /// Whether something came back for every offset of the range.
    #[verifier::when_used_as_spec(spec_finished)]
    pub fn finished(&self) -> (r: bool)
        ensures
            r == self.spec_finished(),
            self.results().len() <= self.range().count(),
    {
        self.next_request().is_none()
    }

    /// The measurement that is due next: at the offset that follows those
    /// already taken. `None` once the range is exhausted.
    pub fn next_request(&self) -> (r: Option<PreciseArgs>)
        ensures
            self.results().len() <= self.range().count(),
            r is None <==> self.spec_finished(),
            r matches Some(args) ==> args.spec_ptr() == self.rdi_val() && args.spec_offset()
                == self.range().first + self.results().len(),
    {
        proof {
            use_type_invariant(self);
        }
        if self.range.first > self.range.last || self.taken > self.range.last - self.range.first {
            None
        } else {
            Some(PreciseArgs::new(self.rdi_val, self.range.first + self.taken))
        }
    }

    /// Takes what came back for the measurement that was due. The first
    /// sample, if there is one, becomes the next entry of the trace; the
    /// offset is passed over in silence where nothing came back.
    pub fn record(&mut self, res: &[Sample])
        requires
            !old(self).spec_finished(),
        ensures
            final(self).results() == old(self).results().push(res@),
            final(self).range() == old(self).range(),
            final(self).target_rip() == old(self).target_rip(),
            final(self).rdi_val() == old(self).rdi_val(),
    {
        proof {
            use_type_invariant(&*self);
        }
        let mut state = TraceCollector::new(self.target_rip, self.range, self.rdi_val);
        core::mem::swap(self, &mut state);
        let TraceCollector { target_rip, rdi_val, range, taken, mut samples, results } = state;
        if res.len() > 0 {
            samples.push(TraceEntry::from_sample(range.first + taken, &res[0]));
        }
        proof {
            assert(results@.push(res@).drop_last() =~= results@);
        }
        *self = TraceCollector {
            target_rip,
            rdi_val,
            range,
            taken: taken + 1,
            samples,
            results: Ghost(results@.push(res@)),
        };
    }

    /// The trace of what was collected: an entry for each offset for which
    /// a sample came back, in ascending order of the offsets, and no
    /// annotation.
    pub fn finish(self) -> (t: Trace)
        ensures
            t.samples@ == entries_of(self.range().first, self.results()),
            t.samples@.len() <= self.results().len() <= self.range().count(),
            t.offset_range == self.range(),
            t.target_rip == self.target_rip(),
            t.annotation@ == Seq::<char>::empty(),
    {
        proof {
            use_type_invariant(&self);
            lemma_entries_of(self.range.first, self.results@);
        }
        Trace {
            samples: self.samples,
            offset_range: self.range,
            target_rip: self.target_rip,
            annotation: String::new(),
        }
    }
}

} // verus!
