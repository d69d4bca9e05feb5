use ibst::ibs::{IbsOpCtl, IbsOpData, IbsOpData2, IbsOpData3, NbDataSrc};
use ibst::ioctl::MAX_OFFSET;
use ibst::sample::Sample;
use ibst::trace::{
    BrnProps, LdstProps, OffsetRange, Trace, TraceCollector, TraceEntry, TraceOp,
};

const LD: u64 = 1;
const ST: u64 = 2;
const QWORD: u64 = 4 << 22;
const BRN_RET: u64 = 1 << 37;
const BRN_MISP: u64 = 1 << 36;
const BRN_TAKEN: u64 = 1 << 35;
const RETURN: u64 = 1 << 34;
const BRN_FUSE: u64 = 1 << 39;
const UCODE: u64 = 1 << 40;

fn sample(rip: u64, data: u64, data2: u64, data3: u64) -> Sample {
    Sample {
        ctl: IbsOpCtl(0),
        rip,
        data: IbsOpData(data),
        data2: IbsOpData2(data2),
        data3: IbsOpData3(data3),
        linad: 0x7000,
        phyad: 0x9000,
        tgt_rip: 0,
    }
}

fn props(width: usize) -> LdstProps {
    LdstProps { width, locked: false, uc: false, wc: false, swpf: false, src: NbDataSrc::Invalid }
}

#[test]
fn ldst_props_from_sample() {
    let s = sample(1, 0, 3, LD | QWORD | (1 << 15) | (1 << 13));
    assert_eq!(
        LdstProps::from_sample(&s),
        LdstProps { width: 8, locked: true, uc: false, wc: true, swpf: false, src: NbDataSrc::Dram }
    );
    let t = sample(1, 0, 2, ST | (1 << 22) | (1 << 14) | (1 << 21));
    assert_eq!(
        LdstProps::from_sample(&t),
        LdstProps { width: 1, locked: false, uc: true, wc: false, swpf: true, src: NbDataSrc::Cache }
    );
}

#[test]
fn ldst_props_as_string() {
    assert_eq!(props(64).as_string(), "[ 64b]");
    assert_eq!(props(8).as_string(), "[  8b]");
    assert_eq!(props(256).as_string(), "[256b]");
    assert_eq!(props(0).as_string(), "[  0b]");
    let all = LdstProps { width: 128, locked: true, uc: true, wc: true, swpf: true, src: NbDataSrc::Dram };
    assert_eq!(all.as_string(), "[128b][lock][uc][wc][swpf][dram]");
    assert_eq!(LdstProps { src: NbDataSrc::Cache, ..props(16) }.as_string(), "[ 16b][cache]");
    assert_eq!(LdstProps { src: NbDataSrc::Other, ..props(16) }.as_string(), "[ 16b][other]");
    assert_eq!(LdstProps { src: NbDataSrc::Reserved1, ..props(16) }.as_string(), "[ 16b][res1]");
    assert_eq!(LdstProps { src: NbDataSrc::Reserved4, ..props(16) }.as_string(), "[ 16b][res4]");
    assert_eq!(LdstProps { src: NbDataSrc::Reserved5, ..props(16) }.as_string(), "[ 16b][res5]");
    assert_eq!(LdstProps { src: NbDataSrc::Reserved6, ..props(16) }.as_string(), "[ 16b][res6]");
    assert_eq!(LdstProps { wc: true, ..props(32) }.as_string(), "[ 32b][wc]");
}

#[test]
fn brn_props_from_sample() {
    let s = sample(1, BRN_RET | BRN_TAKEN, 0, 0);
    assert_eq!(
        BrnProps::from_sample(&s),
        BrnProps { misp: false, retired: true, taken: true, retrn: false, fused: false }
    );
    let t = sample(1, BRN_MISP | RETURN | BRN_FUSE, 0, 0);
    assert_eq!(
        BrnProps::from_sample(&t),
        BrnProps { misp: true, retired: false, taken: false, retrn: true, fused: true }
    );
}

#[test]
fn brn_props_as_string() {
    let none = BrnProps { misp: false, retired: false, taken: false, retrn: false, fused: false };
    assert_eq!(none.as_string(), "[specul][nt][hit]");
    let all = BrnProps { misp: true, retired: true, taken: true, retrn: true, fused: true };
    assert_eq!(all.as_string(), "[retire][t][miss][return][fused]");
    assert_eq!(BrnProps { retired: true, taken: true, ..none }.as_string(), "[retire][t][hit]");
    assert_eq!(BrnProps { fused: true, ..none }.as_string(), "[specul][nt][hit][fused]");
}

#[test]
fn trace_op_classifies_loads_and_stores_first() {
    let ld = TraceOp::from_sample(&sample(1, 0, 0, LD | QWORD));
    assert_eq!(ld, TraceOp::Ld { lin: 0x7000, phy: 0x9000, prop: props(8) });
    let st = TraceOp::from_sample(&sample(1, 0, 0, ST | QWORD));
    assert_eq!(st, TraceOp::St { lin: 0x7000, phy: 0x9000, prop: props(8) });
    let both = TraceOp::from_sample(&sample(1, 0, 0, LD | ST | QWORD));
    assert_eq!(both, TraceOp::Ldst { lin: 0x7000, phy: 0x9000, prop: props(8) });
    // a load that is tagged as a branch too is a load
    let ld_brn = TraceOp::from_sample(&sample(1, BRN_RET | BRN_TAKEN, 0, LD | QWORD));
    assert_eq!(ld_brn, TraceOp::Ld { lin: 0x7000, phy: 0x9000, prop: props(8) });
}

#[test]
fn trace_op_classifies_branches_and_register_ops() {
    for flag in [BRN_RET, BRN_MISP, BRN_TAKEN, RETURN, BRN_FUSE] {
        let op = TraceOp::from_sample(&sample(1, flag, 0, 0));
        assert!(matches!(op, TraceOp::Brn { .. }));
    }
    let jump = Sample { tgt_rip: 0xffff_ffff_8100_0000, ..sample(1, BRN_RET | BRN_TAKEN, 0, 0) };
    let brn = TraceOp::from_sample(&jump);
    assert_eq!(
        brn,
        TraceOp::Brn {
            tgt: 0xffff_ffff_8100_0000,
            prop: BrnProps { misp: false, retired: true, taken: true, retrn: false, fused: false }
        }
    );
    assert_eq!(TraceOp::from_sample(&sample(1, 0, 0, 0)), TraceOp::Reg {});
    assert_eq!(TraceOp::from_sample(&sample(1, UCODE | 0xffff_ffff, 7, 7 << 22)), TraceOp::Reg {});
}

#[test]
fn ldst_props_width_is_in_bytes() {
    let widths: Vec<usize> = (0..16u64)
        .map(|code| LdstProps::from_sample(&sample(1, 0, 0, LD | (code << 22))).width)
        .collect();
    assert_eq!(widths, vec![0, 1, 2, 4, 8, 16, 32, 0, 0, 0, 0, 0, 0, 0, 0, 0]);
    // nothing but the two data words counts
    let a = sample(1, 0, 3, LD | QWORD | (1 << 15));
    let b = Sample { rip: 9, data: IbsOpData(u64::MAX), linad: 1, phyad: 2, tgt_rip: 3, ..a };
    assert_eq!(LdstProps::from_sample(&a), LdstProps::from_sample(&b));
}

#[test]
fn trace_op_answers_for_every_width_code() {
    for code in 7..16u64 {
        let op = TraceOp::from_sample(&sample(1, 0, 0, ST | (code << 22)));
        assert_eq!(op, TraceOp::St { lin: 0x7000, phy: 0x9000, prop: props(0) });
    }
    let mut c = TraceCollector::new(0x1000, OffsetRange::new(0, 0), 0);
    c.record(&[sample(0x1000, 0, 0, LD | (7 << 22))]);
    assert_eq!(
        c.finish().samples[0].op,
        TraceOp::Ld { lin: 0x7000, phy: 0x9000, prop: props(0) }
    );
}

#[test]
fn trace_op_mnemonics_and_properties() {
    let ld = TraceOp::Ld { lin: 1, phy: 2, prop: props(64) };
    let st = TraceOp::St { lin: 1, phy: 2, prop: props(32) };
    let ls = TraceOp::Ldst { lin: 1, phy: 2, prop: props(8) };
    let br = TraceOp::Brn {
        tgt: 0,
        prop: BrnProps { misp: true, retired: true, taken: false, retrn: false, fused: false },
    };
    let rg = TraceOp::Reg {};
    assert_eq!(ld.mnemonic(), "LD");
    assert_eq!(st.mnemonic(), "ST");
    assert_eq!(ls.mnemonic(), "LS");
    assert_eq!(br.mnemonic(), "BR");
    assert_eq!(rg.mnemonic(), "RG");
    assert_eq!(ld.propstring(), "[ 64b]");
    assert_eq!(st.propstring(), "[ 32b]");
    assert_eq!(ls.propstring(), "[  8b]");
    assert_eq!(br.propstring(), "[retire][nt][miss]");
    assert_eq!(rg.propstring(), "");
}

#[test]
fn trace_entry_from_sample() {
    let s = sample(0x1234, UCODE | (300 << 16) | 120, 0, 0);
    let e = TraceEntry::from_sample(17, &s);
    assert_eq!(
        e,
        TraceEntry {
            offset: 17,
            rip: 0x1234,
            tag_to_retire: 300,
            complete_to_retire: 120,
            ucode: true,
            op: TraceOp::Reg {},
        }
    );
    assert_eq!(e.tag_to_complete(), Some(180));
    assert_eq!(TraceEntry { tag_to_retire: 5, complete_to_retire: 5, ..e }.tag_to_complete(), Some(0));
    assert_eq!(TraceEntry { tag_to_retire: 5, complete_to_retire: 6, ..e }.tag_to_complete(), None);
}

#[test]
fn collector_asks_for_each_offset_in_turn() {
    let mut c = TraceCollector::new(0x1000, OffsetRange::new(3, 5), 0xabcd);
    let mut asked = Vec::new();
    while let Some(args) = c.next_request() {
        assert!(!c.finished());
        assert_eq!(args.ptr(), 0xabcd);
        asked.push(args.offset());
        c.record(&[]);
    }
    assert!(c.finished());
    assert_eq!(asked, vec![3, 4, 5]);
    let t = c.finish();
    assert!(t.samples.is_empty());
    assert_eq!(t.offset_range, OffsetRange { first: 3, last: 5 });
    assert_eq!(t.target_rip, 0x1000);
    assert_eq!(t.annotation, "");
}

#[test]
fn collector_takes_the_first_sample_and_skips_empty_results() {
    let mut c = TraceCollector::new(0x1000, OffsetRange::new(0, 3), 0);
    c.record(&[sample(0x1000, (9 << 16) | 4, 0, 0), sample(0x2000, 0, 0, LD | QWORD)]);
    c.record(&[]);
    c.record(&[sample(0x1002, BRN_RET, 0, 0)]);
    c.record(&[sample(0x1004, 0, 0, ST | QWORD)]);
    assert!(c.finished());
    assert!(c.next_request().is_none());
    let t = c.finish();
    let offsets: Vec<usize> = t.samples.iter().map(|e| e.offset).collect();
    assert_eq!(offsets, vec![0, 2, 3]);
    assert_eq!(t.samples[0].rip, 0x1000);
    assert_eq!(t.samples[0].tag_to_retire, 9);
    assert_eq!(t.samples[0].complete_to_retire, 4);
    assert_eq!(t.samples[0].op, TraceOp::Reg {});
    assert!(matches!(t.samples[1].op, TraceOp::Brn { .. }));
    assert!(matches!(t.samples[2].op, TraceOp::St { .. }));
}

#[test]
fn collector_with_an_empty_range_asks_for_nothing() {
    let c = TraceCollector::new(0x1000, OffsetRange::new(5, 4), 0);
    assert!(c.finished());
    assert!(c.next_request().is_none());
    assert!(c.finish().samples.is_empty());
    // an empty range may lie beyond the greatest offset
    let far = TraceCollector::new(0x1000, OffsetRange::new(usize::MAX, MAX_OFFSET + 1), 0);
    assert!(far.finished());
    assert!(far.next_request().is_none());
    let t = far.finish();
    assert!(t.samples.is_empty());
    assert_eq!(t.offset_range, OffsetRange { first: usize::MAX, last: MAX_OFFSET + 1 });
}

#[test]
fn collector_reaches_the_greatest_offset() {
    let mut c = TraceCollector::new(0, OffsetRange::new(MAX_OFFSET, MAX_OFFSET), 0);
    let args = c.next_request().unwrap();
    assert_eq!(args.offset(), MAX_OFFSET);
    c.record(&[sample(1, 0, 0, 0)]);
    assert!(c.finished());
    let t = c.finish();
    assert_eq!(t.samples.len(), 1);
    assert_eq!(t.samples[0].offset, MAX_OFFSET);
}

#[test]
fn rdtsc_trace_scenario() {
    // a probe whose sole instruction is RDTSC, sampled at offsets 0..=128:
    // the device has something to report for some of them, all register ops
    let target_rip = 0xffff_ffff_c0a0_0000u64;
    let mut c = TraceCollector::new(target_rip, OffsetRange::new(0, 128), 0);
    let mut requests = 0;
    while let Some(args) = c.next_request() {
        requests += 1;
        if args.offset() % 3 == 0 {
            c.record(&[]);
        } else {
            let rip = if args.offset() < 40 { target_rip } else { target_rip + 2 };
            c.record(&[sample(rip, UCODE | ((args.offset() as u64) << 16), 0, 0)]);
        }
    }
    assert_eq!(requests, 129);
    let mut t = c.finish();
    assert!(t.samples.len() <= 129);
    assert_eq!(t.samples.len(), 86);
    for e in &t.samples {
        assert_eq!(e.op, TraceOp::Reg {});
        assert_eq!(e.tag_to_retire, e.offset as u64);
        assert!(e.offset <= 128);
    }
    for pair in t.samples.windows(2) {
        assert!(pair[0].offset < pair[1].offset);
    }
    t.retain_rip(target_rip);
    assert_eq!(t.samples.len(), 26);
    assert!(t.samples.iter().all(|e| e.rip == target_rip && e.offset < 40));
}

#[test]
fn full_trace_has_an_entry_for_each_offset() {
    let mut c = TraceCollector::new(0, OffsetRange::new(0, 128), 0);
    while c.next_request().is_some() {
        c.record(&[sample(0, 0, 0, 0)]);
    }
    assert_eq!(c.finish().samples.len(), 129);
}

#[test]
fn annotate_sets_the_annotation_only() {
    let mut t = Trace {
        annotation: String::new(),
        offset_range: OffsetRange::new(0, 1),
        target_rip: 5,
        samples: vec![TraceEntry::from_sample(0, &sample(5, 0, 0, 0))],
    };
    t.annotate("rdtsc");
    assert_eq!(t.annotation, "rdtsc");
    assert_eq!(t.offset_range, OffsetRange { first: 0, last: 1 });
    assert_eq!(t.target_rip, 5);
    assert_eq!(t.samples.len(), 1);
    t.annotate("");
    assert_eq!(t.annotation, "");
}

#[test]
fn retain_rip_keeps_order() {
    let entries: Vec<TraceEntry> = [5u64, 6, 5, 7, 5]
        .iter()
        .enumerate()
        .map(|(i, rip)| TraceEntry::from_sample(i, &sample(*rip, 0, 0, 0)))
        .collect();
    let mut t = Trace {
        annotation: String::from("a"),
        offset_range: OffsetRange::new(0, 4),
        target_rip: 5,
        samples: entries,
    };
    t.retain_rip(5);
    let offsets: Vec<usize> = t.samples.iter().map(|e| e.offset).collect();
    assert_eq!(offsets, vec![0, 2, 4]);
    assert_eq!(t.annotation, "a");
    t.retain_rip(9);
    assert!(t.samples.is_empty());
}
