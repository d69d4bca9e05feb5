//! Results as lines of text, for a caller that prints them.

use vstd::prelude::*;
use vstd::string::StringExecFns;
use crate::access::MemoryAccess;
use crate::crosstab::{CrossTab, KeyAccesses};
use crate::ibs::NbDataSrc;
use crate::latency::LoadLatency;
use crate::sample::Sample;
use crate::text::{decimal, hex, pad_left, push_decimal, push_hex};
use crate::trace::{Trace, TraceEntry, TraceOp};

verus! {

/// The text of each line.
pub open spec fn texts(lines: Seq<String>) -> Seq<Seq<char>> {
    lines.map_values(|s: String| s@)
}

/// An address in sixteen hexadecimal digits.
pub open spec fn hex16(n: u64) -> Seq<char> {
    pad_left(hex(n as nat), 16, '0')
}

/// A truth value in words.
pub open spec fn bool_text(b: bool) -> Seq<char> {
    if b {
        "true"@
    } else {
        "false"@
    }
}

/// `line` where `cond` holds, and no line where it does not.
pub open spec fn line_if(cond: bool, line: Seq<char>) -> Seq<Seq<char>> {
    if cond {
        seq![line]
    } else {
        Seq::empty()
    }
}

/// Up to three lines, each where its condition holds.
pub open spec fn lines_if(
    c1: bool,
    t1: Seq<char>,
    c2: bool,
    t2: Seq<char>,
    c3: bool,
    t3: Seq<char>,
) -> Seq<Seq<char>> {
    line_if(c1, t1) + line_if(c2, t2) + line_if(c3, t3)
}

/// Appends a line.
fn push_line(lines: &mut Vec<String>, line: String)
    ensures
        texts(final(lines)@) == texts(old(lines)@).push(line@),
{
    lines.push(line);
    proof {
        assert(texts(lines@) =~= texts(old(lines)@).push(line@));
    }
}

/// Appends a line of fixed text.
fn push_text(lines: &mut Vec<String>, text: &str)
    ensures
        texts(final(lines)@) == texts(old(lines)@).push(text@),
{
    push_line(lines, String::from_str(text));
}

/// Appends a line of fixed text where `cond` holds.
fn push_text_if(lines: &mut Vec<String>, cond: bool, text: &str)
    ensures
        texts(final(lines)@) == texts(old(lines)@) + line_if(cond, text@),
{
    if cond {
        push_text(lines, text);
    }
    proof {
        assert(texts(lines@) =~= texts(old(lines)@) + line_if(cond, text@));
    }
}

/// Appends up to three lines of fixed text, each where its condition
/// holds.
fn push_texts_if(
    lines: &mut Vec<String>,
    c1: bool,
    t1: &str,
    c2: bool,
    t2: &str,
    c3: bool,
    t3: &str,
)
    ensures
        texts(final(lines)@) == texts(old(lines)@) + lines_if(c1, t1@, c2, t2@, c3, t3@),
{
    push_text_if(lines, c1, t1);
    push_text_if(lines, c2, t2);
    push_text_if(lines, c3, t3);
    proof {
        assert(texts(lines@) =~= texts(old(lines)@) + lines_if(c1, t1@, c2, t2@, c3, t3@));
    }
}

/// Appends the lines of `more`.
fn push_lines(lines: &mut Vec<String>, more: Vec<String>)
    ensures
        texts(final(lines)@) == texts(old(lines)@) + texts(more@),
{
    let ghost added = more@;
    let mut more = more;
    lines.append(&mut more);
    proof {
        assert(texts(lines@) =~= texts(old(lines)@) + texts(added));
    }
}

/// A line that is a label and an address.
fn address_line(label: &str, n: u64) -> (r: String)
    ensures
        r@ == label@ + hex16(n),
{
    let mut r = String::from_str(label);
    push_hex(&mut r, n, 16);
    r
}

/// A line that is a label and a number.
fn number_line(label: &str, n: u64) -> (r: String)
    ensures
        r@ == label@ + decimal(n as nat),
{
    let mut r = String::from_str(label);
    push_decimal(&mut r, n, 0, ' ');
    r
}

/// A line that is a label, an address and whether the address is valid.
fn valid_address_line(label: &str, n: u64, valid: bool) -> (r: String)
    ensures
        r@ == label@ + hex16(n) + " (valid="@ + bool_text(valid) + ")"@,
{
    let mut r = String::from_str(label);
    push_hex(&mut r, n, 16);
    r.append(" (valid=");
    r.append(if valid { "true" } else { "false" });
    r.append(")");
    proof {
        assert(r@ =~= label@ + hex16(n) + " (valid="@ + bool_text(valid) + ")"@);
    }
    r
}

/// An access as text: the address in sixteen hexadecimal digits, the
/// width in at least two decimal digits, and the kind.
pub open spec fn access_text(acc: MemoryAccess) -> Seq<char> {
    hex16(acc.phys) + " "@ + pad_left(decimal(acc.width as nat), 2, '0') + " "@
        + acc.kind.name_text()
}

/// Appends an access as text.
fn push_access(out: &mut String, acc: &MemoryAccess)
    ensures
        final(out)@ == old(out)@ + access_text(*acc),
{
    push_hex(out, acc.phys, 16);
    out.append(" ");
    push_decimal(out, acc.width as u64, 2, '0');
    out.append(" ");
    out.append(acc.kind.name());
    proof {
        assert(out@ =~= old(out)@ + access_text(*acc));
    }
}

/// An access as text.
pub fn access_line(acc: &MemoryAccess) -> (r: String)
    ensures
        r@ == access_text(*acc),
{
    let mut r = String::new();
    push_access(&mut r, acc);
    proof {
        assert(r@ =~= access_text(*acc));
    }
    r
}

/// The accesses as lines of text, each behind `indent`.
pub open spec fn access_texts(accs: Seq<MemoryAccess>, indent: Seq<char>) -> Seq<Seq<char>> {
    accs.map_values(|acc: MemoryAccess| indent + access_text(acc))
}

/// The accesses as lines of text, each behind `indent`.
pub fn access_lines(accs: &Vec<MemoryAccess>, indent: &str) -> (r: Vec<String>)
    ensures
        texts(r@) == access_texts(accs@, indent@),
{
    let mut lines: Vec<String> = Vec::new();
    let mut i: usize = 0;
    proof {
        assert(texts(lines@) =~= access_texts(accs@.take(0), indent@));
    }
    while i < accs.len()
        invariant
            i <= accs@.len(),
            texts(lines@) == access_texts(accs@.take(i as int), indent@),
        decreases accs@.len() - i,
    {
        let mut line = String::from_str(indent);
        push_access(&mut line, &accs[i]);
        push_line(&mut lines, line);
        proof {
            assert(accs@.take(i + 1) =~= accs@.take(i as int).push(accs@[i as int]));
            assert(texts(lines@) =~= access_texts(accs@.take(i + 1), indent@));
        }
        i += 1;
    }
    proof {
        assert(accs@.take(accs@.len() as int) =~= accs@);
    }
    lines
}

/// The latencies of one access as three lines: the access with the number
/// of samples, then the extremes of both counters.
pub open spec fn latency_texts(e: LoadLatency) -> Seq<Seq<char>> {
    seq![
        access_text(e.access) + " ("@ + decimal(e.samples as nat) + " samples)"@,
        "  tag2ret  min="@ + decimal(e.tag2ret.min as nat) + " max="@ + decimal(
            e.tag2ret.max as nat,
        ),
        "  comp2ret min="@ + decimal(e.comp2ret.min as nat) + " max="@ + decimal(
            e.comp2ret.max as nat,
        ),
    ]
}

/// The latencies of one access as three lines.
pub fn latency_lines(e: &LoadLatency) -> (r: Vec<String>)
    ensures
        texts(r@) == latency_texts(*e),
{
    let mut lines: Vec<String> = Vec::new();
    let mut head = access_line(&e.access);
    head.append(" (");
    push_decimal(&mut head, e.samples as u64, 0, ' ');
    head.append(" samples)");
    proof {
        assert(head@ =~= latency_texts(*e)[0]);
    }
    push_line(&mut lines, head);
    let mut tag = number_line("  tag2ret  min=", e.tag2ret.min);
    tag.append(" max=");
    push_decimal(&mut tag, e.tag2ret.max, 0, ' ');
    proof {
        assert(tag@ =~= latency_texts(*e)[1]);
    }
    push_line(&mut lines, tag);
    let mut comp = number_line("  comp2ret min=", e.comp2ret.min);
    comp.append(" max=");
    push_decimal(&mut comp, e.comp2ret.max, 0, ' ');
    proof {
        assert(comp@ =~= latency_texts(*e)[2]);
    }
    push_line(&mut lines, comp);
    proof {
        assert(texts(lines@) =~= latency_texts(*e));
    }
    lines
}

/// The lines of each entry of a distribution, one entry after the other.
pub open spec fn all_latency_texts(dist: Seq<LoadLatency>) -> Seq<Seq<char>>
    decreases dist.len(),
{
    if dist.len() == 0 {
        Seq::empty()
    } else {
        all_latency_texts(dist.drop_last()) + latency_texts(dist.last())
    }
}

/// A latency distribution as lines of text: a heading, the lines of each
/// entry, and an empty line.
pub open spec fn distribution_texts(dist: Seq<LoadLatency>) -> Seq<Seq<char>> {
    seq!["[*] Sample distribution:"@] + all_latency_texts(dist) + seq![""@]
}

/// A latency distribution as lines of text.
pub fn distribution_lines(dist: &Vec<LoadLatency>) -> (r: Vec<String>)
    ensures
        texts(r@) == distribution_texts(dist@),
{
    let mut lines: Vec<String> = Vec::new();
    push_text(&mut lines, "[*] Sample distribution:");
    let mut i: usize = 0;
    proof {
        assert(texts(lines@) =~= seq!["[*] Sample distribution:"@] + all_latency_texts(
            dist@.take(0),
        ));
    }
    while i < dist.len()
        invariant
            i <= dist@.len(),
            texts(lines@) == seq!["[*] Sample distribution:"@] + all_latency_texts(
                dist@.take(i as int),
            ),
        decreases dist@.len() - i,
    {
        push_lines(&mut lines, latency_lines(&dist[i]));
        proof {
            assert(dist@.take(i + 1).drop_last() =~= dist@.take(i as int));
            assert(texts(lines@) =~= seq!["[*] Sample distribution:"@] + all_latency_texts(
                dist@.take(i + 1),
            ));
        }
        i += 1;
    }
    push_text(&mut lines, "");
    proof {
        assert(dist@.take(dist@.len() as int) =~= dist@);
        assert(texts(lines@) =~= distribution_texts(dist@));
    }
    lines
}

/// The start of the line of a trace entry: the offset in eight decimal
/// digits, the program counter, the kind of op, and the cycles from
/// tagging to completion in five digits.
pub open spec fn entry_head_text(e: TraceEntry) -> Seq<char> {
    "  "@ + pad_left(decimal(e.offset as nat), 8, '0') + " "@ + hex16(e.rip) + " "@
        + e.op.mnemonic_text() + " t2c="@ + pad_left(
        decimal((e.tag_to_retire - e.complete_to_retire) as nat),
        5,
        '0',
    )
}

/// The line of a trace entry: its start, then the addresses of a load
/// or store, then the properties of the op.
pub open spec fn entry_text(e: TraceEntry) -> Seq<char> {
    match e.op {
        TraceOp::Ld { lin, phy, prop } => entry_head_text(e) + " lin="@ + hex16(lin) + " phy="@
            + hex16(phy) + " "@ + prop.text(),
        TraceOp::St { lin, phy, prop } => entry_head_text(e) + " lin="@ + hex16(lin) + " phy="@
            + hex16(phy) + " "@ + prop.text(),
        TraceOp::Ldst { lin, phy, prop } => entry_head_text(e) + " lin="@ + hex16(lin)
            + " phy="@ + hex16(phy) + " "@ + prop.text(),
        TraceOp::Reg {  } => entry_head_text(e) + " "@,
        TraceOp::Brn { tgt, prop } => entry_head_text(e) + " "@ + prop.text(),
    }
}

/// The line of a trace entry. The op must not have completed before it
/// was tagged.
pub fn entry_line(e: &TraceEntry) -> (r: String)
    requires
        e.complete_to_retire <= e.tag_to_retire,
    ensures
        r@ == entry_text(*e),
{
    let mut r = String::from_str("  ");
    push_decimal(&mut r, e.offset as u64, 8, '0');
    r.append(" ");
    push_hex(&mut r, e.rip, 16);
    r.append(" ");
    r.append(e.op.mnemonic());
    r.append(" t2c=");
    push_decimal(&mut r, e.tag_to_retire - e.complete_to_retire, 5, '0');
    proof {
        assert(r@ =~= entry_head_text(*e));
    }
    match e.op {
        TraceOp::Ld { lin, phy, prop } | TraceOp::St { lin, phy, prop } | TraceOp::Ldst {
            lin,
            phy,
            prop,
        } => {
            r.append(" lin=");
            push_hex(&mut r, lin, 16);
            r.append(" phy=");
            push_hex(&mut r, phy, 16);
            r.append(" ");
            r.append(prop.as_string().as_str());
        },
        TraceOp::Reg {  } => {
            r.append(" ");
        },
        TraceOp::Brn { tgt, prop } => {
            r.append(" ");
            r.append(prop.as_string().as_str());
        },
    }
    proof {
        assert(r@ =~= entry_text(*e));
    }
    r
}

/// Whether every entry of the trace can be shown: none has completed
/// before it was tagged.
pub open spec fn showable(t: Trace) -> bool {
    forall|i: int|
        0 <= i < t.samples@.len() ==> (#[trigger] t.samples@[i]).complete_to_retire
            <= t.samples@[i].tag_to_retire
}

/// A trace as lines of text: the annotation where there is one, the
/// program counter of the target, and a line for each entry.
pub open spec fn trace_texts(t: Trace) -> Seq<Seq<char>> {
    line_if(t.annotation@.len() > 0, "[*] Trace '"@ + t.annotation@ + "'"@) + seq![
        "[*] Target RIP: "@ + hex16(t.target_rip),
    ] + t.samples@.map_values(|e: TraceEntry| entry_text(e))
}

/// Whether every entry of the trace can be shown.
pub fn check_showable(t: &Trace) -> (r: bool)
    ensures
        r == showable(*t),
{
    let mut i: usize = 0;
    while i < t.samples.len()
        invariant
            i <= t.samples@.len(),
            forall|j: int|
                0 <= j < i ==> (#[trigger] t.samples@[j]).complete_to_retire
                    <= t.samples@[j].tag_to_retire,
        decreases t.samples@.len() - i,
    {
        if t.samples[i].complete_to_retire > t.samples[i].tag_to_retire {
            return false;
        }
        i += 1;
    }
    true
}

/// A trace as lines of text.
pub fn trace_lines(t: &Trace) -> (r: Vec<String>)
    requires
        showable(*t),
    ensures
        texts(r@) == trace_texts(*t),
{
    let mut lines: Vec<String> = Vec::new();
    if !t.annotation.as_str().is_empty() {
        let mut note = String::from_str("[*] Trace '");
        note.append(t.annotation.as_str());
        note.append("'");
        push_line(&mut lines, note);
    }
    push_line(&mut lines, address_line("[*] Target RIP: ", t.target_rip));
    let ghost head = texts(lines@);
    let ghost entry = |e: TraceEntry| entry_text(e);
    proof {
        assert(head =~= line_if(t.annotation@.len() > 0, "[*] Trace '"@ + t.annotation@ + "'"@)
            + seq!["[*] Target RIP: "@ + hex16(t.target_rip)]);
        assert(texts(lines@) =~= head + t.samples@.take(0).map_values(entry));
    }
    let mut i: usize = 0;
    while i < t.samples.len()
        invariant
            i <= t.samples@.len(),
            showable(*t),
            entry == (|e: TraceEntry| entry_text(e)),
            texts(lines@) == head + t.samples@.take(i as int).map_values(entry),
        decreases t.samples@.len() - i,
    {
        push_line(&mut lines, entry_line(&t.samples[i]));
        proof {
            assert(t.samples@.take(i + 1) =~= t.samples@.take(i as int).push(t.samples@[i as int]));
            assert(texts(lines@) =~= head + t.samples@.take(i + 1).map_values(entry));
        }
        i += 1;
    }
    proof {
        assert(t.samples@.take(t.samples@.len() as int) =~= t.samples@);
    }
    lines
}

/// What a sample tells of its op data: the program counter, the data
/// word, both retirement counters, and a line for each flag that is set.
pub open spec fn op_data_texts(s: Sample) -> Seq<Seq<char>> {
    seq![
        "[*] IbsOpRip:   "@ + hex16(s.rip) + " (valid="@ + bool_text(!s.data.rip_invalid()) + ")"@,
        "[*] IbsOpData:  "@ + hex16(s.data.0),
        "  tag-to-retire count:        "@ + decimal(s.data.spec_tag_to_ret_ctr()),
        "  completion-to-retire count: "@ + decimal(s.data.spec_comp_to_ret_ctr()),
    ] + lines_if(
        s.data.op_microcode(),
        "  microcode op"@,
        s.data.op_brn_fuse(),
        "  fused branch"@,
        s.data.rip_invalid(),
        "  RIP invalid"@,
    ) + lines_if(
        s.data.op_brn_ret(),
        "  retired branch"@,
        s.data.op_brn_misp(),
        "  mispredicted branch"@,
        s.data.op_brn_taken(),
        "  taken branch"@,
    ) + lines_if(
        s.data.op_return(),
        "  return op"@,
        s.data.res_33(),
        "  reserved bit 33?"@,
        s.data.res_32(),
        "  reserved bit 32?"@,
    )
}

/// What a sample tells of the source of its data: the data word, the
/// source where it is a valid one, and for a cache its hit state.
pub open spec fn data_source_texts(s: Sample) -> Seq<Seq<char>> {
    seq!["[*] IbsOpData2: "@ + hex16(s.data2.0)] + line_if(
        s.data2.data_src() != NbDataSrc::Invalid,
        "  Data source: "@ + s.data2.data_src().name_text(),
    ) + line_if(
        s.data2.data_src() == NbDataSrc::Cache,
        "  Cache hit state: "@ + bool_text(s.data2.cache_hit_st()),
    )
}

/// What a sample tells of its memory access, where its data word is not
/// zero: both addresses, the width, and a line for each flag that is set.
pub open spec fn access_detail_texts(s: Sample) -> Seq<Seq<char>> {
    if s.data3.0 == 0 {
        Seq::empty()
    } else {
        seq![
            "  PhyAddr: "@ + hex16(s.phyad) + " (valid="@ + bool_text(
                s.data3.dc_phy_addr_valid(),
            ) + ")"@,
            "  LinAddr: "@ + hex16(s.linad) + " (valid="@ + bool_text(
                s.data3.dc_lin_addr_valid(),
            ) + ")"@,
            "  Width:   "@ + s.data3.op_mem_width().name_text(),
        ] + lines_if(
            s.data3.st_op(),
            "  Store op"@,
            s.data3.ld_op(),
            "  Load op"@,
            s.data3.sw_pf(),
            "  Software prefetch op"@,
        ) + lines_if(
            s.data3.dc_l2_miss(),
            "  L2 cache miss"@,
            s.data3.dc_miss(),
            "  Data cache miss"@,
            s.data3.dc_mis_acc(),
            "  Misaligned access (crossing cache line)"@,
        ) + lines_if(
            s.data3.dc_locked_op(),
            "  Locked op"@,
            s.data3.dc_uc_mem_acc(),
            "  Uncacheable access"@,
            s.data3.dc_wc_mem_acc(),
            "  Write-combining access"@,
        )
    }
}

/// A sample as lines of text: its op data, the source of its data, its
/// memory access, the branch target where there is one, and an empty line.
pub open spec fn sample_texts(s: Sample) -> Seq<Seq<char>> {
    op_data_texts(s) + data_source_texts(s) + seq!["[*] IbsOpData3: "@ + hex16(s.data3.0)]
        + access_detail_texts(s) + line_if(s.tgt_rip != 0, "[*] IbsTgtRip:  "@ + hex16(s.tgt_rip))
        + seq![""@]
}

/// What a sample tells of its op data.
fn op_data_lines(s: &Sample) -> (r: Vec<String>)
    ensures
        texts(r@) == op_data_texts(*s),
{
    let mut lines: Vec<String> = Vec::new();
    push_line(&mut lines, valid_address_line("[*] IbsOpRip:   ", s.rip, !s.data.rip_invalid()));
    push_line(&mut lines, address_line("[*] IbsOpData:  ", s.data.0));
    push_line(&mut lines, number_line("  tag-to-retire count:        ", s.data.tag_to_ret_ctr()));
    push_line(
        &mut lines,
        number_line("  completion-to-retire count: ", s.data.comp_to_ret_ctr()),
    );
    let ghost head = texts(lines@);
    proof {
        assert(head =~= seq![
            "[*] IbsOpRip:   "@ + hex16(s.rip) + " (valid="@ + bool_text(!s.data.rip_invalid())
                + ")"@,
            "[*] IbsOpData:  "@ + hex16(s.data.0),
            "  tag-to-retire count:        "@ + decimal(s.data.spec_tag_to_ret_ctr()),
            "  completion-to-retire count: "@ + decimal(s.data.spec_comp_to_ret_ctr()),
        ]);
    }
    push_texts_if(
        &mut lines,
        s.data.op_microcode(),
        "  microcode op",
        s.data.op_brn_fuse(),
        "  fused branch",
        s.data.rip_invalid(),
        "  RIP invalid",
    );
    push_texts_if(
        &mut lines,
        s.data.op_brn_ret(),
        "  retired branch",
        s.data.op_brn_misp(),
        "  mispredicted branch",
        s.data.op_brn_taken(),
        "  taken branch",
    );
    push_texts_if(
        &mut lines,
        s.data.op_return(),
        "  return op",
        s.data.res_33(),
        "  reserved bit 33?",
        s.data.res_32(),
        "  reserved bit 32?",
    );
    lines
}

/// What a sample tells of the source of its data.
fn data_source_lines(s: &Sample) -> (r: Vec<String>)
    ensures
        texts(r@) == data_source_texts(*s),
{
    let mut lines: Vec<String> = Vec::new();
    push_line(&mut lines, address_line("[*] IbsOpData2: ", s.data2.0));
    let src = s.data2.data_src();
    match src {
        NbDataSrc::Invalid => {},
        _ => {
            let mut line = String::from_str("  Data source: ");
            line.append(src.name());
            push_line(&mut lines, line);
        },
    }
    match src {
        NbDataSrc::Cache => {
            let mut line = String::from_str("  Cache hit state: ");
            line.append(if s.data2.cache_hit_st() { "true" } else { "false" });
            push_line(&mut lines, line);
        },
        _ => {},
    }
    proof {
        assert(texts(lines@) =~= data_source_texts(*s));
    }
    lines
}

/// What a sample tells of its memory access.
fn access_detail_lines(s: &Sample) -> (r: Vec<String>)
    ensures
        texts(r@) == access_detail_texts(*s),
{
    let mut lines: Vec<String> = Vec::new();
    if s.data3.0 == 0 {
        proof {
            assert(texts(lines@) =~= Seq::<Seq<char>>::empty());
        }
        return lines;
    }
    push_line(&mut lines, valid_address_line("  PhyAddr: ", s.phyad, s.data3.dc_phy_addr_valid()));
    push_line(&mut lines, valid_address_line("  LinAddr: ", s.linad, s.data3.dc_lin_addr_valid()));
    let mut width = String::from_str("  Width:   ");
    width.append(s.data3.op_mem_width().name());
    push_line(&mut lines, width);
    let ghost head = texts(lines@);
    proof {
        assert(head =~= seq![
            "  PhyAddr: "@ + hex16(s.phyad) + " (valid="@ + bool_text(
                s.data3.dc_phy_addr_valid(),
            ) + ")"@,
            "  LinAddr: "@ + hex16(s.linad) + " (valid="@ + bool_text(
                s.data3.dc_lin_addr_valid(),
            ) + ")"@,
            "  Width:   "@ + s.data3.op_mem_width().name_text(),
        ]);
    }
    push_texts_if(
        &mut lines,
        s.data3.st_op(),
        "  Store op",
        s.data3.ld_op(),
        "  Load op",
        s.data3.sw_pf(),
        "  Software prefetch op",
    );
    push_texts_if(
        &mut lines,
        s.data3.dc_l2_miss(),
        "  L2 cache miss",
        s.data3.dc_miss(),
        "  Data cache miss",
        s.data3.dc_mis_acc(),
        "  Misaligned access (crossing cache line)",
    );
    push_texts_if(
        &mut lines,
        s.data3.dc_locked_op(),
        "  Locked op",
        s.data3.dc_uc_mem_acc(),
        "  Uncacheable access",
        s.data3.dc_wc_mem_acc(),
        "  Write-combining access",
    );
    lines
}

/// A sample as lines of text.
pub fn sample_lines(s: &Sample) -> (r: Vec<String>)
    ensures
        texts(r@) == sample_texts(*s),
{
    let mut lines = op_data_lines(s);
    push_lines(&mut lines, data_source_lines(s));
    push_line(&mut lines, address_line("[*] IbsOpData3: ", s.data3.0));
    push_lines(&mut lines, access_detail_lines(s));
    if s.tgt_rip != 0 {
        push_line(&mut lines, address_line("[*] IbsTgtRip:  ", s.tgt_rip));
    }
    push_text(&mut lines, "");
    proof {
        assert(texts(lines@) =~= sample_texts(*s));
    }
    lines
}

/// The lines of each sample, one sample after the other.
pub open spec fn samples_texts(samples: Seq<Sample>) -> Seq<Seq<char>>
    decreases samples.len(),
{
    if samples.len() == 0 {
        Seq::empty()
    } else {
        samples_texts(samples.drop_last()) + sample_texts(samples.last())
    }
}

/// The lines of each sample under a heading with its number, with an empty
/// line behind it, one sample after the other.
pub open spec fn numbered_samples_texts(samples: Seq<Sample>) -> Seq<Seq<char>>
    decreases samples.len(),
{
    if samples.len() == 0 {
        Seq::empty()
    } else {
        numbered_samples_texts(samples.drop_last()) + seq![
            "[*] Unique sample "@ + decimal((samples.len() - 1) as nat),
        ] + sample_texts(samples.last()) + seq![""@]
    }
}

/// The lines of each sample, one sample after the other.
pub fn samples_lines(samples: &[Sample]) -> (r: Vec<String>)
    ensures
        texts(r@) == samples_texts(samples@),
{
    let mut lines: Vec<String> = Vec::new();
    let mut i: usize = 0;
    proof {
        assert(texts(lines@) =~= samples_texts(samples@.take(0)));
    }
    while i < samples.len()
        invariant
            i <= samples@.len(),
            texts(lines@) == samples_texts(samples@.take(i as int)),
        decreases samples@.len() - i,
    {
        push_lines(&mut lines, sample_lines(&samples[i]));
        proof {
            assert(samples@.take(i + 1).drop_last() =~= samples@.take(i as int));
        }
        i += 1;
    }
    proof {
        assert(samples@.take(samples@.len() as int) =~= samples@);
    }
    lines
}

/// The lines of each sample under a heading with its number.
pub fn numbered_samples_lines(samples: &[Sample]) -> (r: Vec<String>)
    ensures
        texts(r@) == numbered_samples_texts(samples@),
{
    let mut lines: Vec<String> = Vec::new();
    let mut i: usize = 0;
    proof {
        assert(texts(lines@) =~= numbered_samples_texts(samples@.take(0)));
    }
    while i < samples.len()
        invariant
            i <= samples@.len(),
            texts(lines@) == numbered_samples_texts(samples@.take(i as int)),
        decreases samples@.len() - i,
    {
        let ghost before = texts(lines@);
        push_line(&mut lines, number_line("[*] Unique sample ", i as u64));
        push_lines(&mut lines, sample_lines(&samples[i]));
        push_text(&mut lines, "");
        proof {
            assert(samples@.take(i + 1).drop_last() =~= samples@.take(i as int));
            assert(texts(lines@) =~= before + seq!["[*] Unique sample "@ + decimal(i as nat)]
                + sample_texts(samples@[i as int]) + seq![""@]);
        }
        i += 1;
    }
    proof {
        assert(samples@.take(samples@.len() as int) =~= samples@);
    }
    lines
}

/// The accesses under one key as lines of text: a heading with the key in
/// eight hexadecimal digits between `before` and `after`, the accesses
/// indented, and an empty line.
pub open spec fn key_texts(before: Seq<char>, after: Seq<char>, e: KeyAccesses) -> Seq<Seq<char>> {
    seq![before + pad_left(hex(e.key as nat), 8, '0') + after] + access_texts(
        e.accesses.elements(),
        "  "@,
    ) + seq![""@]
}

/// The lines of each key, one key after the other.
pub open spec fn keys_texts(before: Seq<char>, after: Seq<char>, keys: Seq<KeyAccesses>) -> Seq<
    Seq<char>,
>
    decreases keys.len(),
{
    if keys.len() == 0 {
        Seq::empty()
    } else {
        keys_texts(before, after, keys.drop_last()) + key_texts(before, after, keys.last())
    }
}

/// The lines of each key, one key after the other.
pub fn keys_lines(before: &str, after: &str, keys: &Vec<KeyAccesses>) -> (r: Vec<String>)
    ensures
        texts(r@) == keys_texts(before@, after@, keys@),
{
    let mut lines: Vec<String> = Vec::new();
    let mut i: usize = 0;
    proof {
        assert(texts(lines@) =~= keys_texts(before@, after@, keys@.take(0)));
    }
    while i < keys.len()
        invariant
            i <= keys@.len(),
            texts(lines@) == keys_texts(before@, after@, keys@.take(i as int)),
        decreases keys@.len() - i,
    {
        let ghost so_far = texts(lines@);
        let mut head = String::from_str(before);
        push_hex(&mut head, keys[i].key as u64, 8);
        head.append(after);
        push_line(&mut lines, head);
        push_lines(&mut lines, access_lines(&keys[i].accesses.to_vec(), "  "));
        push_text(&mut lines, "");
        proof {
            assert(keys@.take(i + 1).drop_last() =~= keys@.take(i as int));
            assert(texts(lines@) =~= so_far + key_texts(before@, after@, keys@[i as int]));
        }
        i += 1;
    }
    proof {
        assert(keys@.take(keys@.len() as int) =~= keys@);
    }
    lines
}

/// A cross-tabulation as lines of text: the common accesses, the
/// accesses unique to each key that has any, and all accesses of each key.
pub open spec fn crosstab_texts(tab: CrossTab, per_key: Seq<KeyAccesses>) -> Seq<Seq<char>> {
    seq!["Common accesses (among all keys):"@] + access_texts(tab.common.elements(), ""@) + seq![
        ""@,
    ] + keys_texts("Unique accesses for key "@, ":"@, tab.unique@) + keys_texts(
        "All accesses for key "@,
        ""@,
        per_key,
    )
}

/// A cross-tabulation as lines of text.
pub fn crosstab_lines(tab: &CrossTab, per_key: &Vec<KeyAccesses>) -> (r: Vec<String>)
    ensures
        texts(r@) == crosstab_texts(*tab, per_key@),
{
    let mut lines: Vec<String> = Vec::new();
    push_text(&mut lines, "Common accesses (among all keys):");
    push_lines(&mut lines, access_lines(&tab.common.to_vec(), ""));
    push_text(&mut lines, "");
    push_lines(&mut lines, keys_lines("Unique accesses for key ", ":", &tab.unique));
    push_lines(&mut lines, keys_lines("All accesses for key ", "", per_key));
    proof {
        assert(texts(lines@) =~= crosstab_texts(*tab, per_key@));
    }
    lines
}

/// The line of an access that was observed under one key only: the
/// access, with its width in hexadecimal digits, then the key and its
/// name.
pub open spec fn single_key_text(acc: MemoryAccess, key: u32, name: Seq<char>) -> Seq<char> {
    "  "@ + hex16(acc.phys) + " "@ + pad_left(hex(acc.width as nat), 2, '0') + " "@
        + acc.kind.name_text() + " => "@ + pad_left(hex(key as nat), 8, '0') + " ("@ + name
        + ")"@
}

/// The line of an access that was observed under one key only.
pub fn single_key_line(acc: &MemoryAccess, key: u32, name: &str) -> (r: String)
    ensures
        r@ == single_key_text(*acc, key, name@),
{
    let mut r = String::from_str("  ");
    push_hex(&mut r, acc.phys, 16);
    r.append(" ");
    push_hex(&mut r, acc.width as u64, 2);
    r.append(" ");
    r.append(acc.kind.name());
    r.append(" => ");
    push_hex(&mut r, key as u64, 8);
    r.append(" (");
    r.append(name);
    r.append(")");
    proof {
        assert(r@ =~= single_key_text(*acc, key, name@));
    }
    r
}

} // verus!
