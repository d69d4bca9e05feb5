//! For dynamically generating some code to-be-measured during runtime.
//!
//! # Runtime Environment
//! The trampoline of the sampling facility uses `CALL` to enter some
//! measured code. Any generated code should terminate with a `RET`.
//!
//! The facility passes a single parameter to measured code in RDI.
//! Otherwise, assume the initial state of all other registers is
//! undefined. Measured code is not expected to use the stack.
//!
//! ## Safety
//! Nothing here makes measured code safe. Code that faults will fault in
//! the context of the kernel.
//!
//! ## Writing tests
//! A [`Template`] holds the instructions of a test, already encoded, and
//! says which of them is the target. [`emit_test_iters_rsi`] wraps a
//! template in a simple loop that counts RSI down.

use vstd::prelude::*;
use vstd::slice::slice_subrange;
use crate::ioctl::UserBuf;

verus! {

/// `dynasmrt::ExecutableBuffer`: a buffer of executable memory.
#[verifier::external_type_specification]
#[verifier::external_body]
pub struct ExExecutableBuffer(dynasmrt::ExecutableBuffer);

/// `dynasmrt::x64::Assembler`: an assembler for x64 code, which holds the
/// code assembled so far and the global labels defined in it.
#[verifier::external_body]
pub struct Assembler {
    inner: dynasmrt::x64::Assembler,
}

/// The bytes that an assembler has assembled so far.
pub uninterp spec fn assembled(assembler: Assembler) -> Seq<u8>;

/// The global labels that are defined in an assembler, each with its
/// offset in the code.
pub uninterp spec fn labels_of(assembler: Assembler) -> Map<Seq<char>, int>;

/// The bytes that an executable buffer holds.
pub uninterp spec fn exec_code(buf: dynasmrt::ExecutableBuffer) -> Seq<u8>;

/// `dynasmrt::x64::Assembler::new`: an assembler that has assembled
/// nothing and knows no label, where the system grants the memory for one.
#[verifier::external_body]
fn assembler_new() -> (r: Option<Assembler>)
    ensures
        r matches Some(a) ==> assembled(a) == Seq::<u8>::empty(),
        r matches Some(a) ==> labels_of(a).dom() == Set::<Seq<char>>::empty(),
{
    match dynasmrt::x64::Assembler::new() {
        Ok(inner) => Some(Assembler { inner }),
        Err(_) => None,
    }
}

/// `Extend::extend` of the assembler: the bytes are added at the end of
/// the code; the labels stay.
#[verifier::external_body]
fn assembler_extend(assembler: &mut Assembler, bytes: &[u8])
    ensures
        assembled(*final(assembler)) == assembled(*old(assembler)) + bytes@,
        labels_of(*final(assembler)) == labels_of(*old(assembler)),
{
    assembler.inner.extend(bytes);
}

/// `DynasmLabelApi::global_label` of the assembler: the label is defined
/// at the end of the code assembled so far. A label must not be defined
/// twice.
#[verifier::external_body]
fn assembler_global_label(assembler: &mut Assembler, name: &'static str)
    requires
        !labels_of(*old(assembler)).dom().contains(name@),
    ensures
        assembled(*final(assembler)) == assembled(*old(assembler)),
        labels_of(*final(assembler)) == labels_of(*old(assembler)).insert(
            name@,
            assembled(*old(assembler)).len() as int,
        ),
{
    dynasmrt::DynasmLabelApi::global_label(&mut assembler.inner, name);
}

/// `LabelRegistry::resolve_static` on the labels of the assembler, for a
/// global label: the offset at which the label was defined, if it was.
#[verifier::external_body]
fn assembler_resolve_global(assembler: &Assembler, name: &'static str) -> (r: Option<usize>)
    ensures
        r is Some <==> labels_of(*assembler).dom().contains(name@),
        r matches Some(offset) ==> offset == labels_of(*assembler)[name@],
{
    match assembler.inner.labels().resolve_static(&dynasmrt::components::StaticLabel::global(name)) {
        Ok(offset) => Some(offset.0),
        Err(_) => None,
    }
}

/// `Assembler::finalize`: the code in executable memory. The assembler
/// keeps its buffer back only while an `Executor` made from it holds the
/// buffer too. An assembler of this library is never asked for one, so
/// it hands its buffer out.
#[verifier::external_body]
fn assembler_finalize(assembler: Assembler) -> (r: Option<dynasmrt::ExecutableBuffer>)
    ensures
        r is Some,
        r matches Some(buf) ==> exec_code(buf) == assembled(assembler),
{
    match assembler.inner.finalize() {
        Ok(buf) => Some(buf),
        Err(_) => None,
    }
}

/// `Deref::deref` of `ExecutableBuffer`: the length of the slice that the
/// buffer stands for is the number of its bytes.
#[verifier::external_body]
fn buffer_len(buf: &dynasmrt::ExecutableBuffer) -> (r: usize)
    ensures
        r == exec_code(*buf).len(),
{
    buf.len()
}

/// `Deref::deref` of `ExecutableBuffer`: the slice that the buffer stands
/// for holds its bytes.
#[verifier::external_body]
fn buffer_bytes(buf: &dynasmrt::ExecutableBuffer) -> (r: Vec<u8>)
    ensures
        r@ == exec_code(*buf),
{
    buf.to_vec()
}

/// `ExecutableBuffer::ptr` at offset 0: the address of the first byte of
/// the buffer, which must not be empty. Nothing is claimed of the address.
#[verifier::external_body]
fn buffer_address(buf: &dynasmrt::ExecutableBuffer) -> (r: usize)
    requires
        exec_code(*buf).len() > 0,
{
    buf.ptr(dynasmrt::AssemblyOffset(0)) as usize
}

/// The name of the label of the target instruction.
pub const TARGET_LABEL: &'static str = "target";

/// The name of the label behind the target instruction.
pub const TARGET_END_LABEL: &'static str = "target_end";

/// `RDMSR`
pub open spec fn rdmsr_code() -> Seq<u8> {
    seq![0x0fu8, 0x32u8]
}

/// `CPUID`
pub open spec fn cpuid_code() -> Seq<u8> {
    seq![0x0fu8, 0xa2u8]
}

/// `RDTSC`
pub open spec fn rdtsc_code() -> Seq<u8> {
    seq![0x0fu8, 0x31u8]
}

/// `RET`
pub open spec fn ret_code() -> Seq<u8> {
    seq![0xc3u8]
}

/// `SUB RSI, 1`
pub open spec fn sub_rsi_1_code() -> Seq<u8> {
    seq![0x48u8, 0x83u8, 0xeeu8, 0x01u8]
}

/// `MOV RAX, 42`
pub open spec fn mov_rax_42_code() -> Seq<u8> {
    seq![0x48u8, 0xc7u8, 0xc0u8, 0x2au8, 0x00u8, 0x00u8, 0x00u8]
}

/// The `n` low bytes of `v`, least significant first.
pub open spec fn le_bytes(v: nat, n: nat) -> Seq<u8>
    decreases n,
{
    if n == 0 {
        Seq::empty()
    } else {
        seq![(v % 256) as u8] + le_bytes(v / 256, (n - 1) as nat)
    }
}

/// `MOV r32, imm32` for the register with the number `reg`.
pub open spec fn mov_r32_code(reg: u8, imm: u32) -> Seq<u8> {
    seq![(0xb8 + reg) as u8] + le_bytes(imm as nat, 4)
}

/// `MOV RSI, imm64`
pub open spec fn mov_rsi_code(imm: u64) -> Seq<u8> {
    seq![0x48u8, 0xbeu8] + le_bytes(imm as nat, 8)
}

/// `JNE rel32` to the start of a loop whose body has `body_len` bytes and
/// is followed by `SUB RSI, 1` and this jump.
pub open spec fn jne_back_code(body_len: nat) -> Seq<u8> {
    seq![0x0fu8, 0x85u8] + le_bytes((0x1_0000_0000 - (body_len + 10)) as nat, 4)
}

/// The greatest length of a loop body that a `JNE rel32` can jump back
/// over.
pub const MAX_BODY_LEN: usize = 0x7fff_fff0;

/// Single-byte `NOP`s up to the next multiple of `align` from `len`.
pub open spec fn align_fill(len: nat, align: nat) -> Seq<u8> {
    Seq::new(
        if len % align == 0 {
            0
        } else {
            (align - len % align) as nat
        },
        |i: int| 0x90u8,
    )
}

/// The number of bytes of `le_bytes`.
pub proof fn lemma_le_bytes_len(v: nat, n: nat)
    ensures
        le_bytes(v, n).len() == n,
    decreases n,
{
    if n > 0 {
        lemma_le_bytes_len(v / 256, (n - 1) as nat);
    }
}

/// Appends the `n` low bytes of `v` to `out`, least significant first.
pub fn push_le_bytes(out: &mut Vec<u8>, v: u64, n: usize)
    ensures
        final(out)@ == old(out)@ + le_bytes(v as nat, n as nat),
{
    let ghost start = out@;
    let mut m = v;
    let mut k: usize = 0;
    proof {
        assert(out@ =~= start + Seq::<u8>::empty());
    }
    while k < n
        invariant
            k <= n,
            start + le_bytes(v as nat, n as nat) == out@ + le_bytes(m as nat, (n - k) as nat),
        decreases n - k,
    {
        let ghost rest = le_bytes((m / 256) as nat, (n - k - 1) as nat);
        proof {
            assert(out@ + (seq![(m % 256) as u8] + rest) =~= out@.push((m % 256) as u8) + rest);
        }
        out.push((m % 256) as u8);
        m = m / 256;
        k += 1;
    }
    proof {
        assert(out@ + Seq::<u8>::empty() =~= out@);
    }
}

/// Appends the bytes of `bytes` to `out`.
pub fn push_all(out: &mut Vec<u8>, bytes: &[u8])
    ensures
        final(out)@ == old(out)@ + bytes@,
{
    let ghost start = out@;
    let mut i: usize = 0;
    proof {
        assert(out@ =~= start + bytes@.take(0));
    }
    while i < bytes.len()
        invariant
            i <= bytes@.len(),
            out@ == start + bytes@.take(i as int),
        decreases bytes@.len() - i,
    {
        out.push(bytes[i]);
        i += 1;
        proof {
            assert(out@ =~= start + bytes@.take(i as int));
        }
    }
    proof {
        assert(bytes@.take(bytes@.len() as int) =~= bytes@);
    }
}

/// `MOV ECX, imm32`
pub fn mov_ecx(imm: u32) -> (r: Vec<u8>)
    ensures
        r@ == mov_r32_code(1, imm),
{
    let mut r: Vec<u8> = Vec::new();
    r.push(0xb9);
    push_le_bytes(&mut r, imm as u64, 4);
    r
}

/// `MOV EAX, imm32`
pub fn mov_eax(imm: u32) -> (r: Vec<u8>)
    ensures
        r@ == mov_r32_code(0, imm),
{
    let mut r: Vec<u8> = Vec::new();
    r.push(0xb8);
    push_le_bytes(&mut r, imm as u64, 4);
    r
}

/// The instructions of a test, already encoded, around one target
/// instruction.
#[derive(Clone, Debug)]
pub struct Template {
    /// What runs before the target instruction.
    pub pre: Vec<u8>,
    /// The target instruction: the one whose samples are of interest.
    pub target: Vec<u8>,
    /// What runs after the target instruction.
    pub post: Vec<u8>,
    /// Whether the end of the target instruction is labelled too.
    pub mark_end: bool,
}

impl Template {
    /// The code of the template: what comes before the target, the target,
    /// and what comes after.
    pub open spec fn code(&self) -> Seq<u8> {
        self.pre@ + self.target@ + self.post@
    }

    /// A template has a target instruction, and is short enough for a
    /// loop around it.
    pub open spec fn wf(&self) -> bool {
        &&& self.target@.len() > 0
        &&& self.pre@.len() + self.target@.len() + self.post@.len() <= MAX_BODY_LEN
    }

    /// Whether the template has a target instruction and is short enough
    /// for a loop around it.
    pub fn is_wf(&self) -> (r: bool)
        ensures
            r == self.wf(),
    {
        self.target.len() > 0 && self.pre.len() <= MAX_BODY_LEN && self.target.len()
            <= MAX_BODY_LEN - self.pre.len() && self.post.len() <= MAX_BODY_LEN - self.pre.len()
            - self.target.len()
    }
}

/// Code with the place of its target instruction.
#[derive(Clone, Debug)]
pub struct ProbeCode {
    /// The code.
    pub bytes: Vec<u8>,
    /// Offset of the target instruction in the code.
    pub target: usize,
    /// Offset of the end of the target instruction, where it is labelled.
    pub target_end: Option<usize>,
}

impl ProbeCode {
    /// The target instruction lies within the code, and its end, where it
    /// is labelled, behind its start.
    pub open spec fn wf(&self) -> bool {
        &&& self.target < self.bytes@.len()
        &&& self.target_end matches Some(end) ==> self.target <= end <= self.bytes@.len()
    }

    /// Whether this is the code of `template` with `before` in front of it
    /// and `after` behind it.
    pub open spec fn frames(&self, before: Seq<u8>, template: Template, after: Seq<u8>) -> bool {
        &&& self.bytes@ == before + template.code() + after
        &&& self.target == before.len() + template.pre@.len()
        &&& self.target_end == if template.mark_end {
            Some((before.len() + template.pre@.len() + template.target@.len()) as usize)
        } else {
            None
        }
    }
}

/// Where code frames a template, the target offset lies within the code,
/// and the target instruction stands at it.
pub proof fn lemma_target_in_frame(
    code: ProbeCode,
    before: Seq<u8>,
    template: Template,
    after: Seq<u8>,
)
    requires
        template.wf(),
        code.frames(before, template, after),
    ensures
        code.wf(),
        code.bytes@.subrange(code.target as int, code.target + template.target@.len())
            == template.target@,
{
    assert(template.code().len() == template.pre@.len() + template.target@.len()
        + template.post@.len());
    assert(code.bytes@.len() == before.len() + template.code().len() + after.len());
    assert(code.bytes.len() == code.bytes@.len());
    assert(code.bytes@.subrange(code.target as int, code.target + template.target@.len())
        =~= template.target@);
}

/// The code in front of the template in a loop of `num_iter` rounds:
/// the counter is set up in RSI.
pub open spec fn loop_head(num_iter: u64) -> Seq<u8> {
    mov_rsi_code(num_iter)
}

/// The code behind a template of `body_len` bytes in a loop: the counter
/// is decremented, the loop taken again until the counter is zero, and 42
/// returned.
pub open spec fn loop_tail(body_len: nat) -> Seq<u8> {
    sub_rsi_1_code() + jne_back_code(body_len) + mov_rax_42_code() + ret_code()
}

/// The code in front of the template in a loop that follows some set-up
/// code and starts at a multiple of 64 bytes.
pub open spec fn aligned_loop_head(setup: Seq<u8>, num_iter: u64) -> Seq<u8> {
    setup + mov_rsi_code(num_iter) + align_fill(setup.len() + 10, 64)
}

/// Appends the tail of a loop around a body of `body_len` bytes.
fn push_loop_tail(out: &mut Vec<u8>, body_len: usize)
    requires
        body_len <= MAX_BODY_LEN,
    ensures
        final(out)@ == old(out)@ + loop_tail(body_len as nat),
{
    let ghost start = out@;
    out.push(0x48);
    out.push(0x83);
    out.push(0xee);
    out.push(0x01);
    out.push(0x0f);
    out.push(0x85);
    let disp: u64 = 0x1_0000_0000 - (body_len as u64 + 10);
    push_le_bytes(out, disp, 4);
    out.push(0x48);
    out.push(0xc7);
    out.push(0xc0);
    out.push(0x2a);
    out.push(0x00);
    out.push(0x00);
    out.push(0x00);
    out.push(0xc3);
    proof {
        assert(out@ =~= start + loop_tail(body_len as nat));
    }
}

/// The code of `template` as it stands: nothing in front of it, nothing
/// behind it.
pub fn plain_code(template: &Template) -> (r: ProbeCode)
    requires
        template.wf(),
    ensures
        r.frames(Seq::empty(), *template, Seq::empty()),
        r.wf(),
{
    let mut bytes: Vec<u8> = Vec::new();
    push_all(&mut bytes, template.pre.as_slice());
    push_all(&mut bytes, template.target.as_slice());
    push_all(&mut bytes, template.post.as_slice());
    let target = template.pre.len();
    let target_end = if template.mark_end {
        Some(target + template.target.len())
    } else {
        None
    };
    let r = ProbeCode { bytes, target, target_end };
    proof {
        assert(r.bytes@ =~= Seq::<u8>::empty() + template.code() + Seq::<u8>::empty());
        lemma_target_in_frame(r, Seq::empty(), *template, Seq::empty());
    }
    r
}

/// The code of a simple loop (decrementing RSI) of `num_iter` rounds
/// around `template`.
pub fn loop_code(num_iter: usize, template: &Template) -> (r: ProbeCode)
    requires
        template.wf(),
    ensures
        r.frames(loop_head(num_iter as u64), *template, loop_tail(template.code().len())),
        r.wf(),
{
    let mut bytes: Vec<u8> = Vec::new();
    bytes.push(0x48);
    bytes.push(0xbe);
    push_le_bytes(&mut bytes, num_iter as u64, 8);
    proof {
        lemma_le_bytes_len(num_iter as nat, 8);
        assert(bytes@ =~= loop_head(num_iter as u64));
    }
    let head_len = bytes.len();
    push_all(&mut bytes, template.pre.as_slice());
    push_all(&mut bytes, template.target.as_slice());
    push_all(&mut bytes, template.post.as_slice());
    let body_len = template.pre.len() + template.target.len() + template.post.len();
    push_loop_tail(&mut bytes, body_len);
    let target = head_len + template.pre.len();
    let target_end = if template.mark_end {
        Some(target + template.target.len())
    } else {
        None
    };
    let r = ProbeCode { bytes, target, target_end };
    proof {
        assert(r.bytes@ =~= loop_head(num_iter as u64) + template.code() + loop_tail(
            template.code().len(),
        ));
        lemma_target_in_frame(
            r,
            loop_head(num_iter as u64),
            *template,
            loop_tail(template.code().len()),
        );
    }
    r
}

/// The code of a loop of `num_iter` rounds around `template` that runs
/// `setup` once before the loop and starts the loop at a multiple of 64
/// bytes.
pub fn aligned_loop_code(num_iter: usize, setup: &[u8], template: &Template) -> (r: ProbeCode)
    requires
        template.wf(),
        setup@.len() <= MAX_BODY_LEN,
    ensures
        r.frames(
            aligned_loop_head(setup@, num_iter as u64),
            *template,
            loop_tail(template.code().len()),
        ),
        r.wf(),
{
    let mut bytes: Vec<u8> = Vec::new();
    push_all(&mut bytes, setup);
    bytes.push(0x48);
    bytes.push(0xbe);
    push_le_bytes(&mut bytes, num_iter as u64, 8);
    proof {
        lemma_le_bytes_len(num_iter as nat, 8);
        assert(bytes@ =~= setup@ + mov_rsi_code(num_iter as u64));
    }
    let ghost unaligned = bytes@;
    let len = bytes.len();
    let fill: usize = if len % 64 == 0 {
        0
    } else {
        64 - len % 64
    };
    let mut k: usize = 0;
    while k < fill
        invariant
            k <= fill,
            fill < 64,
            bytes@ == unaligned + Seq::new(k as nat, |i: int| 0x90u8),
            unaligned.len() <= MAX_BODY_LEN + 10,
        decreases fill - k,
    {
        bytes.push(0x90);
        k += 1;
        proof {
            assert(bytes@ =~= unaligned + Seq::new(k as nat, |i: int| 0x90u8));
        }
    }
    proof {
        assert(bytes@ =~= aligned_loop_head(setup@, num_iter as u64));
    }
    let head_len = bytes.len();
    push_all(&mut bytes, template.pre.as_slice());
    push_all(&mut bytes, template.target.as_slice());
    push_all(&mut bytes, template.post.as_slice());
    let body_len = template.pre.len() + template.target.len() + template.post.len();
    push_loop_tail(&mut bytes, body_len);
    let target = head_len + template.pre.len();
    let target_end = if template.mark_end {
        Some(target + template.target.len())
    } else {
        None
    };
    let r = ProbeCode { bytes, target, target_end };
    proof {
        assert(r.bytes@ =~= aligned_loop_head(setup@, num_iter as u64) + template.code()
            + loop_tail(template.code().len()));
        lemma_target_in_frame(
            r,
            aligned_loop_head(setup@, num_iter as u64),
            *template,
            loop_tail(template.code().len()),
        );
    }
    r
}

/// The template of a test that reads the MSR with the number `msr`.
pub fn msr_template(msr: u32) -> (r: Template)
    ensures
        r.wf(),
        r.pre@ == mov_r32_code(1, msr),
        r.target@ == rdmsr_code(),
        r.post@ == Seq::<u8>::empty(),
        !r.mark_end,
{
    let mut target: Vec<u8> = Vec::new();
    target.push(0x0f);
    target.push(0x32);
    let r = Template { pre: mov_ecx(msr), target, post: Vec::new(), mark_end: false };
    proof {
        lemma_le_bytes_len(msr as nat, 4);
        assert(r.target@ =~= rdmsr_code());
    }
    r
}

/// The template of a test that runs CPUID for the leaf `cpuid_func`.
pub fn cpuid_template(cpuid_func: u32) -> (r: Template)
    ensures
        r.wf(),
        r.pre@ == mov_r32_code(0, cpuid_func),
        r.target@ == cpuid_code(),
        r.post@ == Seq::<u8>::empty(),
        !r.mark_end,
{
    let mut target: Vec<u8> = Vec::new();
    target.push(0x0f);
    target.push(0xa2);
    let r = Template { pre: mov_eax(cpuid_func), target, post: Vec::new(), mark_end: false };
    proof {
        lemma_le_bytes_len(cpuid_func as nat, 4);
        assert(r.target@ =~= cpuid_code());
    }
    r
}

/// The template of a test whose target is the single instruction
/// `target`, with nothing around it.
pub fn single_template(target: &[u8], mark_end: bool) -> (r: Template)
    requires
        0 < target@.len() <= MAX_BODY_LEN,
    ensures
        r.wf(),
        r.pre@ == Seq::<u8>::empty(),
        r.target@ == target@,
        r.post@ == Seq::<u8>::empty(),
        r.mark_end == mark_end,
{
    let mut t: Vec<u8> = Vec::new();
    push_all(&mut t, target);
    Template { pre: Vec::new(), target: t, post: Vec::new(), mark_end }
}

/// Why no code could be generated.
#[derive(Clone, Copy, Debug, PartialEq, Eq, Structural)]
pub enum CodegenError {
    /// The system did not grant the memory for an assembler.
    NoAssembler,
    /// There is no buffer to take: the assembler did not hand out one.
    NotFinalized,
}

/// Description of the code generated/assembled for a particular test.
///
/// NOTE: Right now, this model assumes that we're interested in samples
/// for a single "target" instruction within the stream.
#[derive(Debug)]
pub struct TestParameters {
    /// Buffer with code for this test.
    pub buf: dynasmrt::ExecutableBuffer,
    /// Offset to a single "target" instruction within the buffer.
    pub tgt_instr_off: usize,
    /// Offset to the end of the "target" instruction, where it is
    /// labelled.
    pub tgt_instr_end: Option<usize>,
}

impl TestParameters {
    /// The code of the test.
    pub open spec fn code(&self) -> Seq<u8> {
        exec_code(self.buf)
    }

    /// Whether these are the parameters of `code`.
    pub open spec fn holds(&self, code: ProbeCode) -> bool {
        &&& self.code() == code.bytes@
        &&& self.tgt_instr_off == code.target
        &&& self.tgt_instr_end == code.target_end
    }

    /// Whether this is the code of `template` with `before` in front of it
    /// and `after` behind it, with the offsets of its target.
    pub open spec fn frames(&self, before: Seq<u8>, template: Template, after: Seq<u8>) -> bool {
        &&& self.code() == before + template.code() + after
        &&& self.tgt_instr_off == before.len() + template.pre@.len()
        &&& self.tgt_instr_off < self.code().len()
        &&& self.code().subrange(
            self.tgt_instr_off as int,
            self.tgt_instr_off + template.target@.len(),
        ) == template.target@
        &&& self.tgt_instr_end == if template.mark_end {
            Some((self.tgt_instr_off + template.target@.len()) as usize)
        } else {
            None
        }
    }

    /// The length of the code in bytes.
    pub fn len(&self) -> (r: usize)
        ensures
            r == self.code().len(),
    {
        buffer_len(&self.buf)
    }

    /// A copy of the code.
    pub fn to_bytes(&self) -> (r: Vec<u8>)
        ensures
            r@ == self.code(),
    {
        buffer_bytes(&self.buf)
    }

    /// Create the appropriate request payload for this test: where the
    /// code lies, and its length. There must be code.
    pub fn to_userbuf(&self) -> (r: UserBuf)
        requires
            self.code().len() > 0,
        ensures
            r.len == self.code().len(),
    {
        UserBuf::new(buffer_address(&self.buf), buffer_len(&self.buf))
    }

    /// The request payload for this test, where there is code to upload:
    /// `None` for an empty buffer.
    pub fn userbuf(&self) -> (r: Option<UserBuf>)
        ensures
            r is Some <==> self.code().len() > 0,
            r matches Some(buf) ==> buf.len == self.code().len(),
    {
        if self.len() > 0 {
            Some(self.to_userbuf())
        } else {
            None
        }
    }
}

/// Assembles `code` into executable memory, with a global label at the
/// target instruction and, where its end is marked, one behind it. The
/// offsets of the parameters are those that the labels resolve to.
///
/// Fails only where the system grants no assembler: what becomes of each
/// answer of the system is told by [`assemble_with`].
pub fn assemble(code: &ProbeCode) -> (r: Result<TestParameters, CodegenError>)
    requires
        code.wf(),
    ensures
        r matches Ok(p) ==> p.holds(*code) && p.tgt_instr_off < p.code().len(),
        r matches Err(e) ==> e == CodegenError::NoAssembler,
{
    assemble_with(assembler_new(), code)
}

/// Emits `template` as it stands.
pub fn emit_single(template: &Template) -> (r: Result<TestParameters, CodegenError>)
    requires
        template.wf(),
    ensures
        r matches Ok(p) ==> p.frames(Seq::empty(), *template, Seq::empty()),
        r matches Err(e) ==> e == CodegenError::NoAssembler,
{
    let code = plain_code(template);
    proof {
        lemma_target_in_frame(code, Seq::empty(), *template, Seq::empty());
    }
    assemble(&code)
}

/// Emits a simple loop (decrementing RSI) of `num_iter` rounds around
/// `template`.
pub fn emit_test_iters_rsi(num_iter: usize, template: &Template) -> (r: Result<
    TestParameters,
    CodegenError,
>)
    requires
        template.wf(),
    ensures
        r matches Ok(p) ==> p.frames(
            loop_head(num_iter as u64),
            *template,
            loop_tail(template.code().len()),
        ),
        r matches Err(e) ==> e == CodegenError::NoAssembler,
{
    let code = loop_code(num_iter, template);
    proof {
        lemma_target_in_frame(
            code,
            loop_head(num_iter as u64),
            *template,
            loop_tail(template.code().len()),
        );
    }
    assemble(&code)
}

/// Emits a loop of `num_iter` rounds around `template` that runs `setup`
/// once before the loop and starts the loop at a multiple of 64 bytes.
pub fn emit_test(num_iter: usize, setup: &[u8], template: &Template) -> (r: Result<
    TestParameters,
    CodegenError,
>)
    requires
        template.wf(),
        setup@.len() <= MAX_BODY_LEN,
    ensures
        r matches Ok(p) ==> p.frames(
            aligned_loop_head(setup@, num_iter as u64),
            *template,
            loop_tail(template.code().len()),
        ),
        r matches Err(e) ==> e == CodegenError::NoAssembler,
{
    let code = aligned_loop_code(num_iter, setup, template);
    proof {
        lemma_target_in_frame(
            code,
            aligned_loop_head(setup@, num_iter as u64),
            *template,
            loop_tail(template.code().len()),
        );
    }
    assemble(&code)
}

/// Emits a loop of `iters` rounds that reads the MSR with the number
/// `msr`; the read is the target.
pub fn emit_msr_test(msr: u32, iters: usize) -> (r: Result<TestParameters, CodegenError>)
    ensures
        r matches Ok(p) ==> {
            &&& p.code() == mov_rsi_code(iters as u64) + mov_r32_code(1, msr) + rdmsr_code()
                + loop_tail(7)
            &&& p.tgt_instr_off == 15
            &&& p.tgt_instr_end is None
            &&& p.code().subrange(15, 17) == rdmsr_code()
            &&& p.code().len() == 35
        },
        r matches Err(e) ==> e == CodegenError::NoAssembler,
{
    let template = msr_template(msr);
    let r = emit_test_iters_rsi(iters, &template);
    proof {
        lemma_probe_shape(iters as u64, mov_r32_code(1, msr), msr as nat, template);
    }
    r
}

/// Emits a loop of `iters` rounds that runs CPUID for the leaf
/// `cpuid_func`; the CPUID is the target.
pub fn emit_cpuid_test(cpuid_func: u32, iters: usize) -> (r: Result<TestParameters, CodegenError>)
    ensures
        r matches Ok(p) ==> {
            &&& p.code() == mov_rsi_code(iters as u64) + mov_r32_code(0, cpuid_func)
                + cpuid_code() + loop_tail(7)
            &&& p.tgt_instr_off == 15
            &&& p.tgt_instr_end is None
            &&& p.code().subrange(15, 17) == cpuid_code()
            &&& p.code().len() == 35
        },
        r matches Err(e) ==> e == CodegenError::NoAssembler,
{
    let template = cpuid_template(cpuid_func);
    let r = emit_test_iters_rsi(iters, &template);
    proof {
        lemma_probe_shape(iters as u64, mov_r32_code(0, cpuid_func), cpuid_func as nat, template);
    }
    r
}

/// The lengths of the parts of a probe that loads a register and runs a
/// two-byte target.
proof fn lemma_probe_shape(iters: u64, load: Seq<u8>, imm: nat, template: Template)
    requires
        template.pre@ == load,
        load.len() == 1 + le_bytes(imm, 4).len(),
        template.target@.len() == 2,
        template.post@.len() == 0,
    ensures
        load.len() == 5,
        template.code().len() == 7,
        template.code() == load + template.target@,
        loop_head(iters).len() == 10,
        loop_tail(7).len() == 18,
{
    lemma_le_bytes_len(imm, 4);
    lemma_le_bytes_len(iters as nat, 8);
    lemma_le_bytes_len((0x1_0000_0000 - 17) as nat, 4);
    assert(template.code() =~= load + template.target@);
}

/// Whether an assembler has assembled nothing and knows no label.
pub open spec fn fresh(assembler: Assembler) -> bool {
    &&& assembled(assembler) == Seq::<u8>::empty()
    &&& labels_of(assembler).dom() == Set::<Seq<char>>::empty()
}

/// The labels of `code`: one at the target instruction and, where its end
/// is marked, one behind it.
pub open spec fn code_labels(code: ProbeCode) -> Map<Seq<char>, int> {
    let target = Map::<Seq<char>, int>::empty().insert("target"@, code.target as int);
    match code.target_end {
        Some(end) => target.insert("target_end"@, end as int),
        None => target,
    }
}

/// Hands `code` to a fresh assembler: the bytes up to the target, the
/// label of the target, the target, the label behind it where the end is
/// marked, and the rest.
fn lay_out(assembler: &mut Assembler, code: &ProbeCode)
    requires
        code.wf(),
        fresh(*old(assembler)),
    ensures
        assembled(*final(assembler)) == code.bytes@,
        labels_of(*final(assembler)) == code_labels(*code),
{
    proof {
        reveal_strlit("target");
        reveal_strlit("target_end");
        assert("target"@.len() != "target_end"@.len());
    }
    let all = code.bytes.as_slice();
    let n = all.len();
    let end = match code.target_end {
        Some(end) => end,
        None => code.target,
    };
    assembler_extend(assembler, slice_subrange(all, 0, code.target));
    assembler_global_label(assembler, TARGET_LABEL);
    assembler_extend(assembler, slice_subrange(all, code.target, end));
    if code.target_end.is_some() {
        assembler_global_label(assembler, TARGET_END_LABEL);
    }
    assembler_extend(assembler, slice_subrange(all, end, n));
    proof {
        assert(assembled(*assembler) =~= code.bytes@);
        assert(labels_of(*assembler) =~= code_labels(*code));
    }
}

/// The parameters of a test from what the assembler handed out at the
/// end: its buffer with the offsets of the target, and an error where it
/// handed out none.
pub fn finished(
    buf: Option<dynasmrt::ExecutableBuffer>,
    tgt_instr_off: usize,
    tgt_instr_end: Option<usize>,
) -> (r: Result<TestParameters, CodegenError>)
    ensures
        buf is None ==> r is Err && r->Err_0 == CodegenError::NotFinalized,
        buf matches Some(b) ==> {
            &&& r is Ok
            &&& r->Ok_0.buf == b
            &&& r->Ok_0.tgt_instr_off == tgt_instr_off
            &&& r->Ok_0.tgt_instr_end == tgt_instr_end
        },
{
    match buf {
        Some(buf) => Ok(TestParameters { buf, tgt_instr_off, tgt_instr_end }),
        None => Err(CodegenError::NotFinalized),
    }
}

/// Assembles `code` with the assembler that the system granted, if it
/// granted one. Without an assembler there is nothing to assemble with.
/// With one, the code is laid out in it, its labels are resolved, and the
/// buffer that it hands out holds the code.
pub fn assemble_with(assembler: Option<Assembler>, code: &ProbeCode) -> (r: Result<
    TestParameters,
    CodegenError,
>)
    requires
        code.wf(),
        assembler matches Some(a) ==> fresh(a),
    ensures
        assembler is None ==> r is Err && r->Err_0 == CodegenError::NoAssembler,
        assembler is Some ==> r is Ok,
        r matches Ok(p) ==> p.holds(*code) && p.tgt_instr_off < p.code().len(),
{
    let mut assembler = match assembler {
        Some(a) => a,
        None => {
            return Err(CodegenError::NoAssembler);
        },
    };
    lay_out(&mut assembler, code);
    proof {
        reveal_strlit("target");
        reveal_strlit("target_end");
        assert("target"@.len() != "target_end"@.len());
    }
    let tgt_instr_off = match assembler_resolve_global(&assembler, TARGET_LABEL) {
        Some(offset) => offset,
        None => {
            proof {
                assert(false);
            }
            code.target
        },
    };
    let tgt_instr_end = assembler_resolve_global(&assembler, TARGET_END_LABEL);
    finished(assembler_finalize(assembler), tgt_instr_off, tgt_instr_end)
}

} // verus!
