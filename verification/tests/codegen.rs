use iced_x86::{Decoder, DecoderOptions, Instruction, Mnemonic, Register};
use ibst::disas::disas;
use ibst::codegen::{
    aligned_loop_code, assemble, assemble_with, finished, CodegenError, cpuid_template, emit_cpuid_test, emit_msr_test, emit_single,
    emit_test, emit_test_iters_rsi, loop_code, mov_eax, mov_ecx, msr_template, plain_code,
    push_all, push_le_bytes, single_template, ProbeCode, Template, MAX_BODY_LEN,
    TARGET_END_LABEL, TARGET_LABEL,
};

const RDMSR: [u8; 2] = [0x0f, 0x32];
const CPUID: [u8; 2] = [0x0f, 0xa2];
const RDTSC: [u8; 2] = [0x0f, 0x31];
const RET: [u8; 1] = [0xc3];
const XOR_ECX_ECX: [u8; 2] = [0x31, 0xc9];

fn decode_all(code: &[u8]) -> Vec<Instruction> {
    let mut decoder = Decoder::with_ip(64, code, 0, DecoderOptions::NONE);
    let mut all = Vec::new();
    while decoder.can_decode() {
        all.push(decoder.decode());
    }
    all
}

fn decode_at(code: &[u8], offset: usize) -> Instruction {
    let mut decoder = Decoder::with_ip(64, &code[offset..], offset as u64, DecoderOptions::NONE);
    decoder.decode()
}

/// Checks the loop around a body that starts at `loop_start` and returns
/// the instructions of the body.
fn check_loop(code: &[u8], head: usize, iters: u64) -> Vec<Instruction> {
    let mov = decode_at(code, head);
    assert_eq!(mov.mnemonic(), Mnemonic::Mov);
    assert_eq!(mov.op0_register(), Register::RSI);
    assert_eq!(mov.immediate64(), iters);
    assert_eq!(mov.len(), 10);
    let all = decode_all(code);
    let n = all.len();
    assert!(n >= 5);
    let ret = &all[n - 1];
    assert_eq!(ret.mnemonic(), Mnemonic::Ret);
    let mov_rax = &all[n - 2];
    assert_eq!(mov_rax.mnemonic(), Mnemonic::Mov);
    assert_eq!(mov_rax.op0_register(), Register::RAX);
    assert_eq!(mov_rax.immediate32to64(), 42);
    let jne = &all[n - 3];
    assert_eq!(jne.mnemonic(), Mnemonic::Jne);
    let sub = &all[n - 4];
    assert_eq!(sub.mnemonic(), Mnemonic::Sub);
    assert_eq!(sub.op0_register(), Register::RSI);
    assert_eq!(sub.immediate8to64(), 1);
    let loop_start = jne.near_branch_target();
    let loop_end = sub.ip();
    assert!(all.iter().any(|i| i.ip() == loop_start));
    all.into_iter().filter(|i| i.ip() >= loop_start && i.ip() < loop_end).collect()
}

#[test]
fn test() {
    let msr: u32 = 0xc0010200;
    let mut setup = mov_ecx(msr);
    setup.extend_from_slice(&XOR_ECX_ECX);
    let template =
        Template { pre: mov_ecx(msr), target: RDMSR.to_vec(), post: Vec::new(), mark_end: false };
    let t = emit_test(0x1000, &setup, &template).expect("assembler");
    let code = t.to_bytes();

    for line in disas(&code) {
        println!("{}", line);
    }

    // set-up, then the counter, then the loop at a multiple of 64 bytes
    assert_eq!(&code[..5], &[0xb9, 0x00, 0x02, 0x01, 0xc0]);
    assert_eq!(&code[5..7], &XOR_ECX_ECX);
    let body = check_loop(&code, 7, 0x1000);
    assert_eq!(body[0].ip(), 64);
    assert!(code[17..64].iter().all(|b| *b == 0x90));
    assert_eq!(body.len(), 2);
    assert_eq!(body[0].mnemonic(), Mnemonic::Mov);
    assert_eq!(body[0].op0_register(), Register::ECX);
    assert_eq!(body[0].immediate32(), msr);
    assert_eq!(body[1].mnemonic(), Mnemonic::Rdmsr);
    assert_eq!(t.tgt_instr_off, 69);
    assert_eq!(body[1].ip(), t.tgt_instr_off as u64);
    assert_eq!(t.tgt_instr_end, None);
}

#[test]
fn msr_test_code() {
    let t = emit_msr_test(0xC001_0141, 0x10000).expect("assembler");
    let code = t.to_bytes();
    assert_eq!(
        code,
        vec![
            0x48, 0xbe, 0x00, 0x00, 0x01, 0x00, 0x00, 0x00, 0x00, 0x00, // mov rsi, 0x10000
            0xb9, 0x41, 0x01, 0x01, 0xc0, // mov ecx, 0xc0010141
            0x0f, 0x32, // rdmsr
            0x48, 0x83, 0xee, 0x01, // sub rsi, 1
            0x0f, 0x85, 0xef, 0xff, 0xff, 0xff, // jne loop_start
            0x48, 0xc7, 0xc0, 0x2a, 0x00, 0x00, 0x00, // mov rax, 42
            0xc3, // ret
        ]
    );
    assert_eq!(t.len(), 35);
    assert_eq!(t.tgt_instr_off, 15);
    assert_eq!(t.tgt_instr_end, None);
}

#[test]
fn msr_test_target_decodes_to_the_read() {
    for (msr, iters) in [(0xC001_0141u32, 0x10000usize), (0, 0), (u32::MAX, usize::MAX), (0x10, 1)] {
        let t = emit_msr_test(msr, iters).expect("assembler");
        let code = t.to_bytes();
        assert!(t.tgt_instr_off < code.len());
        let target = decode_at(&code, t.tgt_instr_off);
        assert_eq!(target.mnemonic(), Mnemonic::Rdmsr);
        assert_eq!(target.len(), 2);
        let body = check_loop(&code, 0, iters as u64);
        assert_eq!(body.len(), 2);
        assert_eq!(body[0].ip(), 10);
        assert_eq!(body[0].mnemonic(), Mnemonic::Mov);
        assert_eq!(body[0].op0_register(), Register::ECX);
        assert_eq!(body[0].immediate32(), msr);
        assert_eq!(body[1].ip(), t.tgt_instr_off as u64);
    }
}

#[test]
fn cpuid_test_target_decodes_to_cpuid() {
    for leaf in [0u32, 1, 0x20, 0x8000_0000, 0x8000_0020] {
        let t = emit_cpuid_test(leaf, 0x100000).expect("assembler");
        let code = t.to_bytes();
        assert_eq!(t.tgt_instr_off, 15);
        assert!(t.tgt_instr_off < code.len());
        assert_eq!(decode_at(&code, t.tgt_instr_off).mnemonic(), Mnemonic::Cpuid);
        let body = check_loop(&code, 0, 0x100000);
        assert_eq!(body.len(), 2);
        assert_eq!(body[0].op0_register(), Register::EAX);
        assert_eq!(body[0].immediate32(), leaf);
        assert_eq!(body[1].mnemonic(), Mnemonic::Cpuid);
    }
}

#[test]
fn loop_around_a_longer_template() {
    // xor rax, rax ; xor rdx, rdx ; target: rdtsc
    let template = Template {
        pre: vec![0x48, 0x31, 0xc0, 0x48, 0x31, 0xd2],
        target: RDTSC.to_vec(),
        post: vec![0x90, 0x90, 0x90],
        mark_end: true,
    };
    assert!(template.is_wf());
    let t = emit_test_iters_rsi(0x100000, &template).expect("assembler");
    let code = t.to_bytes();
    assert_eq!(code.len(), 10 + 11 + 18);
    assert_eq!(t.tgt_instr_off, 16);
    assert_eq!(t.tgt_instr_end, Some(18));
    assert_eq!(&code[16..18], &RDTSC);
    let body = check_loop(&code, 0, 0x100000);
    let names: Vec<Mnemonic> = body.iter().map(|i| i.mnemonic()).collect();
    assert_eq!(
        names,
        vec![Mnemonic::Xor, Mnemonic::Xor, Mnemonic::Rdtsc, Mnemonic::Nop, Mnemonic::Nop, Mnemonic::Nop]
    );
    assert_eq!(body[0].ip(), 10);
    assert_eq!(body[2].ip(), t.tgt_instr_off as u64);
    assert_eq!(body[2].next_ip(), t.tgt_instr_end.unwrap() as u64);
}

#[test]
fn jump_reaches_the_loop_start_over_a_long_body() {
    let template =
        Template { pre: vec![0x90; 1000], target: RDTSC.to_vec(), post: vec![0x90; 300], mark_end: false };
    let code = loop_code(5, &template);
    assert_eq!(code.target, 1010);
    let all = decode_all(&code.bytes);
    let jne = all.iter().find(|i| i.mnemonic() == Mnemonic::Jne).unwrap();
    assert_eq!(jne.near_branch_target(), 10);
    assert_eq!(jne.ip(), 10 + 1302 + 4);
}

#[test]
fn single_pass_probe() {
    // target: rdtsc ; target_end: ret
    let template = Template { pre: Vec::new(), target: RDTSC.to_vec(), post: RET.to_vec(), mark_end: true };
    let t = emit_single(&template).expect("assembler");
    assert_eq!(t.to_bytes(), vec![0x0f, 0x31, 0xc3]);
    assert_eq!(t.tgt_instr_off, 0);
    assert_eq!(t.tgt_instr_end, Some(2));
    let all = decode_all(&t.to_bytes());
    assert_eq!(all.len(), 2);
    assert_eq!(all[0].mnemonic(), Mnemonic::Rdtsc);
    assert_eq!(all[1].mnemonic(), Mnemonic::Ret);
}

#[test]
fn templates() {
    let m = msr_template(0xc000_0080);
    assert_eq!(m.pre, vec![0xb9, 0x80, 0x00, 0x00, 0xc0]);
    assert_eq!(m.target, RDMSR.to_vec());
    assert!(m.post.is_empty());
    assert!(!m.mark_end);
    assert!(m.is_wf());
    let c = cpuid_template(0x8000_0001);
    assert_eq!(c.pre, vec![0xb8, 0x01, 0x00, 0x00, 0x80]);
    assert_eq!(c.target, CPUID.to_vec());
    assert!(c.is_wf());
    let s = single_template(&RDTSC, true);
    assert!(s.pre.is_empty());
    assert_eq!(s.target, RDTSC.to_vec());
    assert!(s.post.is_empty());
    assert!(s.mark_end);
    assert!(s.is_wf());
    let no_target = Template { pre: vec![0x90], target: Vec::new(), post: vec![0xc3], mark_end: false };
    assert!(!no_target.is_wf());
    assert_eq!(MAX_BODY_LEN, 0x7fff_fff0);
}

#[test]
fn register_loads_are_little_endian() {
    assert_eq!(mov_ecx(0x1234_5678), vec![0xb9, 0x78, 0x56, 0x34, 0x12]);
    assert_eq!(mov_eax(0), vec![0xb8, 0, 0, 0, 0]);
    assert_eq!(mov_eax(u32::MAX), vec![0xb8, 0xff, 0xff, 0xff, 0xff]);
    let mut v = vec![0xaa];
    push_le_bytes(&mut v, 0x0102_0304_0506_0708, 8);
    assert_eq!(v, vec![0xaa, 8, 7, 6, 5, 4, 3, 2, 1]);
    push_le_bytes(&mut v, 0x0102_0304_0506_0708, 2);
    assert_eq!(v, vec![0xaa, 8, 7, 6, 5, 4, 3, 2, 1, 8, 7]);
    push_le_bytes(&mut v, 0xff, 0);
    assert_eq!(v.len(), 11);
    push_all(&mut v, &[1, 2]);
    assert_eq!(&v[11..], &[1, 2]);
}

#[test]
fn plain_and_aligned_code() {
    let template = Template { pre: vec![0x90], target: RDTSC.to_vec(), post: RET.to_vec(), mark_end: false };
    let plain = plain_code(&template);
    assert_eq!(plain.bytes, vec![0x90, 0x0f, 0x31, 0xc3]);
    assert_eq!(plain.target, 1);
    assert_eq!(plain.target_end, None);

    // set-up and counter fill 64 bytes exactly: no filler
    let exact = aligned_loop_code(1, &[0x90; 54], &template);
    assert_eq!(exact.target, 65);
    assert_eq!(exact.bytes.len(), 64 + 4 + 18);
    // one byte more and the loop starts at 128
    let more = aligned_loop_code(1, &[0x90; 55], &template);
    assert_eq!(more.target, 129);
    assert!(more.bytes[65..128].iter().all(|b| *b == 0x90));
    // no set-up: the counter, then filler up to 64
    let none = aligned_loop_code(1, &[], &template);
    assert_eq!(none.target, 65);
    assert_eq!(&none.bytes[..2], &[0x48, 0xbe]);
}

#[test]
fn assemble_keeps_code_and_resolves_the_labels() {
    let code = ProbeCode { bytes: vec![1, 2, 3, 4, 5, 6], target: 2, target_end: Some(5) };
    let t = assemble(&code).expect("assembler");
    assert_eq!(t.to_bytes(), vec![1, 2, 3, 4, 5, 6]);
    assert_eq!(t.len(), 6);
    assert_eq!(t.tgt_instr_off, 2);
    assert_eq!(t.tgt_instr_end, Some(5));
    let unmarked = ProbeCode { bytes: vec![9, 8, 7], target: 2, target_end: None };
    let u = assemble(&unmarked).expect("assembler");
    assert_eq!(u.to_bytes(), vec![9, 8, 7]);
    assert_eq!(u.tgt_instr_off, 2);
    assert_eq!(u.tgt_instr_end, None);
    let at_end = ProbeCode { bytes: vec![9, 8, 7], target: 0, target_end: Some(3) };
    let e = assemble(&at_end).expect("assembler");
    assert_eq!((e.tgt_instr_off, e.tgt_instr_end), (0, Some(3)));
    assert_eq!(TARGET_LABEL, "target");
    assert_eq!(TARGET_END_LABEL, "target_end");
}

#[test]
fn userbuf_describes_the_code() {
    let t = emit_msr_test(0x10, 16).expect("assembler");
    let buf = t.to_userbuf();
    assert_eq!(buf.len, 35);
    assert_eq!(buf.len, t.len());
    assert_ne!(buf.ptr, 0);
    assert_eq!(buf.ptr, t.buf.as_ptr() as usize);
}

#[test]
fn without_an_assembler_nothing_is_assembled() {
    let code = ProbeCode { bytes: vec![0x0f, 0x31, 0xc3], target: 0, target_end: Some(2) };
    let r = assemble_with(None, &code);
    assert_eq!(r.err(), Some(CodegenError::NoAssembler));
}

#[test]
fn finished_takes_what_the_assembler_hands_out() {
    assert_eq!(finished(None, 3, Some(5)).err(), Some(CodegenError::NotFinalized));
    assert_eq!(finished(None, 0, None).err(), Some(CodegenError::NotFinalized));

    let mut assembler = dynasmrt::x64::Assembler::new().expect("assembler");
    assembler.extend(&[0x90u8, 0x0f, 0x31, 0xc3]);
    let buf = assembler.finalize().expect("buffer");
    let address = buf.as_ptr() as usize;
    let t = finished(Some(buf), 1, Some(3)).expect("parameters");
    assert_eq!(t.to_bytes(), vec![0x90, 0x0f, 0x31, 0xc3]);
    assert_eq!(t.buf.as_ptr() as usize, address);
    assert_eq!(t.tgt_instr_off, 1);
    assert_eq!(t.tgt_instr_end, Some(3));
    let u = finished(Some(dynasmrt::ExecutableBuffer::default()), 0, None).expect("parameters");
    assert_eq!(u.len(), 0);
    assert_eq!((u.tgt_instr_off, u.tgt_instr_end), (0, None));
    assert!(u.userbuf().is_none());
}
