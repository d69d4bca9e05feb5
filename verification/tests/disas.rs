use iced_x86::{Decoder, DecoderOptions, Formatter, Instruction, IntelFormatter};
use ibst::codegen::{emit_msr_test, loop_code, Template};
use ibst::disas::{disas, instruction_line};

/// The listing as the decoder and the formatter give it, laid out by the
/// standard formatting.
fn listing(buf: &[u8]) -> Vec<String> {
    let mut decoder = Decoder::with_ip(64, buf, 0, DecoderOptions::NONE);
    let mut formatter = IntelFormatter::new();
    formatter.options_mut().set_digit_separator("_");
    formatter.options_mut().set_first_operand_char_index(10);
    let mut output = String::new();
    let mut instruction = Instruction::default();
    let mut lines = Vec::new();
    while decoder.can_decode() {
        decoder.decode_out(&mut instruction);
        output.clear();
        formatter.format(&instruction, &mut output);
        let mut line = format!("{:04X} ", instruction.ip());
        let start_index = instruction.ip() as usize;
        let instr_bytes = &buf[start_index..start_index + instruction.len()];
        for b in instr_bytes.iter() {
            line.push_str(&format!("{:02X}", b));
        }
        if instr_bytes.len() < 10 {
            for _ in 0..10 - instr_bytes.len() {
                line.push_str("  ");
            }
        }
        line.push_str(&format!(" {}", output));
        lines.push(line);
    }
    lines
}

#[test]
fn instruction_line_layout() {
    assert_eq!(instruction_line(0, &[0x0f, 0x32], "rdmsr"), "0000 0F32                 rdmsr");
    assert_eq!(instruction_line(0x1f, &[0xc3], "ret"), "001F C3                   ret");
    assert_eq!(instruction_line(0xabcde, &[], ""), "ABCDE                      ");
    assert_eq!(
        instruction_line(10, &[0x48, 0xbe, 1, 2, 3, 4, 5, 6, 7, 0xff], "mov"),
        "000A 48BE01020304050607FF mov"
    );
    assert_eq!(
        instruction_line(10, &[0x48, 0xbe, 1, 2, 3, 4, 5, 6, 7, 8, 9], "x"),
        "000A 48BE010203040506070809 x"
    );
}

#[test]
fn disas_of_the_msr_test() {
    let t = emit_msr_test(0xC001_0141, 0x10000).expect("assembler");
    let lines = disas(&t.to_bytes());
    assert_eq!(
        lines,
        vec![
            "0000 48BE0000010000000000 mov       rsi,1_0000h",
            "000A B9410101C0           mov       ecx,0_C001_0141h",
            "000F 0F32                 rdmsr",
            "0011 4883EE01             sub       rsi,1",
            "0015 0F85EFFFFFFF         jne       0000_0000_0000_000Ah",
            "001B 48C7C02A000000       mov       rax,2Ah",
            "0022 C3                   ret",
        ]
    );
    assert_eq!(lines, listing(&t.to_bytes()));
}

#[test]
fn disas_follows_the_decoder() {
    let template = Template {
        pre: vec![0x48, 0x31, 0xc0, 0x48, 0x31, 0xd2],
        target: vec![0x0f, 0x31],
        post: vec![0x90; 5],
        mark_end: false,
    };
    let code = loop_code(7, &template);
    assert_eq!(disas(&code.bytes), listing(&code.bytes));
    assert_eq!(disas(&code.bytes).len(), 13);
    assert!(disas(&[]).is_empty());
    // bytes that are no instruction, and an instruction that is cut off
    for bytes in [vec![0x06u8, 0x07, 0x90], vec![0x90, 0xf3, 0x0f], vec![0x48], vec![0xff; 40]] {
        assert_eq!(disas(&bytes), listing(&bytes));
        assert!(!disas(&bytes).is_empty());
    }
}

#[test]
fn disas_addresses_count_from_the_start() {
    // jmp short to itself, at offset 1
    let lines = disas(&[0x90, 0xeb, 0xfe]);
    assert_eq!(lines.len(), 2);
    assert_eq!(lines[0], "0000 90                   nop");
    assert_eq!(lines[1], "0001 EBFE                 jmp       short 1");
}
