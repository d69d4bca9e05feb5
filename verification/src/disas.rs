//! Disassembly of generated code, for inspection.
//!
//! The decoding and the wording of the instructions are those of
//! `iced_x86`; this module walks the code and lays out the lines.

use vstd::prelude::*;
use vstd::slice::slice_subrange;
use vstd::string::StringExecFns;
use iced_x86::Formatter;
use crate::report::texts;
use crate::text::{pad_left, push_upper_hex, upper_hex};

verus! {

/// The length in bytes of the instruction that `code` starts with, in
/// 64-bit mode, where the instruction lies at the address `ip`.
pub uninterp spec fn insn_len(code: Seq<u8>, ip: u64) -> usize;

/// The instruction that `code` starts with, in 64-bit mode, in Intel
/// syntax, where the instruction lies at the address `ip`: with
/// `separator` between groups of digits and the first operand at the
/// column `column`.
pub uninterp spec fn insn_text(code: Seq<u8>, ip: u64, separator: Seq<char>, column: u32) -> Seq<
    char,
>;

/// What stands between groups of digits in a listing.
pub const DIGIT_SEPARATOR: &'static str = "_";

/// The column of the first operand in a listing.
pub const OPERAND_COLUMN: u32 = 10;

/// `iced_x86::Decoder::decode` on a decoder for 64-bit code at `ip`, and
/// `Instruction::len` of what it gives: the length of the first
/// instruction of `code`.
#[verifier::external_body]
fn instruction_len(code: &[u8], ip: u64) -> (r: usize)
    ensures
        r == insn_len(code@, ip),
{
    iced_x86::Decoder::with_ip(64, code, ip, iced_x86::DecoderOptions::NONE).decode().len()
}

/// `iced_x86::Formatter::format` of an `IntelFormatter`, with `separator`
/// as its digit separator and `column` as the index of the first operand,
/// on the first instruction of `code`, decoded for 64-bit code at `ip`.
#[verifier::external_body]
fn instruction_text(code: &[u8], ip: u64, separator: &'static str, column: u32) -> (r: String)
    ensures
        r@ == insn_text(code@, ip, separator@, column),
{
    let mut decoder = iced_x86::Decoder::with_ip(64, code, ip, iced_x86::DecoderOptions::NONE);
    let mut formatter = iced_x86::IntelFormatter::new();
    formatter.options_mut().set_digit_separator(separator);
    formatter.options_mut().set_first_operand_char_index(column);
    let mut output = String::new();
    formatter.format(&decoder.decode(), &mut output);
    output
}

/// A byte in two upper-case hexadecimal digits.
pub open spec fn byte_text(b: u8) -> Seq<char> {
    pad_left(upper_hex(b as nat), 2, '0')
}

/// Bytes in two upper-case hexadecimal digits each.
pub open spec fn bytes_text(bytes: Seq<u8>) -> Seq<char>
    decreases bytes.len(),
{
    if bytes.len() == 0 {
        Seq::empty()
    } else {
        bytes_text(bytes.drop_last()) + byte_text(bytes.last())
    }
}

/// The blanks that fill the column of the bytes up to ten bytes.
pub open spec fn bytes_fill(len: nat) -> Seq<char> {
    Seq::new(
        if len < 10 {
            (2 * (10 - len)) as nat
        } else {
            0
        },
        |i: int| ' ',
    )
}

/// The line of an instruction: its address in at least four upper-case
/// hexadecimal digits, its bytes in a column of ten, and its text.
pub open spec fn instruction_line_text(ip: u64, bytes: Seq<u8>, text: Seq<char>) -> Seq<char> {
    pad_left(upper_hex(ip as nat), 4, '0') + " "@ + bytes_text(bytes) + bytes_fill(bytes.len())
        + " "@ + text
}

/// The line of an instruction.
pub fn instruction_line(ip: u64, bytes: &[u8], text: &str) -> (r: String)
    ensures
        r@ == instruction_line_text(ip, bytes@, text@),
{
    let mut r = String::new();
    push_upper_hex(&mut r, ip, 4);
    r.append(" ");
    let ghost head = r@;
    let mut i: usize = 0;
    proof {
        assert(r@ =~= head + bytes_text(bytes@.take(0)));
    }
    while i < bytes.len()
        invariant
            i <= bytes@.len(),
            r@ == head + bytes_text(bytes@.take(i as int)),
        decreases bytes@.len() - i,
    {
        push_upper_hex(&mut r, bytes[i] as u64, 2);
        proof {
            assert(bytes@.take(i + 1).drop_last() =~= bytes@.take(i as int));
            assert(r@ =~= head + bytes_text(bytes@.take(i + 1)));
        }
        i += 1;
    }
    proof {
        assert(bytes@.take(bytes@.len() as int) =~= bytes@);
    }
    let ghost dumped = r@;
    let fill: usize = if bytes.len() < 10 {
        2 * (10 - bytes.len())
    } else {
        0
    };
    let mut k: usize = 0;
    proof {
        assert(r@ =~= dumped + Seq::new(0, |i: int| ' '));
    }
    while k < fill
        invariant
            k <= fill,
            r@ == dumped + Seq::new(k as nat, |i: int| ' '),
        decreases fill - k,
    {
        r.push(' ');
        k += 1;
        proof {
            assert(r@ =~= dumped + Seq::new(k as nat, |i: int| ' '));
        }
    }
    r.append(" ");
    r.append(text);
    proof {
        assert(r@ =~= instruction_line_text(ip, bytes@, text@));
    }
    r
}

/// Whether an instruction can be told at `pos`: the decoder gives it a
/// length, and it ends within the code.
pub open spec fn decodes_at(code: Seq<u8>, pos: int) -> bool {
    &&& 0 <= pos < code.len()
    &&& 0 < insn_len(code.subrange(pos, code.len() as int), pos as u64) <= code.len() - pos
}

/// The position behind the instruction at `pos`.
pub open spec fn next_pos(code: Seq<u8>, pos: int) -> int {
    pos + insn_len(code.subrange(pos, code.len() as int), pos as u64)
}

/// The lines of the instructions of `code` from `pos` on, one behind the
/// other, as far as they can be told. Addresses count from the start of
/// the code; groups of digits are set apart by `_`, and the first operand
/// stands at column 10.
pub open spec fn disas_texts(code: Seq<u8>, pos: int) -> Seq<Seq<char>>
    decreases code.len() - pos,
{
    if decodes_at(code, pos) {
        seq![
            instruction_line_text(
                pos as u64,
                code.subrange(pos, next_pos(code, pos)),
                insn_text(code.subrange(pos, code.len() as int), pos as u64, "_"@, 10),
            ),
        ] + disas_texts(code, next_pos(code, pos))
    } else {
        Seq::empty()
    }
}

/// Disassembles `buf`: a line for each instruction, one behind the other
/// from the start of the code, as far as instructions can be told.
pub fn disas(buf: &[u8]) -> (r: Vec<String>)
    ensures
        texts(r@) == disas_texts(buf@, 0),
{
    let n = buf.len();
    let mut lines: Vec<String> = Vec::new();
    let mut pos: usize = 0;
    let mut told = true;
    proof {
        assert(texts(lines@) =~= Seq::<Seq<char>>::empty());
        assert(texts(lines@) + disas_texts(buf@, 0) =~= disas_texts(buf@, 0));
    }
    while told && pos < n
        invariant
            pos <= n,
            n == buf@.len(),
            told ==> texts(lines@) + disas_texts(buf@, pos as int) == disas_texts(buf@, 0),
            !told ==> texts(lines@) == disas_texts(buf@, 0),
        decreases n - pos + if told { 1int } else { 0int },
    {
        let rest = slice_subrange(buf, pos, n);
        let len = instruction_len(rest, pos as u64);
        let ghost before = texts(lines@);
        if len == 0 || len > n - pos {
            told = false;
            proof {
                assert(!decodes_at(buf@, pos as int));
                assert(before + Seq::<Seq<char>>::empty() =~= before);
            }
        } else {
            let text = instruction_text(rest, pos as u64, DIGIT_SEPARATOR, OPERAND_COLUMN);
            let line = instruction_line(pos as u64, slice_subrange(buf, pos, pos + len), text.as_str());
            lines.push(line);
            proof {
                assert(decodes_at(buf@, pos as int));
                assert(texts(lines@) =~= before.push(line@));
                assert(before.push(line@) + disas_texts(buf@, pos + len) =~= before + (seq![line@]
                    + disas_texts(buf@, pos + len)));
            }
            pos += len;
        }
    }
    proof {
        if told {
            assert(!decodes_at(buf@, pos as int));
            assert(texts(lines@) + Seq::<Seq<char>>::empty() =~= texts(lines@));
        }
    }
    lines
}

} // verus!
