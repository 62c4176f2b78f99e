//! What each 8086 encoding means: its instruction family, its length and its text.
use vstd::prelude::*;
use crate::cursor::{imm_len, imm_value, le_i16, signed8, DecodeError};
use crate::operand::{disp_len, rm_text, with_segment};
use crate::tables::{
    ascii_adjust_names, binary_names, call_names, cond_jump_names, group_f6_names, group_fe_names,
    loop_names, reg_text, register_op_names, segment_names, shift_names, stack_names,
};
use crate::text::{bit_pattern, int_text, line1, line2};

verus! {

/// The instruction families, in the order in which a leading byte is matched against them.
#[derive(Debug, Clone, Copy, PartialEq, Eq, Structural)]
pub enum Family {
    /// Register/memory with register (arithmetic, MOV, TEST, XCHG, LEA, LES, LDS).
    RegMemReg,
    /// Immediate or implied operand with register/memory, mnemonic chosen by the second byte.
    ImmRegMem,
    /// MOV of an immediate to a register named in the leading byte.
    MovImmReg,
    /// MOV, TEST, arithmetic, IN and OUT against the accumulator.
    Accumulator,
    /// INC, DEC, PUSH and POP of a word register named in the leading byte.
    RegisterOp,
    /// PUSH and POP of a segment register.
    SegmentStack,
    /// Segment override prefix.
    SegmentPrefix,
    /// LOCK prefix.
    Lock,
    /// XCHG of the accumulator with a word register.
    XchgAccumulator,
    /// IN and OUT through the port in DX.
    InOutDx,
    /// RET and RETF with a stack adjustment.
    RetImm,
    /// INT with an interrupt number.
    Interrupt,
    /// REP with the string operation it repeats.
    Repeat,
    /// Conditional jumps, LOOP variants and the short JMP: 8-bit relative target.
    ShortBranch,
    /// CALL and JMP with a 16-bit relative target.
    NearBranch,
    /// CALL and JMP to an absolute segment:offset.
    FarBranch,
    /// AAM and AAD, whose second byte is fixed.
    AsciiAdjust,
    /// Everything else: one byte, known or not.
    OneByte,
}

/// Leading bytes of register/memory with register: 00ooo0dw, TEST, XCHG, MOV, LEA, LES, LDS.
pub open spec fn is_reg_mem_reg(x: int) -> bool {
    (x < 0x40 && x % 8 < 4) || (0x84 <= x <= 0x8B) || x == 0x8D || x == 0xC4 || x == 0xC5
}

/// Leading bytes whose second byte's middle field selects the mnemonic.
pub open spec fn is_imm_reg_mem(x: int) -> bool {
    (0x80 <= x <= 0x83) || x == 0x8F || x == 0xC6 || x == 0xC7 || (0xD0 <= x <= 0xD3) || x
        == 0xF6 || x == 0xF7 || x == 0xFE || x == 0xFF
}

/// Leading bytes of the accumulator forms: 00ooo10w, MOV, TEST, IN, OUT.
pub open spec fn is_accumulator(x: int) -> bool {
    (x < 0x40 && (x % 8 == 4 || x % 8 == 5)) || (0xA0 <= x <= 0xA3) || x == 0xA8 || x == 0xA9 || (
    0xE4 <= x <= 0xE7)
}

/// Leading bytes of the branches with an 8-bit displacement.
pub open spec fn is_short_branch(x: int) -> bool {
    x == 0xEB || (0xE0 <= x <= 0xE3) || (0x70 <= x <= 0x7F)
}

/// The family of a leading byte: the first of the families, in order, whose pattern it matches.
pub open spec fn family(x: int) -> Family {
    if is_reg_mem_reg(x) {
        Family::RegMemReg
    } else if is_imm_reg_mem(x) {
        Family::ImmRegMem
    } else if 0xB0 <= x <= 0xBF {
        Family::MovImmReg
    } else if is_accumulator(x) {
        Family::Accumulator
    } else if 0x40 <= x <= 0x5F {
        Family::RegisterOp
    } else if x < 0x20 && (x % 8 == 6 || x % 8 == 7) {
        Family::SegmentStack
    } else if x == 0x26 || x == 0x2E || x == 0x36 || x == 0x3E {
        Family::SegmentPrefix
    } else if 0x90 <= x <= 0x97 {
        Family::XchgAccumulator
    } else if 0xEC <= x <= 0xEF {
        Family::InOutDx
    } else if x == 0xC2 || x == 0xCA {
        Family::RetImm
    } else if x == 0xCD {
        Family::Interrupt
    } else if x == 0xF3 {
        Family::Repeat
    } else if is_short_branch(x) {
        Family::ShortBranch
    } else if x == 0xE8 || x == 0xE9 {
        Family::NearBranch
    } else if x == 0x9A || x == 0xEA {
        Family::FarBranch
    } else if x == 0xD4 || x == 0xD5 {
        Family::AsciiAdjust
    } else if x == LOCK as int {
        Family::Lock
    } else {
        Family::OneByte
    }
}

/// The LOCK prefix byte.
pub const LOCK: u8 = 0xF0;

/// The mode, middle and r/m fields of a ModRM-style byte.
pub open spec fn mod_field(y: int) -> int {
    y / 64
}

pub open spec fn mid_field(y: int) -> int {
    (y / 8) % 8
}

pub open spec fn rm_field(y: int) -> int {
    y % 8
}

/// Single-use modifiers that prefix bytes leave for the instruction after them.
#[derive(Clone, Copy)]
pub struct PrefixState {
    /// The segment register (an index into the segment names) that overrides the next
    /// memory operand.
    pub segment: Option<u8>,
    /// Whether a LOCK prefix precedes the instruction being decoded.
    pub locked: bool,
}

impl PrefixState {
    pub open spec fn wf(&self) -> bool {
        self.segment matches Some(s) ==> s < 4
    }
}

/// The state before any byte: no prefix pending.
pub open spec fn no_prefix() -> PrefixState {
    PrefixState { segment: None, locked: false }
}

/// Whether a leading byte is a prefix, which only modifies the instruction after it.
pub open spec fn is_prefix(x: int) -> bool {
    family(x) == Family::SegmentPrefix || family(x) == Family::Lock
}

/// The prefix state after the byte or instruction with leading byte `x`: prefixes gather
/// until an instruction, which uses them up, so none lasts past that one instruction.
pub open spec fn next_prefix(x: int, st: PrefixState) -> PrefixState {
    if family(x) == Family::SegmentPrefix {
        PrefixState { segment: Some(((x / 8) % 4) as u8), locked: st.locked }
    } else if family(x) == Family::Lock {
        PrefixState { segment: st.segment, locked: true }
    } else {
        no_prefix()
    }
}

/// The text that a prefix byte adds in front of the instruction it prefixes: LOCK writes
/// itself; a segment override writes the override it replaces, if there is one, whose byte
/// would otherwise be lost.
pub open spec fn prefix_text(x: int, st: PrefixState) -> Seq<char> {
    if family(x) == Family::Lock {
        "lock "@
    } else {
        match st.segment {
            Some(s) => segment_names()[s as int] + " "@,
            None => Seq::empty(),
        }
    }
}

/// The text of prefixes at the end of the stream, with no instruction after them.
pub open spec fn trailing_text(pending: Seq<char>, st: PrefixState) -> Seq<char> {
    pending + match st.segment {
        Some(s) => segment_names()[s as int],
        None => Seq::empty(),
    } + "\n"@
}

/// The segment override that applies to a memory operand: none to a register operand
/// (mode 11).
pub open spec fn memory_segment(seg: Option<u8>, md: int) -> Option<u8> {
    if md == 3 {
        None
    } else {
        seg
    }
}

/// The text of one decoded instruction, split around its branch target if it has one.
pub struct PieceView {
    pub head: Seq<char>,
    pub target: Option<int>,
    pub tail: Seq<char>,
}

/// A piece of text with no branch target in it.
pub open spec fn text_piece(t: Seq<char>) -> PieceView {
    PieceView { head: t, target: None, tail: Seq::empty() }
}

// ---- register/memory with register ----

/// LEA, LES and LDS: the register is the destination and the width is a word.
pub open spec fn reg_mem_reg_special(x: int) -> bool {
    x == 0x8D || x == 0xC4 || x == 0xC5
}

/// The mnemonic of a register/memory-with-register leading byte.
pub open spec fn reg_mem_reg_op(x: int) -> Seq<char> {
    if x == 0x8D {
        "lea"@
    } else if x == 0xC4 {
        "les"@
    } else if x == 0xC5 {
        "lds"@
    } else if x == 0x84 || x == 0x85 {
        "test"@
    } else if x == 0x86 || x == 0x87 {
        "xchg"@
    } else if 0x88 <= x <= 0x8B {
        "mov"@
    } else {
        binary_names()[(x / 8) % 8]
    }
}

/// Register/memory with register: the register comes first when the direction bit is set and no LOCK precedes.
pub open spec fn reg_mem_reg_text(b: Seq<u8>, pos: int, st: PrefixState) -> Seq<char> {
    let x = b[pos] as int;
    let y = b[pos + 1] as int;
    let special = reg_mem_reg_special(x);
    let to_reg = special || (x / 2) % 2 == 1;
    let wide = special || x % 2 == 1;
    let reg = reg_text(wide, mid_field(y));
    let rm = with_segment(
        memory_segment(st.segment, mod_field(y)),
        rm_text(b, pos + 2, wide, mod_field(y), rm_field(y)),
    );
    if to_reg && !st.locked {
        line2(reg_mem_reg_op(x), reg, rm)
    } else {
        line2(reg_mem_reg_op(x), rm, reg)
    }
}

// ---- immediate or implied operand with register/memory ----

/// The mnemonic that the leading byte's group and the middle field pick.
pub open spec fn imm_reg_mem_op(x: int, op: int) -> Seq<char> {
    let group = x / 4;
    if group == 0x23 {
        "pop"@
    } else if group == 0x31 {
        "mov"@
    } else if group == 0x20 {
        binary_names()[op]
    } else if group == 0x34 {
        shift_names()[op]
    } else if group == 0x3D {
        group_f6_names()[op]
    } else {
        group_fe_names()[op]
    }
}

/// MOV, and TEST in the 1111011w group, always carry immediate data.
pub open spec fn is_mov_or_test(x: int, op: int) -> bool {
    x / 4 == 0x31 || (x / 4 == 0x3D && op == 0)
}

/// Whether immediate data follows the operand.
pub open spec fn has_data(x: int, op: int) -> bool {
    is_mov_or_test(x, op) || x / 4 == 0x20
}

/// Whether the immediate data is two bytes: by the width bit, and for the arithmetic group
/// only when the sign-extension bit is clear.
pub open spec fn wide_data(x: int, op: int) -> bool {
    (is_mov_or_test(x, op) || (x / 2) % 2 == 0) && x % 2 == 1
}

/// The size keyword of a memory operand.
pub open spec fn unit_text(wide: bool) -> Seq<char> {
    if wide {
        "word"@
    } else {
        "byte"@
    }
}

/// Immediate data, a shift count, or nothing after the register/memory operand.
pub open spec fn imm_reg_mem_text(b: Seq<u8>, pos: int, st: PrefixState) -> Seq<char> {
    let x = b[pos] as int;
    let y = b[pos + 1] as int;
    let op = mid_field(y);
    let wide = x % 2 == 1;
    let name = imm_reg_mem_op(x, op);
    let unit = unit_text(wide);
    let rm = with_segment(
        memory_segment(st.segment, mod_field(y)),
        rm_text(b, pos + 2, wide, mod_field(y), rm_field(y)),
    );
    if has_data(x, op) {
        let data = imm_value(b, pos + 2 + disp_len(mod_field(y), rm_field(y)), wide_data(x, op));
        line2(name, rm, unit + " "@ + int_text(data))
    } else if x / 4 == 0x34 {
        line2(
            name,
            unit + " "@ + rm,
            if (x / 2) % 2 == 0 {
                "1"@
            } else {
                "cl"@
            },
        )
    } else if x == 0xFF && (op == 3 || op == 5) {
        line1(name, unit + " far "@ + rm)
    } else {
        line1(name, unit + " "@ + rm)
    }
}

// ---- accumulator forms ----

/// MOV between the accumulator and a direct address.
pub open spec fn acc_is_mov(x: int) -> bool {
    x / 4 == 0x28
}

/// IN and OUT with a port byte.
pub open spec fn acc_is_in_out(x: int) -> bool {
    x / 4 == 0x39
}

/// Whether the accumulator form takes two bytes of data or address.
pub open spec fn acc_wide_data(x: int) -> bool {
    acc_is_mov(x) || x % 2 == 1
}

/// The mnemonic of an accumulator-form leading byte.
pub open spec fn acc_op(x: int) -> Seq<char> {
    if x / 2 == 0x50 || x / 2 == 0x51 {
        "mov"@
    } else if x / 2 == 0x54 {
        "test"@
    } else if x / 2 == 0x72 {
        "in"@
    } else if x / 2 == 0x73 {
        "out"@
    } else {
        binary_names()[(x / 8) % 8]
    }
}

/// The accumulator at the width of the leading byte.
pub open spec fn acc_text(x: int) -> Seq<char> {
    if x % 2 == 1 {
        "ax"@
    } else {
        "al"@
    }
}

/// Accumulator forms: bit 1 clear puts the accumulator first.
pub open spec fn accumulator_text(b: Seq<u8>, pos: int, st: PrefixState) -> Seq<char> {
    let x = b[pos] as int;
    let data = if acc_is_in_out(x) {
        b[pos + 1] as int
    } else {
        imm_value(b, pos + 1, acc_wide_data(x))
    };
    let data_text = if acc_is_mov(x) {
        with_segment(st.segment, "["@ + int_text(data) + "]"@)
    } else {
        int_text(data)
    };
    if (x / 2) % 2 == 0 {
        line2(acc_op(x), acc_text(x), data_text)
    } else {
        line2(acc_op(x), data_text, acc_text(x))
    }
}

// ---- repeated string operations ----

/// The string operation named by the 3-bit field of the byte after REP.
pub open spec fn string_op_name(op: int) -> Seq<char> {
    if op == 2 {
        "movs"@
    } else if op == 3 {
        "cmps"@
    } else if op == 5 {
        "stos"@
    } else if op == 6 {
        "lods"@
    } else {
        "scas"@
    }
}

/// Whether that field names a string operation.
pub open spec fn is_string_op(op: int) -> bool {
    op == 2 || op == 3 || op == 5 || op == 6 || op == 7
}

// ---- branches ----

/// The mnemonic of a short branch.
pub open spec fn short_branch_op(x: int) -> Seq<char> {
    if x / 4 == 0x3A {
        "jmp"@
    } else if x / 4 == 0x38 {
        loop_names()[x % 4]
    } else {
        cond_jump_names()[x % 16]
    }
}

// ---- single bytes ----

/// The mnemonic of a fixed one-byte instruction, if `x` is one.
pub open spec fn one_byte_name(x: int) -> Option<Seq<char>> {
    if x == 0xD7 {
        Some("xlat"@)
    } else if x == 0x9F {
        Some("lahf"@)
    } else if x == 0x9E {
        Some("sahf"@)
    } else if x == 0x9C {
        Some("pushf"@)
    } else if x == 0x9D {
        Some("popf"@)
    } else if x == 0x37 {
        Some("aaa"@)
    } else if x == 0x27 {
        Some("daa"@)
    } else if x == 0x3F {
        Some("aas"@)
    } else if x == 0x2F {
        Some("das"@)
    } else if x == 0x98 {
        Some("cbw"@)
    } else if x == 0x99 {
        Some("cwd"@)
    } else if x == 0xC3 {
        Some("ret"@)
    } else if x == 0xCB {
        Some("retf"@)
    } else if x == 0xCC {
        Some("int3"@)
    } else if x == 0xCE {
        Some("into"@)
    } else if x == 0xCF {
        Some("iret"@)
    } else if x == 0xF8 {
        Some("clc"@)
    } else if x == 0xF5 {
        Some("cmc"@)
    } else if x == 0xF9 {
        Some("stc"@)
    } else if x == 0xFC {
        Some("cld"@)
    } else if x == 0xFD {
        Some("std"@)
    } else if x == 0xFA {
        Some("cli"@)
    } else if x == 0xFB {
        Some("sti"@)
    } else if x == 0xF4 {
        Some("hlt"@)
    } else if x == 0x9B {
        Some("wait"@)
    } else {
        None
    }
}

/// A fixed one-byte instruction, or a comment with the bit pattern of an unknown byte.
pub open spec fn one_byte_piece(x: int) -> PieceView {
    match one_byte_name(x) {
        Some(t) => text_piece(t + "\n"@),
        None => text_piece("; "@ + bit_pattern(x as u8) + "\n"@),
    }
}

// ---- the whole instruction ----

/// The number of bytes of the instruction at `pos`. Where it depends on a second byte that
/// is missing, the length counts that byte, so that it exceeds what is left.
pub open spec fn instr_len(b: Seq<u8>, pos: int) -> int {
    let x = b[pos] as int;
    let y = if pos + 1 < b.len() {
        b[pos + 1] as int
    } else {
        0
    };
    let has_second = pos + 1 < b.len();
    match family(x) {
        Family::RegMemReg => if has_second {
            2 + disp_len(mod_field(y), rm_field(y))
        } else {
            2
        },
        Family::ImmRegMem => if has_second {
            2 + disp_len(mod_field(y), rm_field(y)) + if has_data(x, mid_field(y)) {
                imm_len(wide_data(x, mid_field(y)))
            } else {
                0
            }
        } else {
            2
        },
        Family::MovImmReg => 1 + imm_len((x / 8) % 2 == 1),
        Family::Accumulator => 1 + if acc_is_in_out(x) {
            1
        } else {
            imm_len(acc_wide_data(x))
        },
        Family::RetImm => 3,
        Family::Interrupt => 2,
        Family::Repeat => 2,
        Family::ShortBranch => 2,
        Family::NearBranch => 3,
        Family::FarBranch => 5,
        Family::AsciiAdjust => 2,
        _ => 1,
    }
}

/// Whether a fixed second byte holds a value that no instruction has.
pub open spec fn bad_second_byte(b: Seq<u8>, pos: int) -> bool {
    let x = b[pos] as int;
    let y = b[pos + 1] as int;
    match family(x) {
        Family::Repeat => !is_string_op((y / 2) % 8),
        Family::AsciiAdjust => y != 0x0A,
        _ => false,
    }
}

/// The text of the instruction at `pos`, all of whose bytes are present, before any pending
/// segment override that it does not use is put in front; none for a prefix, which only
/// modifies the next instruction.
pub open spec fn base_piece(b: Seq<u8>, pos: int, st: PrefixState) -> Option<PieceView> {
    let x = b[pos] as int;
    match family(x) {
        Family::RegMemReg => Some(text_piece(reg_mem_reg_text(b, pos, st))),
        Family::ImmRegMem => Some(text_piece(imm_reg_mem_text(b, pos, st))),
        Family::MovImmReg => Some(
            text_piece(
                line2("mov"@, reg_text((x / 8) % 2 == 1, x % 8), int_text(imm_value(b, pos + 1, (x / 8) % 2 == 1))),
            ),
        ),
        Family::Accumulator => Some(text_piece(accumulator_text(b, pos, st))),
        Family::RegisterOp => Some(
            text_piece(line1(register_op_names()[(x / 8) % 4], reg_text(true, x % 8))),
        ),
        Family::SegmentStack => Some(
            text_piece(line1(stack_names()[x % 2], segment_names()[(x / 8) % 4])),
        ),
        Family::SegmentPrefix => None,
        Family::Lock => None,
        Family::XchgAccumulator => Some(text_piece(line2("xchg"@, "ax"@, reg_text(true, x % 8)))),
        Family::InOutDx => Some(
            text_piece(
                if (x / 2) % 2 == 1 {
                    line2("out"@, "dx"@, acc_text(x))
                } else {
                    line2("in"@, acc_text(x), "dx"@)
                },
            ),
        ),
        Family::RetImm => Some(
            text_piece(
                line1(
                    if (x / 8) % 2 == 1 {
                        "retf"@
                    } else {
                        "ret"@
                    },
                    int_text(le_i16(b, pos + 1)),
                ),
            ),
        ),
        Family::Interrupt => Some(text_piece(line1("int"@, int_text(b[pos + 1] as int)))),
        Family::Repeat => Some(
            text_piece(
                "rep "@ + string_op_name(((b[pos + 1] as int) / 2) % 8) + if b[pos + 1] % 2 == 1 {
                    "w"@
                } else {
                    "b"@
                } + "\n"@,
            ),
        ),
        Family::ShortBranch => Some(
            PieceView {
                head: short_branch_op(x) + " "@,
                target: Some(pos + 2 + signed8(b[pos + 1])),
                tail: " ; "@ + int_text(signed8(b[pos + 1])) + "\n"@,
            },
        ),
        Family::NearBranch => Some(
            PieceView {
                head: call_names()[x % 2] + " "@,
                target: Some(pos + 3 + le_i16(b, pos + 1)),
                tail: " ; "@ + int_text(le_i16(b, pos + 1)) + "\n"@,
            },
        ),
        Family::FarBranch => Some(
            text_piece(
                line1(
                    call_names()[(x / 64) % 2],
                    int_text(le_i16(b, pos + 3)) + ":"@ + int_text(le_i16(b, pos + 1)),
                ),
            ),
        ),
        Family::AsciiAdjust => Some(text_piece(ascii_adjust_names()[x % 2] + "\n"@)),
        Family::OneByte => Some(one_byte_piece(x)),
    }
}

/// One decode step: the bytes an instruction takes and its text.
pub struct Step {
    pub len: int,
    pub piece: Option<PieceView>,
}

/// Decodes the instruction at `pos` (`pos < b.len()`), before any unused segment override
/// is put in front: a stream that ends inside it is truncated; a fixed second byte that no
/// instruction has is an invalid encoding.
#[verifier::opaque]
pub open spec fn base_step(b: Seq<u8>, pos: int, st: PrefixState) -> Result<Step, DecodeError> {
    if pos + instr_len(b, pos) > b.len() {
        Err(DecodeError::TruncatedStream)
    } else if bad_second_byte(b, pos) {
        Err(DecodeError::InvalidEncoding)
    } else {
        Ok(Step { len: instr_len(b, pos), piece: base_piece(b, pos, st) })
    }
}

/// Whether the instruction at `pos` writes a pending segment override on a memory operand
/// of its own.
pub open spec fn uses_segment(b: Seq<u8>, pos: int) -> bool {
    let x = b[pos] as int;
    if family(x) == Family::RegMemReg || family(x) == Family::ImmRegMem {
        pos + 1 < b.len() && mod_field(b[pos + 1] as int) != 3
    } else {
        family(x) == Family::Accumulator && acc_is_mov(x)
    }
}

/// A segment override written as a prefix word in front of an instruction's text.
pub open spec fn with_segment_word(p: PieceView, seg: Option<u8>) -> PieceView {
    match seg {
        Some(s) => PieceView {
            head: segment_names()[s as int] + " "@ + p.head,
            target: p.target,
            tail: p.tail,
        },
        None => p,
    }
}

/// Decodes the instruction at `pos`; a pending segment override that it has no memory
/// operand for is kept as a prefix word, so that its byte is not lost.
pub open spec fn step(b: Seq<u8>, pos: int, st: PrefixState) -> Result<Step, DecodeError> {
    match base_step(b, pos, st) {
        Ok(s) => Ok(
            Step {
                len: s.len,
                piece: match s.piece {
                    Some(p) => Some(
                        with_segment_word(
                            p,
                            if uses_segment(b, pos) {
                                None
                            } else {
                                st.segment
                            },
                        ),
                    ),
                    None => None,
                },
            },
        ),
        Err(e) => Err(e),
    }
}

/// A step that succeeds takes at least one byte and no byte past the end.
pub proof fn lemma_step_len(b: Seq<u8>, pos: int, st: PrefixState)
    requires
        0 <= pos < b.len(),
    ensures
        step(b, pos, st) matches Ok(s) ==> 1 <= s.len && pos + s.len <= b.len() && (s.piece is None
            <==> is_prefix(b[pos] as int)),
{
    reveal(base_step);
}

} // verus!
