//! The instruction builder: reads one instruction through the cursor and renders its text.
use vstd::prelude::*;
use vstd::string::*;
use crate::cursor::{Cursor, DecodeError};
use crate::encoding::{
    acc_op, acc_text, base_step, family, imm_reg_mem_op, is_prefix, is_reg_mem_reg, next_prefix,
    no_prefix, one_byte_name, prefix_text, reg_mem_reg_op, short_branch_op, step, string_op_name,
    text_piece, Family, PieceView, PrefixState, LOCK,
};
use crate::operand::{apply_segment, disassemble_r_m};
use crate::tables::{
    ascii_adjust_name, binary_name, call_name, cond_jump_name, group_f6_name, group_fe_name,
    loop_name, reg_name, register_op_name, segment_name, shift_name, stack_name,
};
use crate::text::{concat2, concat3, int_string, make_line1, make_line2, push_bit_pattern};

verus! {

/// The text of one decoded instruction, split around its branch target if it has one.
pub struct Piece {
    pub head: String,
    pub target: Option<i128>,
    pub tail: String,
}

impl View for Piece {
    type V = PieceView;

    open spec fn view(&self) -> PieceView {
        PieceView {
            head: self.head@,
            target: match self.target {
                Some(t) => Some(t as int),
                None => None,
            },
            tail: self.tail@,
        }
    }
}

/// The view of a piece that may be absent.
pub open spec fn opt_piece_view(p: Option<Piece>) -> Option<PieceView> {
    match p {
        Some(q) => Some(q@),
        None => None,
    }
}

/// What one decode step returned, and where the cursor stopped, agree with `base_step`.
pub open spec fn base_done(
    b: Seq<u8>,
    pos: int,
    st: PrefixState,
    r: Result<Option<Piece>, DecodeError>,
    end: int,
) -> bool {
    match base_step(b, pos, st) {
        Ok(s) => r is Ok && opt_piece_view(r->Ok_0) == s.piece && end == pos + s.len,
        Err(e) => r == Err::<Option<Piece>, DecodeError>(e),
    }
}

/// What one decode step returned, and where the cursor stopped, agree with `step`.
pub open spec fn step_done(
    b: Seq<u8>,
    pos: int,
    st: PrefixState,
    r: Result<Option<Piece>, DecodeError>,
    end: int,
) -> bool {
    match step(b, pos, st) {
        Ok(s) => r is Ok && opt_piece_view(r->Ok_0) == s.piece && end == pos + s.len,
        Err(e) => r == Err::<Option<Piece>, DecodeError>(e),
    }
}

/// A piece of text with no branch target in it.
fn text_only(t: String) -> (r: Piece)
    ensures
        r@ == text_piece(t@),
{
    Piece { head: t, target: None, tail: String::new() }
}

/// The instruction family of a leading byte.
pub fn classify(x: u8) -> (r: Family)
    ensures
        r == family(x as int),
{
    if (x < 0x40 && x % 8 < 4) || (0x84 <= x && x <= 0x8B) || x == 0x8D || x == 0xC4 || x == 0xC5 {
        Family::RegMemReg
    } else if (0x80 <= x && x <= 0x83) || x == 0x8F || x == 0xC6 || x == 0xC7 || (0xD0 <= x && x
        <= 0xD3) || x == 0xF6 || x == 0xF7 || x == 0xFE || x == 0xFF {
        Family::ImmRegMem
    } else if 0xB0 <= x && x <= 0xBF {
        Family::MovImmReg
    } else if (x < 0x40 && (x % 8 == 4 || x % 8 == 5)) || (0xA0 <= x && x <= 0xA3) || x == 0xA8
        || x == 0xA9 || (0xE4 <= x && x <= 0xE7) {
        Family::Accumulator
    } else if 0x40 <= x && x <= 0x5F {
        Family::RegisterOp
    } else if x < 0x20 && (x % 8 == 6 || x % 8 == 7) {
        Family::SegmentStack
    } else if x == 0x26 || x == 0x2E || x == 0x36 || x == 0x3E {
        Family::SegmentPrefix
    } else if 0x90 <= x && x <= 0x97 {
        Family::XchgAccumulator
    } else if 0xEC <= x && x <= 0xEF {
        Family::InOutDx
    } else if x == 0xC2 || x == 0xCA {
        Family::RetImm
    } else if x == 0xCD {
        Family::Interrupt
    } else if x == 0xF3 {
        Family::Repeat
    } else if x == 0xEB || (0xE0 <= x && x <= 0xE3) || (0x70 <= x && x <= 0x7F) {
        Family::ShortBranch
    } else if x == 0xE8 || x == 0xE9 {
        Family::NearBranch
    } else if x == 0x9A || x == 0xEA {
        Family::FarBranch
    } else if x == 0xD4 || x == 0xD5 {
        Family::AsciiAdjust
    } else if x == LOCK {
        Family::Lock
    } else {
        Family::OneByte
    }
}

/// The prefix state that the instruction with leading byte `x` leaves behind.
pub fn advance_prefix(x: u8, st: PrefixState) -> (r: PrefixState)
    requires
        st.wf(),
    ensures
        r == next_prefix(x as int, st),
        r.wf(),
        !is_prefix(x as int) ==> r == no_prefix(),
{
    if x == 0x26 || x == 0x2E || x == 0x36 || x == 0x3E {
        PrefixState { segment: Some((x / 8) % 4), locked: st.locked }
    } else if x == LOCK {
        PrefixState { segment: st.segment, locked: true }
    } else {
        PrefixState { segment: None, locked: false }
    }
}

/// The text that the prefix byte `x` adds in front of the instruction it prefixes.
pub fn prefix_words(x: u8, st: PrefixState) -> (r: String)
    requires
        st.wf(),
        is_prefix(x as int),
    ensures
        r@ == prefix_text(x as int, st),
{
    if x == LOCK {
        String::from_str("lock ")
    } else {
        match st.segment {
            Some(s) => concat2(segment_name(s), " "),
            None => String::new(),
        }
    }
}

/// The mnemonic of a register/memory-with-register leading byte.
fn reg_mem_reg_mnemonic(x: u8) -> (r: &'static str)
    requires
        is_reg_mem_reg(x as int),
    ensures
        r@ == reg_mem_reg_op(x as int),
{
    if x == 0x8D {
        "lea"
    } else if x == 0xC4 {
        "les"
    } else if x == 0xC5 {
        "lds"
    } else if x == 0x84 || x == 0x85 {
        "test"
    } else if x == 0x86 || x == 0x87 {
        "xchg"
    } else if 0x88 <= x && x <= 0x8B {
        "mov"
    } else {
        binary_name((x / 8) % 8)
    }
}

/// The mnemonic that the leading byte's group and the middle field pick.
fn imm_reg_mem_mnemonic(x: u8, op: u8) -> (r: &'static str)
    requires
        op < 8,
    ensures
        r@ == imm_reg_mem_op(x as int, op as int),
{
    let group = x / 4;
    if group == 0x23 {
        "pop"
    } else if group == 0x31 {
        "mov"
    } else if group == 0x20 {
        binary_name(op)
    } else if group == 0x34 {
        shift_name(op)
    } else if group == 0x3D {
        group_f6_name(op)
    } else {
        group_fe_name(op)
    }
}

/// The mnemonic of an accumulator-form leading byte.
fn acc_mnemonic(x: u8) -> (r: &'static str)
    ensures
        r@ == acc_op(x as int),
{
    if x / 2 == 0x50 || x / 2 == 0x51 {
        "mov"
    } else if x / 2 == 0x54 {
        "test"
    } else if x / 2 == 0x72 {
        "in"
    } else if x / 2 == 0x73 {
        "out"
    } else {
        binary_name((x / 8) % 8)
    }
}

/// The accumulator at the width of the leading byte.
fn acc_register(x: u8) -> (r: &'static str)
    ensures
        r@ == acc_text(x as int),
{
    if x % 2 == 1 {
        "ax"
    } else {
        "al"
    }
}

/// The string operation named by the 3-bit field of the byte after REP.
fn string_op_mnemonic(op: u8) -> (r: &'static str)
    ensures
        r@ == string_op_name(op as int),
{
    if op == 2 {
        "movs"
    } else if op == 3 {
        "cmps"
    } else if op == 5 {
        "stos"
    } else if op == 6 {
        "lods"
    } else {
        "scas"
    }
}

/// The mnemonic of a short branch.
fn short_branch_mnemonic(x: u8) -> (r: &'static str)
    ensures
        r@ == short_branch_op(x as int),
{
    if x / 4 == 0x3A {
        "jmp"
    } else if x / 4 == 0x38 {
        loop_name(x % 4)
    } else {
        cond_jump_name(x % 16)
    }
}

/// The mnemonic of a fixed one-byte instruction, if `x` is one.
fn one_byte_mnemonic(x: u8) -> (r: Option<&'static str>)
    ensures
        match one_byte_name(x as int) {
            Some(t) => r is Some && r->Some_0@ == t,
            None => r is None,
        },
{
    if x == 0xD7 {
        Some("xlat")
    } else if x == 0x9F {
        Some("lahf")
    } else if x == 0x9E {
        Some("sahf")
    } else if x == 0x9C {
        Some("pushf")
    } else if x == 0x9D {
        Some("popf")
    } else if x == 0x37 {
        Some("aaa")
    } else if x == 0x27 {
        Some("daa")
    } else if x == 0x3F {
        Some("aas")
    } else if x == 0x2F {
        Some("das")
    } else if x == 0x98 {
        Some("cbw")
    } else if x == 0x99 {
        Some("cwd")
    } else if x == 0xC3 {
        Some("ret")
    } else if x == 0xCB {
        Some("retf")
    } else if x == 0xCC {
        Some("int3")
    } else if x == 0xCE {
        Some("into")
    } else if x == 0xCF {
        Some("iret")
    } else if x == 0xF8 {
        Some("clc")
    } else if x == 0xF5 {
        Some("cmc")
    } else if x == 0xF9 {
        Some("stc")
    } else if x == 0xFC {
        Some("cld")
    } else if x == 0xFD {
        Some("std")
    } else if x == 0xFA {
        Some("cli")
    } else if x == 0xFB {
        Some("sti")
    } else if x == 0xF4 {
        Some("hlt")
    } else if x == 0x9B {
        Some("wait")
    } else {
        None
    }
}

/// Register/memory with register: the direction bit orders the operands, except after LOCK.
fn decode_reg_mem_reg(cur: &mut Cursor, x: u8, st: PrefixState) -> (r: Result<Option<Piece>, DecodeError>)
    requires
        old(cur).wf(),
        1 <= old(cur).pos(),
        old(cur).data()[old(cur).pos() - 1] == x,
        family(x as int) == Family::RegMemReg,
        st.wf(),
    ensures
        final(cur).wf(),
        final(cur).data() == old(cur).data(),
        base_done(old(cur).data(), old(cur).pos() - 1, st, r, final(cur).pos()),
{
    proof {
        reveal(base_step);
    }
    let y = match cur.next_u8() {
        Ok(v) => v,
        Err(e) => {
            return Err(e);
        },
    };
    let special = x == 0x8D || x == 0xC4 || x == 0xC5;
    let to_reg = special || (x / 2) % 2 == 1;
    let wide = special || x % 2 == 1;
    let reg = reg_name(wide, (y / 8) % 8);
    let rm = match disassemble_r_m(cur, wide, y / 64, y % 8) {
        Ok(t) => t,
        Err(e) => {
            return Err(e);
        },
    };
    let rm = apply_segment(
        if y / 64 == 3 {
            None
        } else {
            st.segment
        },
        rm,
    );
    let op = reg_mem_reg_mnemonic(x);
    let text = if to_reg && !st.locked {
        make_line2(op, reg, rm.as_str())
    } else {
        make_line2(op, rm.as_str(), reg)
    };
    Ok(Some(text_only(text)))
}

/// Immediate or implied operand with register/memory; the second byte picks the mnemonic.
fn decode_imm_reg_mem(cur: &mut Cursor, x: u8, st: PrefixState) -> (r: Result<Option<Piece>, DecodeError>)
    requires
        old(cur).wf(),
        1 <= old(cur).pos(),
        old(cur).data()[old(cur).pos() - 1] == x,
        family(x as int) == Family::ImmRegMem,
        st.wf(),
    ensures
        final(cur).wf(),
        final(cur).data() == old(cur).data(),
        base_done(old(cur).data(), old(cur).pos() - 1, st, r, final(cur).pos()),
{
    proof {
        reveal(base_step);
    }
    let y = match cur.next_u8() {
        Ok(v) => v,
        Err(e) => {
            return Err(e);
        },
    };
    let op = (y / 8) % 8;
    let wide = x % 2 == 1;
    let name = imm_reg_mem_mnemonic(x, op);
    let unit = if wide {
        "word"
    } else {
        "byte"
    };
    let rm = match disassemble_r_m(cur, wide, y / 64, y % 8) {
        Ok(t) => t,
        Err(e) => {
            return Err(e);
        },
    };
    let rm = apply_segment(
        if y / 64 == 3 {
            None
        } else {
            st.segment
        },
        rm,
    );
    let mov_or_test = x / 4 == 0x31 || (x / 4 == 0x3D && op == 0);
    let text = if mov_or_test || x / 4 == 0x20 {
        let data = match cur.next_i16((mov_or_test || (x / 2) % 2 == 0) && wide) {
            Ok(d) => d,
            Err(e) => {
                return Err(e);
            },
        };
        let value = int_string(data as i128);
        let operand = concat3(unit, " ", value.as_str());
        make_line2(name, rm.as_str(), operand.as_str())
    } else if x / 4 == 0x34 {
        let count = if (x / 2) % 2 == 0 {
            "1"
        } else {
            "cl"
        };
        let operand = concat3(unit, " ", rm.as_str());
        make_line2(name, operand.as_str(), count)
    } else if x == 0xFF && (op == 3 || op == 5) {
        let operand = concat3(unit, " far ", rm.as_str());
        make_line1(name, operand.as_str())
    } else {
        let operand = concat3(unit, " ", rm.as_str());
        make_line1(name, operand.as_str())
    };
    Ok(Some(text_only(text)))
}

/// MOV of an immediate to a register named in the leading byte.
fn decode_mov_imm_reg(cur: &mut Cursor, x: u8, st: PrefixState) -> (r: Result<Option<Piece>, DecodeError>)
    requires
        old(cur).wf(),
        1 <= old(cur).pos(),
        old(cur).data()[old(cur).pos() - 1] == x,
        family(x as int) == Family::MovImmReg,
        st.wf(),
    ensures
        final(cur).wf(),
        final(cur).data() == old(cur).data(),
        base_done(old(cur).data(), old(cur).pos() - 1, st, r, final(cur).pos()),
{
    proof {
        reveal(base_step);
    }
    let wide = (x / 8) % 2 == 1;
    let data = match cur.next_i16(wide) {
        Ok(d) => d,
        Err(e) => {
            return Err(e);
        },
    };
    let value = int_string(data as i128);
    Ok(Some(text_only(make_line2("mov", reg_name(wide, x % 8), value.as_str()))))
}

/// Accumulator forms: IN and OUT take an unsigned port byte, MOV a bracketed address.
fn decode_accumulator(cur: &mut Cursor, x: u8, st: PrefixState) -> (r: Result<Option<Piece>, DecodeError>)
    requires
        old(cur).wf(),
        1 <= old(cur).pos(),
        old(cur).data()[old(cur).pos() - 1] == x,
        family(x as int) == Family::Accumulator,
        st.wf(),
    ensures
        final(cur).wf(),
        final(cur).data() == old(cur).data(),
        base_done(old(cur).data(), old(cur).pos() - 1, st, r, final(cur).pos()),
{
    proof {
        reveal(base_step);
    }
    let in_out = x / 4 == 0x39;
    let mov = x / 4 == 0x28;
    let data: i128 = if in_out {
        match cur.next_u8() {
            Ok(v) => v as i128,
            Err(e) => {
                return Err(e);
            },
        }
    } else {
        match cur.next_i16(mov || x % 2 == 1) {
            Ok(v) => v as i128,
            Err(e) => {
                return Err(e);
            },
        }
    };
    let value = int_string(data);
    let data_text = if mov {
        apply_segment(st.segment, concat3("[", value.as_str(), "]"))
    } else {
        value
    };
    let name = acc_mnemonic(x);
    let acc = acc_register(x);
    let text = if (x / 2) % 2 == 0 {
        make_line2(name, acc, data_text.as_str())
    } else {
        make_line2(name, data_text.as_str(), acc)
    };
    Ok(Some(text_only(text)))
}

/// REP together with the string operation it repeats.
fn decode_repeat(cur: &mut Cursor, x: u8, st: PrefixState) -> (r: Result<Option<Piece>, DecodeError>)
    requires
        old(cur).wf(),
        1 <= old(cur).pos(),
        old(cur).data()[old(cur).pos() - 1] == x,
        family(x as int) == Family::Repeat,
        st.wf(),
    ensures
        final(cur).wf(),
        final(cur).data() == old(cur).data(),
        base_done(old(cur).data(), old(cur).pos() - 1, st, r, final(cur).pos()),
{
    proof {
        reveal(base_step);
    }
    let y = match cur.next_u8() {
        Ok(v) => v,
        Err(e) => {
            return Err(e);
        },
    };
    let op = (y / 2) % 8;
    if !(op == 2 || op == 3 || op == 5 || op == 6 || op == 7) {
        return Err(DecodeError::InvalidEncoding);
    }
    let mut s = String::from_str("rep ");
    s.append(string_op_mnemonic(op));
    s.append(
        if y % 2 == 1 {
            "w"
        } else {
            "b"
        },
    );
    s.append("\n");
    Ok(Some(text_only(s)))
}

/// A branch with an 8-bit displacement from the end of its two bytes.
fn decode_short_branch(cur: &mut Cursor, x: u8, st: PrefixState) -> (r: Result<Option<Piece>, DecodeError>)
    requires
        old(cur).wf(),
        1 <= old(cur).pos(),
        old(cur).data()[old(cur).pos() - 1] == x,
        family(x as int) == Family::ShortBranch,
        st.wf(),
    ensures
        final(cur).wf(),
        final(cur).data() == old(cur).data(),
        base_done(old(cur).data(), old(cur).pos() - 1, st, r, final(cur).pos()),
{
    proof {
        reveal(base_step);
    }
    let d = match cur.next_i8() {
        Ok(v) => v,
        Err(e) => {
            return Err(e);
        },
    };
    let target = cur.position() as i128 + d as i128;
    let disp = int_string(d as i128);
    Ok(
        Some(
            Piece {
                head: concat2(short_branch_mnemonic(x), " "),
                target: Some(target),
                tail: concat3(" ; ", disp.as_str(), "\n"),
            },
        ),
    )
}

/// CALL or JMP with a 16-bit displacement from the end of its three bytes.
fn decode_near_branch(cur: &mut Cursor, x: u8, st: PrefixState) -> (r: Result<Option<Piece>, DecodeError>)
    requires
        old(cur).wf(),
        1 <= old(cur).pos(),
        old(cur).data()[old(cur).pos() - 1] == x,
        family(x as int) == Family::NearBranch,
        st.wf(),
    ensures
        final(cur).wf(),
        final(cur).data() == old(cur).data(),
        base_done(old(cur).data(), old(cur).pos() - 1, st, r, final(cur).pos()),
{
    proof {
        reveal(base_step);
    }
    let d = match cur.next_i16(true) {
        Ok(v) => v,
        Err(e) => {
            return Err(e);
        },
    };
    let target = cur.position() as i128 + d as i128;
    let disp = int_string(d as i128);
    Ok(
        Some(
            Piece {
                head: concat2(call_name(x % 2), " "),
                target: Some(target),
                tail: concat3(" ; ", disp.as_str(), "\n"),
            },
        ),
    )
}

/// CALL or JMP to an absolute segment:offset; no label is involved.
fn decode_far_branch(cur: &mut Cursor, x: u8, st: PrefixState) -> (r: Result<Option<Piece>, DecodeError>)
    requires
        old(cur).wf(),
        1 <= old(cur).pos(),
        old(cur).data()[old(cur).pos() - 1] == x,
        family(x as int) == Family::FarBranch,
        st.wf(),
    ensures
        final(cur).wf(),
        final(cur).data() == old(cur).data(),
        base_done(old(cur).data(), old(cur).pos() - 1, st, r, final(cur).pos()),
{
    proof {
        reveal(base_step);
    }
    let ip = match cur.next_i16(true) {
        Ok(v) => v,
        Err(e) => {
            return Err(e);
        },
    };
    let cs = match cur.next_i16(true) {
        Ok(v) => v,
        Err(e) => {
            return Err(e);
        },
    };
    let cs_text = int_string(cs as i128);
    let ip_text = int_string(ip as i128);
    let address = concat3(cs_text.as_str(), ":", ip_text.as_str());
    Ok(Some(text_only(make_line1(call_name((x / 64) % 2), address.as_str()))))
}

/// AAM or AAD, whose second byte must be 00001010.
fn decode_ascii_adjust(cur: &mut Cursor, x: u8, st: PrefixState) -> (r: Result<Option<Piece>, DecodeError>)
    requires
        old(cur).wf(),
        1 <= old(cur).pos(),
        old(cur).data()[old(cur).pos() - 1] == x,
        family(x as int) == Family::AsciiAdjust,
        st.wf(),
    ensures
        final(cur).wf(),
        final(cur).data() == old(cur).data(),
        base_done(old(cur).data(), old(cur).pos() - 1, st, r, final(cur).pos()),
{
    proof {
        reveal(base_step);
    }
    let y = match cur.next_u8() {
        Ok(v) => v,
        Err(e) => {
            return Err(e);
        },
    };
    if y != 0x0A {
        return Err(DecodeError::InvalidEncoding);
    }
    Ok(Some(text_only(concat2(ascii_adjust_name(x % 2), "\n"))))
}

/// RET or RETF with a 16-bit stack adjustment.
fn decode_ret_imm(cur: &mut Cursor, x: u8, st: PrefixState) -> (r: Result<Option<Piece>, DecodeError>)
    requires
        old(cur).wf(),
        1 <= old(cur).pos(),
        old(cur).data()[old(cur).pos() - 1] == x,
        family(x as int) == Family::RetImm,
        st.wf(),
    ensures
        final(cur).wf(),
        final(cur).data() == old(cur).data(),
        base_done(old(cur).data(), old(cur).pos() - 1, st, r, final(cur).pos()),
{
    proof {
        reveal(base_step);
    }
    let d = match cur.next_i16(true) {
        Ok(v) => v,
        Err(e) => {
            return Err(e);
        },
    };
    let name = if (x / 8) % 2 == 1 {
        "retf"
    } else {
        "ret"
    };
    let value = int_string(d as i128);
    Ok(Some(text_only(make_line1(name, value.as_str()))))
}

/// INT with an unsigned interrupt number.
fn decode_interrupt(cur: &mut Cursor, x: u8, st: PrefixState) -> (r: Result<Option<Piece>, DecodeError>)
    requires
        old(cur).wf(),
        1 <= old(cur).pos(),
        old(cur).data()[old(cur).pos() - 1] == x,
        family(x as int) == Family::Interrupt,
        st.wf(),
    ensures
        final(cur).wf(),
        final(cur).data() == old(cur).data(),
        base_done(old(cur).data(), old(cur).pos() - 1, st, r, final(cur).pos()),
{
    proof {
        reveal(base_step);
    }
    let n = match cur.next_u8() {
        Ok(v) => v,
        Err(e) => {
            return Err(e);
        },
    };
    let value = int_string(n as i128);
    Ok(Some(text_only(make_line1("int", value.as_str()))))
}

/// The instructions that are one byte long, with their family.
fn decode_single(cur: &mut Cursor, x: u8, st: PrefixState) -> (r: Result<Option<Piece>, DecodeError>)
    requires
        old(cur).wf(),
        1 <= old(cur).pos(),
        old(cur).data()[old(cur).pos() - 1] == x,
        family(x as int) == Family::RegisterOp || family(x as int) == Family::SegmentStack
            || family(x as int) == Family::SegmentPrefix || family(x as int) == Family::Lock
            || family(x as int)
            == Family::XchgAccumulator || family(x as int) == Family::InOutDx || family(x as int)
            == Family::OneByte,
        st.wf(),
    ensures
        final(cur).wf(),
        final(cur).data() == old(cur).data(),
        base_done(old(cur).data(), old(cur).pos() - 1, st, r, final(cur).pos()),
{
    proof {
        reveal(base_step);
    }
    let f = classify(x);
    let text = match f {
        Family::RegisterOp => make_line1(register_op_name((x / 8) % 4), reg_name(true, x % 8)),
        Family::SegmentStack => make_line1(stack_name(x % 2), segment_name((x / 8) % 4)),
        Family::SegmentPrefix | Family::Lock => {
            return Ok(None);
        },
        Family::XchgAccumulator => make_line2("xchg", "ax", reg_name(true, x % 8)),
        Family::InOutDx => {
            if (x / 2) % 2 == 1 {
                make_line2("out", "dx", acc_register(x))
            } else {
                make_line2("in", acc_register(x), "dx")
            }
        },
        _ => {
            match one_byte_mnemonic(x) {
                Some(t) => concat2(t, "\n"),
                None => {
                    let mut s = String::from_str("; ");
                    push_bit_pattern(&mut s, x);
                    s.append("\n");
                    s
                },
            }
        },
    };
    Ok(Some(text_only(text)))
}

/// Decodes the instruction whose leading byte `x` the cursor has just read.
pub fn decode_instruction(cur: &mut Cursor, x: u8, st: PrefixState) -> (r: Result<
    Option<Piece>,
    DecodeError,
>)
    requires
        old(cur).wf(),
        1 <= old(cur).pos(),
        old(cur).data()[old(cur).pos() - 1] == x,
        st.wf(),
    ensures
        final(cur).wf(),
        final(cur).data() == old(cur).data(),
        step_done(old(cur).data(), old(cur).pos() - 1, st, r, final(cur).pos()),
{
    let f = classify(x);
    let uses_segment = match f {
        Family::RegMemReg | Family::ImmRegMem => match cur.peek() {
            Some(y) => y / 64 != 3,
            None => false,
        },
        Family::Accumulator => x / 4 == 0x28,
        _ => false,
    };
    let r = match f {
        Family::RegMemReg => decode_reg_mem_reg(cur, x, st),
        Family::ImmRegMem => decode_imm_reg_mem(cur, x, st),
        Family::MovImmReg => decode_mov_imm_reg(cur, x, st),
        Family::Accumulator => decode_accumulator(cur, x, st),
        Family::RetImm => decode_ret_imm(cur, x, st),
        Family::Interrupt => decode_interrupt(cur, x, st),
        Family::Repeat => decode_repeat(cur, x, st),
        Family::ShortBranch => decode_short_branch(cur, x, st),
        Family::NearBranch => decode_near_branch(cur, x, st),
        Family::FarBranch => decode_far_branch(cur, x, st),
        Family::AsciiAdjust => decode_ascii_adjust(cur, x, st),
        _ => decode_single(cur, x, st),
    };
    match r {
        Ok(Some(p)) => {
            if uses_segment {
                Ok(Some(p))
            } else {
                match st.segment {
                    Some(s) => Ok(
                        Some(
                            Piece {
                                head: concat3(segment_name(s), " ", p.head.as_str()),
                                target: p.target,
                                tail: p.tail,
                            },
                        ),
                    ),
                    None => Ok(Some(p)),
                }
            }
        },
        other => other,
    }
}

} // verus!
