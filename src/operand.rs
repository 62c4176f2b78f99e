//! The effective-address decoder: register and memory operands from a mode and an r/m field.
use vstd::prelude::*;
use vstd::string::*;
use crate::cursor::{le_i16, signed8, Cursor, DecodeError};
use crate::tables::{base_name, base_names, reg_name, reg_text, segment_name, segment_names};
use crate::text::{concat3, dec_text, int_string, int_text, push_dec};

verus! {

/// How many displacement bytes follow a mode/r/m pair.
pub open spec fn disp_len(md: int, rm: int) -> int {
    if md == 0 {
        if rm == 6 {
            2
        } else {
            0
        }
    } else if md == 1 {
        1
    } else if md == 2 {
        2
    } else {
        0
    }
}

/// A bracketed memory reference on `base` with a signed displacement.
pub open spec fn memory_text(base: Seq<char>, disp: int) -> Seq<char> {
    if disp > 0 {
        "["@ + base + " + "@ + dec_text(disp as nat) + "]"@
    } else if disp < 0 {
        "["@ + base + " - "@ + dec_text((-disp) as nat) + "]"@
    } else {
        "["@ + base + "]"@
    }
}

/// The operand that a mode/r/m pair denotes, with its displacement bytes at `p`.
pub open spec fn rm_text(b: Seq<u8>, p: int, wide: bool, md: int, rm: int) -> Seq<char> {
    if md == 3 {
        reg_text(wide, rm)
    } else if md == 0 && rm == 6 {
        "["@ + int_text(le_i16(b, p)) + "]"@
    } else if md == 0 {
        memory_text(base_names()[rm], 0)
    } else if md == 1 {
        memory_text(base_names()[rm], signed8(b[p]))
    } else {
        memory_text(base_names()[rm], le_i16(b, p))
    }
}

/// An operand with a pending segment override in front of it.
pub open spec fn with_segment(seg: Option<u8>, t: Seq<char>) -> Seq<char> {
    match seg {
        Some(s) => segment_names()[s as int] + ":"@ + t,
        None => t,
    }
}

/// Renders a memory reference: a zero displacement is left out, a positive one follows
/// ` + `, and a negative one follows ` - ` as its absolute value.
pub fn memory_operand(base: &str, disp: i16) -> (r: String)
    ensures
        r@ == memory_text(base@, disp as int),
        disp == 0 ==> r@ == "["@ + base@ + "]"@,
        disp > 0 ==> r@ == "["@ + base@ + " + "@ + dec_text(disp as nat) + "]"@,
        disp < 0 ==> r@ == "["@ + base@ + " - "@ + dec_text((-disp) as nat) + "]"@,
{
    let mut s = String::from_str("[");
    s.append(base);
    if disp > 0 {
        s.append(" + ");
        push_dec(&mut s, disp as u128);
    } else if disp < 0 {
        s.append(" - ");
        push_dec(&mut s, (0i32 - disp as i32) as u128);
    }
    s.append("]");
    s
}

/// Reads the displacement that a mode/r/m pair calls for and renders the operand.
pub fn disassemble_r_m(cur: &mut Cursor, wide: bool, md: u8, rm: u8) -> (r: Result<
    String,
    DecodeError,
>)
    requires
        old(cur).wf(),
        md < 4,
        rm < 8,
    ensures
        final(cur).wf(),
        final(cur).data() == old(cur).data(),
        old(cur).pos() + disp_len(md as int, rm as int) <= old(cur).data().len() ==> r is Ok
            && r->Ok_0@ == rm_text(old(cur).data(), old(cur).pos(), wide, md as int, rm as int)
            && final(cur).pos() == old(cur).pos() + disp_len(md as int, rm as int),
        old(cur).pos() + disp_len(md as int, rm as int) > old(cur).data().len() ==> r == Err::<
            String,
            DecodeError,
        >(DecodeError::TruncatedStream),
{
    if md == 3 {
        return Ok(String::from_str(reg_name(wide, rm)));
    }
    if md == 0 && rm == 6 {
        return match cur.next_i16(true) {
            Ok(d) => Ok(concat3("[", int_string(d as i128).as_str(), "]")),
            Err(e) => Err(e),
        };
    }
    let disp: i16 = if md == 0 {
        0
    } else {
        match cur.next_i16(md == 2) {
            Ok(d) => d,
            Err(e) => {
                return Err(e);
            },
        }
    };
    Ok(memory_operand(base_name(rm), disp))
}

/// Puts a pending segment override in front of an operand.
pub fn apply_segment(seg: Option<u8>, t: String) -> (r: String)
    requires
        seg matches Some(s) ==> s < 4,
    ensures
        r@ == with_segment(seg, t@),
{
    match seg {
        Some(s) => concat3(segment_name(s), ":", t.as_str()),
        None => t,
    }
}

} // verus!
