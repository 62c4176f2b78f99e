//! Register, addressing and mnemonic names, each as a spec table and an executable lookup.
use vstd::prelude::*;

verus! {

pub open spec fn byte_reg_names() -> Seq<Seq<char>> {
    seq!["al"@, "cl"@, "dl"@, "bl"@, "ah"@, "ch"@, "dh"@, "bh"@]
}

pub open spec fn word_reg_names() -> Seq<Seq<char>> {
    seq!["ax"@, "cx"@, "dx"@, "bx"@, "sp"@, "bp"@, "si"@, "di"@]
}

/// The register named by a 3-bit field at byte (`wide == false`) or word width.
pub open spec fn reg_text(wide: bool, r: int) -> Seq<char> {
    if wide {
        word_reg_names()[r]
    } else {
        byte_reg_names()[r]
    }
}

/// The base registers that an r/m field selects in a memory operand.
pub open spec fn base_names() -> Seq<Seq<char>> {
    seq!["bx + si"@, "bx + di"@, "bp + si"@, "bp + di"@, "si"@, "di"@, "bp"@, "bx"@]
}

pub open spec fn segment_names() -> Seq<Seq<char>> {
    seq!["es"@, "cs"@, "ss"@, "ds"@]
}

pub open spec fn binary_names() -> Seq<Seq<char>> {
    seq!["add"@, "or"@, "adc"@, "sbb"@, "and"@, "sub"@, "xor"@, "cmp"@]
}

/// Shift and rotate mnemonics; index 6 is not used by the processor.
pub open spec fn shift_names() -> Seq<Seq<char>> {
    seq!["rol"@, "ror"@, "rcl"@, "rcr"@, "shl"@, "shr"@, "N/A"@, "sar"@]
}

/// Mnemonics of the group with leading byte 1111011w; index 1 is not used.
pub open spec fn group_f6_names() -> Seq<Seq<char>> {
    seq!["test"@, "N/A"@, "not"@, "neg"@, "mul"@, "imul"@, "div"@, "idiv"@]
}

/// Mnemonics of the group with leading byte 1111111w; index 7 is not used.
pub open spec fn group_fe_names() -> Seq<Seq<char>> {
    seq!["inc"@, "dec"@, "call"@, "call"@, "jmp"@, "jmp"@, "push"@, "N/A"@]
}

pub open spec fn register_op_names() -> Seq<Seq<char>> {
    seq!["inc"@, "dec"@, "push"@, "pop"@]
}

pub open spec fn stack_names() -> Seq<Seq<char>> {
    seq!["push"@, "pop"@]
}

pub open spec fn call_names() -> Seq<Seq<char>> {
    seq!["call"@, "jmp"@]
}

pub open spec fn ascii_adjust_names() -> Seq<Seq<char>> {
    seq!["aam"@, "aad"@]
}

pub open spec fn loop_names() -> Seq<Seq<char>> {
    seq!["loopnz"@, "loopz"@, "loop"@, "jcxz"@]
}

pub open spec fn cond_jump_names() -> Seq<Seq<char>> {
    seq![
        "jo"@, "jno"@, "jb"@, "jnb"@, "je"@, "jne"@, "jbe"@, "jnbe"@,
        "js"@, "jns"@, "jp"@, "jnp"@, "jl"@, "jnl"@, "jle"@, "jnle"@,
    ]
}

/// The register named by a 3-bit field at the given width.
pub fn reg_name(wide: bool, r: u8) -> (s: &'static str)
    requires
        r < 8,
    ensures
        s@ == reg_text(wide, r as int),
{
    if wide {
        let names: [&'static str; 8] = ["ax", "cx", "dx", "bx", "sp", "bp", "si", "di"];
        names[r as usize]
    } else {
        let names: [&'static str; 8] = ["al", "cl", "dl", "bl", "ah", "ch", "dh", "bh"];
        names[r as usize]
    }
}

/// The base registers of a memory operand.
pub fn base_name(r: u8) -> (s: &'static str)
    requires
        r < 8,
    ensures
        s@ == base_names()[r as int],
{
    let names: [&'static str; 8] = ["bx + si", "bx + di", "bp + si", "bp + di", "si", "di", "bp", "bx"];
    names[r as usize]
}

pub fn segment_name(i: u8) -> (s: &'static str)
    requires
        i < 4,
    ensures
        s@ == segment_names()[i as int],
{
    let names: [&'static str; 4] = ["es", "cs", "ss", "ds"];
    names[i as usize]
}

pub fn binary_name(i: u8) -> (s: &'static str)
    requires
        i < 8,
    ensures
        s@ == binary_names()[i as int],
{
    let names: [&'static str; 8] = ["add", "or", "adc", "sbb", "and", "sub", "xor", "cmp"];
    names[i as usize]
}

pub fn shift_name(i: u8) -> (s: &'static str)
    requires
        i < 8,
    ensures
        s@ == shift_names()[i as int],
{
    let names: [&'static str; 8] = ["rol", "ror", "rcl", "rcr", "shl", "shr", "N/A", "sar"];
    names[i as usize]
}

pub fn group_f6_name(i: u8) -> (s: &'static str)
    requires
        i < 8,
    ensures
        s@ == group_f6_names()[i as int],
{
    let names: [&'static str; 8] = ["test", "N/A", "not", "neg", "mul", "imul", "div", "idiv"];
    names[i as usize]
}

pub fn group_fe_name(i: u8) -> (s: &'static str)
    requires
        i < 8,
    ensures
        s@ == group_fe_names()[i as int],
{
    let names: [&'static str; 8] = ["inc", "dec", "call", "call", "jmp", "jmp", "push", "N/A"];
    names[i as usize]
}

pub fn register_op_name(i: u8) -> (s: &'static str)
    requires
        i < 4,
    ensures
        s@ == register_op_names()[i as int],
{
    let names: [&'static str; 4] = ["inc", "dec", "push", "pop"];
    names[i as usize]
}

pub fn stack_name(i: u8) -> (s: &'static str)
    requires
        i < 2,
    ensures
        s@ == stack_names()[i as int],
{
    let names: [&'static str; 2] = ["push", "pop"];
    names[i as usize]
}

pub fn call_name(i: u8) -> (s: &'static str)
    requires
        i < 2,
    ensures
        s@ == call_names()[i as int],
{
    let names: [&'static str; 2] = ["call", "jmp"];
    names[i as usize]
}

pub fn ascii_adjust_name(i: u8) -> (s: &'static str)
    requires
        i < 2,
    ensures
        s@ == ascii_adjust_names()[i as int],
{
    let names: [&'static str; 2] = ["aam", "aad"];
    names[i as usize]
}

pub fn loop_name(i: u8) -> (s: &'static str)
    requires
        i < 4,
    ensures
        s@ == loop_names()[i as int],
{
    let names: [&'static str; 4] = ["loopnz", "loopz", "loop", "jcxz"];
    names[i as usize]
}

pub fn cond_jump_name(i: u8) -> (s: &'static str)
    requires
        i < 16,
    ensures
        s@ == cond_jump_names()[i as int],
{
    let names: [&'static str; 16] = [
        "jo", "jno", "jb", "jnb", "je", "jne", "jbe", "jnbe",
        "js", "jns", "jp", "jnp", "jl", "jnl", "jle", "jnle",
    ];
    names[i as usize]
}

} // verus!
