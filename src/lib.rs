//! A verified 8086 disassembler: turns machine-code bytes into assembly text that
//! re-assembles to the same bytes.
pub mod cursor;
pub mod decoder;
pub mod emit;
pub mod encoding;
pub mod operand;
pub mod stream;
pub mod tables;
pub mod text;

pub use cursor::{Cursor, DecodeError};
pub use emit::{collect_labels, disassemble, render};
pub use stream::{decode, Instruction};
