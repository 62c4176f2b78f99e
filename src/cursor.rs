//! Forward-only reading of the byte stream.
use vstd::prelude::*;

verus! {

/// Why a byte stream cannot be decoded.
#[derive(Debug, Clone, Copy, PartialEq, Eq, Structural)]
pub enum DecodeError {
    /// An instruction needs a byte past the end of the stream.
    TruncatedStream,
    /// A byte that must hold a fixed value holds another.
    InvalidEncoding,
}

/// A byte read as a two's-complement signed value.
pub open spec fn signed8(x: u8) -> int {
    if x >= 128 {
        x - 256
    } else {
        x as int
    }
}

/// The little-endian two's-complement signed 16-bit value at `p`.
pub open spec fn le_i16(b: Seq<u8>, p: int) -> int {
    let u = b[p] + 256 * b[p + 1];
    if u >= 32768 {
        u - 65536
    } else {
        u
    }
}

/// An immediate operand at `p`: two bytes when `wide`, else one byte sign-extended.
pub open spec fn imm_value(b: Seq<u8>, p: int, wide: bool) -> int {
    if wide {
        le_i16(b, p)
    } else {
        signed8(b[p])
    }
}

/// The number of bytes an immediate operand takes.
pub open spec fn imm_len(wide: bool) -> int {
    if wide {
        2
    } else {
        1
    }
}

/// A position in a byte stream; reads only ever move it forward.
pub struct Cursor<'a> {
    bytes: &'a [u8],
    pos: usize,
}

impl<'a> Cursor<'a> {
    /// The bytes being read.
    pub closed spec fn data(&self) -> Seq<u8> {
        self.bytes@
    }

    /// The position of the next byte to read.
    pub closed spec fn pos(&self) -> int {
        self.pos as int
    }

    /// The position never passes the end of the bytes.
    pub open spec fn wf(&self) -> bool {
        0 <= self.pos() <= self.data().len()
    }

    /// Starts reading at the first byte.
    pub fn new(bytes: &'a [u8]) -> (r: Self)
        ensures
            r.wf(),
            r.data() == bytes@,
            r.pos() == 0,
    {
        Cursor { bytes, pos: 0 }
    }

    /// The position of the next byte to read.
    pub fn position(&self) -> (r: usize)
        requires
            self.wf(),
        ensures
            r == self.pos(),
            r <= self.data().len(),
    {
        self.pos
    }

    /// Whether every byte has been read.
    pub fn at_end(&self) -> (r: bool)
        requires
            self.wf(),
        ensures
            r == (self.pos() == self.data().len()),
    {
        self.pos == self.bytes.len()
    }

    /// The next byte, without reading it.
    pub fn peek(&self) -> (r: Option<u8>)
        requires
            self.wf(),
        ensures
            self.pos() < self.data().len() ==> r == Some(self.data()[self.pos()]),
            self.pos() >= self.data().len() ==> r is None,
    {
        if self.pos < self.bytes.len() {
            Some(self.bytes[self.pos])
        } else {
            None
        }
    }

    /// Reads one byte.
    pub fn next_u8(&mut self) -> (r: Result<u8, DecodeError>)
        requires
            old(self).wf(),
        ensures
            final(self).wf(),
            final(self).data() == old(self).data(),
            old(self).pos() < old(self).data().len() ==> r == Ok::<u8, DecodeError>(
                old(self).data()[old(self).pos()],
            ) && final(self).pos() == old(self).pos() + 1,
            old(self).pos() >= old(self).data().len() ==> r == Err::<u8, DecodeError>(
                DecodeError::TruncatedStream,
            ),
    {
        if self.pos < self.bytes.len() {
            let x = self.bytes[self.pos];
            self.pos = self.pos + 1;
            Ok(x)
        } else {
            Err(DecodeError::TruncatedStream)
        }
    }

    /// Reads one byte as a signed value.
    pub fn next_i8(&mut self) -> (r: Result<i8, DecodeError>)
        requires
            old(self).wf(),
        ensures
            final(self).wf(),
            final(self).data() == old(self).data(),
            old(self).pos() < old(self).data().len() ==> r is Ok && r->Ok_0 as int == signed8(
                old(self).data()[old(self).pos()],
            ) && final(self).pos() == old(self).pos() + 1,
            old(self).pos() >= old(self).data().len() ==> r == Err::<i8, DecodeError>(
                DecodeError::TruncatedStream,
            ),
    {
        match self.next_u8() {
            Ok(x) => {
                if x >= 128 {
                    Ok((x as i16 - 256) as i8)
                } else {
                    Ok(x as i8)
                }
            },
            Err(e) => Err(e),
        }
    }

    /// Reads a signed 16-bit field: two bytes little-endian when `wide`, else one byte
    /// sign-extended.
    pub fn next_i16(&mut self, wide: bool) -> (r: Result<i16, DecodeError>)
        requires
            old(self).wf(),
        ensures
            final(self).wf(),
            final(self).data() == old(self).data(),
            old(self).pos() + imm_len(wide) <= old(self).data().len() ==> r is Ok && r->Ok_0 as int
                == imm_value(old(self).data(), old(self).pos(), wide) && final(self).pos() == old(
                self,
            ).pos() + imm_len(wide),
            old(self).pos() + imm_len(wide) > old(self).data().len() ==> r == Err::<
                i16,
                DecodeError,
            >(DecodeError::TruncatedStream),
    {
        if wide {
            if self.bytes.len() - self.pos < 2 {
                return Err(DecodeError::TruncatedStream);
            }
            let lo = self.bytes[self.pos];
            let hi = self.bytes[self.pos + 1];
            self.pos = self.pos + 2;
            let u: i32 = lo as i32 + 256 * hi as i32;
            if u >= 32768 {
                Ok((u - 65536) as i16)
            } else {
                Ok(u as i16)
            }
        } else {
            match self.next_i8() {
                Ok(x) => Ok(x as i16),
                Err(e) => Err(e),
            }
        }
    }
}

} // verus!
