//! The forward pass: decodes a whole byte stream into instructions keyed by start position.
use vstd::prelude::*;
use crate::cursor::{Cursor, DecodeError};
use vstd::string::*;
use crate::decoder::{advance_prefix, decode_instruction, prefix_words};
use crate::encoding::{
    lemma_step_len, next_prefix, no_prefix, prefix_text, step, trailing_text,
    PrefixState,
};
use crate::tables::segment_name;
use crate::text::concat2;

verus! {

/// A decoded instruction as the library reasons about it.
pub struct InstrView {
    pub start: int,
    pub len: int,
    pub head: Seq<char>,
    pub target: Option<int>,
    pub tail: Seq<char>,
}

/// A decoded instruction: where it starts, how many bytes it takes, and its text. A branch
/// keeps its target position between `head` and `tail`, to be named once the whole stream
/// is known. An instruction after prefix bytes (LOCK, segment override) starts at the first
/// of them and counts their bytes.
pub struct Instruction {
    pub start: usize,
    pub len: usize,
    pub head: String,
    pub target: Option<i128>,
    pub tail: String,
}

impl View for Instruction {
    type V = InstrView;

    open spec fn view(&self) -> InstrView {
        InstrView {
            start: self.start as int,
            len: self.len as int,
            head: self.head@,
            target: match self.target {
                Some(t) => Some(t as int),
                None => None,
            },
            tail: self.tail@,
        }
    }
}

/// The views of a sequence of instructions.
pub open spec fn views(v: Seq<Instruction>) -> Seq<InstrView> {
    v.map_values(|e: Instruction| e@)
}

/// The instructions decoded from `pos` on, the current one having started at `start` (before
/// `pos` when prefixes are pending, whose text so far is `pending`). Prefixes at the very
/// end of the stream become an instruction of their own.
pub open spec fn decode_from(
    b: Seq<u8>,
    pos: int,
    start: int,
    st: PrefixState,
    pending: Seq<char>,
) -> Result<
    Seq<InstrView>,
    DecodeError,
>
    decreases b.len() - pos,
{
    if pos < 0 || pos >= b.len() {
        if start < pos {
            Ok(
                seq![
                    InstrView {
                        start,
                        len: pos - start,
                        head: trailing_text(pending, st),
                        target: None,
                        tail: Seq::empty(),
                    },
                ],
            )
        } else {
            Ok(Seq::empty())
        }
    } else {
        match step(b, pos, st) {
            Err(e) => Err(e),
            Ok(s) => {
                if !(1 <= s.len && pos + s.len <= b.len() as int) {
                    // never taken: a step that succeeds stays within the stream (lemma_step_len)
                    Ok(Seq::empty())
                } else {
                    let next = next_prefix(b[pos] as int, st);
                    match s.piece {
                        None => decode_from(
                            b,
                            pos + s.len,
                            start,
                            next,
                            pending + prefix_text(b[pos] as int, st),
                        ),
                        Some(p) => match decode_from(
                            b,
                            pos + s.len,
                            pos + s.len,
                            next,
                            Seq::empty(),
                        ) {
                            Ok(rest) => Ok(
                                seq![
                                    InstrView {
                                        start,
                                        len: pos + s.len - start,
                                        head: pending + p.head,
                                        target: p.target,
                                        tail: p.tail,
                                    },
                                ] + rest,
                            ),
                            Err(e) => Err(e),
                        },
                    }
                }
            },
        }
    }
}

/// The instructions of a whole byte stream, or the fatal error that stops its decoding.
pub open spec fn decode_spec(b: Seq<u8>) -> Result<Seq<InstrView>, DecodeError> {
    decode_from(b, 0, 0, no_prefix(), Seq::empty())
}

/// Decoded instructions, with `pre` in front when decoding succeeds.
pub open spec fn prepend(pre: Seq<InstrView>, r: Result<Seq<InstrView>, DecodeError>) -> Result<
    Seq<InstrView>,
    DecodeError,
> {
    match r {
        Ok(rest) => Ok(pre + rest),
        Err(e) => Err(e),
    }
}

/// The instructions cover the bytes from `from` to `to` exactly: each takes at least one
/// byte, each starts where the one before it ends, the first starts at `from` and the last
/// ends at `to`.
pub open spec fn tiles(es: Seq<InstrView>, from: int, to: int) -> bool {
    &&& es.len() == 0 ==> from == to
    &&& es.len() > 0 ==> es[0].start == from && es.last().start + es.last().len == to
    &&& forall|i: int| 0 <= i < es.len() ==> es[i].len >= 1
    &&& forall|i: int| 0 <= i < es.len() - 1 ==> #[trigger] es[i].start + es[i].len == es[i + 1].start
}

/// Instructions whose starts increase strictly and which lie within `from..to`.
pub open spec fn ordered_within(es: Seq<InstrView>, from: int, to: int) -> bool {
    &&& forall|i: int| 0 <= i < es.len() ==> from <= #[trigger] es[i].start && es[i].start
        + es[i].len <= to
    &&& forall|i: int, j: int| 0 <= i < j < es.len() ==> #[trigger] es[i].start < #[trigger] es[j].start
}

/// What `decode_from` returns tiles the bytes from `start` to the end, in order.
proof fn lemma_decode_from_tiles(
    b: Seq<u8>,
    pos: int,
    start: int,
    st: PrefixState,
    pending: Seq<char>,
)
    requires
        0 <= start <= pos <= b.len(),
    ensures
        decode_from(b, pos, start, st, pending) matches Ok(es) ==> tiles(es, start, b.len() as int)
            && ordered_within(es, start, b.len() as int),
    decreases b.len() - pos,
{
    if pos < b.len() {
        lemma_step_len(b, pos, st);
        if let Ok(s) = step(b, pos, st) {
            let next = next_prefix(b[pos] as int, st);
            match s.piece {
                None => {
                    lemma_decode_from_tiles(
                        b,
                        pos + s.len,
                        start,
                        next,
                        pending + prefix_text(b[pos] as int, st),
                    );
                },
                Some(p) => {
                    lemma_decode_from_tiles(b, pos + s.len, pos + s.len, next, Seq::empty());
                    if let Ok(rest) = decode_from(b, pos + s.len, pos + s.len, next, Seq::empty()) {
                        let es = decode_from(b, pos, start, st, pending)->Ok_0;
                        assert(es == seq![es[0]] + rest);
                        assert forall|i: int| 0 <= i < es.len() - 1 implies #[trigger] es[i].start
                            + es[i].len == es[i + 1].start by {
                            if i > 0 {
                                assert(es[i] == rest[i - 1]);
                                assert(es[i + 1] == rest[i]);
                            }
                        }
                        assert forall|i: int, j: int| 0 <= i < j < es.len() implies #[trigger] es[i].start
                            < #[trigger] es[j].start by {
                            assert(es[j] == rest[j - 1]);
                            if i > 0 {
                                assert(es[i] == rest[i - 1]);
                            }
                        }
                        assert forall|i: int| 0 <= i < es.len() implies start <= #[trigger] es[i].start
                            && es[i].start + es[i].len <= b.len() by {
                            if i > 0 {
                                assert(es[i] == rest[i - 1]);
                            }
                        }
                    }
                },
            }
        }
    }
}

/// The instructions of a decoded stream cover it exactly, in order: each one's declared
/// length is the number of bytes it took, and the next one starts where it ends.
pub proof fn lemma_instructions_tile(b: Seq<u8>)
    ensures
        decode_spec(b) matches Ok(es) ==> tiles(es, 0, b.len() as int) && ordered_within(es, 0, b.len() as int),
{
    lemma_decode_from_tiles(b, 0, 0, no_prefix(), Seq::empty());
}

/// Decodes a whole byte stream, in one forward pass.
pub fn decode(bytes: &[u8]) -> (r: Result<Vec<Instruction>, DecodeError>)
    ensures
        match decode_spec(bytes@) {
            Ok(es) => r is Ok && views(r->Ok_0@) == es,
            Err(e) => r == Err::<Vec<Instruction>, DecodeError>(e),
        },
        r matches Ok(v) ==> tiles(views(v@), 0, bytes@.len() as int) && ordered_within(
            views(v@),
            0,
            bytes@.len() as int,
        ),
{
    proof {
        lemma_instructions_tile(bytes@);
    }
    let mut cur = Cursor::new(bytes);
    let mut st = PrefixState { segment: None, locked: false };
    let mut start: usize = 0;
    let mut pending = String::new();
    let mut out: Vec<Instruction> = Vec::new();
    while !cur.at_end()
        invariant
            cur.wf(),
            cur.data() == bytes@,
            st.wf(),
            start <= cur.pos(),
            decode_spec(bytes@) == prepend(
                views(out@),
                decode_from(bytes@, cur.pos(), start as int, st, pending@),
            ),
        decreases bytes@.len() - cur.pos(),
    {
        let ghost pos = cur.pos();
        let x = match cur.next_u8() {
            Ok(v) => v,
            Err(e) => {
                return Err(e);
            },
        };
        let r = decode_instruction(&mut cur, x, st);
        proof {
            lemma_step_len(bytes@, pos, st);
        }
        match r {
            Err(e) => {
                return Err(e);
            },
            Ok(None) => {
                let words = prefix_words(x, st);
                pending.append(words.as_str());
            },
            Ok(Some(p)) => {
                let end = cur.position();
                let ghost pre = views(out@);
                let head = concat2(pending.as_str(), p.head.as_str());
                let e = Instruction { start, len: end - start, head, target: p.target, tail: p.tail };
                let ghost ev = e@;
                out.push(e);
                proof {
                    assert(views(out@) =~= pre.push(ev));
                    let next = next_prefix(x as int, st);
                    match decode_from(bytes@, end as int, end as int, next, Seq::empty()) {
                        Ok(rest) => {
                            assert(pre + (seq![ev] + rest) =~= views(out@) + rest);
                        },
                        Err(_) => {},
                    }
                }
                start = end;
                pending = String::new();
            },
        }
        st = advance_prefix(x, st);
    }
    let end = cur.position();
    if start < end {
        let mut head = pending;
        match st.segment {
            Some(s) => head.append(segment_name(s)),
            None => {},
        }
        head.append("\n");
        let ghost pre = views(out@);
        let e = Instruction { start, len: end - start, head, target: None, tail: String::new() };
        let ghost ev = e@;
        out.push(e);
        proof {
            assert(views(out@) =~= pre + seq![ev]);
        }
    } else {
        proof {
            assert(views(out@) =~= views(out@) + Seq::<InstrView>::empty());
        }
    }
    Ok(out)
}

} // verus!
