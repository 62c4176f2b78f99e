//! The label resolver and emitter: names branch targets and writes the listing.
use vstd::prelude::*;
use vstd::string::*;
use crate::cursor::DecodeError;
use crate::stream::{
    decode, decode_spec, lemma_instructions_tile, ordered_within, tiles, views, InstrView,
    Instruction,
};
use crate::text::{
    dec_text, int_text, lemma_dec_text_injective, lemma_int_text_start, push_dec,
    push_int,
};

verus! {

/// The distinct branch targets of the instructions, in the order they are first met.
pub open spec fn label_list(es: Seq<InstrView>) -> Seq<int>
    decreases es.len(),
{
    if es.len() == 0 {
        Seq::empty()
    } else {
        let prev = label_list(es.drop_last());
        match es.last().target {
            Some(t) => if prev.contains(t) {
                prev
            } else {
                prev.push(t)
            },
            None => prev,
        }
    }
}

/// Whether some instruction starts at `t`.
pub open spec fn is_start(es: Seq<InstrView>, t: int) -> bool {
    exists|i: int| 0 <= i < es.len() && #[trigger] es[i].start == t
}

/// The symbol of the label with number `k`.
pub open spec fn label_name(k: int) -> Seq<char> {
    "label"@ + dec_text(k as nat)
}

/// A branch target as written: its label where an instruction starts there, else the bare
/// byte position.
pub open spec fn target_text(es: Seq<InstrView>, labels: Seq<int>, t: int) -> Seq<char> {
    if is_start(es, t) {
        label_name(labels.index_of(t))
    } else {
        int_text(t)
    }
}

/// The label declaration line for position `p`, if some branch targets it.
pub open spec fn declaration(labels: Seq<int>, p: int) -> Seq<char> {
    if labels.contains(p) {
        label_name(labels.index_of(p)) + ":\n"@
    } else {
        Seq::empty()
    }
}

/// One instruction as emitted, preceded by its label declaration if it has one.
pub open spec fn instr_text(es: Seq<InstrView>, labels: Seq<int>, e: InstrView) -> Seq<char> {
    declaration(labels, e.start) + e.head + match e.target {
        Some(t) => target_text(es, labels, t),
        None => Seq::empty(),
    } + e.tail
}

/// The text of the first `k` instructions.
pub open spec fn body_text(es: Seq<InstrView>, labels: Seq<int>, k: int) -> Seq<char>
    decreases k,
{
    if k <= 0 || k > es.len() {
        Seq::empty()
    } else {
        body_text(es, labels, k - 1) + instr_text(es, labels, es[k - 1])
    }
}

/// The directive line that sets 16-bit mode.
pub open spec fn directive() -> Seq<char> {
    "bits 16\n"@
}

/// The listing of decoded instructions: the directive line, then each instruction in order
/// of position.
pub open spec fn listing_text(es: Seq<InstrView>) -> Seq<char> {
    directive() + body_text(es, label_list(es), es.len() as int)
}

/// The assembly text of a byte stream, or the fatal error that prevents it.
pub open spec fn disassembly(b: Seq<u8>) -> Result<Seq<char>, DecodeError> {
    match decode_spec(b) {
        Ok(es) => Ok(listing_text(es)),
        Err(e) => Err(e),
    }
}

/// Label positions as mathematical integers.
pub open spec fn ints(s: Seq<i128>) -> Seq<int> {
    s.map_values(|t: i128| t as int)
}

/// The label list has no duplicates and holds every branch target.
proof fn lemma_label_list_facts(es: Seq<InstrView>)
    ensures
        label_list(es).no_duplicates(),
        forall|i: int|
            0 <= i < es.len() && #[trigger] es[i].target is Some ==> label_list(es).contains(
                es[i].target->Some_0,
            ),
    decreases es.len(),
{
    if es.len() > 0 {
        let prev = es.drop_last();
        lemma_label_list_facts(prev);
        assert forall|i: int|
            0 <= i < es.len() && #[trigger] es[i].target is Some implies label_list(es).contains(
                es[i].target->Some_0,
            ) by {
            let l = label_list(es);
            let lp = label_list(prev);
            if i < es.len() - 1 {
                assert(prev[i] == es[i]);
                let k = choose|k: int| 0 <= k < lp.len() && lp[k] == es[i].target->Some_0;
                assert(l[k] == lp[k]);
            } else {
                if !lp.contains(es[i].target->Some_0) {
                    assert(l[lp.len() as int] == es[i].target->Some_0);
                }
            }
        }
    }
}

/// With no duplicates, the index of an element is the one place where it stands.
proof fn lemma_index_of_unique(s: Seq<int>, k: int)
    requires
        s.no_duplicates(),
        0 <= k < s.len(),
    ensures
        s.index_of(s[k]) == k,
{
    assert(s.contains(s[k]));
}

/// Where `t` stands in the label list, if it does.
fn find_label(labels: &Vec<i128>, t: i128) -> (r: Option<usize>)
    ensures
        r matches Some(k) ==> k < labels.len() && labels@[k as int] == t,
        r is None ==> !ints(labels@).contains(t as int),
{
    let mut i: usize = 0;
    while i < labels.len()
        invariant
            i <= labels.len(),
            forall|j: int| 0 <= j < i ==> labels@[j] != t,
        decreases labels.len() - i,
    {
        if labels[i] == t {
            return Some(i);
        }
        i = i + 1;
    }
    assert forall|j: int| 0 <= j < ints(labels@).len() implies ints(labels@)[j] != t as int by {
        assert(labels@[j] != t);
    }
    None
}

/// The distinct branch targets, in first-seen order; the `k`-th gets the symbol `label<k>`.
pub fn collect_labels(es: &Vec<Instruction>) -> (r: Vec<i128>)
    ensures
        ints(r@) == label_list(views(es@)),
{
    let mut labels: Vec<i128> = Vec::new();
    let mut i: usize = 0;
    while i < es.len()
        invariant
            i <= es.len(),
            ints(labels@) == label_list(views(es@).subrange(0, i as int)),
        decreases es.len() - i,
    {
        let ghost before = views(es@).subrange(0, i as int);
        let ghost after = views(es@).subrange(0, i as int + 1);
        assert(after.drop_last() =~= before);
        assert(after.last() == es@[i as int]@);
        match es[i].target {
            Some(t) => {
                match find_label(&labels, t) {
                    None => {
                        labels.push(t);
                        assert(ints(labels@) =~= label_list(before).push(t as int));
                    },
                    Some(k) => {
                        assert(ints(labels@)[k as int] == t as int);
                    },
                }
            },
            None => {},
        }
        i = i + 1;
    }
    assert(views(es@).subrange(0, es.len() as int) =~= views(es@));
    labels
}

/// A label symbol starts with `l`, and different numbers give different symbols.
proof fn lemma_label_name(a: int, b: int)
    requires
        0 <= a,
        0 <= b,
    ensures
        label_name(a).len() >= 1,
        label_name(a)[0] == 'l',
        a != b ==> label_name(a) != label_name(b),
{
    reveal_strlit("label");
    if label_name(a) == label_name(b) {
        assert(label_name(a).subrange(5, label_name(a).len() as int) =~= dec_text(a as nat));
        assert(label_name(b).subrange(5, label_name(b).len() as int) =~= dec_text(b as nat));
        lemma_dec_text_injective(a as nat, b as nat);
    }
}

/// Each branch target at which an instruction starts has one symbol: two different such
/// targets get different symbols, every reference to the target writes that symbol, and
/// exactly one instruction starts there, whose declaration line declares that symbol.
pub proof fn lemma_label_uniqueness(b: Seq<u8>, i1: int, i2: int)
    requires
        decode_spec(b) is Ok,
        0 <= i1 < decode_spec(b)->Ok_0.len(),
        0 <= i2 < decode_spec(b)->Ok_0.len(),
        decode_spec(b)->Ok_0[i1].target is Some,
        decode_spec(b)->Ok_0[i2].target is Some,
        is_start(decode_spec(b)->Ok_0, decode_spec(b)->Ok_0[i1].target->Some_0),
        is_start(decode_spec(b)->Ok_0, decode_spec(b)->Ok_0[i2].target->Some_0),
    ensures
        ({
            let es = decode_spec(b)->Ok_0;
            let labels = label_list(es);
            let t1 = es[i1].target->Some_0;
            let t2 = es[i2].target->Some_0;
            &&& target_text(es, labels, t1) == label_name(labels.index_of(t1))
            &&& t1 != t2 ==> target_text(es, labels, t1) != target_text(es, labels, t2)
            &&& exists|k: int|
                0 <= k < es.len() && #[trigger] es[k].start == t1 && (forall|j: int|
                    0 <= j < es.len() && #[trigger] es[j].start == t1 ==> j == k) && declaration(
                    labels,
                    es[k].start,
                ) == target_text(es, labels, t1) + ":\n"@
        }),
{
    let es = decode_spec(b)->Ok_0;
    let labels = label_list(es);
    let t1 = es[i1].target->Some_0;
    let t2 = es[i2].target->Some_0;
    lemma_label_list_facts(es);
    lemma_instructions_tile(b);
    assert(labels.contains(t1));
    assert(labels.contains(t2));
    let k1 = labels.index_of(t1);
    let k2 = labels.index_of(t2);
    lemma_label_name(k1, k2);
    let k = choose|k: int| 0 <= k < es.len() && #[trigger] es[k].start == t1;
    assert forall|j: int| 0 <= j < es.len() && #[trigger] es[j].start == t1 implies j == k by {
        if j < k {
            assert(es[j].start < es[k].start);
        } else if k < j {
            assert(es[k].start < es[j].start);
        }
    }
}

/// A branch target at which no instruction starts is written as its number, no label
/// symbol equals that number, and no declaration line is written for it.
pub proof fn lemma_dangling_target(b: Seq<u8>, t: int, k: int)
    requires
        decode_spec(b) is Ok,
        !is_start(decode_spec(b)->Ok_0, t),
        0 <= k,
    ensures
        ({
            let es = decode_spec(b)->Ok_0;
            &&& target_text(es, label_list(es), t) == int_text(t)
            &&& int_text(t) != label_name(k)
            &&& forall|i: int| 0 <= i < es.len() ==> #[trigger] es[i].start != t
        }),
{
    let es = decode_spec(b)->Ok_0;
    lemma_int_text_start(t);
    lemma_label_name(k, k);
    assert forall|i: int| 0 <= i < es.len() implies #[trigger] es[i].start != t by {
        if es[i].start == t {
            assert(is_start(es, t));
        }
    }
}

/// `r[p]` tells whether an instruction starts at byte `p`.
fn start_marks(es: &Vec<Instruction>, n: usize) -> (r: Vec<bool>)
    requires
        forall|i: int| 0 <= i < es.len() ==> (#[trigger] es@[i]).start < n,
    ensures
        r.len() == n,
        forall|p: int| 0 <= p < n ==> r@[p] == is_start(views(es@), p),
{
    let mut marks: Vec<bool> = Vec::new();
    let mut p: usize = 0;
    while p < n
        invariant
            p <= n,
            marks.len() == p,
            forall|q: int| 0 <= q < p ==> !marks@[q],
        decreases n - p,
    {
        marks.push(false);
        p = p + 1;
    }
    let mut i: usize = 0;
    while i < es.len()
        invariant
            i <= es.len(),
            marks.len() == n,
            forall|j: int| 0 <= j < es.len() ==> (#[trigger] es@[j]).start < n,
            forall|q: int|
                0 <= q < n ==> marks@[q] == exists|j: int| 0 <= j < i && #[trigger] es@[j].start == q,
        decreases es.len() - i,
    {
        let start = es[i].start;
        marks.set(start, true);
        assert forall|q: int| 0 <= q < n implies marks@[q] == exists|j: int|
            0 <= j < i + 1 && #[trigger] es@[j].start == q by {
            if q == start {
                assert(es@[i as int].start == q);
            }
        }
        i = i + 1;
    }
    assert forall|q: int| 0 <= q < n implies marks@[q] == is_start(views(es@), q) by {
        if marks@[q] {
            let j = choose|j: int| 0 <= j < es.len() && #[trigger] es@[j].start == q;
            assert(views(es@)[j].start == q);
        }
        if is_start(views(es@), q) {
            let j = choose|j: int| 0 <= j < es.len() && #[trigger] views(es@)[j].start == q;
            assert(es@[j].start == q);
        }
    }
    marks
}

/// Appends the symbol of label `k`.
fn push_label(s: &mut String, k: usize)
    ensures
        final(s)@ == old(s)@ + label_name(k as int),
{
    s.append("label");
    push_dec(s, k as u128);
    assert(final(s)@ =~= old(s)@ + label_name(k as int));
}

/// Appends a branch target: its label if an instruction starts there, else the bare
/// number.
fn push_target(s: &mut String, es: &Vec<Instruction>, marks: &Vec<bool>, labels: &Vec<i128>, t: i128)
    requires
        marks.len() < i128::MAX,
        forall|p: int| 0 <= p < marks.len() ==> marks@[p] == is_start(views(es@), p),
        forall|p: int| is_start(views(es@), p) ==> 0 <= p < marks.len(),
        ints(labels@).no_duplicates(),
        is_start(views(es@), t as int) ==> ints(labels@).contains(t as int),
    ensures
        final(s)@ == old(s)@ + target_text(views(es@), ints(labels@), t as int),
{
    if 0 <= t && t < marks.len() as i128 && marks[t as usize] {
        match find_label(labels, t) {
            Some(k) => {
                proof {
                    assert(ints(labels@)[k as int] == t as int);
                    lemma_index_of_unique(ints(labels@), k as int);
                }
                push_label(s, k);
            },
            None => {
                push_int(s, t);
            },
        }
    } else {
        push_int(s, t);
    }
}

/// Writes the listing: the directive line, then each instruction in order, with a label
/// declaration before each one that a branch targets.
pub fn render(es: &Vec<Instruction>, n: usize) -> (r: String)
    requires
        tiles(views(es@), 0, n as int),
        ordered_within(views(es@), 0, n as int),
    ensures
        r@ == listing_text(views(es@)),
{
    let ghost ev = views(es@);
    let labels = collect_labels(es);
    proof {
        lemma_label_list_facts(ev);
        assert forall|i: int| 0 <= i < es.len() implies (#[trigger] es@[i]).start < n by {
            assert(ev[i] == es@[i]@);
            assert(ev[i].len >= 1);
            assert(ev[i].start + ev[i].len <= n);
        }
    }
    let marks = start_marks(es, n);
    proof {
        assert forall|p: int| is_start(ev, p) implies 0 <= p < marks.len() by {
            let j = choose|j: int| 0 <= j < ev.len() && #[trigger] ev[j].start == p;
            assert(es@[j].start == p);
        }
    }
    let ghost labs = ints(labels@);
    let mut s = String::from_str("bits 16\n");
    let mut i: usize = 0;
    while i < es.len()
        invariant
            i <= es.len(),
            ev == views(es@),
            labs == ints(labels@),
            labs == label_list(ev),
            labs.no_duplicates(),
            forall|j: int| 0 <= j < ev.len() && #[trigger] ev[j].target is Some ==> labs.contains(
                ev[j].target->Some_0,
            ),
            marks.len() == n,
            n < i128::MAX,
            forall|p: int| 0 <= p < marks.len() ==> marks@[p] == is_start(ev, p),
            forall|p: int| is_start(ev, p) ==> 0 <= p < marks.len(),
            s@ == directive() + body_text(ev, labs, i as int),
        decreases es.len() - i,
    {
        let ghost s0 = s@;
        let e = &es[i];
        let ghost e_view = ev[i as int];
        assert(e_view == e@);
        match find_label(&labels, e.start as i128) {
            Some(k) => {
                proof {
                    assert(labs[k as int] == e.start as int);
                    lemma_index_of_unique(labs, k as int);
                }
                push_label(&mut s, k);
                s.append(":\n");
            },
            None => {},
        }
        let ghost s1 = s@;
        assert(s1 =~= s0 + declaration(labs, e_view.start));
        s.append(e.head.as_str());
        match e.target {
            Some(t) => {
                proof {
                    assert(ev[i as int].target is Some);
                    if is_start(ev, t as int) {
                        assert(labs.contains(t as int));
                    }
                }
                push_target(&mut s, es, &marks, &labels, t);
            },
            None => {},
        }
        s.append(e.tail.as_str());
        assert(s@ =~= s0 + instr_text(ev, labs, e_view));
        i = i + 1;
    }
    s
}

/// Disassembles a byte stream into assembly text, or reports the fatal error that stops
/// decoding.
pub fn disassemble(bytes: &[u8]) -> (r: Result<String, DecodeError>)
    ensures
        match disassembly(bytes@) {
            Ok(t) => r is Ok && r->Ok_0@ == t,
            Err(e) => r == Err::<String, DecodeError>(e),
        },
{
    match decode(bytes) {
        Ok(es) => {
            let r = render(&es, bytes.len());
            Ok(r)
        },
        Err(e) => Err(e),
    }
}

} // verus!
