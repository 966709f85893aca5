//! The highlighter: walks a syntax (sub)tree depth-first, pre-order, over a
//! character range of the text store and produces the ordered spans that
//! tile the range exactly — tagged spans for atomic or childless nodes,
//! untagged spans for the gaps between them.
//!
//! The walk trusts nothing about the tree it is handed: node ranges are
//! clamped into the requested range and the emitted spans tile `[start, end)`
//! whatever the cursor reports, so the coverage contract holds
//! unconditionally.  A fuel bound makes the walk terminate even on a cursor
//! that never exhausts.
use vstd::prelude::*;
use vstd::string::StringExecFns;

use crate::syntax::{
    cursor_goto_first_child, cursor_goto_next_sibling, cursor_goto_parent, cursor_node,
    cursor_node_s, node_end_byte, node_end_s, node_kind, node_kind_s, node_start_byte,
    node_start_s, node_walk,
};
use crate::textmodel::{
    byte_of, lemma_byte_of_mono, lemma_byte_of_nonneg, lemma_char_byte_char,
    lemma_char_of_byte_mono,
};
use crate::textstore::TextStore;

verus! {

/// Bound on the number of cursor moves in one walk; a real syntax tree over
/// a bounded text is exhausted long before this.
const WALK_FUEL: usize = 16777216;

/// One output span: a slice of the text, tagged with the token kind of the
/// node it came from, or untagged for plain text between tokens.
pub struct Span {
    pub text: String,
    pub kind: Option<String>,
}

/// The atomic token kinds: nodes whose children are only delimiter
/// punctuation and must not be descended into.
pub open spec fn is_atomic_kind(k: Seq<char>) -> bool {
    k == "string"@ || k == "comment"@
}

/// The concatenation of the spans' texts.
pub open spec fn spans_concat(spans: Seq<Span>) -> Seq<char>
    decreases spans.len(),
{
    if spans.len() == 0 {
        Seq::empty()
    } else {
        spans_concat(spans.drop_last()) + spans.last().text@
    }
}

/// No span is empty.
pub open spec fn spans_nonempty(spans: Seq<Span>) -> bool {
    forall|i: int| 0 <= i < spans.len() ==> spans[i].text@.len() > 0
}

/// The range `[start, end)` is non-empty and lies, in byte offsets, fully
/// inside an atomic node.
pub open spec fn range_inside_atomic(
    content: Seq<char>,
    node: tree_sitter::Node,
    start: int,
    end: int,
) -> bool {
    &&& start < end
    &&& is_atomic_kind(node_kind_s(node))
    &&& node_start_s(node) <= byte_of(content, start)
    &&& byte_of(content, end) <= node_end_s(node)
}

/// Exactly one span, holding the whole range, tagged with kind `k`.
pub open spec fn lone_tagged_span(
    content: Seq<char>,
    start: int,
    end: int,
    k: Seq<char>,
    spans: Seq<Span>,
) -> bool {
    &&& spans.len() == 1
    &&& spans[0].text@ == content.subrange(start, end)
    &&& spans[0].kind matches Some(tag) && tag@ == k
}

/// A single span's concatenation is its own text.
pub proof fn lemma_spans_concat_one(sp: Span)
    ensures
        spans_concat(seq![sp]) == sp.text@,
{
    assert(seq![sp].drop_last() =~= Seq::<Span>::empty());
    assert(spans_concat(Seq::<Span>::empty()) == Seq::<char>::empty());
    assert(Seq::<char>::empty() + sp.text@ =~= sp.text@);
}

/// Appending a span appends its text to the concatenation.
proof fn lemma_spans_concat_push(spans: Seq<Span>, sp: Span)
    ensures
        spans_concat(spans.push(sp)) == spans_concat(spans) + sp.text@,
{
    assert(spans.push(sp).drop_last() =~= spans);
    assert(spans.push(sp).last() == sp);
}

/// Whether a kind tag is in the atomic set.
fn kind_is_atomic(k: &str) -> (r: bool)
    ensures
        r == is_atomic_kind(k@),
{
    let ks: String = String::from_str(k);
    ks.eq(&String::from_str("string")) || ks.eq(&String::from_str("comment"))
}

/// Highlights the character range `[start, end)` of `store` by walking the
/// subtree under `node`.
///
/// The returned spans tile the range exactly: their concatenation equals the
/// store's slice `[start, end)`, with no gaps, overlaps or empty spans.  A
/// range lying fully inside an atomic (string/comment) node yields exactly
/// one span tagged with that node's kind.
pub fn highlight<'t>(
    store: &TextStore,
    node: tree_sitter::Node<'t>,
    start: usize,
    end: usize,
) -> (r: Vec<Span>)
    requires
        start <= end <= store@.len(),
    ensures
        spans_concat(r@) == store@.subrange(start as int, end as int),
        spans_nonempty(r@),
        range_inside_atomic(store@, node, start as int, end as int) ==> lone_tagged_span(
            store@,
            start as int,
            end as int,
            node_kind_s(node),
            r@,
        ),
{
    let mut out: Vec<Span> = Vec::new();
    if start >= end {
        proof {
            assert(store@.subrange(start as int, end as int) =~= Seq::<char>::empty());
        }
        return out;
    }
    let mut pos: usize = start;
    let mut cur: tree_sitter::TreeCursor = node_walk(node);
    let mut fuel: usize = WALK_FUEL;
    let mut done: bool = false;
    while !done && fuel > 0
        invariant
            start <= pos <= end <= store@.len(),
            spans_concat(out@) == store@.subrange(start as int, pos as int),
            spans_nonempty(out@),
            range_inside_atomic(store@, node, start as int, end as int) ==> ((out@.len() == 0
                && pos == start && fuel == WALK_FUEL && !done && cursor_node_s(cur) == node)
                || (lone_tagged_span(store@, start as int, end as int, node_kind_s(node), out@)
                && pos == end)),
        decreases fuel,
    {
        fuel = fuel - 1;
        let n: tree_sitter::Node = cursor_node(&cur);
        let kind: &str = node_kind(n);
        let atomic: bool = kind_is_atomic(kind);
        let mut is_leaf: bool = atomic;
        if !atomic {
            if !cursor_goto_first_child(&mut cur) {
                is_leaf = true;
            }
        }
        if is_leaf {
            let blen: usize = store.len_bytes();
            let nsb: usize = node_start_byte(n);
            let neb: usize = node_end_byte(n);
            let nsb_c: usize = if nsb < blen {
                nsb
            } else {
                blen
            };
            let neb_c: usize = if neb < blen {
                neb
            } else {
                blen
            };
            proof {
                lemma_byte_of_nonneg(store@, store@.len() as int);
            }
            let s_raw: usize = store.byte_to_char_u(nsb_c);
            let e_raw: usize = store.byte_to_char_u(neb_c);
            let s_char: usize = if s_raw < pos {
                pos
            } else if s_raw > end {
                end
            } else {
                s_raw
            };
            let e_char: usize = if e_raw < s_char {
                s_char
            } else if e_raw > end {
                end
            } else {
                e_raw
            };
            proof {
                if range_inside_atomic(store@, node, start as int, end as int) && out@.len()
                    == 0 {
                    lemma_byte_of_mono(store@, start as int, store@.len() as int);
                    lemma_byte_of_mono(store@, end as int, store@.len() as int);
                    lemma_byte_of_nonneg(store@, end as int);
                    assert(byte_of(store@, end as int) <= blen);
                    assert(byte_of(store@, end as int) <= neb_c);
                    lemma_char_of_byte_mono(store@, nsb_c as int, byte_of(store@, start as int));
                    lemma_char_byte_char(store@, start as int);
                    lemma_char_of_byte_mono(store@, byte_of(store@, end as int), neb_c as int);
                    lemma_char_byte_char(store@, end as int);
                    assert(s_char == start);
                    assert(e_char == end);
                }
            }
            if pos < s_char {
                let t: String = store.slice_u(pos, s_char);
                proof {
                    lemma_spans_concat_push(out@, Span { text: t, kind: None });
                    assert(store@.subrange(start as int, pos as int) + store@.subrange(
                        pos as int,
                        s_char as int,
                    ) =~= store@.subrange(start as int, s_char as int));
                }
                out.push(Span { text: t, kind: None });
                pos = s_char;
            }
            if s_char < e_char {
                let t: String = store.slice_u(s_char, e_char);
                let sp: Span = Span { text: t, kind: Some(String::from_str(kind)) };
                proof {
                    lemma_spans_concat_push(out@, sp);
                    assert(store@.subrange(start as int, pos as int) + store@.subrange(
                        pos as int,
                        e_char as int,
                    ) =~= store@.subrange(start as int, e_char as int));
                }
                out.push(sp);
                pos = e_char;
            }
            // ascend to the next sibling, or finish when the walk is
            // exhausted
            let ghost fuel_pre: usize = fuel;
            loop
                invariant
                    fuel <= fuel_pre,
                    start <= pos <= end <= store@.len(),
                    spans_concat(out@) == store@.subrange(start as int, pos as int),
                    spans_nonempty(out@),
                    range_inside_atomic(store@, node, start as int, end as int) ==> (
                    lone_tagged_span(store@, start as int, end as int, node_kind_s(node), out@)
                        && pos == end),
                decreases fuel,
            {
                if fuel == 0 {
                    done = true;
                    break ;
                }
                fuel = fuel - 1;
                if cursor_goto_next_sibling(&mut cur) {
                    break ;
                }
                if !cursor_goto_parent(&mut cur) {
                    done = true;
                    break ;
                }
            }
        }
    }
    if pos < end {
        let t: String = store.slice_u(pos, end);
        proof {
            lemma_spans_concat_push(out@, Span { text: t, kind: None });
            assert(store@.subrange(start as int, pos as int) + store@.subrange(
                pos as int,
                end as int,
            ) =~= store@.subrange(start as int, end as int));
        }
        out.push(Span { text: t, kind: None });
    }
    out
}

} // verus!
