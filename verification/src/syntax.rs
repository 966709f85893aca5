//! Trusted bindings to `tree-sitter`, the incremental parser behind the
//! syntax synchronizer.
//!
//! The model: `parse_nodes(language, text)` names the forest a grammar
//! assigns to a text — the pre-order sequence of nodes, each a (kind,
//! start byte, end byte, depth) tuple.  tree-sitter parsing is
//! deterministic, so this is a function of the grammar and the text alone.
//! `tree_nodes(tree)` names what a particular tree holds.
//!
//! A parse that reuses a previous tree equals a parse from scratch only when
//! that tree is a legitimate hint for the text: tree-sitter documents that
//! the hint must come from a parse of this very text, edited with
//! `Tree::edit` to match every change since.  `valid_hint(tree, text)` names
//! that relation; a fresh parse result is a valid hint for its own text, and
//! `Tree::edit` with an exact edit description carries hint-validity from
//! the old text to the spliced one.
use vstd::prelude::*;

use crate::textmodel::{byte_of, line_start, nl_count, splice};
use crate::EditDescriptor;

verus! {

#[verifier::external_type_specification]
#[verifier::external_body]
pub struct ExLanguage(tree_sitter::Language);

#[verifier::external_type_specification]
#[verifier::external_body]
pub struct ExLanguageError(tree_sitter::LanguageError);

#[verifier::external_type_specification]
#[verifier::external_body]
pub struct ExParser(tree_sitter::Parser);

#[verifier::external_type_specification]
#[verifier::external_body]
pub struct ExTree(tree_sitter::Tree);

#[verifier::external_type_specification]
#[verifier::external_body]
pub struct ExNode<'tree>(tree_sitter::Node<'tree>);

#[verifier::external_type_specification]
#[verifier::external_body]
pub struct ExTreeCursor<'tree>(tree_sitter::TreeCursor<'tree>);

/// The nodes (kind, start byte, end byte, depth; pre-order) that the given
/// grammar assigns to the given text.
pub uninterp spec fn parse_nodes(l: tree_sitter::Language, s: Seq<char>) -> Seq<
    (Seq<char>, int, int, int),
>;

/// The nodes (kind, start byte, end byte, depth; pre-order) a tree holds.
pub uninterp spec fn tree_nodes(t: tree_sitter::Tree) -> Seq<(Seq<char>, int, int, int)>;

/// The language a parser currently has assigned.
pub uninterp spec fn parser_language(p: tree_sitter::Parser) -> Option<tree_sitter::Language>;

/// Whether `Parser::set_language` accepts a grammar: a function of the
/// grammar value alone (its ABI version and its parse-table flags).
pub uninterp spec fn language_usable(l: tree_sitter::Language) -> bool;

/// The kind tag of a node.
pub uninterp spec fn node_kind_s(n: tree_sitter::Node) -> Seq<char>;

/// The start byte offset of a node.
pub uninterp spec fn node_start_s(n: tree_sitter::Node) -> int;

/// The end byte offset of a node.
pub uninterp spec fn node_end_s(n: tree_sitter::Node) -> int;

/// The node a cursor currently stands on.
pub uninterp spec fn cursor_node_s(c: tree_sitter::TreeCursor) -> tree_sitter::Node;

/// Whether `Parser::parse` may be given `t` as the old-tree reuse hint when
/// parsing `s` and still produce the tree a parse from scratch of `s` would.
pub uninterp spec fn valid_hint(t: tree_sitter::Tree, s: Seq<char>) -> bool;

/// An edit description is exact for the replacement of `[start, end)` of `s`
/// by `text`: every field holds the model value — byte offsets, and
/// (row, byte-column) positions, of the start, the old end and the new end.
pub open spec fn descriptor_matches(
    s: Seq<char>,
    start: int,
    end: int,
    text: Seq<char>,
    e: EditDescriptor,
) -> bool {
    let s2 = splice(s, start, end, text);
    let ne = start + text.len();
    &&& 0 <= start <= end <= s.len()
    &&& e.start_byte == byte_of(s, start)
    &&& e.old_end_byte == byte_of(s, end)
    &&& e.new_end_byte == byte_of(s2, ne)
    &&& e.start_row == nl_count(s, start)
    &&& e.start_col == byte_of(s, start) - byte_of(s, line_start(s, nl_count(s, start)))
    &&& e.old_end_row == nl_count(s, end)
    &&& e.old_end_col == byte_of(s, end) - byte_of(s, line_start(s, nl_count(s, end)))
    &&& e.new_end_row == nl_count(s2, ne)
    &&& e.new_end_col == byte_of(s2, ne) - byte_of(s2, line_start(s2, nl_count(s2, ne)))
}

/// Relies on `Parser::new`: a fresh parser has no language assigned.
#[verifier::external_body]
pub(crate) fn parser_new() -> (p: tree_sitter::Parser)
    ensures
        parser_language(p) is None,
{
    tree_sitter::Parser::new()
}

/// Relies on `Parser::set_language`: it accepts a grammar exactly when the
/// grammar's ABI version and parse tables are usable — a property of the
/// grammar value alone, here named `language_usable`.  On success the
/// language is assigned; on failure the parser is left as it was.
#[verifier::external_body]
pub(crate) fn parser_set_language(p: &mut tree_sitter::Parser, l: &tree_sitter::Language) -> (r:
    Result<(), tree_sitter::LanguageError>)
    ensures
        r is Ok <==> language_usable(*l),
        r is Ok ==> parser_language(*final(p)) == Some(*l),
        r is Err ==> *final(p) == *old(p),
{
    p.set_language(l)
}

/// Relies on `Parser::parse` (with no options set): returns `None` exactly
/// when no language is assigned.  Otherwise — provided the reuse hint, if
/// any, is valid for this text, which the `requires` demands — it returns
/// the tree the assigned grammar gives the text, equal to a parse from
/// scratch; that fresh tree is in turn a valid hint for the text it was
/// parsed from.  The assigned language is unchanged.
#[verifier::external_body]
pub(crate) fn parser_parse(
    p: &mut tree_sitter::Parser,
    text: &str,
    old_tree: Option<&tree_sitter::Tree>,
) -> (r: Option<tree_sitter::Tree>)
    requires
        old_tree matches Some(t) ==> valid_hint(*t, text@),
    ensures
        r is Some <==> parser_language(*old(p)) is Some,
        parser_language(*old(p)) is Some ==> tree_nodes(r->Some_0) == parse_nodes(
            parser_language(*old(p))->Some_0,
            text@,
        ),
        parser_language(*old(p)) is Some ==> valid_hint(r->Some_0, text@),
        parser_language(*final(p)) == parser_language(*old(p)),
{
    p.parse(text, old_tree)
}

/// Relies on `Tree::edit`: informs the tree of an edit's byte and position
/// deltas so a following parse can reuse unaffected subtrees.  A tree that
/// was a valid reuse hint for a text, told exactly what the edit changed,
/// becomes a valid reuse hint for the edited text.  Nothing else is promised
/// of the edited tree; only a reparse re-establishes a known node set.
#[verifier::external_body]
pub(crate) fn tree_apply_edit(t: &mut tree_sitter::Tree, e: &EditDescriptor)
    ensures
        forall|s: Seq<char>, start: int, end: int, text: Seq<char>|
            valid_hint(*old(t), s) && descriptor_matches(s, start, end, text, *e)
                ==> #[trigger] valid_hint(*final(t), splice(s, start, end, text)),
{
    t.edit(
        &tree_sitter::InputEdit {
            start_byte: e.start_byte,
            old_end_byte: e.old_end_byte,
            new_end_byte: e.new_end_byte,
            start_position: tree_sitter::Point { row: e.start_row, column: e.start_col },
            old_end_position: tree_sitter::Point { row: e.old_end_row, column: e.old_end_col },
            new_end_position: tree_sitter::Point { row: e.new_end_row, column: e.new_end_col },
        },
    )
}

/// Relies on `Tree::root_node`.  Nothing is assumed of the returned node.
#[verifier::external_body]
pub(crate) fn tree_root_node(t: &tree_sitter::Tree) -> tree_sitter::Node<'_> {
    t.root_node()
}

/// Relies on `Node::descendant_for_byte_range`.  Nothing is assumed of the
/// returned node.
#[verifier::external_body]
pub(crate) fn node_descendant_for_byte_range<'tree>(
    n: tree_sitter::Node<'tree>,
    start: usize,
    end: usize,
) -> Option<tree_sitter::Node<'tree>> {
    n.descendant_for_byte_range(start, end)
}

/// Relies on `Node::walk`: the returned cursor stands on the given node.
#[verifier::external_body]
pub(crate) fn node_walk<'tree>(n: tree_sitter::Node<'tree>) -> (c: tree_sitter::TreeCursor<'tree>)
    ensures
        cursor_node_s(c) == n,
{
    n.walk()
}

/// Relies on `TreeCursor::node`: the node the cursor stands on.
#[verifier::external_body]
pub(crate) fn cursor_node<'a, 'tree>(c: &'a tree_sitter::TreeCursor<'tree>) -> (n:
    tree_sitter::Node<'tree>)
    ensures
        n == cursor_node_s(*c),
{
    c.node()
}

/// Relies on `Node::kind`: the node's grammar-defined kind tag.
#[verifier::external_body]
pub(crate) fn node_kind<'tree>(n: tree_sitter::Node<'tree>) -> (k: &'tree str)
    ensures
        k@ == node_kind_s(n),
{
    n.kind()
}

/// Relies on `Node::start_byte`.
#[verifier::external_body]
pub(crate) fn node_start_byte(n: tree_sitter::Node<'_>) -> (b: usize)
    ensures
        b == node_start_s(n),
{
    n.start_byte()
}

/// Relies on `Node::end_byte`.
#[verifier::external_body]
pub(crate) fn node_end_byte(n: tree_sitter::Node<'_>) -> (b: usize)
    ensures
        b == node_end_s(n),
{
    n.end_byte()
}

/// Relies on `TreeCursor::goto_first_child`.  Nothing is assumed of where the
/// cursor lands or of when the move succeeds.
#[verifier::external_body]
pub(crate) fn cursor_goto_first_child(c: &mut tree_sitter::TreeCursor<'_>) -> bool {
    c.goto_first_child()
}

/// Relies on `TreeCursor::goto_next_sibling`.  Nothing is assumed of where
/// the cursor lands or of when the move succeeds.
#[verifier::external_body]
pub(crate) fn cursor_goto_next_sibling(c: &mut tree_sitter::TreeCursor<'_>) -> bool {
    c.goto_next_sibling()
}

/// Relies on `TreeCursor::goto_parent`.  Nothing is assumed of where the
/// cursor lands or of when the move succeeds.
#[verifier::external_body]
pub(crate) fn cursor_goto_parent(c: &mut tree_sitter::TreeCursor<'_>) -> bool {
    c.goto_parent()
}

} // verus!
