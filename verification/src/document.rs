//! The document (buffer): a text store composed with an optional grammar and
//! its syntax synchronizer.  Every mutation goes through `edit`, which keeps
//! the stored tree exactly what a fresh parse of the current content would
//! yield — the synchronizer never leaves a stale tree behind.
use vstd::prelude::*;
use vstd::string::StringExecFns;

use crate::highlight::{
    highlight, lemma_spans_concat_one, lone_tagged_span, range_inside_atomic, spans_concat,
    spans_nonempty, Span,
};
use crate::syntax::{
    descriptor_matches, language_usable, node_descendant_for_byte_range, node_kind_s, parse_nodes,
    parser_language, parser_new, parser_parse, parser_set_language, tree_apply_edit, tree_nodes,
    tree_root_node, valid_hint,
};
use crate::textmodel::{
    lemma_byte_of_mono, lemma_char_in_its_line, lemma_line_end_next, line_end, line_start,
    num_lines, splice,
};
use crate::textstore::{char_to_point_spec, point_to_char_spec, point_valid, TextStore};
use crate::{EditDescriptor, EditError, Point};

verus! {

/// The synchronizer's state: either no grammar, or a parser with its language
/// and the tree of the current content.  The pairing is structural: a tree
/// exists exactly when a grammar does.
enum SyntaxState {
    Unattached,
    Attached {
        parser: tree_sitter::Parser,
        tree: tree_sitter::Tree,
        lang: Ghost<tree_sitter::Language>,
    },
}

/// An allocated area of text, optionally kept synchronized with a syntax
/// tree.  Its view is the character sequence of its content.
pub struct Document {
    /// The display label.
    pub name: String,
    store: TextStore,
    syntax: SyntaxState,
}

impl View for Document {
    type V = Seq<char>;

    closed spec fn view(&self) -> Seq<char> {
        self.store@
    }
}

/// How many lines a render starting at `start_row` with the given height
/// covers.
pub open spec fn render_count(s: Seq<char>, start_row: int, height: int) -> int {
    if start_row >= num_lines(s) {
        0
    } else if height <= num_lines(s) - start_row {
        height
    } else {
        num_lines(s) - start_row
    }
}

/// The first character a line highlight with the given column offset covers.
pub open spec fn hl_start(s: Seq<char>, row: int, offset: int) -> int {
    if line_start(s, row) + offset <= line_end(s, row) {
        line_start(s, row) + offset
    } else {
        line_end(s, row)
    }
}

/// One past the last character a line highlight of the given width covers.
pub open spec fn hl_end(s: Seq<char>, row: int, offset: int, width: int) -> int {
    if hl_start(s, row, offset) + width <= line_end(s, row) {
        hl_start(s, row, offset) + width
    } else {
        line_end(s, row)
    }
}

/// The lower of an edit's two bounds: `edit` normalizes its arguments.
pub open spec fn lo_bound(start: int, end: int) -> int {
    if start <= end {
        start
    } else {
        end
    }
}

/// The higher of an edit's two bounds.
pub open spec fn hi_bound(start: int, end: int) -> int {
    if start <= end {
        end
    } else {
        start
    }
}

/// Editing is insensitive to the order of its two bounds: either order
/// describes the same normalized range, and so the same splice.  Together
/// with `Document::edit`'s contract — which depends on the bounds only
/// through the normalized range — two edits with swapped bounds from equal
/// states end in equal states.
pub proof fn lemma_edit_order_insensitive(s: Seq<char>, a: int, b: int, t: Seq<char>)
    ensures
        lo_bound(a, b) == lo_bound(b, a),
        hi_bound(a, b) == hi_bound(b, a),
        splice(s, lo_bound(a, b), hi_bound(a, b), t) == splice(s, lo_bound(b, a), hi_bound(b, a), t),
{
}

impl Document {
    /// The display label.
    pub closed spec fn label(&self) -> Seq<char> {
        self.name@
    }

    /// Whether a grammar (and with it a parser and a tree) is attached.
    pub closed spec fn is_attached(&self) -> bool {
        self.syntax is Attached
    }

    /// The attached grammar.
    pub closed spec fn grammar(&self) -> tree_sitter::Language {
        match self.syntax {
            SyntaxState::Attached { lang, .. } => lang@,
            SyntaxState::Unattached => arbitrary(),
        }
    }

    /// The nodes of the stored syntax tree.
    pub closed spec fn stored_nodes(&self) -> Seq<(Seq<char>, int, int, int)> {
        match self.syntax {
            SyntaxState::Attached { tree, .. } => tree_nodes(tree),
            SyntaxState::Unattached => arbitrary(),
        }
    }

    /// Well-formedness: the parser really has the attached language, and the
    /// stored tree is the parse of the current content.
    pub closed spec fn wf(&self) -> bool {
        match self.syntax {
            SyntaxState::Unattached => true,
            SyntaxState::Attached { parser, tree, lang } => parser_language(parser) == Some(lang@)
                && tree_nodes(tree) == parse_nodes(lang@, self.store@) && valid_hint(
                tree,
                self.store@,
            ),
        }
    }

    /// The synchronizer invariant, stated over the public model: whenever a
    /// grammar is attached, the stored tree's nodes are exactly those a parse
    /// from scratch of the current content yields.
    pub open spec fn synced(&self) -> bool {
        self.is_attached() ==> self.stored_nodes() == parse_nodes(self.grammar(), self@)
    }

    /// Builds a document.  A grammar that cannot be used (its tables are
    /// unusable or of an incompatible version) is dropped and the document
    /// falls back to plain text; attaching never fails the document itself.
    pub fn new(content: &str, name: &str, language: Option<tree_sitter::Language>) -> (d: Document)
        ensures
            d.wf(),
            d.synced(),
            d@ == content@,
            d.label() == name@,
            d.is_attached() <==> (language is Some && language_usable(language->Some_0)),
            d.is_attached() ==> d.grammar() == language->Some_0,
    {
        let mut d: Document = Document {
            name: String::from_str(name),
            store: TextStore::new(content),
            syntax: SyntaxState::Unattached,
        };
        match language {
            Some(l) => {
                let _ = d.attach(l);
            },
            None => {},
        }
        d
    }

    /// Attaches a grammar: parses the full current content and transitions to
    /// the synchronized state.  Fails with `GrammarError` — leaving the
    /// document unattached — exactly when the parser refuses the grammar;
    /// text that merely parses with syntax errors is not an error.
    pub fn attach(&mut self, language: tree_sitter::Language) -> (r: Result<(), EditError>)
        requires
            old(self).wf(),
        ensures
            final(self).wf(),
            final(self).synced(),
            final(self)@ == old(self)@,
            final(self).label() == old(self).label(),
            r is Ok <==> language_usable(language),
            r is Ok ==> final(self).is_attached() && final(self).grammar() == language,
            r is Err ==> r == Err::<(), EditError>(EditError::GrammarError)
                && !final(self).is_attached(),
    {
        let mut parser: tree_sitter::Parser = parser_new();
        match parser_set_language(&mut parser, &language) {
            Err(_) => {
                self.syntax = SyntaxState::Unattached;
                return Err(EditError::GrammarError);
            },
            Ok(()) => {},
        }
        let len: usize = self.store.len_chars();
        let full: String = self.store.slice_u(0, len);
        proof {
            assert(self.store@.subrange(0, self.store@.len() as int) =~= self.store@);
        }
        match parser_parse(&mut parser, full.as_str(), None) {
            Some(t) => {
                self.syntax = SyntaxState::Attached { parser, tree: t, lang: Ghost(language) };
                Ok(())
            },
            None => {
                proof {
                    assert(false);
                }
                Err(EditError::GrammarError)
            },
        }
    }

    /// Number of characters of content.
    pub fn len_chars(&self) -> (n: usize)
        ensures
            n == self@.len(),
    {
        self.store.len_chars()
    }

    /// Number of lines of content.
    pub fn len_lines(&self) -> (n: usize)
        ensures
            n == num_lines(self@),
    {
        self.store.len_lines()
    }

    /// Whether a grammar is attached.
    pub fn has_grammar(&self) -> (r: bool)
        ensures
            r == self.is_attached(),
    {
        match &self.syntax {
            SyntaxState::Attached { .. } => true,
            SyntaxState::Unattached => false,
        }
    }

    /// The full content as an owned string.
    pub fn content_string(&self) -> (t: String)
        ensures
            t@ == self@,
    {
        let len: usize = self.store.len_chars();
        let t: String = self.store.slice_u(0, len);
        proof {
            assert(self.store@.subrange(0, self.store@.len() as int) =~= self.store@);
        }
        t
    }

    /// The single mutation entry point: replaces the character range between
    /// its two bounds by `text`.  The bounds are normalized (either order
    /// means the same range); equal bounds insert, an empty `text` deletes.
    /// A request past the end is rejected with `OutOfRange` and leaves
    /// document and tree untouched.  On success the store holds the spliced
    /// content, the tree (if attached) is patched and reparsed before the
    /// call returns, and the returned point is the position immediately
    /// following the inserted text.
    pub fn edit(&mut self, start: usize, end: usize, text: &str) -> (r: Result<Point, EditError>)
        requires
            old(self).wf(),
        ensures
            final(self).wf(),
            final(self).synced(),
            final(self).label() == old(self).label(),
            final(self).is_attached() == old(self).is_attached(),
            final(self).is_attached() ==> final(self).grammar() == old(self).grammar(),
            hi_bound(start as int, end as int) <= old(self)@.len() ==> final(self)@ == splice(
                old(self)@,
                lo_bound(start as int, end as int),
                hi_bound(start as int, end as int),
                text@,
            ) && (r matches Ok(p) && p == char_to_point_spec(
                final(self)@,
                lo_bound(start as int, end as int) + text@.len(),
            )),
            hi_bound(start as int, end as int) > old(self)@.len() ==> r == Err::<Point, EditError>(
                EditError::OutOfRange,
            ) && final(self)@ == old(self)@,
    {
        let len: usize = self.store.len_chars();
        let lo: usize = if start <= end {
            start
        } else {
            end
        };
        let hi: usize = if start <= end {
            end
        } else {
            start
        };
        if hi > len {
            return Err(EditError::OutOfRange);
        }
        let ghost old_content: Seq<char> = self.store@;
        // the pre-edit half of the descriptor, in the old coordinates
        proof {
            lemma_char_in_its_line(old_content, lo as int);
            lemma_char_in_its_line(old_content, hi as int);
        }
        let start_byte: usize = self.store.char_to_byte_u(lo);
        let old_end_byte: usize = self.store.char_to_byte_u(hi);
        let start_row: usize = self.store.char_to_line_u(lo);
        let old_end_row: usize = self.store.char_to_line_u(hi);
        proof {
            lemma_byte_of_mono(old_content, line_start(old_content, start_row as int), lo as int);
            lemma_byte_of_mono(old_content, line_start(old_content, old_end_row as int), hi as int);
        }
        let start_line_byte: usize = self.store.line_to_byte_u(start_row);
        let old_end_line_byte: usize = self.store.line_to_byte_u(old_end_row);
        let start_col: usize = start_byte - start_line_byte;
        let old_end_col: usize = old_end_byte - old_end_line_byte;
        // mutate the store
        let _ = self.store.remove(lo, hi);
        let _ = self.store.insert(lo, text);
        let ghost new_content: Seq<char> = self.store@;
        proof {
            assert(new_content =~= splice(old_content, lo as int, hi as int, text@));
        }
        // the post-edit half of the descriptor, in the new coordinates
        let new_len: usize = self.store.len_chars();
        let removed: usize = hi - lo;
        let inserted: usize = new_len - (len - removed);
        let new_end_char: usize = lo + inserted;
        proof {
            lemma_char_in_its_line(new_content, new_end_char as int);
        }
        let new_end_byte: usize = self.store.char_to_byte_u(new_end_char);
        let new_end_row: usize = self.store.char_to_line_u(new_end_char);
        proof {
            lemma_byte_of_mono(
                new_content,
                line_start(new_content, new_end_row as int),
                new_end_char as int,
            );
        }
        let new_end_line_byte: usize = self.store.line_to_byte_u(new_end_row);
        let new_end_col: usize = new_end_byte - new_end_line_byte;
        let desc: EditDescriptor = EditDescriptor {
            start_byte,
            old_end_byte,
            new_end_byte,
            start_row,
            start_col,
            old_end_row,
            old_end_col,
            new_end_row,
            new_end_col,
        };
        proof {
            assert(descriptor_matches(old_content, lo as int, hi as int, text@, desc));
        }
        // synchronize the tree: patch, then reparse, before returning
        match &mut self.syntax {
            SyntaxState::Unattached => {},
            SyntaxState::Attached { parser, tree, lang } => {
                tree_apply_edit(tree, &desc);
                proof {
                    // the patched tree is a valid reuse hint for the new text
                    assert(valid_hint(*tree, splice(old_content, lo as int, hi as int, text@)));
                }
                let full: String = self.store.slice_u(0, new_len);
                proof {
                    assert(self.store@.subrange(0, self.store@.len() as int) =~= self.store@);
                }
                match parser_parse(parser, full.as_str(), Some(tree)) {
                    Some(t) => {
                        *tree = t;
                    },
                    None => {
                        proof {
                            assert(false);
                        }
                    },
                }
            },
        }
        match self.store.char_to_point(new_end_char) {
            Ok(p) => Ok(p),
            Err(_) => {
                proof {
                    assert(false);
                }
                Err(EditError::OutOfRange)
            },
        }
    }

    /// Inserts text at a (row, column) position; rejects an invalid position.
    /// Returns the position immediately following the inserted text.
    pub fn insert_at_point(&mut self, p: Point, text: &str) -> (r: Result<Point, EditError>)
        requires
            old(self).wf(),
        ensures
            final(self).wf(),
            final(self).synced(),
            final(self).label() == old(self).label(),
            final(self).is_attached() == old(self).is_attached(),
            point_valid(old(self)@, p) ==> final(self)@ == splice(
                old(self)@,
                point_to_char_spec(old(self)@, p),
                point_to_char_spec(old(self)@, p),
                text@,
            ) && (r matches Ok(q) && q == char_to_point_spec(
                final(self)@,
                point_to_char_spec(old(self)@, p) + text@.len(),
            )),
            !point_valid(old(self)@, p) ==> r == Err::<Point, EditError>(EditError::OutOfRange)
                && final(self)@ == old(self)@,
    {
        let c: usize = match self.store.point_to_char(p) {
            Ok(c) => c,
            Err(e) => {
                return Err(e);
            },
        };
        self.edit(c, c, text)
    }

    /// Deletes up to `n` characters backwards from a (row, column) position,
    /// clamped at the start of the content (the deletion may cross line
    /// boundaries).  Returns the position of the deletion point.
    pub fn delete_backwards_at_point(&mut self, p: Point, n: usize) -> (r: Result<
        Point,
        EditError,
    >)
        requires
            old(self).wf(),
        ensures
            final(self).wf(),
            final(self).synced(),
            final(self).label() == old(self).label(),
            final(self).is_attached() == old(self).is_attached(),
            point_valid(old(self)@, p) ==> final(self)@ == splice(
                old(self)@,
                point_to_char_spec(old(self)@, p) - if n <= point_to_char_spec(old(self)@, p) {
                    n as int
                } else {
                    point_to_char_spec(old(self)@, p)
                },
                point_to_char_spec(old(self)@, p),
                Seq::empty(),
            ) && (r matches Ok(q) && q == char_to_point_spec(
                final(self)@,
                point_to_char_spec(old(self)@, p) - if n <= point_to_char_spec(old(self)@, p) {
                    n as int
                } else {
                    point_to_char_spec(old(self)@, p)
                },
            )),
            !point_valid(old(self)@, p) ==> r == Err::<Point, EditError>(EditError::OutOfRange)
                && final(self)@ == old(self)@,
    {
        let c: usize = match self.store.point_to_char(p) {
            Ok(c) => c,
            Err(e) => {
                return Err(e);
            },
        };
        let start: usize = if n <= c {
            c - n
        } else {
            0
        };
        proof {
            reveal_strlit("");
            assert(""@ =~= Seq::<char>::empty());
        }
        self.edit(start, c, "")
    }

    /// Deletes up to `n` characters forwards from a (row, column) position,
    /// clamped at the end of the content.  Returns the position of the
    /// deletion point.
    pub fn delete_forwards_at_point(&mut self, p: Point, n: usize) -> (r: Result<Point, EditError>)
        requires
            old(self).wf(),
        ensures
            final(self).wf(),
            final(self).synced(),
            final(self).label() == old(self).label(),
            final(self).is_attached() == old(self).is_attached(),
            point_valid(old(self)@, p) ==> final(self)@ == splice(
                old(self)@,
                point_to_char_spec(old(self)@, p),
                if point_to_char_spec(old(self)@, p) + n <= old(self)@.len() {
                    point_to_char_spec(old(self)@, p) + n
                } else {
                    old(self)@.len() as int
                },
                Seq::empty(),
            ) && (r matches Ok(q) && q == char_to_point_spec(
                final(self)@,
                point_to_char_spec(old(self)@, p),
            )),
            !point_valid(old(self)@, p) ==> r == Err::<Point, EditError>(EditError::OutOfRange)
                && final(self)@ == old(self)@,
    {
        let c: usize = match self.store.point_to_char(p) {
            Ok(c) => c,
            Err(e) => {
                return Err(e);
            },
        };
        let len: usize = self.store.len_chars();
        let end: usize = if n <= len - c {
            c + n
        } else {
            len
        };
        proof {
            reveal_strlit("");
            assert(""@ =~= Seq::<char>::empty());
        }
        self.edit(c, end, "")
    }

    /// Reparses the current content (reusing the stored tree) and returns the
    /// fresh tree.  Fails with `ParseFailure` when no parser is attached.
    pub fn get_tree(&mut self) -> (r: Result<tree_sitter::Tree, EditError>)
        requires
            old(self).wf(),
        ensures
            final(self).wf(),
            final(self).synced(),
            final(self)@ == old(self)@,
            final(self).label() == old(self).label(),
            final(self).is_attached() == old(self).is_attached(),
            final(self).grammar() == old(self).grammar(),
            final(self).stored_nodes() == old(self).stored_nodes(),
            old(self).is_attached() ==> (r matches Ok(t) && tree_nodes(t) == parse_nodes(
                old(self).grammar(),
                old(self)@,
            )),
            !old(self).is_attached() ==> r == Err::<tree_sitter::Tree, EditError>(
                EditError::ParseFailure,
            ),
    {
        let len: usize = self.store.len_chars();
        match &mut self.syntax {
            SyntaxState::Unattached => Err(EditError::ParseFailure),
            SyntaxState::Attached { parser, tree, lang } => {
                let full: String = self.store.slice_u(0, len);
                proof {
                    assert(self.store@.subrange(0, self.store@.len() as int) =~= self.store@);
                }
                match parser_parse(parser, full.as_str(), Some(tree)) {
                    Some(t) => Ok(t),
                    None => {
                        proof {
                            assert(false);
                        }
                        Err(EditError::ParseFailure)
                    },
                }
            },
        }
    }

    /// Highlights the character range `[start, end)` by walking the subtree
    /// under `node`.  The spans tile the range exactly, and a range lying
    /// fully inside an atomic node handed in yields exactly one span tagged
    /// with that node's kind; see `crate::highlight::highlight`.
    pub fn highlight<'t>(
        &self,
        node: tree_sitter::Node<'t>,
        start: usize,
        end: usize,
    ) -> (r: Result<Vec<Span>, EditError>)
        ensures
            start <= end <= self@.len() ==> (r matches Ok(spans) && spans_concat(spans@)
                == self@.subrange(start as int, end as int) && spans_nonempty(spans@)),
            start <= end <= self@.len() && range_inside_atomic(
                self@,
                node,
                start as int,
                end as int,
            ) ==> (r matches Ok(spans) && lone_tagged_span(
                self@,
                start as int,
                end as int,
                node_kind_s(node),
                spans@,
            )),
            !(start <= end <= self@.len()) ==> r == Err::<Vec<Span>, EditError>(
                EditError::OutOfRange,
            ),
    {
        let len: usize = self.store.len_chars();
        if start > end || end > len {
            return Err(EditError::OutOfRange);
        }
        Ok(highlight(&self.store, node, start, end))
    }

    /// Highlights one line, starting `offset` characters into the line and
    /// at most `width` characters wide; both are clamped to the line.  With a
    /// grammar the spans come from the tree walk; without one the whole
    /// stretch is a single untagged span.  The spans tile the stretch
    /// exactly.
    pub fn highlight_line(&self, row: usize, offset: usize, width: usize) -> (r: Result<
        Vec<Span>,
        EditError,
    >)
        requires
            self.wf(),
        ensures
            row < num_lines(self@) ==> (r matches Ok(spans) && spans_concat(spans@)
                == self@.subrange(
                hl_start(self@, row as int, offset as int),
                hl_end(self@, row as int, offset as int, width as int),
            ) && spans_nonempty(spans@)),
            row < num_lines(self@) && !self.is_attached() ==> (r matches Ok(spans) && spans@.len()
                == (if hl_start(self@, row as int, offset as int) < hl_end(
                self@,
                row as int,
                offset as int,
                width as int,
            ) {
                1int
            } else {
                0int
            }) && (forall|j: int| 0 <= j < spans@.len() ==> (#[trigger] spans@[j].kind) is None)),
            row >= num_lines(self@) ==> r == Err::<Vec<Span>, EditError>(EditError::OutOfRange),
    {
        let nlines: usize = self.store.len_lines();
        if row >= nlines {
            return Err(EditError::OutOfRange);
        }
        proof {
            lemma_line_end_next(self@, row as int);
        }
        let ls: usize = self.store.line_to_char_u(row);
        let le: usize = self.store.line_end_char(row);
        let off: usize = if offset <= le - ls {
            offset
        } else {
            le - ls
        };
        let start: usize = ls + off;
        let wid: usize = if width <= le - start {
            width
        } else {
            le - start
        };
        let end: usize = start + wid;
        match &self.syntax {
            SyntaxState::Unattached => {
                let mut spans: Vec<Span> = Vec::new();
                if start < end {
                    let t: String = self.store.slice_u(start, end);
                    let sp: Span = Span { text: t, kind: None };
                    spans.push(sp);
                    proof {
                        assert(spans@ =~= seq![sp]);
                        lemma_spans_concat_one(sp);
                    }
                } else {
                    proof {
                        assert(self@.subrange(start as int, end as int) =~= Seq::<char>::empty());
                    }
                }
                Ok(spans)
            },
            SyntaxState::Attached { parser, tree, lang } => {
                // look the node up by the whole line, so that a sub-range
                // inside an atomic token still walks from above that token
                let root: tree_sitter::Node = tree_root_node(tree);
                let sb: usize = self.store.char_to_byte_u(ls);
                let eb: usize = self.store.char_to_byte_u(le);
                let node: tree_sitter::Node = match node_descendant_for_byte_range(root, sb, eb) {
                    Some(nd) => nd,
                    None => root,
                };
                Ok(highlight(&self.store, node, start, end))
            },
        }
    }

    /// Renders up to `height` lines starting at `start_row`: per line either
    /// the highlighter's spans (grammar attached) or the raw line text as one
    /// untagged span.  Line breaks are not part of the rendered text.  Each
    /// returned line's spans tile that line exactly; without a grammar no
    /// span carries a tag.
    pub fn render_range(&self, start_row: usize, height: usize) -> (r: Vec<Vec<Span>>)
        requires
            self.wf(),
        ensures
            r@.len() == render_count(self@, start_row as int, height as int),
            forall|i: int|
                0 <= i < r@.len() ==> spans_concat(#[trigger] r@[i]@) == self@.subrange(
                    line_start(self@, start_row + i),
                    line_end(self@, start_row + i),
                ) && spans_nonempty(r@[i]@),
            !self.is_attached() ==> forall|i: int, j: int|
                0 <= i < r@.len() && 0 <= j < r@[i]@.len() ==> (#[trigger] r@[i]@[j].kind) is None,
            !self.is_attached() ==> forall|i: int|
                0 <= i < r@.len() ==> (#[trigger] r@[i]@).len() == (if line_start(
                    self@,
                    start_row + i,
                ) < line_end(self@, start_row + i) {
                    1int
                } else {
                    0int
                }),
    {
        let nlines: usize = self.store.len_lines();
        let mut r: Vec<Vec<Span>> = Vec::new();
        if start_row >= nlines {
            return r;
        }
        let count: usize = if height <= nlines - start_row {
            height
        } else {
            nlines - start_row
        };
        let mut k: usize = 0;
        while k < count
            invariant
                self.wf(),
                k <= count,
                num_lines(self@) <= usize::MAX,
                start_row + count <= num_lines(self@),
                count == render_count(self@, start_row as int, height as int),
                r@.len() == k,
                forall|i: int|
                    0 <= i < k ==> spans_concat(#[trigger] r@[i]@) == self@.subrange(
                        line_start(self@, start_row + i),
                        line_end(self@, start_row + i),
                    ) && spans_nonempty(r@[i]@),
                !self.is_attached() ==> forall|i: int, j: int|
                    0 <= i < k && 0 <= j < r@[i]@.len() ==> (#[trigger] r@[i]@[j].kind) is None,
                !self.is_attached() ==> forall|i: int|
                    0 <= i < k ==> (#[trigger] r@[i]@).len() == (if line_start(self@, start_row + i)
                        < line_end(self@, start_row + i) {
                        1int
                    } else {
                        0int
                    }),
            decreases count - k,
        {
            let row: usize = start_row + k;
            proof {
                lemma_line_end_next(self@, row as int);
            }
            let ls: usize = self.store.line_to_char_u(row);
            let le: usize = self.store.line_end_char(row);
            let spans: Vec<Span> = match &self.syntax {
                SyntaxState::Unattached => {
                    let mut spans: Vec<Span> = Vec::new();
                    if ls < le {
                        let t: String = self.store.slice_u(ls, le);
                        let sp: Span = Span { text: t, kind: None };
                        spans.push(sp);
                        proof {
                            assert(spans@ =~= seq![sp]);
                            lemma_spans_concat_one(sp);
                        }
                    } else {
                        proof {
                            assert(self@.subrange(ls as int, le as int) =~= Seq::<char>::empty());
                        }
                    }
                    proof {
                        assert(spans_concat(spans@) == self.store@.subrange(ls as int, le as int));
                    }
                    spans
                },
                SyntaxState::Attached { parser, tree, lang } => {
                    let root: tree_sitter::Node = tree_root_node(tree);
                    let sb: usize = self.store.char_to_byte_u(ls);
                    let eb: usize = self.store.char_to_byte_u(le);
                    let node: tree_sitter::Node = match node_descendant_for_byte_range(
                        root,
                        sb,
                        eb,
                    ) {
                        Some(nd) => nd,
                        None => root,
                    };
                    let spans: Vec<Span> = highlight(&self.store, node, ls, le);
                    proof {
                        assert(spans_concat(spans@) == self.store@.subrange(ls as int, le as int));
                    }
                    spans
                },
            };
            proof {
                assert(ls as int == line_start(self@, start_row + k));
                assert(le as int == line_end(self@, start_row + k));
                assert(spans_concat(spans@) == self@.subrange(
                    line_start(self@, start_row + k),
                    line_end(self@, start_row + k),
                ));
            }
            let ghost r_pre: Seq<Vec<Span>> = r@;
            r.push(spans);
            proof {
                assert(r@.len() == k + 1);
                assert(forall|i: int| 0 <= i < k ==> r@[i] == r_pre[i]);
                assert(r@[k as int]@ == r@.last()@);
            }
            k = k + 1;
        }
        r
    }
}

} // verus!
