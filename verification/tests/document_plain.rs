use edcore::document::Document;
use edcore::{EditError, Point};

#[test]
fn plain_insert_scenario() {
    // no grammar: edit splices and rendering falls back to plain text
    let mut d = Document::new("ab", "t", None);
    assert!(!d.has_grammar());
    let p = d.edit(1, 1, "X").unwrap();
    assert_eq!(d.content_string(), "aXb");
    assert_eq!(p, Point { row: 0, column: 2 });
    let lines = d.render_range(0, 1);
    assert_eq!(lines.len(), 1);
    assert_eq!(lines[0].len(), 1);
    assert_eq!(lines[0][0].text, "aXb");
    assert!(lines[0][0].kind.is_none());
}

#[test]
fn delete_past_end_is_rejected() {
    // deleting past the end leaves the content unchanged
    let mut d = Document::new("ab", "t", None);
    assert_eq!(d.edit(0, 100, ""), Err(EditError::OutOfRange));
    assert_eq!(d.content_string(), "ab");
}

#[test]
fn edit_replace_and_delete() {
    let mut d = Document::new("Hello!", "t", None);
    d.edit(1, 5, "i!").unwrap();
    assert_eq!(d.content_string(), "Hi!!");
    d.edit(3, 4, "").unwrap();
    assert_eq!(d.content_string(), "Hi!");
    d.edit(0, 3, "").unwrap();
    assert_eq!(d.content_string(), "");
}

#[test]
fn edit_normalizes_reversed_bounds() {
    // the two bounds may come in either order: they describe the same range
    let mut d = Document::new("abcdef", "t", None);
    let p = d.edit(4, 2, "x").unwrap();
    assert_eq!(d.content_string(), "abxef");
    assert_eq!(p, Point { row: 0, column: 3 });
    // a reversed range past the end is still rejected
    assert_eq!(d.edit(100, 0, "y"), Err(EditError::OutOfRange));
    assert_eq!(d.content_string(), "abxef");
}

#[test]
fn edit_order_insensitive() {
    let mut a = Document::new("abc", "t", None);
    let mut b = Document::new("abc", "t", None);
    let pa = a.edit(1, 2, "X").unwrap();
    let pb = b.edit(2, 1, "X").unwrap();
    assert_eq!(a.content_string(), b.content_string());
    assert_eq!(a.content_string(), "aXc");
    assert_eq!(pa, pb);
}

#[test]
fn edit_returns_position_after_inserted_text() {
    let mut d = Document::new("ab", "t", None);
    let p = d.edit(1, 1, "x\ny").unwrap();
    assert_eq!(d.content_string(), "ax\nyb");
    // the position after "x\ny" is char 4: row 1, column 1
    assert_eq!(p, Point { row: 1, column: 1 });
}

#[test]
fn insert_at_point_works_and_validates() {
    let mut d = Document::new("ab\ncd", "t", None);
    let q = d
        .insert_at_point(Point { row: 1, column: 1 }, "Z")
        .unwrap();
    assert_eq!(d.content_string(), "ab\ncZd");
    assert_eq!(q, Point { row: 1, column: 2 });
    assert_eq!(
        d.insert_at_point(Point { row: 0, column: 3 }, "Z"),
        Err(EditError::OutOfRange)
    );
    assert_eq!(d.content_string(), "ab\ncZd");
}

#[test]
fn delete_backwards_clamps_at_start_and_crosses_lines() {
    let mut d = Document::new("ab\ncd", "t", None);
    // deleting three characters back from (1,1) removes "b\nc"
    d.delete_backwards_at_point(Point { row: 1, column: 1 }, 3)
        .unwrap();
    assert_eq!(d.content_string(), "ad");
    // deleting more than exists clamps at the content start
    let mut d2 = Document::new("xy", "t", None);
    d2.delete_backwards_at_point(Point { row: 0, column: 1 }, 100)
        .unwrap();
    assert_eq!(d2.content_string(), "y");
}

#[test]
fn delete_forwards_clamps_at_end() {
    let mut d = Document::new("ab\ncd", "t", None);
    d.delete_forwards_at_point(Point { row: 0, column: 1 }, 3)
        .unwrap();
    assert_eq!(d.content_string(), "ad");
    let mut d2 = Document::new("xy", "t", None);
    d2.delete_forwards_at_point(Point { row: 0, column: 0 }, 100)
        .unwrap();
    assert_eq!(d2.content_string(), "");
}

#[test]
fn render_range_clamps_height_and_start() {
    let d = Document::new("a\nb\nc", "t", None);
    assert_eq!(d.render_range(0, 10).len(), 3);
    assert_eq!(d.render_range(1, 1).len(), 1);
    assert_eq!(d.render_range(1, 1)[0][0].text, "b");
    assert_eq!(d.render_range(3, 2).len(), 0);
    assert_eq!(d.render_range(0, 0).len(), 0);
}

#[test]
fn render_range_empty_line_has_no_spans() {
    let d = Document::new("a\n\nb", "t", None);
    let lines = d.render_range(0, 3);
    assert_eq!(lines.len(), 3);
    assert_eq!(lines[1].len(), 0);
}

#[test]
fn highlight_line_plain_fallback() {
    let d = Document::new("hello\nworld", "t", None);
    let spans = d.highlight_line(1, 0, 100).unwrap();
    assert_eq!(spans.len(), 1);
    assert_eq!(spans[0].text, "world");
    assert!(spans[0].kind.is_none());
    // offset and width are clamped to the line
    let spans = d.highlight_line(0, 2, 2).unwrap();
    assert_eq!(spans.len(), 1);
    assert_eq!(spans[0].text, "ll");
    assert!(matches!(
        d.highlight_line(2, 0, 1),
        Err(EditError::OutOfRange)
    ));
}

#[test]
fn get_tree_without_grammar_fails() {
    let mut d = Document::new("ab", "t", None);
    assert!(matches!(d.get_tree(), Err(EditError::ParseFailure)));
}

#[test]
fn document_name_is_kept() {
    let d = Document::new("ab", "scratch", None);
    assert_eq!(d.name, "scratch");
}

#[test]
fn multibyte_edit_keeps_offsets_in_chars() {
    let mut d = Document::new("é日𝄞", "t", None);
    let p = d.edit(1, 2, "x").unwrap();
    assert_eq!(d.content_string(), "éx𝄞");
    assert_eq!(p, Point { row: 0, column: 2 });
}
