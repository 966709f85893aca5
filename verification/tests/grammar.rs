use edcore::document::Document;
use edcore::highlight::Span;
use edcore::Point;

fn js_language() -> tree_sitter::Language {
    tree_sitter::Language::from(tree_sitter_javascript::LANGUAGE)
}

/// Collects (kind, start byte, end byte, depth) for every node, pre-order.
fn collect_nodes(tree: &tree_sitter::Tree) -> Vec<(String, usize, usize, usize)> {
    let mut out = Vec::new();
    let mut cursor = tree.root_node().walk();
    let mut depth: usize = 0;
    loop {
        let n = cursor.node();
        out.push((n.kind().to_string(), n.start_byte(), n.end_byte(), depth));
        if cursor.goto_first_child() {
            depth += 1;
            continue;
        }
        loop {
            if cursor.goto_next_sibling() {
                break;
            }
            if !cursor.goto_parent() {
                return out;
            }
            depth -= 1;
        }
    }
}

fn concat(spans: &[Span]) -> String {
    let mut s = String::new();
    for sp in spans {
        s.push_str(&sp.text);
    }
    s
}

#[test]
fn attach_parses_and_highlights() {
    let d = Document::new("let x = 1;", "t", Some(js_language()));
    assert!(d.has_grammar());
    let lines = d.render_range(0, 1);
    assert_eq!(lines.len(), 1);
    assert_eq!(concat(&lines[0]), "let x = 1;");
}

#[test]
fn comment_prefix_scenario() {
    // prepending "// " turns the first line into a comment node, and the
    // first rendered span of that line carries the "comment" tag
    let mut d = Document::new(
        "function hello() {\n  console.log(1);\n}",
        "t",
        Some(js_language()),
    );
    d.edit(0, 0, "// ").unwrap();
    assert_eq!(
        d.content_string(),
        "// function hello() {\n  console.log(1);\n}"
    );
    let fresh = d.get_tree().unwrap();
    let first = fresh
        .root_node()
        .descendant_for_byte_range(0, 3)
        .unwrap();
    let mut c = first;
    let comment = loop {
        if c.kind() == "comment" {
            break c;
        }
        match c.parent() {
            Some(p) => c = p,
            None => panic!("no comment node found"),
        }
    };
    assert_eq!(comment.start_byte(), 0);
    let lines = d.render_range(0, 1);
    assert_eq!(lines.len(), 1);
    assert_eq!(lines[0][0].kind.as_deref(), Some("comment"));
    assert!(lines[0][0].text.starts_with("// "));
}

#[test]
fn sync_invariant_after_edits() {
    // after each edit, the incrementally patched tree matches a parse from
    // scratch of the current content, node for node
    let mut d = Document::new("let x = 1;\nlet y = 2;\n", "t", Some(js_language()));
    let edits: Vec<(usize, usize, &str)> = vec![
        (4, 5, "longer_name"),
        (0, 0, "// header\n"),
        (10, 12, ""),
        (0, 4, "let q = \"s\"; "),
    ];
    for (start, end, text) in edits {
        d.edit(start, end, text).unwrap();
        let incremental = d.get_tree().unwrap();
        let mut parser = tree_sitter::Parser::new();
        parser.set_language(&js_language()).unwrap();
        let scratch = parser.parse(d.content_string(), None).unwrap();
        assert_eq!(collect_nodes(&incremental), collect_nodes(&scratch));
    }
}

#[test]
fn highlighter_coverage_over_ranges() {
    // the concatenation of the spans of every rendered line equals that
    // line's text, and arbitrary sub-ranges are tiled exactly
    let d = Document::new(
        "function f(a) {\n  return \"x\" + a; // done\n}",
        "t",
        Some(js_language()),
    );
    let content = d.content_string();
    let lines: Vec<&str> = content.split('\n').collect();
    let rendered = d.render_range(0, 10);
    assert_eq!(rendered.len(), lines.len());
    for (i, line) in lines.iter().enumerate() {
        assert_eq!(concat(&rendered[i]), *line);
        for sp in &rendered[i] {
            assert!(!sp.text.is_empty());
        }
    }
    for (offset, width) in [(0usize, 5usize), (2, 7), (5, 100), (0, 0)] {
        let spans = d.highlight_line(1, offset, width).unwrap();
        let line: Vec<char> = lines[1].chars().collect();
        let s = offset.min(line.len());
        let e = (s + width).min(line.len());
        let expected: String = line[s..e].iter().collect();
        assert_eq!(concat(&spans), expected);
    }
}

#[test]
fn atomic_comment_line_is_one_span() {
    // a range that is exactly a comment node yields a single tagged span
    let d = Document::new("// a comment\nlet x = 1;", "t", Some(js_language()));
    let spans = d.highlight_line(0, 0, 100).unwrap();
    assert_eq!(spans.len(), 1);
    assert_eq!(spans[0].kind.as_deref(), Some("comment"));
    assert_eq!(spans[0].text, "// a comment");
}

#[test]
fn atomic_string_interior_is_one_span() {
    // a range strictly inside a string literal yields exactly one span
    // tagged "string": the walk never descends into the delimiter children
    let d = Document::new("let s = \"abcdef\";", "t", Some(js_language()));
    // chars 10..13 are "bcd", inside the string node (bytes 8..16)
    let spans = d.highlight_line(0, 10, 3).unwrap();
    assert_eq!(spans.len(), 1);
    assert_eq!(spans[0].kind.as_deref(), Some("string"));
    assert_eq!(spans[0].text, "bcd");
}

#[test]
fn highlight_with_explicit_node() {
    let d = Document::new("let s = \"abc\";", "t", Some(js_language()));
    let mut parser = tree_sitter::Parser::new();
    parser.set_language(&js_language()).unwrap();
    let tree = parser.parse(d.content_string(), None).unwrap();
    let spans = d.highlight(tree.root_node(), 0, 14).unwrap();
    assert_eq!(concat(&spans), "let s = \"abc\";");
    assert!(d.highlight(tree.root_node(), 3, 2).is_err());
}

#[test]
fn edit_with_grammar_keeps_render_working() {
    let mut d = Document::new("let x = 1;", "t", Some(js_language()));
    let p = d.edit(8, 9, "\"two\"").unwrap();
    assert_eq!(d.content_string(), "let x = \"two\";");
    assert_eq!(p, Point { row: 0, column: 13 });
    let lines = d.render_range(0, 1);
    assert_eq!(concat(&lines[0]), "let x = \"two\";");
    let tagged: Vec<&Span> = lines[0]
        .iter()
        .filter(|sp| sp.kind.as_deref() == Some("string"))
        .collect();
    assert_eq!(tagged.len(), 1);
    assert_eq!(tagged[0].text, "\"two\"");
}

#[test]
fn multiline_multibyte_edit_stays_synced() {
    let mut d = Document::new("let s = \"héllo\";\nlet t = 1;\n", "t", Some(js_language()));
    d.edit(9, 14, "wörld\nx").unwrap();
    let incremental = d.get_tree().unwrap();
    let mut parser = tree_sitter::Parser::new();
    parser.set_language(&js_language()).unwrap();
    let scratch = parser.parse(d.content_string(), None).unwrap();
    assert_eq!(collect_nodes(&incremental), collect_nodes(&scratch));
}

#[test]
fn highlight_from_atomic_node_is_one_span() {
    // handing the walk an atomic node that covers the range yields exactly
    // one tagged span, never the delimiter children
    let d = Document::new("// note\nx;", "t", Some(js_language()));
    let mut parser = tree_sitter::Parser::new();
    parser.set_language(&js_language()).unwrap();
    let tree = parser.parse(d.content_string(), None).unwrap();
    let comment = tree.root_node().descendant_for_byte_range(0, 7).unwrap();
    assert_eq!(comment.kind(), "comment");
    let spans = d.highlight(comment, 2, 5).unwrap();
    assert_eq!(spans.len(), 1);
    assert_eq!(spans[0].kind.as_deref(), Some("comment"));
    assert_eq!(spans[0].text, " no");
}

#[test]
fn attach_after_new_transitions_to_synced() {
    let mut d = Document::new("let x = 1;", "t", None);
    assert!(!d.has_grammar());
    d.attach(js_language()).unwrap();
    assert!(d.has_grammar());
    let lines = d.render_range(0, 1);
    assert!(lines[0].len() > 1);
    assert_eq!(concat(&lines[0]), "let x = 1;");
}
