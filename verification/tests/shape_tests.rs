use mdtree::lexer::lex;
use mdtree::parser::build_tree;
use mdtree::token::{Token, TokenType};
use mdtree::tree::{Header, Italic, LineSpan, Node, Paragraph, Text, Whitespace};

/// Checks the span discipline on a whole tree: every span is 1-based and
/// ordered, a parent's span contains every child's span, and the nested
/// lists of a list item are lists with a strictly greater level.
fn check_tree(node: &Node) {
    let span = node.position();
    assert!(1 <= span.start);
    assert!(span.start <= span.end);
    match node {
        Node::Header(header) => {
            assert!(1 <= header.level && header.level <= 6);
            for child in &header.nodes {
                let c = child.position();
                assert!(span.start <= c.start && c.end <= span.end);
                check_tree(child);
            }
        }
        Node::Paragraph(paragraph) => {
            for child in &paragraph.nodes {
                let c = child.position();
                assert!(span.start <= c.start && c.end <= span.end);
                check_tree(child);
            }
        }
        Node::UnorderedList(list) => {
            for child in &list.nodes {
                let c = child.position();
                assert!(span.start <= c.start && c.end <= span.end);
                check_tree(child);
            }
            for child in &list.children {
                let c = child.position();
                assert!(span.start <= c.start && c.end <= span.end);
                match child {
                    Node::UnorderedList(nested) => assert!(nested.level > list.level),
                    _ => panic!("nested child of a list item must be a list"),
                }
                check_tree(child);
            }
        }
        Node::Italic(italic) => {
            for child in &italic.nodes {
                let c = child.position();
                assert!(span.start <= c.start && c.end <= span.end);
                check_tree(child);
            }
        }
        Node::Bold(bold) => {
            for child in &bold.nodes {
                let c = child.position();
                assert!(span.start <= c.start && c.end <= span.end);
                check_tree(child);
            }
        }
        Node::Text(text) => assert!(!text.value.is_empty()),
        Node::Whitespace(_) => {}
        Node::Eol(_) => {}
    }
}

#[test]
fn test_empty_input() {
    assert_eq!(lex(""), vec![]);
    assert_eq!(build_tree(""), vec![]);
}

#[test]
fn test_plain_text() {
    let input = "normal text";
    let nodes = build_tree(input);

    assert_eq!(
        nodes,
        vec![Node::Paragraph(Paragraph {
            nodes: vec![
                Node::Text(Text {
                    value: "normal".to_string(),
                    position: LineSpan { start: 1, end: 1 }
                }),
                Node::Whitespace(Whitespace {
                    position: LineSpan { start: 1, end: 1 }
                }),
                Node::Text(Text {
                    value: "text".to_string(),
                    position: LineSpan { start: 1, end: 1 }
                }),
            ],
            position: LineSpan { start: 1, end: 1 }
        },)],
    )
}

#[test]
fn test_dash_at_end_of_input() {
    // A `-` with nothing after it starts a free-text run of just itself.
    assert_eq!(
        lex("-"),
        vec![Token {
            token_type: TokenType::Text,
            value: "-".to_string(),
            line: 1,
        }]
    );
}

#[test]
fn test_dash_before_newline_absorbs_it() {
    // The list marker absorbs the following whitespace character even when
    // it is a newline: no end-of-line token, no line advance.
    assert_eq!(
        lex("-\nx"),
        vec![
            Token {
                token_type: TokenType::UnorderedList,
                value: "- ".to_string(),
                line: 1,
            },
            Token {
                token_type: TokenType::Text,
                value: "x".to_string(),
                line: 1,
            },
        ]
    );
}

#[test]
fn test_header_run_at_end_of_input_degrades() {
    // A marker run with nothing after it is not a header.
    let nodes = build_tree("#");
    assert_eq!(
        nodes,
        vec![Node::Paragraph(Paragraph {
            nodes: vec![Node::Text(Text {
                value: "#".to_string(),
                position: LineSpan { start: 1, end: 1 }
            })],
            position: LineSpan { start: 1, end: 1 }
        })]
    );
}

#[test]
fn test_six_markers_make_a_header() {
    let nodes = build_tree("###### x");
    assert_eq!(
        nodes,
        vec![Node::Header(Header {
            level: 6,
            nodes: vec![Node::Paragraph(Paragraph {
                nodes: vec![Node::Text(Text {
                    value: "x".to_string(),
                    position: LineSpan { start: 1, end: 1 }
                })],
                position: LineSpan { start: 1, end: 1 }
            })],
            position: LineSpan { start: 1, end: 1 }
        })]
    );
}

#[test]
fn test_seven_markers_never_make_a_header() {
    let nodes = build_tree("####### x");
    assert_eq!(nodes.len(), 1);
    for node in &nodes {
        assert!(!matches!(node, Node::Header(_)));
    }
}

#[test]
fn test_star_runs_collapse_pairwise() {
    // The two-character lookback keeps rewriting the last token, so any run
    // of two or more stars leaves one bold token.
    assert_eq!(
        lex("***"),
        vec![Token {
            token_type: TokenType::Bold,
            value: "**".to_string(),
            line: 1,
        }]
    );
    assert_eq!(
        lex("****"),
        vec![Token {
            token_type: TokenType::Bold,
            value: "**".to_string(),
            line: 1,
        }]
    );
}

#[test]
fn test_italic_stops_at_closing_marker() {
    let nodes = build_tree("*a* b");
    assert_eq!(
        nodes,
        vec![Node::Paragraph(Paragraph {
            nodes: vec![
                Node::Italic(Italic {
                    nodes: vec![Node::Text(Text {
                        value: "a".to_string(),
                        position: LineSpan { start: 1, end: 1 }
                    })],
                    position: LineSpan { start: 1, end: 1 }
                }),
                Node::Whitespace(Whitespace {
                    position: LineSpan { start: 1, end: 1 }
                }),
                Node::Text(Text {
                    value: "b".to_string(),
                    position: LineSpan { start: 1, end: 1 }
                }),
            ],
            position: LineSpan { start: 1, end: 1 }
        })]
    );
}

#[test]
fn test_bold_inside_italic_is_literal_text() {
    // A bold token inside an italic run is carried over as literal text.
    let nodes = build_tree("*a**b*");
    // Tokens: Italic, Text(a), Bold, Text(b), Italic.
    assert_eq!(
        nodes,
        vec![Node::Paragraph(Paragraph {
            nodes: vec![Node::Italic(Italic {
                nodes: vec![
                    Node::Text(Text {
                        value: "a".to_string(),
                        position: LineSpan { start: 1, end: 1 }
                    }),
                    Node::Text(Text {
                        value: "**".to_string(),
                        position: LineSpan { start: 1, end: 1 }
                    }),
                    Node::Text(Text {
                        value: "b".to_string(),
                        position: LineSpan { start: 1, end: 1 }
                    }),
                ],
                position: LineSpan { start: 1, end: 1 }
            })],
            position: LineSpan { start: 1, end: 1 }
        })]
    );
}

#[test]
fn test_all_token_values_nonempty() {
    let input = "# Title\n- item *one* **two**\n > quoted {a} [b] (c); !\n";
    for token in lex(input) {
        assert!(!token.value.is_empty());
    }
}

#[test]
fn test_token_lines_never_decrease() {
    let input = "# Title\ntext *em*\n- a\n - b\n\nend\n";
    let tokens = lex(input);
    for pair in tokens.windows(2) {
        assert!(pair[0].line <= pair[1].line);
    }
}

#[test]
fn test_spans_well_formed_on_nested_input() {
    let input =
        "# Title\n\n- item 1\n - item 1.1\n  - item 1.1.1\n - item 1.2\nplain *em* **bold**\n####### over\n## ok\n";
    let nodes = build_tree(input);
    assert!(!nodes.is_empty());
    for node in &nodes {
        check_tree(node);
    }
}

#[test]
fn test_list_child_levels_follow_indentation() {
    let nodes = build_tree("- a\n  - b");
    match &nodes[0] {
        Node::UnorderedList(list) => {
            assert_eq!(list.level, 0);
            assert_eq!(list.children.len(), 1);
            match &list.children[0] {
                Node::UnorderedList(child) => {
                    // Two leading whitespace tokens give nesting depth 2.
                    assert_eq!(child.level, 2);
                    assert!(child.level > list.level);
                }
                _ => panic!("expected a nested list"),
            }
        }
        _ => panic!("expected a list"),
    }
}

#[test]
fn test_content_free_item_keeps_child_inside_span() {
    // An item whose only content is a nested child closes when a sibling
    // marker follows, so the sibling starts a new top-level item and every
    // span stays inside its parent's.
    let nodes = build_tree("- \n - x\n- y");
    assert_eq!(nodes.len(), 2);
    for node in &nodes {
        check_tree(node);
    }
    match &nodes[0] {
        Node::UnorderedList(list) => {
            assert_eq!(list.position, LineSpan { start: 1, end: 2 });
            assert_eq!(list.children.len(), 1);
        }
        _ => panic!("expected a list"),
    }
}

#[test]
fn test_reserved_markers_surface_as_text_nodes() {
    // Token categories the builder does not act on come through as
    // ordinary literal text in a paragraph.
    let nodes = build_tree("> quote");
    assert_eq!(
        nodes,
        vec![Node::Paragraph(Paragraph {
            nodes: vec![
                Node::Text(Text {
                    value: ">".to_string(),
                    position: LineSpan { start: 1, end: 1 }
                }),
                Node::Whitespace(Whitespace {
                    position: LineSpan { start: 1, end: 1 }
                }),
                Node::Text(Text {
                    value: "quote".to_string(),
                    position: LineSpan { start: 1, end: 1 }
                }),
            ],
            position: LineSpan { start: 1, end: 1 }
        })]
    );
}

#[test]
fn test_punctuation_token_kinds() {
    let tokens = lex("{}[]();:!");
    let kinds: Vec<TokenType> = tokens.iter().map(|t| t.token_type).collect();
    assert_eq!(
        kinds,
        vec![
            TokenType::CarlyBracketOpen,
            TokenType::CarlyBracketClose,
            TokenType::SquareBracketOpen,
            TokenType::SquareBracketClose,
            TokenType::ParenthesisOpen,
            TokenType::ParenthesisClose,
            TokenType::SemiColon,
            TokenType::Colon,
            TokenType::Exclamation,
        ]
    );
    for token in &tokens {
        assert_eq!(token.line, 1);
        assert_eq!(token.value.len(), 1);
    }
}

#[test]
fn test_dash_without_space_is_literal_text() {
    // No space after `-`, so no list marker is recognized: the line is one
    // literal text run.
    let nodes = build_tree("-list");
    assert_eq!(
        nodes,
        vec![Node::Paragraph(Paragraph {
            nodes: vec![Node::Text(Text {
                value: "-list".to_string(),
                position: LineSpan { start: 1, end: 1 }
            })],
            position: LineSpan { start: 1, end: 1 }
        })]
    );
}
