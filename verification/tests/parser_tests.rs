use mdtree::lexer::lex;
use mdtree::parser::{build_tree, TokenStream};
use mdtree::tree::{
    Bold, Eol, Header, Italic, LineSpan, Node, Paragraph, Text, UnorderedList, Whitespace,
};

#[test]
fn test_break() {
    let input = "normal\n\ntext";
    let nodes = build_tree(input);

    assert_eq!(
        nodes,
        vec![
            Node::Paragraph(Paragraph {
                nodes: vec![Node::Text(Text {
                    value: "normal".to_string(),
                    position: LineSpan { start: 1, end: 1 }
                }),],
                position: LineSpan { start: 1, end: 1 }
            },),
            Node::Eol(Eol {
                position: LineSpan { start: 2, end: 2 }
            }),
            Node::Paragraph(Paragraph {
                nodes: vec![Node::Text(Text {
                    value: "text".to_string(),
                    position: LineSpan { start: 3, end: 3 }
                }),],
                position: LineSpan { start: 3, end: 3 }
            },),
        ],
    )
}

#[test]
fn test_multiple_text() {
    let input = "**bold**\n*italic*\nplain";
    let nodes = build_tree(input);

    assert_eq!(
        nodes,
        vec![
            Node::Paragraph(Paragraph {
                nodes: vec![Node::Bold(Bold {
                    nodes: vec![Node::Text(Text {
                        value: "bold".to_string(),
                        position: LineSpan { start: 1, end: 1 }
                    }),],
                    position: LineSpan { start: 1, end: 1 }
                })],
                position: LineSpan { start: 1, end: 1 }
            },),
            Node::Paragraph(Paragraph {
                nodes: vec![Node::Italic(Italic {
                    nodes: vec![Node::Text(Text {
                        value: "italic".to_string(),
                        position: LineSpan { start: 2, end: 2 }
                    }),],
                    position: LineSpan { start: 2, end: 2 }
                })],
                position: LineSpan { start: 2, end: 2 }
            },),
            Node::Paragraph(Paragraph {
                nodes: vec![Node::Text(Text {
                    value: "plain".to_string(),
                    position: LineSpan { start: 3, end: 3 }
                }),],
                position: LineSpan { start: 3, end: 3 }
            },)
        ],
    )
}

#[test]
fn test_closed_italic_marker() {
    let input = "*italic text*";
    let nodes = build_tree(input);

    assert_eq!(
        nodes,
        vec![Node::Paragraph(Paragraph {
            nodes: vec![Node::Italic(Italic {
                nodes: vec![
                    Node::Text(Text {
                        value: "italic".to_string(),
                        position: LineSpan { start: 1, end: 1 }
                    }),
                    Node::Whitespace(Whitespace {
                        position: LineSpan { start: 1, end: 1 }
                    }),
                    Node::Text(Text {
                        value: "text".to_string(),
                        position: LineSpan { start: 1, end: 1 }
                    }),
                ],
                position: LineSpan { start: 1, end: 1 }
            })],
            position: LineSpan { start: 1, end: 1 }
        },)],
    )
}

#[test]
fn test_unclosed_italic_marker() {
    let input = "*italic text";
    let nodes = build_tree(input);

    assert_eq!(
        nodes,
        vec![Node::Paragraph(Paragraph {
            nodes: vec![
                Node::Text(Text {
                    value: "*".to_string(),
                    position: LineSpan { start: 1, end: 1 }
                }),
                Node::Text(Text {
                    value: "italic".to_string(),
                    position: LineSpan { start: 1, end: 1 }
                }),
                Node::Whitespace(Whitespace {
                    position: LineSpan { start: 1, end: 1 }
                }),
                Node::Text(Text {
                    value: "text".to_string(),
                    position: LineSpan { start: 1, end: 1 }
                }),
            ],
            position: LineSpan { start: 1, end: 1 }
        },)],
    )
}

#[test]
fn test_unmatched_italic_marker() {
    let input = "italic text*";
    let nodes = build_tree(input);

    assert_eq!(
        nodes,
        vec![Node::Paragraph(Paragraph {
            nodes: vec![
                Node::Text(Text {
                    value: "italic".to_string(),
                    position: LineSpan { start: 1, end: 1 }
                }),
                Node::Whitespace(Whitespace {
                    position: LineSpan { start: 1, end: 1 }
                }),
                Node::Text(Text {
                    value: "text".to_string(),
                    position: LineSpan { start: 1, end: 1 }
                }),
                Node::Text(Text {
                    value: "*".to_string(),
                    position: LineSpan { start: 1, end: 1 }
                }),
            ],
            position: LineSpan { start: 1, end: 1 }
        },)],
    )
}

#[test]
fn test_closed_bold_marker() {
    let input = "**bold text**";
    let nodes = build_tree(input);

    assert_eq!(
        nodes,
        vec![Node::Paragraph(Paragraph {
            nodes: vec![Node::Bold(Bold {
                nodes: vec![
                    Node::Text(Text {
                        value: "bold".to_string(),
                        position: LineSpan { start: 1, end: 1 }
                    }),
                    Node::Whitespace(Whitespace {
                        position: LineSpan { start: 1, end: 1 }
                    }),
                    Node::Text(Text {
                        value: "text".to_string(),
                        position: LineSpan { start: 1, end: 1 }
                    }),
                ],
                position: LineSpan { start: 1, end: 1 }
            })],
            position: LineSpan { start: 1, end: 1 }
        },)],
    )
}

#[test]
fn test_unclosed_bold_marker() {
    let input = "**bold text";
    let nodes = build_tree(input);

    assert_eq!(
        nodes,
        vec![Node::Paragraph(Paragraph {
            nodes: vec![
                Node::Text(Text {
                    value: "**".to_string(),
                    position: LineSpan { start: 1, end: 1 }
                }),
                Node::Text(Text {
                    value: "bold".to_string(),
                    position: LineSpan { start: 1, end: 1 }
                }),
                Node::Whitespace(Whitespace {
                    position: LineSpan { start: 1, end: 1 }
                }),
                Node::Text(Text {
                    value: "text".to_string(),
                    position: LineSpan { start: 1, end: 1 }
                }),
            ],
            position: LineSpan { start: 1, end: 1 }
        },)],
    )
}

#[test]
fn parser_test_header_marker() {
    let input = "# Header text";
    let nodes = build_tree(input);

    assert_eq!(
        nodes,
        vec![Node::Header(Header {
            level: 1,
            nodes: vec![Node::Paragraph(Paragraph {
                nodes: vec![
                    Node::Text(Text {
                        value: "Header".to_string(),
                        position: LineSpan { start: 1, end: 1 }
                    }),
                    Node::Whitespace(Whitespace {
                        position: LineSpan { start: 1, end: 1 }
                    }),
                    Node::Text(Text {
                        value: "text".to_string(),
                        position: LineSpan { start: 1, end: 1 }
                    }),
                ],
                position: LineSpan { start: 1, end: 1 }
            })],
            position: LineSpan { start: 1, end: 1 }
        })]
    )
}

#[test]
fn test_header_with_no_text() {
    let input = "### \ntext";
    let nodes = build_tree(input);

    assert_eq!(
        nodes,
        vec![
            Node::Header(Header {
                level: 3,
                nodes: vec![Node::Paragraph(Paragraph {
                    nodes: vec![],
                    position: LineSpan { start: 1, end: 1 }
                })],
                position: LineSpan { start: 1, end: 1 }
            }),
            Node::Paragraph(Paragraph {
                nodes: vec![Node::Text(Text {
                    value: "text".to_string(),
                    position: LineSpan { start: 2, end: 2 }
                }),],
                position: LineSpan { start: 2, end: 2 }
            })
        ]
    )
}

#[test]
fn test_too_long_header_marker() {
    let input = "####### Header text\n";
    let nodes = build_tree(input);

    assert_eq!(
        nodes,
        vec![Node::Paragraph(Paragraph {
            nodes: vec![
                Node::Text(Text {
                    value: "#######".to_string(),
                    position: LineSpan { start: 1, end: 1 }
                }),
                Node::Whitespace(Whitespace {
                    position: LineSpan { start: 1, end: 1 }
                }),
                Node::Text(Text {
                    value: "Header".to_string(),
                    position: LineSpan { start: 1, end: 1 }
                }),
                Node::Whitespace(Whitespace {
                    position: LineSpan { start: 1, end: 1 }
                }),
                Node::Text(Text {
                    value: "text".to_string(),
                    position: LineSpan { start: 1, end: 1 }
                }),
            ],
            position: LineSpan { start: 1, end: 1 }
        },)],
    )
}

#[test]
fn test_invalid_header_marker() {
    let input = "#Header text";
    let nodes = build_tree(input);

    assert_eq!(
        nodes,
        vec![Node::Paragraph(Paragraph {
            nodes: vec![
                Node::Text(Text {
                    value: "#Header".to_string(),
                    position: LineSpan { start: 1, end: 1 }
                }),
                Node::Whitespace(Whitespace {
                    position: LineSpan { start: 1, end: 1 }
                }),
                Node::Text(Text {
                    value: "text".to_string(),
                    position: LineSpan { start: 1, end: 1 }
                }),
            ],
            position: LineSpan { start: 1, end: 1 }
        },)],
    )
}

#[test]
fn parser_test_unordered_list() {
    let input = "- item 1\n- item 2\n- item 3\n";
    let nodes = build_tree(input);

    assert_eq!(
        nodes,
        vec![
            Node::UnorderedList(UnorderedList {
                level: 0,
                nodes: vec![
                    Node::Text(Text {
                        value: "item".to_string(),
                        position: LineSpan { start: 1, end: 1 }
                    }),
                    Node::Whitespace(Whitespace {
                        position: LineSpan { start: 1, end: 1 }
                    }),
                    Node::Text(Text {
                        value: "1".to_string(),
                        position: LineSpan { start: 1, end: 1 }
                    }),
                ],
                children: vec![],
                position: LineSpan { start: 1, end: 1 }
            }),
            Node::UnorderedList(UnorderedList {
                level: 0,
                nodes: vec![
                    Node::Text(Text {
                        value: "item".to_string(),
                        position: LineSpan { start: 2, end: 2 }
                    }),
                    Node::Whitespace(Whitespace {
                        position: LineSpan { start: 2, end: 2 }
                    }),
                    Node::Text(Text {
                        value: "2".to_string(),
                        position: LineSpan { start: 2, end: 2 }
                    }),
                ],
                children: vec![],
                position: LineSpan { start: 2, end: 2 }
            }),
            Node::UnorderedList(UnorderedList {
                level: 0,
                nodes: vec![
                    Node::Text(Text {
                        value: "item".to_string(),
                        position: LineSpan { start: 3, end: 3 }
                    }),
                    Node::Whitespace(Whitespace {
                        position: LineSpan { start: 3, end: 3 }
                    }),
                    Node::Text(Text {
                        value: "3".to_string(),
                        position: LineSpan { start: 3, end: 3 }
                    }),
                ],
                children: vec![],
                position: LineSpan { start: 3, end: 3 }
            }),
        ],
    )
}

#[test]
fn test_unordered_nested_list() {
    let input = "- item 1\n - item 1.1\n";
    let nodes = build_tree(input);

    assert_eq!(
        nodes,
        vec![Node::UnorderedList(UnorderedList {
            level: 0,
            nodes: vec![
                Node::Text(Text {
                    value: "item".to_string(),
                    position: LineSpan { start: 1, end: 1 }
                }),
                Node::Whitespace(Whitespace {
                    position: LineSpan { start: 1, end: 1 }
                }),
                Node::Text(Text {
                    value: "1".to_string(),
                    position: LineSpan { start: 1, end: 1 }
                }),
            ],
            children: vec![Node::UnorderedList(UnorderedList {
                level: 1,
                nodes: vec![
                    Node::Text(Text {
                        value: "item".to_string(),
                        position: LineSpan { start: 2, end: 2 }
                    }),
                    Node::Whitespace(Whitespace {
                        position: LineSpan { start: 2, end: 2 }
                    }),
                    Node::Text(Text {
                        value: "1.1".to_string(),
                        position: LineSpan { start: 2, end: 2 }
                    }),
                ],
                children: vec![],
                position: LineSpan { start: 2, end: 2 }
            }),],
            position: LineSpan { start: 1, end: 2 }
        }),],
    )
}

#[test]
fn test_nested_unordered_list_in_two_levels() {
    let input = "- item 1\n - item 1.1\n  - item 1.1.1";
    let nodes = build_tree(input);

    assert_eq!(
        nodes,
        vec![Node::UnorderedList(UnorderedList {
            level: 0,
            nodes: vec![
                Node::Text(Text {
                    value: "item".to_string(),
                    position: LineSpan { start: 1, end: 1 }
                }),
                Node::Whitespace(Whitespace {
                    position: LineSpan { start: 1, end: 1 }
                }),
                Node::Text(Text {
                    value: "1".to_string(),
                    position: LineSpan { start: 1, end: 1 }
                }),
            ],
            children: vec![Node::UnorderedList(UnorderedList {
                level: 1,
                nodes: vec![
                    Node::Text(Text {
                        value: "item".to_string(),
                        position: LineSpan { start: 2, end: 2 }
                    }),
                    Node::Whitespace(Whitespace {
                        position: LineSpan { start: 2, end: 2 }
                    }),
                    Node::Text(Text {
                        value: "1.1".to_string(),
                        position: LineSpan { start: 2, end: 2 }
                    }),
                ],
                children: vec![Node::UnorderedList(UnorderedList {
                    level: 2,
                    nodes: vec![
                        Node::Text(Text {
                            value: "item".to_string(),
                            position: LineSpan { start: 3, end: 3 }
                        }),
                        Node::Whitespace(Whitespace {
                            position: LineSpan { start: 3, end: 3 }
                        }),
                        Node::Text(Text {
                            value: "1.1.1".to_string(),
                            position: LineSpan { start: 3, end: 3 }
                        }),
                    ],
                    children: vec![],
                    position: LineSpan { start: 3, end: 3 }
                }),],
                position: LineSpan { start: 2, end: 3 }
            }),],
            position: LineSpan { start: 1, end: 3 }
        }),],
    )
}

#[test]
fn test_two_unordered_list() {
    let input = "- item1\n - item1.1\n- item2";
    let nodes = build_tree(input);

    assert_eq!(
        nodes,
        vec![
            Node::UnorderedList(UnorderedList {
                level: 0,
                nodes: vec![Node::Text(Text {
                    value: "item1".to_string(),
                    position: LineSpan { start: 1, end: 1 }
                }),],
                children: vec![Node::UnorderedList(UnorderedList {
                    level: 1,
                    nodes: vec![Node::Text(Text {
                        value: "item1.1".to_string(),
                        position: LineSpan { start: 2, end: 2 }
                    }),],
                    children: vec![],
                    position: LineSpan { start: 2, end: 2 }
                }),],
                position: LineSpan { start: 1, end: 2 }
            }),
            Node::UnorderedList(UnorderedList {
                level: 0,
                nodes: vec![Node::Text(Text {
                    value: "item2".to_string(),
                    position: LineSpan { start: 3, end: 3 }
                }),],
                children: vec![],
                position: LineSpan { start: 3, end: 3 }
            }),
        ],
    )
}

#[test]
fn test_unordered_complexly_nested_list() {
    let input =
        "- item 1\n - item 1.1\n - item 1.2\n  - item 1.2.1\n   - item 1.2.1.1\n - item 1.3";
    let nodes = build_tree(input);

    assert_eq!(
        nodes,
        vec![Node::UnorderedList(UnorderedList {
            level: 0,
            nodes: vec![
                Node::Text(Text {
                    value: "item".to_string(),
                    position: LineSpan { start: 1, end: 1 }
                }),
                Node::Whitespace(Whitespace {
                    position: LineSpan { start: 1, end: 1 }
                }),
                Node::Text(Text {
                    value: "1".to_string(),
                    position: LineSpan { start: 1, end: 1 }
                }),
            ],
            children: vec![
                Node::UnorderedList(UnorderedList {
                    level: 1,
                    nodes: vec![
                        Node::Text(Text {
                            value: "item".to_string(),
                            position: LineSpan { start: 2, end: 2 }
                        }),
                        Node::Whitespace(Whitespace {
                            position: LineSpan { start: 2, end: 2 }
                        }),
                        Node::Text(Text {
                            value: "1.1".to_string(),
                            position: LineSpan { start: 2, end: 2 }
                        }),
                    ],
                    children: vec![],
                    position: LineSpan { start: 2, end: 2 }
                }),
                Node::UnorderedList(UnorderedList {
                    level: 1,
                    nodes: vec![
                        Node::Text(Text {
                            value: "item".to_string(),
                            position: LineSpan { start: 3, end: 3 }
                        }),
                        Node::Whitespace(Whitespace {
                            position: LineSpan { start: 3, end: 3 }
                        }),
                        Node::Text(Text {
                            value: "1.2".to_string(),
                            position: LineSpan { start: 3, end: 3 }
                        }),
                    ],
                    children: vec![Node::UnorderedList(UnorderedList {
                        level: 2,
                        nodes: vec![
                            Node::Text(Text {
                                value: "item".to_string(),
                                position: LineSpan { start: 4, end: 4 }
                            }),
                            Node::Whitespace(Whitespace {
                                position: LineSpan { start: 4, end: 4 }
                            }),
                            Node::Text(Text {
                                value: "1.2.1".to_string(),
                                position: LineSpan { start: 4, end: 4 }
                            }),
                        ],
                        children: vec![Node::UnorderedList(UnorderedList {
                            level: 3,
                            nodes: vec![
                                Node::Text(Text {
                                    value: "item".to_string(),
                                    position: LineSpan { start: 5, end: 5 }
                                }),
                                Node::Whitespace(Whitespace {
                                    position: LineSpan { start: 5, end: 5 }
                                }),
                                Node::Text(Text {
                                    value: "1.2.1.1".to_string(),
                                    position: LineSpan { start: 5, end: 5 }
                                }),
                            ],
                            children: vec![],
                            position: LineSpan { start: 5, end: 5 }
                        }),],
                        position: LineSpan { start: 4, end: 5 }
                    }),],
                    position: LineSpan { start: 3, end: 5 }
                }),
                Node::UnorderedList(UnorderedList {
                    level: 1,
                    nodes: vec![
                        Node::Text(Text {
                            value: "item".to_string(),
                            position: LineSpan { start: 6, end: 6 }
                        }),
                        Node::Whitespace(Whitespace {
                            position: LineSpan { start: 6, end: 6 }
                        }),
                        Node::Text(Text {
                            value: "1.3".to_string(),
                            position: LineSpan { start: 6, end: 6 }
                        }),
                    ],
                    children: vec![],
                    position: LineSpan { start: 6, end: 6 }
                }),
            ],
            position: LineSpan { start: 1, end: 6 }
        }),],
    )
}

#[test]
fn test_unordered_list_started_with_nested_content() {
    let input = " - item1";
    let nodes = build_tree(input);

    assert_eq!(
        nodes,
        vec![Node::Paragraph(Paragraph {
            nodes: vec![
                Node::Whitespace(Whitespace {
                    position: LineSpan { start: 1, end: 1 }
                }),
                Node::Text(Text {
                    value: "- ".to_string(),
                    position: LineSpan { start: 1, end: 1 }
                }),
                Node::Text(Text {
                    value: "item1".to_string(),
                    position: LineSpan { start: 1, end: 1 }
                }),
            ],
            position: LineSpan { start: 1, end: 1 }
        },)],
    )
}

#[test]
fn test_fn_is_next_list() {
    // not nested
    let input = "- item1";
    let tokens = lex(input);
    let stream = TokenStream::new(tokens);
    let next_nest = stream.is_next_list();
    assert_eq!(next_nest, Some(0));

    // nested once
    let input = " - item1";
    let tokens = lex(input);
    let stream = TokenStream::new(tokens);
    let next_nest = stream.is_next_list();
    assert_eq!(next_nest, Some(1));
}
