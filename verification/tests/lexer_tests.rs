use mdtree::lexer::lex;
use mdtree::token::{Token, TokenType};

#[test]
fn lexer_test_header_marker() {
    let input = "#";
    let tokens = lex(input);

    assert_eq!(
        tokens,
        vec![Token {
            token_type: TokenType::Header,
            value: '#'.to_string(),
            line: 1
        }]
    )
}

#[test]
fn test_multiple_markers() {
    let input = "# > ` * !";
    let tokens = lex(input);

    assert_eq!(
        tokens,
        vec![
            Token {
                token_type: TokenType::Header,
                value: '#'.to_string(),
                line: 1,
            },
            Token {
                token_type: TokenType::Whitespace,
                value: ' '.to_string(),
                line: 1,
            },
            Token {
                token_type: TokenType::BlockQuote,
                value: '>'.to_string(),
                line: 1,
            },
            Token {
                token_type: TokenType::Whitespace,
                value: ' '.to_string(),
                line: 1,
            },
            Token {
                token_type: TokenType::InlineCode,
                value: '`'.to_string(),
                line: 1,
            },
            Token {
                token_type: TokenType::Whitespace,
                value: ' '.to_string(),
                line: 1,
            },
            Token {
                token_type: TokenType::Italic,
                value: '*'.to_string(),
                line: 1,
            },
            Token {
                token_type: TokenType::Whitespace,
                value: ' '.to_string(),
                line: 1,
            },
            Token {
                token_type: TokenType::Exclamation,
                value: '!'.to_string(),
                line: 1,
            }
        ]
    );
}

#[test]
fn lexer_test_unordered_list() {
    let input = "- list\n - list1-1";
    let tokens = lex(input);

    assert_eq!(
        tokens,
        vec![
            Token {
                token_type: TokenType::UnorderedList,
                value: "- ".to_string(),
                line: 1,
            },
            Token {
                token_type: TokenType::Text,
                value: "list".to_string(),
                line: 1,
            },
            Token {
                token_type: TokenType::Eol,
                value: "\n".to_string(),
                line: 1,
            },
            Token {
                token_type: TokenType::Whitespace,
                value: " ".to_string(),
                line: 2
            },
            Token {
                token_type: TokenType::UnorderedList,
                value: "- ".to_string(),
                line: 2,
            },
            Token {
                token_type: TokenType::Text,
                value: "list1-1".to_string(),
                line: 2,
            },
        ]
    );
}

#[test]
fn test_invalid_unordered_list() {
    let input = "-list";
    let tokens = lex(input);

    assert_eq!(
        tokens,
        vec![Token {
            token_type: TokenType::Text,
            value: "-list".to_string(),
            line: 1,
        },]
    );
}

#[test]
fn test_text_and_symbols() {
    let input = "Hello, world! #Markdown";
    let tokens = lex(input);

    assert_eq!(
        tokens,
        vec![
            Token {
                token_type: TokenType::Text,
                value: "Hello,".to_string(),
                line: 1,
            },
            Token {
                token_type: TokenType::Whitespace,
                value: ' '.to_string(),
                line: 1,
            },
            Token {
                token_type: TokenType::Text,
                value: "world!".to_string(),
                line: 1,
            },
            Token {
                token_type: TokenType::Whitespace,
                value: ' '.to_string(),
                line: 1,
            },
            Token {
                token_type: TokenType::Header,
                value: '#'.to_string(),
                line: 1,
            },
            Token {
                token_type: TokenType::Text,
                value: "Markdown".to_string(),
                line: 1,
            },
        ]
    );
}

#[test]
fn test_italic_markers() {
    let input = "*italic*";
    let tokens = lex(input);

    assert_eq!(
        tokens,
        vec![
            Token {
                token_type: TokenType::Italic,
                value: "*".to_string(),
                line: 1,
            },
            Token {
                token_type: TokenType::Text,
                value: "italic".to_string(),
                line: 1,
            },
            Token {
                token_type: TokenType::Italic,
                value: "*".to_string(),
                line: 1,
            },
        ]
    );
}

#[test]
fn test_bold_markers() {
    let input = "**bold**";
    let tokens = lex(input);

    assert_eq!(
        tokens,
        vec![
            Token {
                token_type: TokenType::Bold,
                value: "**".to_string(),
                line: 1,
            },
            Token {
                token_type: TokenType::Text,
                value: "bold".to_string(),
                line: 1,
            },
            Token {
                token_type: TokenType::Bold,
                value: "**".to_string(),
                line: 1,
            },
        ]
    );
}

#[test]
fn test_multiline_input() {
    let input = "# Header\n- List Item\n";
    let tokens = lex(input);

    assert_eq!(
        tokens,
        vec![
            Token {
                token_type: TokenType::Header,
                value: '#'.to_string(),
                line: 1,
            },
            Token {
                token_type: TokenType::Whitespace,
                value: ' '.to_string(),
                line: 1,
            },
            Token {
                token_type: TokenType::Text,
                value: "Header".to_string(),
                line: 1,
            },
            Token {
                token_type: TokenType::Eol,
                value: '\n'.to_string(),
                line: 1,
            },
            Token {
                token_type: TokenType::UnorderedList,
                value: "- ".to_string(),
                line: 2,
            },
            Token {
                token_type: TokenType::Text,
                value: "List".to_string(),
                line: 2,
            },
            Token {
                token_type: TokenType::Whitespace,
                value: ' '.to_string(),
                line: 2,
            },
            Token {
                token_type: TokenType::Text,
                value: "Item".to_string(),
                line: 2,
            },
            Token {
                token_type: TokenType::Eol,
                value: '\n'.to_string(),
                line: 2,
            },
        ]
    );
}
