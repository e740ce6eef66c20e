//! The token data model: a classified lexical unit with a source line number.

use vstd::prelude::*;

verus! {

/// Lexical category of a token.
///
/// The tree builder acts on `Header`, `Text`, `Whitespace`, `Eol`,
/// `UnorderedList`, `Bold` and `Italic`; the remaining categories are a
/// reserved set kept for forward compatibility, and any token carrying one of
/// them is treated as ordinary free text by the builder.
#[derive(Debug, PartialEq, Eq, Structural, Clone, Copy)]
pub enum TokenType {
    /// `#`
    Header,
    /// A free-text run.
    Text,
    /// A single space character.
    Whitespace,
    /// `\n`, end of line.
    Eol,
    /// `- `, an unordered-list marker together with its trailing space.
    UnorderedList,
    /// `>`
    BlockQuote,
    /// Reserved: code block.
    CodeBlock,
    /// `` ` ``
    InlineCode,
    /// Reserved: annotation.
    Annotation,
    /// `**`
    Bold,
    /// `*`
    Italic,
    /// `{`
    CarlyBracketOpen,
    /// `}`
    CarlyBracketClose,
    /// `:`
    Colon,
    /// `;`
    SemiColon,
    /// `[`
    SquareBracketOpen,
    /// `]`
    SquareBracketClose,
    /// `(`
    ParenthesisOpen,
    /// `)`
    ParenthesisClose,
    /// Reserved: horizontal rule.
    HorizontalRule,
    /// Reserved: alert opening.
    AlertStart,
    /// Reserved: alert closing.
    AlertEnd,
    /// `!`
    Exclamation,
    /// Reserved: unclassified.
    Unknown,
}

/// A token: its category, the literal text it stands for, and the 1-based
/// source line on which it begins.
#[derive(Debug, PartialEq, Eq)]
pub struct Token {
    /// The lexical category.
    pub token_type: TokenType,
    /// The literal slice for variable-length tokens, the literal marker for
    /// fixed punctuation tokens.
    pub value: String,
    /// 1-based source line on which the token begins.
    pub line: usize,
}

/// The mathematical model of a [`Token`]: the same three fields with the text
/// as a sequence of characters and the line as an unbounded natural.
pub struct TokenModel {
    /// The lexical category.
    pub kind: TokenType,
    /// The literal text.
    pub value: Seq<char>,
    /// 1-based source line.
    pub line: nat,
}

impl View for Token {
    type V = TokenModel;

    open spec fn view(&self) -> TokenModel {
        TokenModel { kind: self.token_type, value: self.value@, line: self.line as nat }
    }
}

impl Clone for Token {
    fn clone(&self) -> (res: Self)
        ensures
            res == *self,
    {
        Token { token_type: self.token_type, value: self.value.clone(), line: self.line }
    }
}

/// The models of a sequence of tokens, in order.
pub open spec fn views_of(tokens: Seq<Token>) -> Seq<TokenModel> {
    tokens.map_values(|t: Token| t@)
}

/// How much the source line advances after `token`: one line after an
/// end-of-line token, none otherwise.
pub open spec fn eol_inc(token: TokenModel) -> nat {
    if token.kind is Eol {
        1
    } else {
        0
    }
}

/// Structure that every tokenizer output has: all line numbers are 1-based,
/// no token's text is empty, and the line number of each token is that of the
/// one before it, plus one if that one ended a line.
pub open spec fn token_seq_wf(tokens: Seq<TokenModel>) -> bool {
    &&& forall|i: int| 0 <= i < tokens.len() ==> 1 <= (#[trigger] tokens[i]).line
    &&& forall|i: int| 0 <= i < tokens.len() ==> (#[trigger] tokens[i]).value.len() > 0
    &&& forall|i: int|
        0 <= i < tokens.len() - 1 ==> (#[trigger] tokens[i + 1]).line == tokens[i].line
            + eol_inc(tokens[i])
}

/// In a well-formed token sequence, line numbers never decrease.
pub proof fn lemma_token_lines_monotone(tokens: Seq<TokenModel>, i: int, j: int)
    requires
        token_seq_wf(tokens),
        0 <= i <= j < tokens.len(),
    ensures
        tokens[i].line <= tokens[j].line,
    decreases j - i,
{
    if i < j {
        lemma_token_lines_monotone(tokens, i, j - 1);
        assert(tokens[(j - 1) + 1].line == tokens[j - 1].line + eol_inc(tokens[j - 1]));
    }
}

} // verus!
