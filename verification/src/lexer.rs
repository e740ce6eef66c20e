//! The tokenizer: a character-level cursor over the input text and the
//! single-pass classification loop that turns the text into a flat,
//! line-annotated token sequence.

use crate::token::{eol_inc, token_seq_wf, views_of, Token, TokenModel, TokenType};
use vstd::prelude::*;

verus! {

/// Whether the Unicode scalar value `u` has the `White_Space` property, the
/// class that `char::is_whitespace` recognises.
pub open spec fn white_code(u: u32) -> bool {
    ||| 9 <= u <= 13
    ||| u == 32
    ||| u == 0x85
    ||| u == 0xA0
    ||| u == 0x1680
    ||| 0x2000 <= u <= 0x200A
    ||| u == 0x2028
    ||| u == 0x2029
    ||| u == 0x202F
    ||| u == 0x205F
    ||| u == 0x3000
}

/// Whether `c` is a whitespace character (including the newline).
pub open spec fn char_is_white(c: char) -> bool {
    white_code(c as u32)
}

/// Whether `c` ends a free-text run: any whitespace character or `*`.
pub open spec fn char_is_sep(c: char) -> bool {
    char_is_white(c) || c == '*'
}

/// Whether `c` is a whitespace character, by the Unicode `White_Space` list.
pub fn is_white_char(c: char) -> (res: bool)
    ensures
        res == char_is_white(c),
{
    let u = c as u32;
    (9 <= u && u <= 13) || u == 32 || u == 0x85 || u == 0xA0 || u == 0x1680 || (0x2000 <= u && u
        <= 0x200A) || u == 0x2028 || u == 0x2029 || u == 0x202F || u == 0x205F || u == 0x3000
}

/// Whether `c` ends a free-text run.
pub fn is_sep_char(c: char) -> (res: bool)
    ensures
        res == char_is_sep(c),
{
    is_white_char(c) || c == '*'
}

/// The position where a free-text run that continues from `i` ends: the first
/// position at or after `i` holding a separator, or the end of the text.
pub open spec fn run_end(s: Seq<char>, i: int) -> int
    decreases s.len() - i,
{
    if i < 0 || i >= s.len() {
        i
    } else if char_is_sep(s[i]) {
        i
    } else {
        run_end(s, i + 1)
    }
}

/// `run_end` stays between its argument and the end of the text, stops only
/// at a separator or the end, and skips no separator.
pub proof fn lemma_run_end(s: Seq<char>, i: int)
    requires
        0 <= i <= s.len(),
    ensures
        i <= run_end(s, i) <= s.len(),
        run_end(s, i) < s.len() ==> char_is_sep(s[run_end(s, i)]),
        forall|j: int| i <= j < run_end(s, i) ==> !char_is_sep(#[trigger] s[j]),
    decreases s.len() - i,
{
    if i < s.len() && !char_is_sep(s[i]) {
        lemma_run_end(s, i + 1);
    }
}

/// A stretch of non-separators ending at a separator or at the end of the
/// text is exactly what `run_end` finds.
pub proof fn lemma_run_end_is(s: Seq<char>, i: int, k: int)
    requires
        0 <= i <= k <= s.len(),
        forall|j: int| i <= j < k ==> !char_is_sep(#[trigger] s[j]),
        k == s.len() || char_is_sep(s[k]),
    ensures
        run_end(s, i) == k,
    decreases k - i,
{
    if i < k {
        lemma_run_end_is(s, i + 1, k);
    }
}

/// A one-character token model of category `kind`.
pub open spec fn punct(kind: TokenType, c: char, line: nat) -> TokenModel {
    TokenModel { kind, value: seq![c], line }
}

/// The token sequence that tokenizing `s` from position `p` onward appends
/// to the already-produced tokens `acc`, with `line` the current 1-based
/// line number.
///
/// Each character is classified in a single pass: a newline yields an
/// end-of-line token and advances the line counter; a space yields one
/// whitespace token per character; each fixed punctuation character yields
/// its own one-character token; `-` followed by whitespace yields a `- `
/// list-marker token that absorbs that whitespace character; a `*` whose
/// preceding character is also `*` rewrites the token just produced into a
/// single `**` bold token (so runs of three or more `*` keep collapsing into
/// that same bold token — a known quirk of the two-character lookback, kept
/// deliberately); any other `*` yields an italic token; everything else
/// starts a free-text run up to the next whitespace, newline or `*`, except
/// that a lone whitespace character other than a space or newline yields no
/// token at all.
pub open spec fn lex_from(s: Seq<char>, p: int, line: nat, acc: Seq<TokenModel>) -> Seq<TokenModel>
    decreases s.len() - p,
{
    if p < 0 || p >= s.len() {
        acc
    } else {
        let c = s[p];
        if c == '\n' {
            lex_from(s, p + 1, line + 1, acc.push(punct(TokenType::Eol, '\n', line)))
        } else if c == ' ' {
            lex_from(s, p + 1, line, acc.push(punct(TokenType::Whitespace, ' ', line)))
        } else if c == '#' {
            lex_from(s, p + 1, line, acc.push(punct(TokenType::Header, '#', line)))
        } else if c == '-' {
            if p + 1 < s.len() && char_is_white(s[p + 1]) {
                lex_from(
                    s,
                    p + 2,
                    line,
                    acc.push(
                        TokenModel { kind: TokenType::UnorderedList, value: seq!['-', ' '], line },
                    ),
                )
            } else {
                let e = run_end(s, p + 1);
                proof {
                    lemma_run_end(s, p + 1);
                }
                lex_from(
                    s,
                    e,
                    line,
                    acc.push(TokenModel { kind: TokenType::Text, value: s.subrange(p, e), line }),
                )
            }
        } else if c == '>' {
            lex_from(s, p + 1, line, acc.push(punct(TokenType::BlockQuote, '>', line)))
        } else if c == '`' {
            lex_from(s, p + 1, line, acc.push(punct(TokenType::InlineCode, '`', line)))
        } else if c == '*' {
            if 1 <= p && s[p - 1] == '*' {
                if acc.len() > 0 {
                    lex_from(
                        s,
                        p + 1,
                        line,
                        acc.update(
                            acc.len() - 1,
                            TokenModel { kind: TokenType::Bold, value: seq!['*', '*'], line },
                        ),
                    )
                } else {
                    lex_from(s, p + 1, line, acc)
                }
            } else {
                lex_from(s, p + 1, line, acc.push(punct(TokenType::Italic, '*', line)))
            }
        } else if c == '!' {
            lex_from(s, p + 1, line, acc.push(punct(TokenType::Exclamation, '!', line)))
        } else if c == '{' {
            lex_from(s, p + 1, line, acc.push(punct(TokenType::CarlyBracketOpen, '{', line)))
        } else if c == '}' {
            lex_from(s, p + 1, line, acc.push(punct(TokenType::CarlyBracketClose, '}', line)))
        } else if c == '[' {
            lex_from(s, p + 1, line, acc.push(punct(TokenType::SquareBracketOpen, '[', line)))
        } else if c == ']' {
            lex_from(s, p + 1, line, acc.push(punct(TokenType::SquareBracketClose, ']', line)))
        } else if c == '(' {
            lex_from(s, p + 1, line, acc.push(punct(TokenType::ParenthesisOpen, '(', line)))
        } else if c == ')' {
            lex_from(s, p + 1, line, acc.push(punct(TokenType::ParenthesisClose, ')', line)))
        } else if c == ';' {
            lex_from(s, p + 1, line, acc.push(punct(TokenType::SemiColon, ';', line)))
        } else if c == ':' {
            lex_from(s, p + 1, line, acc.push(punct(TokenType::Colon, ':', line)))
        } else if char_is_white(c) {
            lex_from(s, p + 1, line, acc)
        } else {
            let e = run_end(s, p + 1);
            proof {
                lemma_run_end(s, p + 1);
            }
            lex_from(
                s,
                e,
                line,
                acc.push(TokenModel { kind: TokenType::Text, value: s.subrange(p, e), line }),
            )
        }
    }
}

/// The models of the tokens that tokenizing `s` produces.
pub open spec fn lex_spec(s: Seq<char>) -> Seq<TokenModel> {
    lex_from(s, 0, 1, Seq::<TokenModel>::empty())
}

/// Pushing a token onto a vector pushes its model onto the models.
proof fn lemma_views_push(tokens: Seq<Token>, t: Token)
    ensures
        views_of(tokens.push(t)) == views_of(tokens).push(t@),
{
    assert(views_of(tokens.push(t)) =~= views_of(tokens).push(t@));
}

/// Overwriting a token of a vector overwrites its model in the models.
pub(crate) proof fn lemma_views_update(tokens: Seq<Token>, i: int, t: Token)
    requires
        0 <= i < tokens.len(),
    ensures
        views_of(tokens.update(i, t)) == views_of(tokens).update(i, t@),
{
    assert(views_of(tokens.update(i, t)) =~= views_of(tokens).update(i, t@));
}

/// Appending a token on the current line keeps a token sequence well formed.
proof fn lemma_wf_push(m: Seq<TokenModel>, t: TokenModel, line: nat)
    requires
        token_seq_wf(m),
        1 <= line,
        t.line == line,
        t.value.len() > 0,
        m.len() > 0 ==> line == m.last().line + eol_inc(m.last()),
    ensures
        token_seq_wf(m.push(t)),
{
    let m2 = m.push(t);
    assert forall|i: int| 0 <= i < m2.len() - 1 implies (#[trigger] m2[i + 1]).line == m2[i].line
        + eol_inc(m2[i]) by {
        if i < m.len() - 1 {
            assert(m2[i] == m[i]);
            assert(m2[i + 1] == m[i + 1]);
        } else {
            assert(m2[i] == m[i]);
            assert(m2[i + 1] == t);
        }
    }
}

/// Overwriting the last token with one on the same line keeps a token
/// sequence well formed.
proof fn lemma_wf_update_last(m: Seq<TokenModel>, t: TokenModel)
    requires
        token_seq_wf(m),
        m.len() > 0,
        t.line == m.last().line,
        t.value.len() > 0,
    ensures
        token_seq_wf(m.update(m.len() - 1, t)),
{
    let m2 = m.update(m.len() - 1, t);
    assert forall|i: int| 0 <= i < m2.len() - 1 implies (#[trigger] m2[i + 1]).line == m2[i].line
        + eol_inc(m2[i]) by {
        assert(m2[i] == m[i]);
        if i + 1 < m.len() - 1 {
            assert(m2[i + 1] == m[i + 1]);
        } else {
            assert(m2[i + 1] == t);
            assert(m[i + 1].line == m[i].line + eol_inc(m[i]));
        }
    }
}

/// Relies on `String::push`: appends one character at the end.
#[verifier::external_body]
pub(crate) fn push_char(s: &mut String, c: char)
    ensures
        final(s)@ == old(s)@.push(c),
{
    s.push(c);
}

/// A fresh one-character string.
pub(crate) fn char_to_string(c: char) -> (res: String)
    ensures
        res@ == seq![c],
{
    let mut res = String::new();
    push_char(&mut res, c);
    proof {
        assert(res@ =~= seq![c]);
    }
    res
}

/// A forward/backward cursor over an immutable text buffer, addressed by
/// character position.
pub struct CharStream<'a> {
    /// The text being read.
    pub input: &'a str,
    /// Character position of the next character to read.
    pub position: usize,
}

impl<'a> CharStream<'a> {
    /// The cursor never moves past the end of the text.
    pub open spec fn wf(&self) -> bool {
        self.position <= self.input@.len()
    }

    /// A cursor at the start of `input`.
    pub fn new(input: &'a str) -> (res: Self)
        ensures
            res.input@ == input@,
            res.position == 0,
    {
        Self { input, position: 0 }
    }

    /// Reads the next character without advancing the position.
    pub fn peek_next(&self) -> (res: Option<char>)
        requires
            self.wf(),
        ensures
            res == if self.position < self.input@.len() {
                Some(self.input@[self.position as int])
            } else {
                None::<char>
            },
    {
        if self.position < self.input.unicode_len() {
            Some(self.input.get_char(self.position))
        } else {
            None
        }
    }

    /// Advances by one character and returns it; at the end of the text,
    /// returns nothing and stays in place.
    pub fn next(&mut self) -> (res: Option<char>)
        requires
            old(self).wf(),
        ensures
            final(self).input@ == old(self).input@,
            final(self).wf(),
            if old(self).position < old(self).input@.len() {
                res == Some(old(self).input@[old(self).position as int]) && final(self).position
                    == old(self).position + 1
            } else {
                res == None::<char> && final(self).position == old(self).position
            },
    {
        if self.position < self.input.unicode_len() {
            let c = self.input.get_char(self.position);
            self.position = self.position + 1;
            Some(c)
        } else {
            None
        }
    }

    /// Retrieves the character `n` positions back from the current position,
    /// or nothing when fewer than `n` characters precede the cursor.
    pub fn prev(&mut self, n: usize) -> (res: Option<char>)
        requires
            old(self).wf(),
            n >= 1,
        ensures
            *final(self) == *old(self),
            res == if old(self).position >= n {
                Some(old(self).input@[old(self).position - n])
            } else {
                None::<char>
            },
    {
        if self.position >= n {
            Some(self.input.get_char(self.position - n))
        } else {
            None
        }
    }

    /// Consumes characters until the next separator (whitespace, newline or
    /// `*`) or the end of the text, and returns them, together with the
    /// character just before the cursor, as a new string. When the character
    /// just before the cursor is itself whitespace, returns an empty string
    /// at once without moving: a run may not start mid-separator. The cursor
    /// is left on the separator, so the caller reads it next.
    pub fn consume_until_separator(&mut self) -> (res: String)
        requires
            old(self).wf(),
        ensures
            final(self).input@ == old(self).input@,
            final(self).wf(),
            ({
                let s = old(self).input@;
                let p = old(self).position as int;
                if 1 <= p && char_is_white(s[p - 1]) {
                    res@ == Seq::<char>::empty() && final(self).position == old(self).position
                } else if 1 <= p {
                    res@ == s.subrange(p - 1, run_end(s, p)) && final(self).position == run_end(
                        s,
                        p,
                    )
                } else {
                    res@ == s.subrange(0, run_end(s, 0)) && final(self).position == run_end(s, 0)
                }
            }),
    {
        let ghost s = self.input@;
        let ghost p = self.position as int;
        let ghost start: int = if p >= 1 {
            p - 1
        } else {
            0
        };
        let mut result = String::new();

        if self.position >= 1 {
            let c = self.input.get_char(self.position - 1);
            if is_white_char(c) {
                return result;
            }
            push_char(&mut result, c);
        }
        proof {
            assert(result@ =~= s.subrange(start, p));
        }

        let len = self.input.unicode_len();
        while self.position < len && !is_sep_char(self.input.get_char(self.position))
            invariant
                self.input@ == s,
                len == s.len(),
                p <= self.position <= len,
                0 <= start <= p,
                result@ == s.subrange(start, self.position as int),
                forall|j: int| p <= j < self.position ==> !char_is_sep(#[trigger] s[j]),
            decreases len - self.position,
        {
            let c = self.input.get_char(self.position);
            push_char(&mut result, c);
            self.position = self.position + 1;
            proof {
                assert(result@ =~= s.subrange(start, self.position as int));
            }
        }
        proof {
            lemma_run_end_is(s, p, self.position as int);
        }
        result
    }
}

/// Tokenizes `input` in a single pass: the models of the returned tokens are
/// exactly `lex_spec(input@)`, and the sequence is well formed — every
/// token's text is non-empty, lines are 1-based, and line numbers advance by
/// one exactly after each end-of-line token.
///
/// Tokenization is lossy by design: concatenating all token texts does not
/// in general reconstruct the input, since the whitespace consumed by a
/// `- ` marker is absorbed into that one token and whitespace characters
/// other than a space or a newline produce no token at all.
pub fn lex(input: &str) -> (tokens: Vec<Token>)
    requires
        input@.len() < usize::MAX,
    ensures
        views_of(tokens@) == lex_spec(input@),
        token_seq_wf(views_of(tokens@)),
{
    let ghost s = input@;
    let mut stream = CharStream::new(input);
    let mut tokens: Vec<Token> = Vec::new();
    let mut line: usize = 1;
    let len = input.unicode_len();

    proof {
        assert(views_of(tokens@) =~= Seq::<TokenModel>::empty());
    }

    while stream.position < len
        invariant
            stream.input@ == s,
            s == input@,
            len == s.len(),
            s.len() < usize::MAX,
            stream.position <= len,
            1 <= line,
            line <= stream.position + 1,
            lex_spec(s) == lex_from(s, stream.position as int, line as nat, views_of(tokens@)),
            token_seq_wf(views_of(tokens@)),
            views_of(tokens@).len() > 0 ==> line as nat == views_of(tokens@).last().line
                + eol_inc(views_of(tokens@).last()),
            (1 <= stream.position && views_of(tokens@).len() > 0 && s[stream.position - 1] == '*')
                ==> ((views_of(tokens@).last().kind is Italic || views_of(
                tokens@,
            ).last().kind is Bold) && views_of(tokens@).last().line == line as nat),
        decreases len - stream.position,
    {
        let ghost p = stream.position as int;
        let ghost t0 = tokens@;
        let ghost m0 = views_of(tokens@);
        let c = stream.next().unwrap();
        match c {
            '\n' => {
                let tok = Token { token_type: TokenType::Eol, value: char_to_string(c), line };
                tokens.push(tok);
                proof {
                    lemma_views_push(t0, tok);
                    lemma_wf_push(m0, tok@, line as nat);
                    assert(tok@ == punct(TokenType::Eol, '\n', line as nat));
                }
                line = line + 1;
            },
            ' ' => {
                let tok = Token {
                    token_type: TokenType::Whitespace,
                    value: char_to_string(c),
                    line,
                };
                tokens.push(tok);
                proof {
                    lemma_views_push(t0, tok);
                    lemma_wf_push(m0, tok@, line as nat);
                    assert(tok@ == punct(TokenType::Whitespace, ' ', line as nat));
                }
            },
            '#' => {
                let tok = Token { token_type: TokenType::Header, value: char_to_string(c), line };
                tokens.push(tok);
                proof {
                    lemma_views_push(t0, tok);
                    lemma_wf_push(m0, tok@, line as nat);
                    assert(tok@ == punct(TokenType::Header, '#', line as nat));
                }
            },
            '-' => {
                let next_char = stream.peek_next();
                let is_marker = match next_char {
                    Some(nc) => is_white_char(nc),
                    None => false,
                };
                if is_marker {
                    let mut value = char_to_string('-');
                    push_char(&mut value, ' ');
                    proof {
                        assert(value@ =~= seq!['-', ' ']);
                    }
                    let tok = Token { token_type: TokenType::UnorderedList, value, line };
                    tokens.push(tok);
                    stream.next();
                    proof {
                        lemma_views_push(t0, tok);
                        lemma_wf_push(m0, tok@, line as nat);
                    }
                } else {
                    let text = stream.consume_until_separator();
                    proof {
                        lemma_run_end(s, p + 1);
                    }
                    if text.as_str().is_empty() {
                        // The run always holds at least the `-` itself.
                    } else {
                        let tok = Token { token_type: TokenType::Text, value: text, line };
                        tokens.push(tok);
                        proof {
                            lemma_views_push(t0, tok);
                            lemma_wf_push(m0, tok@, line as nat);
                        }
                    }
                }
            },
            '>' => {
                let tok = Token {
                    token_type: TokenType::BlockQuote,
                    value: char_to_string(c),
                    line,
                };
                tokens.push(tok);
                proof {
                    lemma_views_push(t0, tok);
                    lemma_wf_push(m0, tok@, line as nat);
                    assert(tok@ == punct(TokenType::BlockQuote, '>', line as nat));
                }
            },
            '`' => {
                let tok = Token {
                    token_type: TokenType::InlineCode,
                    value: char_to_string(c),
                    line,
                };
                tokens.push(tok);
                proof {
                    lemma_views_push(t0, tok);
                    lemma_wf_push(m0, tok@, line as nat);
                    assert(tok@ == punct(TokenType::InlineCode, '`', line as nat));
                }
            },
            '*' => {
                let back = stream.prev(2);
                let doubled = match back {
                    Some(bc) => bc == '*',
                    None => false,
                };
                if doubled {
                    if tokens.len() > 0 {
                        let idx = tokens.len() - 1;
                        let mut value = char_to_string('*');
                        push_char(&mut value, '*');
                        proof {
                            assert(value@ =~= seq!['*', '*']);
                        }
                        let tok = Token { token_type: TokenType::Bold, value, line };
                        tokens[idx] = tok;
                        proof {
                            lemma_views_update(t0, idx as int, tok);
                            lemma_wf_update_last(m0, tok@);
                        }
                    }
                } else {
                    let tok = Token {
                        token_type: TokenType::Italic,
                        value: char_to_string(c),
                        line,
                    };
                    tokens.push(tok);
                    proof {
                        lemma_views_push(t0, tok);
                        lemma_wf_push(m0, tok@, line as nat);
                        assert(tok@ == punct(TokenType::Italic, '*', line as nat));
                    }
                }
            },
            '!' => {
                let tok = Token {
                    token_type: TokenType::Exclamation,
                    value: char_to_string(c),
                    line,
                };
                tokens.push(tok);
                proof {
                    lemma_views_push(t0, tok);
                    lemma_wf_push(m0, tok@, line as nat);
                    assert(tok@ == punct(TokenType::Exclamation, '!', line as nat));
                }
            },
            '{' => {
                let tok = Token {
                    token_type: TokenType::CarlyBracketOpen,
                    value: char_to_string(c),
                    line,
                };
                tokens.push(tok);
                proof {
                    lemma_views_push(t0, tok);
                    lemma_wf_push(m0, tok@, line as nat);
                    assert(tok@ == punct(TokenType::CarlyBracketOpen, '{', line as nat));
                }
            },
            '}' => {
                let tok = Token {
                    token_type: TokenType::CarlyBracketClose,
                    value: char_to_string(c),
                    line,
                };
                tokens.push(tok);
                proof {
                    lemma_views_push(t0, tok);
                    lemma_wf_push(m0, tok@, line as nat);
                    assert(tok@ == punct(TokenType::CarlyBracketClose, '}', line as nat));
                }
            },
            '[' => {
                let tok = Token {
                    token_type: TokenType::SquareBracketOpen,
                    value: char_to_string(c),
                    line,
                };
                tokens.push(tok);
                proof {
                    lemma_views_push(t0, tok);
                    lemma_wf_push(m0, tok@, line as nat);
                    assert(tok@ == punct(TokenType::SquareBracketOpen, '[', line as nat));
                }
            },
            ']' => {
                let tok = Token {
                    token_type: TokenType::SquareBracketClose,
                    value: char_to_string(c),
                    line,
                };
                tokens.push(tok);
                proof {
                    lemma_views_push(t0, tok);
                    lemma_wf_push(m0, tok@, line as nat);
                    assert(tok@ == punct(TokenType::SquareBracketClose, ']', line as nat));
                }
            },
            '(' => {
                let tok = Token {
                    token_type: TokenType::ParenthesisOpen,
                    value: char_to_string(c),
                    line,
                };
                tokens.push(tok);
                proof {
                    lemma_views_push(t0, tok);
                    lemma_wf_push(m0, tok@, line as nat);
                    assert(tok@ == punct(TokenType::ParenthesisOpen, '(', line as nat));
                }
            },
            ')' => {
                let tok = Token {
                    token_type: TokenType::ParenthesisClose,
                    value: char_to_string(c),
                    line,
                };
                tokens.push(tok);
                proof {
                    lemma_views_push(t0, tok);
                    lemma_wf_push(m0, tok@, line as nat);
                    assert(tok@ == punct(TokenType::ParenthesisClose, ')', line as nat));
                }
            },
            ';' => {
                let tok = Token {
                    token_type: TokenType::SemiColon,
                    value: char_to_string(c),
                    line,
                };
                tokens.push(tok);
                proof {
                    lemma_views_push(t0, tok);
                    lemma_wf_push(m0, tok@, line as nat);
                    assert(tok@ == punct(TokenType::SemiColon, ';', line as nat));
                }
            },
            ':' => {
                let tok = Token { token_type: TokenType::Colon, value: char_to_string(c), line };
                tokens.push(tok);
                proof {
                    lemma_views_push(t0, tok);
                    lemma_wf_push(m0, tok@, line as nat);
                    assert(tok@ == punct(TokenType::Colon, ':', line as nat));
                }
            },
            _ => {
                let text = stream.consume_until_separator();
                proof {
                    lemma_run_end(s, p + 1);
                }
                if text.as_str().is_empty() {
                    // Only a whitespace character other than a space or a
                    // newline lands here: it produces no token at all.
                } else {
                    let tok = Token { token_type: TokenType::Text, value: text, line };
                    tokens.push(tok);
                    proof {
                        lemma_views_push(t0, tok);
                        lemma_wf_push(m0, tok@, line as nat);
                    }
                }
            },
        }
    }
    proof {
        assert(lex_from(s, stream.position as int, line as nat, views_of(tokens@)) == views_of(
            tokens@,
        ));
    }
    tokens
}

} // verus!
