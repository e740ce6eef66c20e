//! The tree builder: a cursor over the token sequence with lookahead,
//! backtracking and in-place replacement, and the recursive-descent
//! functions that turn tokens into a well-formed document tree.

use crate::lexer::{char_to_string, lex, lex_spec, push_char};
use crate::token::{
    eol_inc, lemma_token_lines_monotone, token_seq_wf, views_of, Token, TokenModel, TokenType,
};
use crate::tree::{
    lemma_nodes_view_add, lemma_nodes_view_index, lemma_nodes_view_len, lemma_nodes_view_push,
    list_level, model_position, node_view, node_wf, nodes_view, Bold, Eol, Header, Italic,
    LineSpan, Node, NodeModel, Paragraph, Positioned, SpanModel, Text, UnorderedList, Whitespace,
};
use vstd::prelude::*;

verus! {

/// A cursor over a produced token sequence: sequential access, one-step
/// backtracking, and in-place replacement of the token under the cursor.
pub struct TokenStream {
    /// The tokens being walked; replacement rewrites them in place.
    pub tokens: Vec<Token>,
    /// The current position in the token sequence.
    pub index: usize,
}

impl TokenStream {
    /// The cursor stays inside the sequence and the sequence keeps the
    /// structure the tokenizer gave it.
    pub open spec fn wf(&self) -> bool {
        self.index <= self.tokens@.len() && token_seq_wf(views_of(self.tokens@))
    }

    /// A cursor at the start of `tokens`.
    pub fn new(tokens: Vec<Token>) -> (res: Self)
        ensures
            res.tokens == tokens,
            res.index == 0,
    {
        Self { tokens, index: 0 }
    }

    /// Returns the token at position `ix`, or nothing past the end.
    pub fn get(&self, ix: usize) -> (res: Option<&Token>)
        ensures
            match res {
                Some(token) => ix < self.tokens@.len() && *token == self.tokens@[ix as int],
                None => ix >= self.tokens@.len(),
            },
    {
        if ix < self.tokens.len() {
            Some(&self.tokens[ix])
        } else {
            None
        }
    }

    /// Returns the current token without moving, or nothing at the end.
    pub fn peek(&self) -> (res: Option<&Token>)
        ensures
            match res {
                Some(token) => self.index < self.tokens@.len() && *token == self.tokens@[self.index
                    as int],
                None => self.index >= self.tokens@.len(),
            },
    {
        self.get(self.index)
    }

    /// Returns the current token and advances past it; at the end of the
    /// sequence, returns nothing and stays in place.
    pub fn next(&mut self) -> (res: Option<Token>)
        ensures
            final(self).tokens == old(self).tokens,
            if old(self).index < old(self).tokens@.len() {
                res == Some(old(self).tokens@[old(self).index as int]) && final(self).index == old(
                    self,
                ).index + 1
            } else {
                res == None::<Token> && final(self).index == old(self).index
            },
    {
        if self.index < self.tokens.len() {
            let token = self.tokens[self.index].clone();
            self.index = self.index + 1;
            Some(token)
        } else {
            None
        }
    }

    /// Moves the cursor one position backward. Retreating a cursor already
    /// at the start is a programming error, ruled out by precondition.
    pub fn back(&mut self)
        requires
            old(self).index >= 1,
        ensures
            final(self).tokens == old(self).tokens,
            final(self).index == old(self).index - 1,
    {
        self.index = self.index - 1;
    }

    /// Replaces the token under the cursor in place.
    pub fn replace(&mut self, token: Token)
        requires
            old(self).index < old(self).tokens@.len(),
        ensures
            final(self).tokens@ == old(self).tokens@.update(old(self).index as int, token),
            final(self).index == old(self).index,
    {
        let ix = self.index;
        self.tokens[ix] = token;
    }

    /// Looks ahead for a list marker: counts the run of consecutive
    /// whitespace tokens at the cursor and, when an unordered-list marker
    /// follows that run directly, returns the count — the nesting depth the
    /// indentation implies. Any other token first means no list follows.
    pub fn is_next_list(&self) -> (res: Option<usize>)
        requires
            self.wf(),
        ensures
            ({
                let m = views_of(self.tokens@);
                let e = ws_run(m, self.index as int);
                match res {
                    Some(nest) => e < m.len() && m[e].kind is UnorderedList && nest as int == e
                        - self.index,
                    None => !(e < m.len() && m[e].kind is UnorderedList),
                }
            }),
    {
        let ghost m = views_of(self.tokens@);
        let mut nest: usize = 0;
        let mut ix = self.index;

        while ix < self.tokens.len()
            invariant
                self.wf(),
                m == views_of(self.tokens@),
                self.index <= ix <= self.tokens@.len(),
                nest as int == ix - self.index,
                forall|k: int| self.index <= k < ix ==> (#[trigger] m[k]).kind is Whitespace,
            decreases self.tokens@.len() - ix,
        {
            let tt = self.tokens[ix].token_type;
            if tt == TokenType::Whitespace {
                nest = nest + 1;
                ix = ix + 1;
            } else if tt == TokenType::UnorderedList {
                proof {
                    lemma_ws_run_is(m, self.index as int, ix as int);
                }
                return Some(nest);
            } else {
                proof {
                    lemma_ws_run_is(m, self.index as int, ix as int);
                }
                return None;
            }
        }
        proof {
            lemma_ws_run_is(m, self.index as int, ix as int);
        }
        None
    }
}

/// The position right after the run of consecutive whitespace tokens that
/// starts at `i`.
pub open spec fn ws_run(m: Seq<TokenModel>, i: int) -> int
    decreases m.len() - i,
{
    if i < 0 || i >= m.len() {
        i
    } else if m[i].kind is Whitespace {
        ws_run(m, i + 1)
    } else {
        i
    }
}

/// A stretch of whitespace tokens ending at a non-whitespace token or at the
/// end of the sequence is exactly what `ws_run` finds.
proof fn lemma_ws_run_is(m: Seq<TokenModel>, i: int, k: int)
    requires
        0 <= i <= k <= m.len(),
        forall|j: int| i <= j < k ==> (#[trigger] m[j]).kind is Whitespace,
        k == m.len() || !(m[k].kind is Whitespace),
    ensures
        ws_run(m, i) == k,
    decreases k - i,
{
    if i < k {
        lemma_ws_run_is(m, i + 1, k);
    }
}

/// The position right after the run of consecutive header-marker tokens that
/// starts at `i`.
pub open spec fn header_run(m: Seq<TokenModel>, i: int) -> int
    decreases m.len() - i,
{
    if i < 0 || i >= m.len() {
        i
    } else if m[i].kind is Header {
        header_run(m, i + 1)
    } else {
        i
    }
}

/// A stretch of header-marker tokens ending at another token or at the end
/// of the sequence is exactly what `header_run` finds.
proof fn lemma_header_run_is(m: Seq<TokenModel>, i: int, k: int)
    requires
        0 <= i <= k <= m.len(),
        forall|j: int| i <= j < k ==> (#[trigger] m[j]).kind is Header,
        k == m.len() || !(m[k].kind is Header),
    ensures
        header_run(m, i) == k,
    decreases k - i,
{
    if i < k {
        lemma_header_run_is(m, i + 1, k);
    }
}

/// A header-marker run starting at `i` makes a valid header exactly when it
/// is at most six markers long and a whitespace token follows it directly.
pub open spec fn valid_header_at(m: Seq<TokenModel>, i: int) -> bool {
    let e = header_run(m, i);
    e - i <= 6 && e < m.len() && m[e].kind is Whitespace
}

/// Whether, from position `i`, a token of category `kind` occurs before any
/// end-of-line token and before the end of the sequence: whether an emphasis
/// marker opened just before `i` is closed on its line.
pub open spec fn closed_from(m: Seq<TokenModel>, i: int, kind: TokenType) -> bool
    decreases m.len() - i,
{
    if i < 0 || i >= m.len() {
        false
    } else if m[i].kind == kind {
        true
    } else if m[i].kind is Eol {
        false
    } else {
        closed_from(m, i + 1, kind)
    }
}

/// A `kind` token at `k`, with nothing of that kind and no end of line
/// before it, closes the emphasis opened before `i`.
proof fn lemma_closed_from_pos(m: Seq<TokenModel>, i: int, k: int, kind: TokenType)
    requires
        0 <= i <= k < m.len(),
        m[k].kind == kind,
        forall|j: int| i <= j < k ==> (#[trigger] m[j]).kind != kind && !(m[j].kind is Eol),
    ensures
        closed_from(m, i, kind),
    decreases k - i,
{
    if i < k {
        lemma_closed_from_pos(m, i + 1, k, kind);
    }
}

/// An end of line or the end of the sequence at `k`, with no `kind` token
/// before it, leaves the emphasis opened before `i` unclosed.
proof fn lemma_closed_from_neg(m: Seq<TokenModel>, i: int, k: int, kind: TokenType)
    requires
        0 <= i <= k <= m.len(),
        !(kind is Eol),
        k == m.len() || m[k].kind is Eol,
        forall|j: int| i <= j < k ==> (#[trigger] m[j]).kind != kind && !(m[j].kind is Eol),
    ensures
        !closed_from(m, i, kind),
    decreases k - i,
{
    if i < k {
        lemma_closed_from_neg(m, i + 1, k, kind);
    }
}

/// In a well-formed token sequence, every token of a stretch that contains
/// no end-of-line token sits on the line of the stretch's first token.
proof fn lemma_same_line(m: Seq<TokenModel>, a: int, b: int)
    requires
        token_seq_wf(m),
        0 <= a <= b < m.len(),
        forall|k: int| a <= k < b ==> !((#[trigger] m[k]).kind is Eol),
    ensures
        m[b].line == m[a].line,
    decreases b - a,
{
    if a < b {
        lemma_same_line(m, a, b - 1);
        assert(m[(b - 1) + 1].line == m[b - 1].line + eol_inc(m[b - 1]));
    }
}

/// Overwriting one token with one of the same line and the same effect on
/// the line counter keeps a token sequence well formed.
proof fn lemma_wf_replace(m: Seq<TokenModel>, i: int, t: TokenModel)
    requires
        token_seq_wf(m),
        0 <= i < m.len(),
        t.line == m[i].line,
        eol_inc(t) == eol_inc(m[i]),
        t.value.len() > 0,
    ensures
        token_seq_wf(m.update(i, t)),
{
    let m2 = m.update(i, t);
    assert forall|j: int| 0 <= j < m2.len() - 1 implies (#[trigger] m2[j + 1]).line == m2[j].line
        + eol_inc(m2[j]) by {
        assert(m[j + 1].line == m[j].line + eol_inc(m[j]));
    }
}

/// The text carried by a text node; empty for any other variant.
pub open spec fn text_value(node: Node) -> Seq<char> {
    match node {
        Node::Text(text) => text.value@,
        _ => Seq::<char>::empty(),
    }
}

/// The level of a header node; 0 for any other variant.
pub open spec fn header_level_of(node: Node) -> usize {
    match node {
        Node::Header(header) => header.level,
        _ => 0,
    }
}

/// A run of `k` repeated `#` characters.
pub open spec fn hashes(k: int) -> Seq<char> {
    Seq::new(k as nat, |x: int| '#')
}

/// `ws_run` stays between its argument and the end of the sequence.
pub proof fn lemma_ws_run_bounds(m: Seq<TokenModel>, i: int)
    requires
        0 <= i <= m.len(),
    ensures
        i <= ws_run(m, i) <= m.len(),
    decreases m.len() - i,
{
    if i < m.len() && m[i].kind is Whitespace {
        lemma_ws_run_bounds(m, i + 1);
    }
}

/// `header_run` stays between its argument and the end of the sequence.
pub proof fn lemma_header_run_bounds(m: Seq<TokenModel>, i: int)
    requires
        0 <= i <= m.len(),
    ensures
        i <= header_run(m, i) <= m.len(),
    decreases m.len() - i,
{
    if i < m.len() && m[i].kind is Header {
        lemma_header_run_bounds(m, i + 1);
    }
}

/// The inline leaf a single token converts to: a whitespace node for a
/// whitespace token, a text node carrying the token's text for anything
/// else, on the token's line.
pub open spec fn parse_token_spec(token: TokenModel) -> NodeModel {
    if token.kind is Whitespace {
        NodeModel::Whitespace(SpanModel { start: token.line, end: token.line })
    } else {
        NodeModel::Text(token.value, SpanModel { start: token.line, end: token.line })
    }
}

/// What parsing italic content from position `i` produces, with `nodes`,
/// `start` and `end` the content and provisional span collected so far
/// (0 marks an unset span): the wrapped content and the position after the
/// last consumed token. A closing `*` token wraps the content in one italic
/// node; an end of line or the end of the sequence instead prepends a
/// literal `*` text node, on the line of the token just before `i`.
pub open spec fn parse_italic_spec(
    m: Seq<TokenModel>,
    i: int,
    nodes: Seq<NodeModel>,
    start: nat,
    end: nat,
) -> (Seq<NodeModel>, int)
    decreases m.len() - i,
{
    if i < 0 || i >= m.len() || m[i].kind is Eol {
        let pl = if 1 <= i <= m.len() {
            m[i - 1].line
        } else {
            0
        };
        (seq![NodeModel::Text(seq!['*'], SpanModel { start: pl, end: pl })] + nodes, i)
    } else {
        let st = if start == 0 {
            m[i].line
        } else {
            start
        };
        let en = if m[i].line > end {
            m[i].line
        } else {
            end
        };
        if m[i].kind == TokenType::Italic {
            (seq![NodeModel::Italic(nodes, SpanModel { start: st, end: en })], i + 1)
        } else {
            parse_italic_spec(m, i + 1, nodes.push(parse_token_spec(m[i])), st, en)
        }
    }
}

/// The position `parse_italic_spec` stops at lies between `i` and the end.
pub proof fn lemma_parse_italic_spec_bounds(
    m: Seq<TokenModel>,
    i: int,
    nodes: Seq<NodeModel>,
    start: nat,
    end: nat,
)
    requires
        0 <= i <= m.len(),
    ensures
        i <= parse_italic_spec(m, i, nodes, start, end).1 <= m.len(),
    decreases m.len() - i,
{
    if i < m.len() && !(m[i].kind is Eol) && m[i].kind != TokenType::Italic {
        let st = if start == 0 {
            m[i].line
        } else {
            start
        };
        let en = if m[i].line > end {
            m[i].line
        } else {
            end
        };
        lemma_parse_italic_spec_bounds(m, i + 1, nodes.push(parse_token_spec(m[i])), st, en);
    }
}

/// What parsing bold content from position `i` produces, exactly as
/// [`parse_italic_spec`] with a `**` marker and a literal `**` recovery
/// text.
pub open spec fn parse_bold_spec(
    m: Seq<TokenModel>,
    i: int,
    nodes: Seq<NodeModel>,
    start: nat,
    end: nat,
) -> (Seq<NodeModel>, int)
    decreases m.len() - i,
{
    if i < 0 || i >= m.len() || m[i].kind is Eol {
        let pl = if 1 <= i <= m.len() {
            m[i - 1].line
        } else {
            0
        };
        (seq![NodeModel::Text(seq!['*', '*'], SpanModel { start: pl, end: pl })] + nodes, i)
    } else {
        let st = if start == 0 {
            m[i].line
        } else {
            start
        };
        let en = if m[i].line > end {
            m[i].line
        } else {
            end
        };
        if m[i].kind == TokenType::Bold {
            (seq![NodeModel::Bold(nodes, SpanModel { start: st, end: en })], i + 1)
        } else {
            parse_bold_spec(m, i + 1, nodes.push(parse_token_spec(m[i])), st, en)
        }
    }
}

/// The position `parse_bold_spec` stops at lies between `i` and the end.
pub proof fn lemma_parse_bold_spec_bounds(
    m: Seq<TokenModel>,
    i: int,
    nodes: Seq<NodeModel>,
    start: nat,
    end: nat,
)
    requires
        0 <= i <= m.len(),
    ensures
        i <= parse_bold_spec(m, i, nodes, start, end).1 <= m.len(),
    decreases m.len() - i,
{
    if i < m.len() && !(m[i].kind is Eol) && m[i].kind != TokenType::Bold {
        let st = if start == 0 {
            m[i].line
        } else {
            start
        };
        let en = if m[i].line > end {
            m[i].line
        } else {
            end
        };
        lemma_parse_bold_spec_bounds(m, i + 1, nodes.push(parse_token_spec(m[i])), st, en);
    }
}

/// What converting one line to inline nodes produces, appended to `acc`:
/// emphasis markers hand over to the emphasis parsers, a whitespace token
/// becomes a whitespace node, the first end-of-line token is consumed and
/// stops the walk, and any other token becomes a text node carrying its
/// text. The pair holds the nodes and the position after the last consumed
/// token.
pub open spec fn parse_line_spec(m: Seq<TokenModel>, i: int, acc: Seq<NodeModel>) -> (
    Seq<NodeModel>,
    int,
)
    decreases m.len() - i,
{
    if i < 0 || i >= m.len() {
        (acc, i)
    } else if m[i].kind == TokenType::Italic {
        let sub = parse_italic_spec(m, i + 1, Seq::<NodeModel>::empty(), 0, 0);
        proof {
            lemma_parse_italic_spec_bounds(m, i + 1, Seq::<NodeModel>::empty(), 0, 0);
        }
        parse_line_spec(m, sub.1, acc + sub.0)
    } else if m[i].kind == TokenType::Bold {
        let sub = parse_bold_spec(m, i + 1, Seq::<NodeModel>::empty(), 0, 0);
        proof {
            lemma_parse_bold_spec_bounds(m, i + 1, Seq::<NodeModel>::empty(), 0, 0);
        }
        parse_line_spec(m, sub.1, acc + sub.0)
    } else if m[i].kind is Whitespace {
        parse_line_spec(
            m,
            i + 1,
            acc.push(NodeModel::Whitespace(SpanModel { start: m[i].line, end: m[i].line })),
        )
    } else if m[i].kind is Eol {
        (acc, i + 1)
    } else {
        parse_line_spec(
            m,
            i + 1,
            acc.push(NodeModel::Text(m[i].value, SpanModel { start: m[i].line, end: m[i].line })),
        )
    }
}

/// The position `parse_line_spec` stops at lies between `i` and the end,
/// and strictly advances whenever a token remains.
pub proof fn lemma_parse_line_spec_bounds(m: Seq<TokenModel>, i: int, acc: Seq<NodeModel>)
    requires
        0 <= i <= m.len(),
    ensures
        i <= parse_line_spec(m, i, acc).1 <= m.len(),
        i < m.len() ==> parse_line_spec(m, i, acc).1 > i,
    decreases m.len() - i,
{
    if 0 <= i < m.len() {
        if m[i].kind == TokenType::Italic {
            lemma_parse_italic_spec_bounds(m, i + 1, Seq::<NodeModel>::empty(), 0, 0);
            let sub = parse_italic_spec(m, i + 1, Seq::<NodeModel>::empty(), 0, 0);
            lemma_parse_line_spec_bounds(m, sub.1, acc + sub.0);
        } else if m[i].kind == TokenType::Bold {
            lemma_parse_bold_spec_bounds(m, i + 1, Seq::<NodeModel>::empty(), 0, 0);
            let sub = parse_bold_spec(m, i + 1, Seq::<NodeModel>::empty(), 0, 0);
            lemma_parse_line_spec_bounds(m, sub.1, acc + sub.0);
        } else if m[i].kind is Whitespace {
            lemma_parse_line_spec_bounds(
                m,
                i + 1,
                acc.push(NodeModel::Whitespace(SpanModel { start: m[i].line, end: m[i].line })),
            );
        } else if m[i].kind is Eol {
        } else {
            lemma_parse_line_spec_bounds(
                m,
                i + 1,
                acc.push(
                    NodeModel::Text(m[i].value, SpanModel { start: m[i].line, end: m[i].line }),
                ),
            );
        }
    }
}

/// What wrapping one line in a paragraph produces: the line's nodes with
/// the span they share, or — when the line produced no nodes — an empty
/// paragraph on the line of the token just before the stopping position.
pub open spec fn parse_paragraph_spec(m: Seq<TokenModel>, i: int) -> (NodeModel, int) {
    let r = parse_line_spec(m, i, Seq::<NodeModel>::empty());
    let nodes = r.0;
    let j = r.1;
    if nodes.len() > 0 {
        (
            NodeModel::Paragraph(
                nodes,
                SpanModel {
                    start: model_position(nodes[0]).start,
                    end: model_position(nodes[nodes.len() - 1]).end,
                },
            ),
            j,
        )
    } else if j >= 1 {
        (
            NodeModel::Paragraph(
                Seq::<NodeModel>::empty(),
                SpanModel { start: m[j - 1].line, end: m[j - 1].line },
            ),
            j,
        )
    } else {
        (NodeModel::Paragraph(Seq::<NodeModel>::empty(), SpanModel { start: 0, end: 0 }), j)
    }
}

/// The position `parse_paragraph_spec` stops at lies between `i` and the
/// end, and strictly advances whenever a token remains.
pub proof fn lemma_parse_paragraph_spec_bounds(m: Seq<TokenModel>, i: int)
    requires
        0 <= i <= m.len(),
    ensures
        i <= parse_paragraph_spec(m, i).1 <= m.len(),
        i < m.len() ==> parse_paragraph_spec(m, i).1 > i,
{
    lemma_parse_line_spec_bounds(m, i, Seq::<NodeModel>::empty());
}

/// What parsing a header-marker run at `i` produces: the node, the position
/// after the last consumed token, and the token sequence as it stands
/// afterwards. A run of at most six markers followed directly by a
/// whitespace token gives a header holding the rest of that line as one
/// paragraph, and rewrites nothing. Otherwise no header is made: an
/// over-long run, or a run followed by anything but whitespace, is written
/// back over the last marker token as a literal `#`-run text token (fused
/// with a directly following text token's text when there is one), and the
/// line is reparsed as a plain paragraph from that token.
pub open spec fn parse_header_spec(m: Seq<TokenModel>, i: int) -> (NodeModel, int, Seq<TokenModel>) {
    let e = header_run(m, i);
    let k = e - i;
    if e < m.len() && m[e].kind is Whitespace && k <= 6 {
        let r = parse_paragraph_spec(m, e + 1);
        (
            NodeModel::Header(k as nat, seq![r.0], SpanModel { start: m[e].line, end: m[e].line }),
            r.1,
            m,
        )
    } else if e < m.len() && m[e].kind is Whitespace {
        let m2 = m.update(
            e - 1,
            TokenModel { kind: TokenType::Text, value: hashes(k), line: m[e - 1].line },
        );
        let r = parse_paragraph_spec(m2, e - 1);
        (r.0, r.1, m2)
    } else if e < m.len() && m[e].kind is Text {
        let m2 = m.update(
            e,
            TokenModel { kind: TokenType::Text, value: hashes(k) + m[e].value, line: m[e - 1].line },
        );
        let r = parse_paragraph_spec(m2, e);
        (r.0, r.1, m2)
    } else {
        let m2 = m.update(
            e - 1,
            TokenModel { kind: TokenType::Text, value: hashes(k), line: m[e - 1].line },
        );
        let r = parse_paragraph_spec(m2, e - 1);
        (r.0, r.1, m2)
    }
}

/// `parse_header_spec` strictly advances, stays inside the sequence, and
/// keeps its length.
pub proof fn lemma_parse_header_spec_bounds(m: Seq<TokenModel>, i: int)
    requires
        0 <= i < m.len(),
        m[i].kind is Header,
    ensures
        i < parse_header_spec(m, i).1 <= m.len(),
        parse_header_spec(m, i).2.len() == m.len(),
{
    lemma_header_run_bounds(m, i + 1);
    let e = header_run(m, i);
    assert(e == header_run(m, i + 1));
    let k = e - i;
    if e < m.len() && m[e].kind is Whitespace && k <= 6 {
        lemma_parse_paragraph_spec_bounds(m, e + 1);
    } else if e < m.len() && m[e].kind is Whitespace {
        let m2 = m.update(
            e - 1,
            TokenModel { kind: TokenType::Text, value: hashes(k), line: m[e - 1].line },
        );
        lemma_parse_paragraph_spec_bounds(m2, e - 1);
    } else if e < m.len() && m[e].kind is Text {
        let m2 = m.update(
            e,
            TokenModel { kind: TokenType::Text, value: hashes(k) + m[e].value, line: m[e - 1].line },
        );
        lemma_parse_paragraph_spec_bounds(m2, e);
    } else {
        let m2 = m.update(
            e - 1,
            TokenModel { kind: TokenType::Text, value: hashes(k), line: m[e - 1].line },
        );
        lemma_parse_paragraph_spec_bounds(m2, e - 1);
    }
}

/// What one list item builds, starting at its `- ` marker: the marker opens
/// the item on its line, then [`parse_list_rest_spec`] collects the rest.
pub open spec fn parse_list_item_spec(m: Seq<TokenModel>, i: int, level: int) -> (NodeModel, int)
    decreases m.len() - i,
{
    if 0 <= i < m.len() {
        parse_list_rest_spec(
            m,
            i + 1,
            level,
            Seq::<NodeModel>::empty(),
            Seq::<NodeModel>::empty(),
            m[i].line,
            m[i].line,
        )
    } else {
        (
            NodeModel::UnorderedList(
                level as nat,
                Seq::<NodeModel>::empty(),
                Seq::<NodeModel>::empty(),
                SpanModel { start: 0, end: 0 },
            ),
            i,
        )
    }
}

/// What the rest of one list item builds from position `i`, with `nodes`,
/// `children`, `start` and `end` collected so far. A new marker restarts an
/// item that holds nothing yet and ends it otherwise; a whitespace run
/// followed by a marker strictly deeper than `level` builds a nested child
/// there; an end of line is consumed and the item continues only into a
/// strictly deeper list line; anything else joins the item as inline
/// content.
pub open spec fn parse_list_rest_spec(
    m: Seq<TokenModel>,
    i: int,
    level: int,
    nodes: Seq<NodeModel>,
    children: Seq<NodeModel>,
    start: nat,
    end: nat,
) -> (NodeModel, int)
    decreases m.len() - i,
{
    if i < 0 || i >= m.len() {
        (NodeModel::UnorderedList(level as nat, nodes, children, SpanModel { start, end }), i)
    } else if m[i].kind is UnorderedList {
        if nodes.len() > 0 || children.len() > 0 {
            (NodeModel::UnorderedList(level as nat, nodes, children, SpanModel { start, end }), i)
        } else {
            parse_list_rest_spec(m, i + 1, level, nodes, children, m[i].line, m[i].line)
        }
    } else if m[i].kind is Whitespace {
        let e = ws_run(m, i);
        if e < m.len() && m[e].kind is UnorderedList {
            if e - i > level {
                proof {
                    lemma_ws_run_bounds(m, i + 1);
                    assert(ws_run(m, i) == ws_run(m, i + 1));
                }
                let c = parse_list_item_spec(m, e, e - i);
                let j = if e < c.1 <= m.len() {
                    c.1
                } else {
                    e + 1
                };
                parse_list_rest_spec(
                    m,
                    j,
                    level,
                    nodes,
                    children.push(c.0),
                    start,
                    model_position(c.0).end,
                )
            } else {
                (
                    NodeModel::UnorderedList(
                        level as nat,
                        nodes,
                        children,
                        SpanModel { start, end },
                    ),
                    i,
                )
            }
        } else {
            parse_list_rest_spec(
                m,
                i + 1,
                level,
                nodes.push(NodeModel::Whitespace(SpanModel { start: m[i].line, end: m[i].line })),
                children,
                start,
                m[i].line,
            )
        }
    } else if m[i].kind is Eol {
        let i2 = i + 1;
        if i2 < m.len() && m[i2].kind is Whitespace {
            let e = ws_run(m, i2);
            if e < m.len() && m[e].kind is UnorderedList && e - i2 > level {
                proof {
                    lemma_ws_run_bounds(m, i2 + 1);
                    assert(ws_run(m, i2) == ws_run(m, i2 + 1));
                }
                let c = parse_list_item_spec(m, e, e - i2);
                let j = if e < c.1 <= m.len() {
                    c.1
                } else {
                    e + 1
                };
                parse_list_rest_spec(
                    m,
                    j,
                    level,
                    nodes,
                    children.push(c.0),
                    start,
                    model_position(c.0).end,
                )
            } else {
                (
                    NodeModel::UnorderedList(
                        level as nat,
                        nodes,
                        children,
                        SpanModel { start, end },
                    ),
                    i2,
                )
            }
        } else {
            (
                NodeModel::UnorderedList(level as nat, nodes, children, SpanModel { start, end }),
                i2,
            )
        }
    } else {
        parse_list_rest_spec(
            m,
            i + 1,
            level,
            nodes.push(NodeModel::Text(m[i].value, SpanModel { start: m[i].line, end: m[i].line })),
            children,
            start,
            m[i].line,
        )
    }
}

/// The position a list item stops at strictly advances and stays inside
/// the sequence.
pub proof fn lemma_parse_list_item_spec_bounds(m: Seq<TokenModel>, i: int, level: int)
    requires
        0 <= i < m.len(),
    ensures
        i < parse_list_item_spec(m, i, level).1 <= m.len(),
    decreases m.len() - i, 1int,
{
    lemma_parse_list_rest_spec_bounds(
        m,
        i + 1,
        level,
        Seq::<NodeModel>::empty(),
        Seq::<NodeModel>::empty(),
        m[i].line,
        m[i].line,
    );
}

/// The position the rest of a list item stops at lies between `i` and the
/// end of the sequence.
pub proof fn lemma_parse_list_rest_spec_bounds(
    m: Seq<TokenModel>,
    i: int,
    level: int,
    nodes: Seq<NodeModel>,
    children: Seq<NodeModel>,
    start: nat,
    end: nat,
)
    requires
        0 <= i <= m.len(),
    ensures
        i <= parse_list_rest_spec(m, i, level, nodes, children, start, end).1 <= m.len(),
    decreases m.len() - i, 0int,
{
    if 0 <= i < m.len() {
        if m[i].kind is UnorderedList {
            if !(nodes.len() > 0 || children.len() > 0) {
                lemma_parse_list_rest_spec_bounds(
                    m,
                    i + 1,
                    level,
                    nodes,
                    children,
                    m[i].line,
                    m[i].line,
                );
            }
        } else if m[i].kind is Whitespace {
            let e = ws_run(m, i);
            lemma_ws_run_bounds(m, i + 1);
            if e < m.len() && m[e].kind is UnorderedList {
                if e - i > level {
                    lemma_parse_list_item_spec_bounds(m, e, e - i);
                    let c = parse_list_item_spec(m, e, e - i);
                    let j = if e < c.1 <= m.len() {
                        c.1
                    } else {
                        e + 1
                    };
                    lemma_parse_list_rest_spec_bounds(
                        m,
                        j,
                        level,
                        nodes,
                        children.push(c.0),
                        start,
                        model_position(c.0).end,
                    );
                }
            } else {
                lemma_parse_list_rest_spec_bounds(
                    m,
                    i + 1,
                    level,
                    nodes.push(
                        NodeModel::Whitespace(SpanModel { start: m[i].line, end: m[i].line }),
                    ),
                    children,
                    start,
                    m[i].line,
                );
            }
        } else if m[i].kind is Eol {
            let i2 = i + 1;
            if i2 < m.len() && m[i2].kind is Whitespace {
                let e = ws_run(m, i2);
                lemma_ws_run_bounds(m, i2 + 1);
                if e < m.len() && m[e].kind is UnorderedList && e - i2 > level {
                    lemma_parse_list_item_spec_bounds(m, e, e - i2);
                    let c = parse_list_item_spec(m, e, e - i2);
                    let j = if e < c.1 <= m.len() {
                        c.1
                    } else {
                        e + 1
                    };
                    lemma_parse_list_rest_spec_bounds(
                        m,
                        j,
                        level,
                        nodes,
                        children.push(c.0),
                        start,
                        model_position(c.0).end,
                    );
                }
            }
        } else {
            lemma_parse_list_rest_spec_bounds(
                m,
                i + 1,
                level,
                nodes.push(
                    NodeModel::Text(m[i].value, SpanModel { start: m[i].line, end: m[i].line }),
                ),
                children,
                start,
                m[i].line,
            );
        }
    }
}

/// What walking the whole token sequence from `i` appends to `acc`: a
/// header-marker token hands over to the header parser (which may rewrite
/// one token, so the walk continues on the sequence it returns), a
/// list-marker token builds a level-0 list item, an end-of-line token
/// becomes an end-of-line node on its line, and anything else becomes a
/// paragraph.
pub open spec fn parse_spec(m: Seq<TokenModel>, i: int, acc: Seq<NodeModel>) -> Seq<NodeModel>
    decreases m.len() - i,
{
    if i < 0 || i >= m.len() {
        acc
    } else if m[i].kind is Header {
        let r = parse_header_spec(m, i);
        proof {
            lemma_parse_header_spec_bounds(m, i);
        }
        parse_spec(r.2, r.1, acc.push(r.0))
    } else if m[i].kind is UnorderedList {
        let r = parse_list_item_spec(m, i, 0);
        proof {
            lemma_parse_list_item_spec_bounds(m, i, 0);
        }
        parse_spec(m, r.1, acc.push(r.0))
    } else if m[i].kind is Eol {
        parse_spec(
            m,
            i + 1,
            acc.push(NodeModel::Eol(SpanModel { start: m[i].line, end: m[i].line })),
        )
    } else {
        let r = parse_paragraph_spec(m, i);
        proof {
            lemma_parse_paragraph_spec_bounds(m, i);
        }
        parse_spec(m, r.1, acc.push(r.0))
    }
}

/// The models of the trees that building from `input` produces: the
/// tokenizer's output walked by the recursive-descent rules.
pub open spec fn build_spec(input: Seq<char>) -> Seq<NodeModel> {
    parse_spec(lex_spec(input), 0, Seq::<NodeModel>::empty())
}

/// Returns the position of the given node when it is a list, and nothing
/// otherwise.
fn get_position(node: &Node) -> (res: Option<&LineSpan>)
    ensures
        match res {
            Some(span) => node is UnorderedList && *span == node.spec_position(),
            None => !(node is UnorderedList),
        },
{
    match node {
        Node::UnorderedList(list) => Some(list.position()),
        _ => None,
    }
}

/// Converts one token into the inline leaf node it stands for: a whitespace
/// node for a whitespace token, a text node carrying the literal value for
/// everything else.
fn parse_token(token: &Token) -> (node: Node)
    requires
        token.value@.len() > 0,
        1 <= token.line,
    ensures
        node_wf(node),
        node is Text || node is Whitespace,
        (node is Whitespace <==> token.token_type is Whitespace),
        node.spec_position() == (LineSpan { start: token.line, end: token.line }),
        node_view(node) == parse_token_spec(token@),
{
    match token.token_type {
        TokenType::Whitespace => Node::Whitespace(
            Whitespace { position: LineSpan { start: token.line, end: token.line } },
        ),
        _ => Node::Text(
            Text {
                value: token.value.clone(),
                position: LineSpan { start: token.line, end: token.line },
            },
        ),
    }
}

/// Moves every node of `src`, in order, to the end of `dst`.
fn append_nodes(dst: &mut Vec<Node>, src: Vec<Node>)
    ensures
        final(dst)@ == old(dst)@ + src@,
{
    let mut src = src;
    let ghost src0 = src@;
    let ghost mut k: int = 0;
    proof {
        assert(src0.subrange(0, 0) =~= Seq::<Node>::empty());
        assert(src@ =~= src0.subrange(0, src0.len() as int));
    }
    while src.len() > 0
        invariant
            0 <= k <= src0.len(),
            src@ == src0.subrange(k, src0.len() as int),
            dst@ == old(dst)@ + src0.subrange(0, k),
        decreases src0.len() - k,
    {
        let node = src.remove(0);
        dst.push(node);
        proof {
            assert(src@ =~= src0.subrange(k + 1, src0.len() as int));
            assert(dst@ =~= old(dst)@ + src0.subrange(0, k + 1));
            k = k + 1;
        }
    }
    proof {
        assert(src0.subrange(0, src0.len() as int) =~= src0);
    }
}

/// Parses inline content after an opening `*` marker, which the caller has
/// just consumed. When a closing `*` appears before the end of the line the
/// content is wrapped in a single italic node; otherwise a literal `*` text
/// node is prepended to the collected content and no italic node is made —
/// an unmatched marker degrades to punctuation.
fn parse_italic(stream: &mut TokenStream) -> (res: Vec<Node>)
    requires
        old(stream).wf(),
        1 <= old(stream).index,
        !(views_of(old(stream).tokens@)[old(stream).index - 1].kind is Eol),
    ensures
        final(stream).tokens@ == old(stream).tokens@,
        final(stream).wf(),
        old(stream).index <= final(stream).index <= final(stream).tokens@.len(),
        forall|k: int|
            old(stream).index <= k < final(stream).index ==> !((#[trigger] views_of(
                old(stream).tokens@,
            )[k]).kind is Eol),
        res@.len() >= 1,
        forall|i: int|
            0 <= i < res@.len() ==> node_wf(#[trigger] res@[i]) && res@[i].spec_position() == (
            LineSpan {
                start: old(stream).tokens@[old(stream).index - 1].line,
                end: old(stream).tokens@[old(stream).index - 1].line,
            }),
        forall|i: int|
            0 <= i < res@.len() ==> ((#[trigger] res@[i]) is Italic || res@[i] is Text
                || res@[i] is Whitespace),
        closed_from(views_of(old(stream).tokens@), old(stream).index as int, TokenType::Italic)
            ==> res@.len() == 1 && res@[0] is Italic,
        !closed_from(views_of(old(stream).tokens@), old(stream).index as int, TokenType::Italic)
            ==> res@[0] is Text && text_value(res@[0]) == seq!['*'],
        nodes_view(res@) == parse_italic_spec(
            views_of(old(stream).tokens@),
            old(stream).index as int,
            Seq::<NodeModel>::empty(),
            0,
            0,
        ).0,
        final(stream).index as int == parse_italic_spec(
            views_of(old(stream).tokens@),
            old(stream).index as int,
            Seq::<NodeModel>::empty(),
            0,
            0,
        ).1,
{
    let ghost toks = stream.tokens@;
    let ghost m = views_of(toks);
    let ghost i0 = stream.index as int;
    let lline = stream.tokens[stream.index - 1].line;

    let mut nodes: Vec<Node> = Vec::new();
    let mut is_closed = false;
    let mut start: usize = 0;
    let mut end: usize = 0;

    proof {
        assert(nodes_view(nodes@) =~= Seq::<NodeModel>::empty());
    }
    while stream.index < stream.tokens.len() && stream.tokens[stream.index].token_type
        != TokenType::Eol && !is_closed
        invariant
            stream.wf(),
            stream.tokens@ == toks,
            m == views_of(toks),
            1 <= i0 <= stream.index <= toks.len(),
            lline == toks[i0 - 1].line,
            !(m[i0 - 1].kind is Eol),
            forall|k: int| i0 - 1 <= k < stream.index ==> (#[trigger] m[k]).line == lline as nat,
            forall|k: int| i0 <= k < stream.index ==> !((#[trigger] m[k]).kind is Eol),
            !is_closed ==> forall|k: int|
                i0 <= k < stream.index ==> (#[trigger] m[k]).kind != TokenType::Italic,
            is_closed ==> stream.index > i0 && m[stream.index - 1].kind == TokenType::Italic && (
            forall|k: int|
                i0 <= k < stream.index - 1 ==> (#[trigger] m[k]).kind != TokenType::Italic),
            forall|i: int|
                0 <= i < nodes@.len() ==> node_wf(#[trigger] nodes@[i]) && (nodes@[i] is Text
                    || nodes@[i] is Whitespace) && nodes@[i].spec_position() == (LineSpan {
                    start: lline,
                    end: lline,
                }),
            start == 0 ==> end == 0 && stream.index == i0 && nodes@.len() == 0 && !is_closed,
            start != 0 ==> start == lline && end == lline && stream.index > i0,
            !is_closed ==> parse_italic_spec(m, i0, Seq::<NodeModel>::empty(), 0, 0)
                == parse_italic_spec(
                m,
                stream.index as int,
                nodes_view(nodes@),
                start as nat,
                end as nat,
            ),
            is_closed ==> parse_italic_spec(m, i0, Seq::<NodeModel>::empty(), 0, 0) == (
            seq![
                NodeModel::Italic(
                    nodes_view(nodes@),
                    SpanModel { start: start as nat, end: end as nat },
                ),
            ],
                stream.index as int,
            ),
        decreases toks.len() - stream.index,
    {
        let ghost j = stream.index as int;
        let ghost nv0 = nodes_view(nodes@);
        let ghost s0 = start as nat;
        let ghost e0 = end as nat;
        let token = stream.next().unwrap();
        proof {
            assert(m[j] == toks[j]@);
            assert(token@ == m[j]);
            if j > i0 {
                assert(m[(j - 1) + 1].line == m[j - 1].line + eol_inc(m[j - 1]));
            } else {
                assert(m[(i0 - 1) + 1].line == m[i0 - 1].line + eol_inc(m[i0 - 1]));
            }
        }
        if token.token_type == TokenType::Italic {
            is_closed = true;
        } else {
            let node = parse_token(&token);
            proof {
                lemma_nodes_view_push(nodes@, node);
            }
            nodes.push(node);
        }
        if start == 0 {
            start = token.line;
        }
        if token.line > end {
            end = token.line;
        }
        proof {
            let st: nat = if s0 == 0 {
                m[j].line
            } else {
                s0
            };
            let en: nat = if m[j].line > e0 {
                m[j].line
            } else {
                e0
            };
            assert(start as nat == st);
            assert(end as nat == en);
            if is_closed {
                assert(parse_italic_spec(m, j, nv0, s0, e0) == (
                    seq![NodeModel::Italic(nv0, SpanModel { start: st, end: en })],
                    j + 1,
                ));
            } else {
                assert(nodes_view(nodes@) == nv0.push(parse_token_spec(m[j])));
                assert(parse_italic_spec(m, j, nv0, s0, e0) == parse_italic_spec(
                    m,
                    j + 1,
                    nv0.push(parse_token_spec(m[j])),
                    st,
                    en,
                ));
            }
        }
    }

    if is_closed {
        proof {
            lemma_closed_from_pos(m, i0, stream.index - 1, TokenType::Italic);
        }
        let ghost collected = nodes@;
        let node = Node::Italic(Italic { nodes, position: LineSpan { start, end } });
        let mut result: Vec<Node> = Vec::new();
        result.push(node);
        proof {
            assert(result@[0] == node);
            assert(result@.drop_first() =~= Seq::<Node>::empty());
            assert(nodes_view(result@.drop_first()) =~= Seq::<NodeModel>::empty());
            assert(nodes_view(result@) =~= seq![node_view(node)]);
            assert(node_view(node) == NodeModel::Italic(
                nodes_view(collected),
                SpanModel { start: start as nat, end: end as nat },
            ));
        }
        result
    } else {
        proof {
            lemma_closed_from_neg(m, i0, stream.index as int, TokenType::Italic);
            assert(m[stream.index - 1] == toks[stream.index - 1]@);
        }
        let mut italic_token_line: usize = 0;
        match stream.get(stream.index - 1) {
            Some(prev_token) => {
                italic_token_line = prev_token.line;
            },
            None => {
                // The opening marker was already consumed, so a preceding
                // token always exists: this arm cannot run.
                proof {
                    assert(false);
                }
            },
        }
        let star = Node::Text(
            Text {
                value: char_to_string('*'),
                position: LineSpan { start: italic_token_line, end: italic_token_line },
            },
        );
        let ghost collected = nodes@;
        let mut result = nodes;
        result.insert(0, star);
        proof {
            assert forall|i: int| 0 <= i < result@.len() implies node_wf(#[trigger] result@[i])
                && result@[i].spec_position() == (LineSpan { start: lline, end: lline }) by {
                if i == 0 {
                    assert(result@[i] == star);
                } else {
                    assert(result@[i] == collected[i - 1]);
                }
            }
            assert(result@[0] == star);
            assert(result@.drop_first() =~= collected);
            assert(nodes_view(result@) == seq![node_view(result@[0])] + nodes_view(
                result@.drop_first(),
            ));
            assert(node_view(star) == NodeModel::Text(
                seq!['*'],
                SpanModel { start: italic_token_line as nat, end: italic_token_line as nat },
            ));
            assert(parse_italic_spec(m, stream.index as int, nodes_view(collected), start as nat, end as nat) == (
                seq![
                    NodeModel::Text(
                        seq!['*'],
                        SpanModel {
                            start: m[stream.index - 1].line,
                            end: m[stream.index - 1].line,
                        },
                    ),
                ] + nodes_view(collected),
                stream.index as int,
            ));
        }
        result
    }
}

/// Parses inline content after an opening `**` marker, which the caller has
/// just consumed. When a closing `**` appears before the end of the line the
/// content is wrapped in a single bold node; otherwise a literal `**` text
/// node is prepended to the collected content and no bold node is made — an
/// unmatched marker degrades to punctuation.
fn parse_bold(stream: &mut TokenStream) -> (res: Vec<Node>)
    requires
        old(stream).wf(),
        1 <= old(stream).index,
        !(views_of(old(stream).tokens@)[old(stream).index - 1].kind is Eol),
    ensures
        final(stream).tokens@ == old(stream).tokens@,
        final(stream).wf(),
        old(stream).index <= final(stream).index <= final(stream).tokens@.len(),
        forall|k: int|
            old(stream).index <= k < final(stream).index ==> !((#[trigger] views_of(
                old(stream).tokens@,
            )[k]).kind is Eol),
        res@.len() >= 1,
        forall|i: int|
            0 <= i < res@.len() ==> node_wf(#[trigger] res@[i]) && res@[i].spec_position() == (
            LineSpan {
                start: old(stream).tokens@[old(stream).index - 1].line,
                end: old(stream).tokens@[old(stream).index - 1].line,
            }),
        forall|i: int|
            0 <= i < res@.len() ==> ((#[trigger] res@[i]) is Bold || res@[i] is Text
                || res@[i] is Whitespace),
        closed_from(views_of(old(stream).tokens@), old(stream).index as int, TokenType::Bold)
            ==> res@.len() == 1 && res@[0] is Bold,
        !closed_from(views_of(old(stream).tokens@), old(stream).index as int, TokenType::Bold)
            ==> res@[0] is Text && text_value(res@[0]) == seq!['*', '*'],
        nodes_view(res@) == parse_bold_spec(
            views_of(old(stream).tokens@),
            old(stream).index as int,
            Seq::<NodeModel>::empty(),
            0,
            0,
        ).0,
        final(stream).index as int == parse_bold_spec(
            views_of(old(stream).tokens@),
            old(stream).index as int,
            Seq::<NodeModel>::empty(),
            0,
            0,
        ).1,
{
    let ghost toks = stream.tokens@;
    let ghost m = views_of(toks);
    let ghost i0 = stream.index as int;
    let lline = stream.tokens[stream.index - 1].line;

    let mut nodes: Vec<Node> = Vec::new();
    let mut is_closed = false;
    let mut start: usize = 0;
    let mut end: usize = 0;

    proof {
        assert(nodes_view(nodes@) =~= Seq::<NodeModel>::empty());
    }
    while stream.index < stream.tokens.len() && stream.tokens[stream.index].token_type
        != TokenType::Eol && !is_closed
        invariant
            stream.wf(),
            stream.tokens@ == toks,
            m == views_of(toks),
            1 <= i0 <= stream.index <= toks.len(),
            lline == toks[i0 - 1].line,
            !(m[i0 - 1].kind is Eol),
            forall|k: int| i0 - 1 <= k < stream.index ==> (#[trigger] m[k]).line == lline as nat,
            forall|k: int| i0 <= k < stream.index ==> !((#[trigger] m[k]).kind is Eol),
            !is_closed ==> forall|k: int|
                i0 <= k < stream.index ==> (#[trigger] m[k]).kind != TokenType::Bold,
            is_closed ==> stream.index > i0 && m[stream.index - 1].kind == TokenType::Bold && (
            forall|k: int|
                i0 <= k < stream.index - 1 ==> (#[trigger] m[k]).kind != TokenType::Bold),
            forall|i: int|
                0 <= i < nodes@.len() ==> node_wf(#[trigger] nodes@[i]) && (nodes@[i] is Text
                    || nodes@[i] is Whitespace) && nodes@[i].spec_position() == (LineSpan {
                    start: lline,
                    end: lline,
                }),
            start == 0 ==> end == 0 && stream.index == i0 && nodes@.len() == 0 && !is_closed,
            start != 0 ==> start == lline && end == lline && stream.index > i0,
            !is_closed ==> parse_bold_spec(m, i0, Seq::<NodeModel>::empty(), 0, 0)
                == parse_bold_spec(
                m,
                stream.index as int,
                nodes_view(nodes@),
                start as nat,
                end as nat,
            ),
            is_closed ==> parse_bold_spec(m, i0, Seq::<NodeModel>::empty(), 0, 0) == (
            seq![
                NodeModel::Bold(
                    nodes_view(nodes@),
                    SpanModel { start: start as nat, end: end as nat },
                ),
            ],
                stream.index as int,
            ),
        decreases toks.len() - stream.index,
    {
        let ghost j = stream.index as int;
        let ghost nv0 = nodes_view(nodes@);
        let ghost s0 = start as nat;
        let ghost e0 = end as nat;
        let token = stream.next().unwrap();
        proof {
            assert(m[j] == toks[j]@);
            assert(token@ == m[j]);
            if j > i0 {
                assert(m[(j - 1) + 1].line == m[j - 1].line + eol_inc(m[j - 1]));
            } else {
                assert(m[(i0 - 1) + 1].line == m[i0 - 1].line + eol_inc(m[i0 - 1]));
            }
        }
        if token.token_type == TokenType::Bold {
            is_closed = true;
        } else {
            let node = parse_token(&token);
            proof {
                lemma_nodes_view_push(nodes@, node);
            }
            nodes.push(node);
        }
        if start == 0 {
            start = token.line;
        }
        if token.line > end {
            end = token.line;
        }
        proof {
            let st: nat = if s0 == 0 {
                m[j].line
            } else {
                s0
            };
            let en: nat = if m[j].line > e0 {
                m[j].line
            } else {
                e0
            };
            assert(start as nat == st);
            assert(end as nat == en);
            if is_closed {
                assert(parse_bold_spec(m, j, nv0, s0, e0) == (
                    seq![NodeModel::Bold(nv0, SpanModel { start: st, end: en })],
                    j + 1,
                ));
            } else {
                assert(nodes_view(nodes@) == nv0.push(parse_token_spec(m[j])));
                assert(parse_bold_spec(m, j, nv0, s0, e0) == parse_bold_spec(
                    m,
                    j + 1,
                    nv0.push(parse_token_spec(m[j])),
                    st,
                    en,
                ));
            }
        }
    }

    if is_closed {
        proof {
            lemma_closed_from_pos(m, i0, stream.index - 1, TokenType::Bold);
        }
        let ghost collected = nodes@;
        let node = Node::Bold(Bold { nodes, position: LineSpan { start, end } });
        let mut result: Vec<Node> = Vec::new();
        result.push(node);
        proof {
            assert(result@[0] == node);
            assert(result@.drop_first() =~= Seq::<Node>::empty());
            assert(nodes_view(result@.drop_first()) =~= Seq::<NodeModel>::empty());
            assert(nodes_view(result@) =~= seq![node_view(node)]);
            assert(node_view(node) == NodeModel::Bold(
                nodes_view(collected),
                SpanModel { start: start as nat, end: end as nat },
            ));
        }
        result
    } else {
        proof {
            lemma_closed_from_neg(m, i0, stream.index as int, TokenType::Bold);
            assert(m[stream.index - 1] == toks[stream.index - 1]@);
        }
        let mut bold_token_line: usize = 0;
        match stream.get(stream.index - 1) {
            Some(prev_token) => {
                bold_token_line = prev_token.line;
            },
            None => {
                // The opening marker was already consumed, so a preceding
                // token always exists: this arm cannot run.
                proof {
                    assert(false);
                }
            },
        }
        let mut marker = char_to_string('*');
        push_char(&mut marker, '*');
        proof {
            assert(marker@ =~= seq!['*', '*']);
        }
        let stars = Node::Text(
            Text {
                value: marker,
                position: LineSpan { start: bold_token_line, end: bold_token_line },
            },
        );
        let ghost collected = nodes@;
        let mut result = nodes;
        result.insert(0, stars);
        proof {
            assert forall|i: int| 0 <= i < result@.len() implies node_wf(#[trigger] result@[i])
                && result@[i].spec_position() == (LineSpan { start: lline, end: lline }) by {
                if i == 0 {
                    assert(result@[i] == stars);
                } else {
                    assert(result@[i] == collected[i - 1]);
                }
            }
            assert(result@[0] == stars);
            assert(result@.drop_first() =~= collected);
            assert(nodes_view(result@) == seq![node_view(result@[0])] + nodes_view(
                result@.drop_first(),
            ));
            assert(node_view(stars) == NodeModel::Text(
                seq!['*', '*'],
                SpanModel { start: bold_token_line as nat, end: bold_token_line as nat },
            ));
            assert(parse_bold_spec(m, stream.index as int, nodes_view(collected), start as nat, end as nat) == (
                seq![
                    NodeModel::Text(
                        seq!['*', '*'],
                        SpanModel {
                            start: m[stream.index - 1].line,
                            end: m[stream.index - 1].line,
                        },
                    ),
                ] + nodes_view(collected),
                stream.index as int,
            ));
        }
        result
    }
}

/// Converts the tokens up to and including the end of the line into inline
/// nodes: emphasis markers hand over to the emphasis parsers, whitespace
/// becomes a whitespace node, an end of line stops the walk, and anything
/// else becomes a text node carrying the token's literal value. Every node
/// produced sits on the line of the first token.
fn parse_line(stream: &mut TokenStream) -> (res: Vec<Node>)
    requires
        old(stream).wf(),
    ensures
        final(stream).tokens@ == old(stream).tokens@,
        final(stream).wf(),
        old(stream).index <= final(stream).index <= final(stream).tokens@.len(),
        old(stream).index < old(stream).tokens@.len() ==> final(stream).index > old(stream).index,
        forall|i: int|
            0 <= i < res@.len() ==> node_wf(#[trigger] res@[i]) && old(stream).index < old(
                stream,
            ).tokens@.len() && res@[i].spec_position() == (LineSpan {
                start: old(stream).tokens@[old(stream).index as int].line,
                end: old(stream).tokens@[old(stream).index as int].line,
            }),
        forall|i: int|
            0 <= i < res@.len() ==> ((#[trigger] res@[i]) is Text || res@[i] is Whitespace
                || res@[i] is Italic || res@[i] is Bold),
        forall|k: int|
            old(stream).index <= k < final(stream).index ==> (#[trigger] views_of(
                old(stream).tokens@,
            )[k]).line == views_of(old(stream).tokens@)[old(stream).index as int].line,
        res@.len() == 0 ==> (old(stream).index == old(stream).tokens@.len() && final(stream).index
            == old(stream).index) || (final(stream).index == old(stream).index + 1 && views_of(
            old(stream).tokens@,
        )[old(stream).index as int].kind is Eol),
        nodes_view(res@) == parse_line_spec(
            views_of(old(stream).tokens@),
            old(stream).index as int,
            Seq::<NodeModel>::empty(),
        ).0,
        final(stream).index as int == parse_line_spec(
            views_of(old(stream).tokens@),
            old(stream).index as int,
            Seq::<NodeModel>::empty(),
        ).1,
{
    let ghost toks = stream.tokens@;
    let ghost m = views_of(toks);
    let ghost i0 = stream.index as int;

    let mut nodes: Vec<Node> = Vec::new();
    let mut done = false;

    proof {
        assert(nodes_view(nodes@) =~= Seq::<NodeModel>::empty());
    }
    while stream.index < stream.tokens.len() && !done
        invariant
            stream.wf(),
            stream.tokens@ == toks,
            m == views_of(toks),
            0 <= i0 <= stream.index <= toks.len(),
            !done ==> forall|k: int| i0 <= k < stream.index ==> !((#[trigger] m[k]).kind is Eol),
            done ==> stream.index > i0 && m[stream.index - 1].kind is Eol && (forall|k: int|
                i0 <= k < stream.index - 1 ==> !((#[trigger] m[k]).kind is Eol)),
            forall|k: int| i0 <= k < stream.index ==> (#[trigger] m[k]).line == m[i0].line,
            forall|i: int|
                0 <= i < nodes@.len() ==> node_wf(#[trigger] nodes@[i])
                    && nodes@[i].spec_position() == (LineSpan {
                    start: toks[i0].line,
                    end: toks[i0].line,
                }),
            forall|i: int|
                0 <= i < nodes@.len() ==> ((#[trigger] nodes@[i]) is Text
                    || nodes@[i] is Whitespace || nodes@[i] is Italic || nodes@[i] is Bold),
            nodes@.len() > 0 ==> stream.index > i0,
            nodes@.len() == 0 && !done ==> stream.index == i0,
            nodes@.len() == 0 && done ==> stream.index == i0 + 1 && m[i0].kind is Eol,
            !done ==> parse_line_spec(m, i0, Seq::<NodeModel>::empty()) == parse_line_spec(
                m,
                stream.index as int,
                nodes_view(nodes@),
            ),
            done ==> parse_line_spec(m, i0, Seq::<NodeModel>::empty()) == (
                nodes_view(nodes@),
                stream.index as int,
            ),
        decreases toks.len() - stream.index,
    {
        let ghost j = stream.index as int;
        let ghost nv0 = nodes_view(nodes@);
        let token = stream.next().unwrap();
        proof {
            assert(m[j] == toks[j]@);
            assert(token@ == m[j]);
            if j > i0 {
                assert(m[(j - 1) + 1].line == m[j - 1].line + eol_inc(m[j - 1]));
            }
        }
        if token.token_type == TokenType::Italic {
            let sub = parse_italic(stream);
            let ghost subseq = sub@;
            let ghost collected = nodes@;
            let ghost sub_stop = stream.index as int;
            append_nodes(&mut nodes, sub);
            proof {
                assert forall|k: int| i0 <= k < stream.index implies !((#[trigger] m[k]).kind
                    is Eol) by {
                    if k > j {
                        assert(!(views_of(toks)[k].kind is Eol));
                    }
                }
                assert forall|k: int| i0 <= k < stream.index implies (#[trigger] m[k]).line
                    == m[i0].line by {
                    lemma_same_line(m, i0, k);
                }
                lemma_nodes_view_add(collected, subseq);
                let sub_spec = parse_italic_spec(m, j + 1, Seq::<NodeModel>::empty(), 0, 0);
                assert(nodes_view(subseq) == sub_spec.0);
                assert(sub_stop == sub_spec.1);
                assert(nodes_view(nodes@) == nv0 + sub_spec.0);
                assert(parse_line_spec(m, j, nv0) == parse_line_spec(
                    m,
                    sub_spec.1,
                    nv0 + sub_spec.0,
                ));
            }
        } else if token.token_type == TokenType::Bold {
            let sub = parse_bold(stream);
            let ghost subseq = sub@;
            let ghost collected = nodes@;
            let ghost sub_stop = stream.index as int;
            append_nodes(&mut nodes, sub);
            proof {
                assert forall|k: int| i0 <= k < stream.index implies !((#[trigger] m[k]).kind
                    is Eol) by {
                    if k > j {
                        assert(!(views_of(toks)[k].kind is Eol));
                    }
                }
                assert forall|k: int| i0 <= k < stream.index implies (#[trigger] m[k]).line
                    == m[i0].line by {
                    lemma_same_line(m, i0, k);
                }
                lemma_nodes_view_add(collected, subseq);
                let sub_spec = parse_bold_spec(m, j + 1, Seq::<NodeModel>::empty(), 0, 0);
                assert(nodes_view(subseq) == sub_spec.0);
                assert(sub_stop == sub_spec.1);
                assert(nodes_view(nodes@) == nv0 + sub_spec.0);
                assert(parse_line_spec(m, j, nv0) == parse_line_spec(
                    m,
                    sub_spec.1,
                    nv0 + sub_spec.0,
                ));
            }
        } else if token.token_type == TokenType::Whitespace {
            let node = Node::Whitespace(
                Whitespace { position: LineSpan { start: token.line, end: token.line } },
            );
            proof {
                lemma_nodes_view_push(nodes@, node);
                assert(node_view(node) == NodeModel::Whitespace(
                    SpanModel { start: m[j].line, end: m[j].line },
                ));
                assert(parse_line_spec(m, j, nv0) == parse_line_spec(
                    m,
                    j + 1,
                    nv0.push(
                        NodeModel::Whitespace(SpanModel { start: m[j].line, end: m[j].line }),
                    ),
                ));
            }
            nodes.push(node);
        } else if token.token_type == TokenType::Eol {
            done = true;
            proof {
                assert(parse_line_spec(m, j, nv0) == (nv0, j + 1));
            }
        } else {
            let node = Node::Text(
                Text {
                    value: token.value,
                    position: LineSpan { start: token.line, end: token.line },
                },
            );
            proof {
                lemma_nodes_view_push(nodes@, node);
                assert(node_view(node) == NodeModel::Text(
                    m[j].value,
                    SpanModel { start: m[j].line, end: m[j].line },
                ));
                assert(parse_line_spec(m, j, nv0) == parse_line_spec(
                    m,
                    j + 1,
                    nv0.push(
                        NodeModel::Text(m[j].value, SpanModel { start: m[j].line, end: m[j].line }),
                    ),
                ));
            }
            nodes.push(node);
        }
    }
    nodes
}

/// Builds the ordered sequence of root-level nodes: a header-marker token
/// opens a header, a list-marker token opens a top-level list item, an
/// end-of-line token becomes an end-of-line node, and everything else opens
/// a paragraph. Every node produced is well formed, and a non-empty token
/// sequence produces at least one node.
#[verifier::loop_isolation(false)]
fn parse(stream: &mut TokenStream) -> (res: Vec<Node>)
    requires
        old(stream).wf(),
    ensures
        final(stream).wf(),
        final(stream).tokens@.len() == old(stream).tokens@.len(),
        forall|i: int| 0 <= i < res@.len() ==> node_wf(#[trigger] res@[i]),
        forall|i: int|
            0 <= i < res@.len() ==> ((#[trigger] res@[i]) is Header || res@[i] is Paragraph
                || res@[i] is UnorderedList || res@[i] is Eol),
        old(stream).index < old(stream).tokens@.len() ==> res@.len() > 0,
        res@.len() > 0 ==> old(stream).index < old(stream).tokens@.len(),
        forall|i: int|
            0 <= i && i + 1 < res@.len() ==> (#[trigger] res@[i]).spec_position().end
                <= res@[i + 1].spec_position().start,
        old(stream).index < old(stream).tokens@.len() ==> ({
            let m = views_of(old(stream).tokens@);
            let i = old(stream).index as int;
            &&& (res@[0] is Eol <==> m[i].kind is Eol)
            &&& (res@[0] is UnorderedList <==> m[i].kind is UnorderedList)
            &&& (res@[0] is Header <==> m[i].kind is Header && valid_header_at(m, i))
            &&& (res@[0] is Eol ==> res@[0].spec_position() == (LineSpan {
                start: old(stream).tokens@[i].line,
                end: old(stream).tokens@[i].line,
            }))
        }),
        forall|i: int|
            0 <= i < res@.len() ==> ((#[trigger] res@[i]) is UnorderedList ==> list_level(res@[i])
                == 0),
        nodes_view(res@) == parse_spec(
            views_of(old(stream).tokens@),
            old(stream).index as int,
            Seq::<NodeModel>::empty(),
        ),
{
    let mut nodes: Vec<Node> = Vec::new();
    proof {
        assert(nodes_view(nodes@) =~= Seq::<NodeModel>::empty());
    }
    while stream.index < stream.tokens.len()
        invariant
            stream.wf(),
            stream.tokens@.len() == old(stream).tokens@.len(),
            old(stream).index <= stream.index,
            forall|i: int| 0 <= i < nodes@.len() ==> node_wf(#[trigger] nodes@[i]),
            forall|i: int|
                0 <= i < nodes@.len() ==> ((#[trigger] nodes@[i]) is Header
                    || nodes@[i] is Paragraph || nodes@[i] is UnorderedList || nodes@[i] is Eol),
            nodes@.len() == 0 ==> stream.index == old(stream).index && stream.tokens@ == old(
                stream,
            ).tokens@,
            forall|i: int|
                0 <= i && i + 1 < nodes@.len() ==> (#[trigger] nodes@[i]).spec_position().end
                    <= nodes@[i + 1].spec_position().start,
            nodes@.len() > 0 ==> stream.index >= 1 && nodes@.last().spec_position().end
                <= stream.tokens@[stream.index - 1].line,
            nodes@.len() > 0 ==> old(stream).index < old(stream).tokens@.len() && ({
                let m = views_of(old(stream).tokens@);
                let i = old(stream).index as int;
                &&& (nodes@[0] is Eol <==> m[i].kind is Eol)
                &&& (nodes@[0] is UnorderedList <==> m[i].kind is UnorderedList)
                &&& (nodes@[0] is Header <==> m[i].kind is Header && valid_header_at(m, i))
                &&& (nodes@[0] is Eol ==> nodes@[0].spec_position() == (LineSpan {
                    start: old(stream).tokens@[i].line,
                    end: old(stream).tokens@[i].line,
                }))
            }),
            forall|i: int|
                0 <= i < nodes@.len() ==> ((#[trigger] nodes@[i]) is UnorderedList ==> list_level(
                    nodes@[i],
                ) == 0),
            parse_spec(
                views_of(old(stream).tokens@),
                old(stream).index as int,
                Seq::<NodeModel>::empty(),
            ) == parse_spec(views_of(stream.tokens@), stream.index as int, nodes_view(nodes@)),
        decreases stream.tokens@.len() - stream.index,
    {
        let ghost j = stream.index as int;
        let ghost mcur = views_of(stream.tokens@);
        let ghost nv0 = nodes_view(nodes@);
        proof {
            assert(views_of(stream.tokens@)[j] == stream.tokens@[j]@);
            assert(views_of(stream.tokens@)[j].line >= 1);
            if j >= 1 {
                lemma_token_lines_monotone(views_of(stream.tokens@), j - 1, j);
                assert(views_of(stream.tokens@)[j - 1] == stream.tokens@[j - 1]@);
            }
        }
        let tt = stream.tokens[stream.index].token_type;
        if tt == TokenType::Header {
            let node = parse_header(stream);
            proof {
                lemma_nodes_view_push(nodes@, node);
                let r = parse_header_spec(mcur, j);
                assert(parse_spec(mcur, j, nv0) == parse_spec(r.2, r.1, nv0.push(r.0)));
            }
            nodes.push(node);
        } else if tt == TokenType::UnorderedList {
            let node = parse_unordered_list(stream, 0);
            proof {
                lemma_nodes_view_push(nodes@, node);
                let r = parse_list_item_spec(mcur, j, 0);
                assert(parse_spec(mcur, j, nv0) == parse_spec(mcur, r.1, nv0.push(r.0)));
            }
            nodes.push(node);
        } else if tt == TokenType::Eol {
            let line = stream.tokens[stream.index].line;
            let node = Node::Eol(Eol { position: LineSpan { start: line, end: line } });
            proof {
                lemma_nodes_view_push(nodes@, node);
                assert(node_view(node) == NodeModel::Eol(
                    SpanModel { start: mcur[j].line, end: mcur[j].line },
                ));
                assert(parse_spec(mcur, j, nv0) == parse_spec(
                    mcur,
                    j + 1,
                    nv0.push(NodeModel::Eol(SpanModel { start: mcur[j].line, end: mcur[j].line })),
                ));
            }
            nodes.push(node);
            stream.next();
        } else {
            let node = parse_paragraph(stream);
            proof {
                lemma_nodes_view_push(nodes@, node);
                let r = parse_paragraph_spec(mcur, j);
                assert(parse_spec(mcur, j, nv0) == parse_spec(mcur, r.1, nv0.push(r.0)));
            }
            nodes.push(node);
        }
    }
    nodes
}

/// Parses a Markdown-dialect string and builds the tree of root-level nodes
/// representing its structure: the input is tokenized, then the tokens are
/// walked by recursive descent. The call never fails: malformed markup
/// degrades to literal text. Every node of every tree in the result is well
/// formed in the sense of [`node_wf`], and any input that tokenizes to at
/// least one token yields at least one node.
pub fn build_tree(input: &str) -> (res: Vec<Node>)
    requires
        input@.len() < usize::MAX,
    ensures
        forall|i: int| 0 <= i < res@.len() ==> node_wf(#[trigger] res@[i]),
        forall|i: int|
            0 <= i < res@.len() ==> ((#[trigger] res@[i]) is Header || res@[i] is Paragraph
                || res@[i] is UnorderedList || res@[i] is Eol),
        res@.len() > 0 <==> lex_spec(input@).len() > 0,
        forall|i: int|
            0 <= i && i + 1 < res@.len() ==> (#[trigger] res@[i]).spec_position().end
                <= res@[i + 1].spec_position().start,
        forall|i: int|
            0 <= i < res@.len() ==> ((#[trigger] res@[i]) is UnorderedList ==> list_level(res@[i])
                == 0),
        nodes_view(res@) == build_spec(input@),
        lex_spec(input@).len() > 0 ==> ({
            let m = lex_spec(input@);
            &&& (res@[0] is Eol <==> m[0].kind is Eol)
            &&& (res@[0] is UnorderedList <==> m[0].kind is UnorderedList)
            &&& (res@[0] is Header <==> m[0].kind is Header && valid_header_at(m, 0))
            &&& (res@[0] is UnorderedList ==> list_level(res@[0]) == 0)
            &&& (res@[0] is Eol ==> res@[0].spec_position().start as nat == m[0].line
                && res@[0].spec_position().end as nat == m[0].line)
        }),
{
    let tokens = lex(input);
    let mut stream = TokenStream::new(tokens);
    parse(&mut stream)
}

/// One call frame builds one list item: the item's own inline content plus
/// the nested sub-lists on the contiguous deeper-indented lines after it.
/// A line joins as a nested child exactly when the count of whitespace
/// tokens before its `- ` marker strictly exceeds `cur_nest`; an equal or
/// shallower indentation, or a new marker once this item holds anything,
/// ends the frame without consuming.
#[verifier::loop_isolation(false)]
fn parse_unordered_list(stream: &mut TokenStream, cur_nest: usize) -> (res: Node)
    requires
        old(stream).wf(),
        old(stream).index < old(stream).tokens@.len(),
        views_of(old(stream).tokens@)[old(stream).index as int].kind is UnorderedList,
    ensures
        final(stream).tokens@ == old(stream).tokens@,
        final(stream).wf(),
        old(stream).index < final(stream).index <= final(stream).tokens@.len(),
        node_wf(res),
        res is UnorderedList,
        list_level(res) == cur_nest,
        res.spec_position().start == old(stream).tokens@[old(stream).index as int].line,
        res.spec_position().end <= old(stream).tokens@[final(stream).index - 1].line,
        node_view(res) == parse_list_item_spec(
            views_of(old(stream).tokens@),
            old(stream).index as int,
            cur_nest as int,
        ).0,
        final(stream).index as int == parse_list_item_spec(
            views_of(old(stream).tokens@),
            old(stream).index as int,
            cur_nest as int,
        ).1,
    decreases old(stream).tokens@.len() - old(stream).index,
{
    let ghost toks = stream.tokens@;
    let ghost m = views_of(toks);
    let ghost i0 = stream.index as int;

    proof {
        assert(m[i0] == toks[i0]@);
        assert(m[i0].line >= 1);
    }
    // The first marker opens the item and fixes its provisional span.
    let first = stream.next().unwrap();
    let mut start: usize = first.line;
    let mut end: usize = first.line;
    let mut nodes: Vec<Node> = Vec::new();
    let mut children: Vec<Node> = Vec::new();
    let mut done = false;

    proof {
        assert(nodes_view(nodes@) =~= Seq::<NodeModel>::empty());
        assert(nodes_view(children@) =~= Seq::<NodeModel>::empty());
    }
    while stream.index < stream.tokens.len() && !done
        invariant
            stream.wf(),
            stream.tokens@ == toks,
            m == views_of(toks),
            0 <= i0 < stream.index <= toks.len(),
            m[i0].kind is UnorderedList,
            token_seq_wf(m),
            1 <= start <= end,
            start == toks[i0].line,
            end <= toks[stream.index - 1].line,
            !done && nodes@.len() == 0 && children@.len() == 0 ==> forall|k: int|
                i0 <= k < stream.index ==> !((#[trigger] m[k]).kind is Eol),
            forall|i: int|
                0 <= i < nodes@.len() ==> node_wf(#[trigger] nodes@[i]) && (nodes@[i] is Text
                    || nodes@[i] is Whitespace) && start <= nodes@[i].spec_position().start
                    && nodes@[i].spec_position().end <= end,
            forall|i: int|
                0 <= i < children@.len() ==> (#[trigger] children@[i]) is UnorderedList
                    && list_level(children@[i]) > cur_nest && node_wf(children@[i]) && start
                    <= children@[i].spec_position().start && children@[i].spec_position().end
                    <= end,
            !done ==> parse_list_item_spec(m, i0, cur_nest as int) == parse_list_rest_spec(
                m,
                stream.index as int,
                cur_nest as int,
                nodes_view(nodes@),
                nodes_view(children@),
                start as nat,
                end as nat,
            ),
            done ==> parse_list_item_spec(m, i0, cur_nest as int) == (
                NodeModel::UnorderedList(
                    cur_nest as nat,
                    nodes_view(nodes@),
                    nodes_view(children@),
                    SpanModel { start: start as nat, end: end as nat },
                ),
                stream.index as int,
            ),
        decreases toks.len() - stream.index, (if done {
            0int
        } else {
            1int
        }),
    {
        let ghost j = stream.index as int;
        let ghost nv0 = nodes_view(nodes@);
        let ghost cv0 = nodes_view(children@);
        let ghost s0 = start as nat;
        let ghost e0 = end as nat;
        proof {
            assert(m[j] == toks[j]@);
            lemma_token_lines_monotone(m, i0, j);
            lemma_token_lines_monotone(m, j - 1, j);
            lemma_nodes_view_len(nodes@);
            lemma_nodes_view_len(children@);
        }
        let tt = stream.tokens[stream.index].token_type;
        if tt == TokenType::UnorderedList {
            // A marker on an item that already holds anything belongs to a
            // sibling at the same or shallower depth: stop without
            // consuming. Otherwise the item restarts here.
            if nodes.len() > 0 || children.len() > 0 {
                done = true;
            } else {
                proof {
                    lemma_same_line(m, i0, j);
                }
                let token = stream.next().unwrap();
                start = token.line;
                end = token.line;
            }
        } else if tt == TokenType::Whitespace {
            let nest_opt = stream.is_next_list();
            match nest_opt {
                Some(nest) => {
                    if nest > cur_nest {
                        // A deeper-indented list line: step past the
                        // indentation and build the child item there.
                        let ghost e = ws_run(m, j);
                        let mut k: usize = 0;
                        while k < nest
                            invariant
                                stream.wf(),
                                stream.tokens@ == toks,
                                m == views_of(toks),
                                k <= nest,
                                stream.index as int == j + k,
                                j + nest == e,
                                e < toks.len(),
                            decreases nest - k,
                        {
                            stream.next();
                            k = k + 1;
                        }
                        proof {
                            assert(m[e] == toks[e]@);
                            lemma_token_lines_monotone(m, j - 1, e);
                        }
                        let child = parse_unordered_list(stream, nest);
                        let ghost child_stop = stream.index as int;
                        proof {
                            lemma_token_lines_monotone(m, i0, j - 1);
                            crate::tree::lemma_view_position(child);
                        }
                        match get_position(&child) {
                            Some(position) => {
                                end = position.end;
                            },
                            None => {},
                        }
                        proof {
                            lemma_nodes_view_push(children@, child);
                        }
                        children.push(child);
                        proof {
                            let c = parse_list_item_spec(m, e, nest as int);
                            assert(node_view(child) == c.0);
                            assert(child_stop == c.1);
                            assert(e < c.1 <= m.len());
                            assert(parse_list_rest_spec(m, j, cur_nest as int, nv0, cv0, s0, e0)
                                == parse_list_rest_spec(
                                m,
                                c.1,
                                cur_nest as int,
                                nv0,
                                cv0.push(c.0),
                                s0,
                                model_position(c.0).end,
                            ));
                        }
                    } else {
                        done = true;
                        proof {
                            assert(parse_list_rest_spec(m, j, cur_nest as int, nv0, cv0, s0, e0)
                                == (
                                NodeModel::UnorderedList(
                                    cur_nest as nat,
                                    nv0,
                                    cv0,
                                    SpanModel { start: s0, end: e0 },
                                ),
                                j,
                            ));
                        }
                    }
                },
                None => {
                    let token = stream.next().unwrap();
                    end = token.line;
                    let node = Node::Whitespace(
                        Whitespace { position: LineSpan { start: token.line, end: token.line } },
                    );
                    proof {
                        lemma_nodes_view_push(nodes@, node);
                        assert(node_view(node) == NodeModel::Whitespace(
                            SpanModel { start: m[j].line, end: m[j].line },
                        ));
                    }
                    nodes.push(node);
                },
            }
        } else if tt == TokenType::Eol {
            // Look past the line break: only a deeper-indented list line
            // continues this item.
            stream.next();
            let mut continued = false;
            if stream.index < stream.tokens.len() {
                let tt2 = stream.tokens[stream.index].token_type;
                proof {
                    assert(m[j + 1] == toks[j + 1]@);
                }
                if tt2 == TokenType::Whitespace {
                    let nest_opt = stream.is_next_list();
                    match nest_opt {
                        Some(nest) => {
                            if nest > cur_nest {
                                let ghost j2 = stream.index as int;
                                let ghost e = ws_run(m, j2);
                                let mut k: usize = 0;
                                while k < nest
                                    invariant
                                        stream.wf(),
                                        stream.tokens@ == toks,
                                        m == views_of(toks),
                                        k <= nest,
                                        stream.index as int == j2 + k,
                                        j2 + nest == e,
                                        e < toks.len(),
                                    decreases nest - k,
                                {
                                    stream.next();
                                    k = k + 1;
                                }
                                proof {
                                    assert(m[e] == toks[e]@);
                                    lemma_token_lines_monotone(m, j, e);
                                }
                                let child = parse_unordered_list(stream, nest);
                                let ghost child_stop = stream.index as int;
                                proof {
                                    lemma_token_lines_monotone(m, i0, j);
                                    crate::tree::lemma_view_position(child);
                                }
                                match get_position(&child) {
                                    Some(position) => {
                                        end = position.end;
                                    },
                                    None => {},
                                }
                                proof {
                                    lemma_nodes_view_push(children@, child);
                                }
                                children.push(child);
                                continued = true;
                                proof {
                                    let c = parse_list_item_spec(m, e, nest as int);
                                    assert(node_view(child) == c.0);
                                    assert(child_stop == c.1);
                                    assert(e < c.1 <= m.len());
                                    assert(parse_list_rest_spec(
                                        m,
                                        j,
                                        cur_nest as int,
                                        nv0,
                                        cv0,
                                        s0,
                                        e0,
                                    ) == parse_list_rest_spec(
                                        m,
                                        c.1,
                                        cur_nest as int,
                                        nv0,
                                        cv0.push(c.0),
                                        s0,
                                        model_position(c.0).end,
                                    ));
                                }
                            }
                        },
                        None => {},
                    }
                }
            }
            if !continued {
                done = true;
                proof {
                    assert(parse_list_rest_spec(m, j, cur_nest as int, nv0, cv0, s0, e0) == (
                        NodeModel::UnorderedList(
                            cur_nest as nat,
                            nv0,
                            cv0,
                            SpanModel { start: s0, end: e0 },
                        ),
                        j + 1,
                    ));
                }
            }
        } else {
            // Anything else is this item's own inline content.
            let token = stream.next().unwrap();
            end = token.line;
            let node = Node::Text(
                Text {
                    value: token.value,
                    position: LineSpan { start: token.line, end: token.line },
                },
            );
            proof {
                assert(token@ == m[j]);
                lemma_nodes_view_push(nodes@, node);
                assert(node_view(node) == NodeModel::Text(
                    m[j].value,
                    SpanModel { start: m[j].line, end: m[j].line },
                ));
            }
            nodes.push(node);
        }
    }

    let ghost nvfin = nodes_view(nodes@);
    let ghost cvfin = nodes_view(children@);
    let res = Node::UnorderedList(
        UnorderedList { level: cur_nest, nodes, children, position: LineSpan { start, end } },
    );
    proof {
        assert(node_view(res) == NodeModel::UnorderedList(
            cur_nest as nat,
            nvfin,
            cvfin,
            SpanModel { start: start as nat, end: end as nat },
        ));
    }
    res
}

/// A fresh string of `n` repeated `#` characters.
fn repeat_hash(n: usize) -> (res: String)
    ensures
        res@.len() == n,
        forall|j: int| 0 <= j < n ==> res@[j] == '#',
{
    let mut res = String::new();
    let mut i: usize = 0;
    while i < n
        invariant
            i <= n,
            res@.len() == i,
            forall|j: int| 0 <= j < i ==> res@[j] == '#',
        decreases n - i,
    {
        push_char(&mut res, '#');
        i = i + 1;
    }
    res
}

/// Parses a header-marker run. A run of at most six markers followed by a
/// whitespace token is a header: the whitespace is consumed and the rest of
/// the line becomes the header's single paragraph, with the header's span on
/// that line. Anything else is not a header and degrades to literal text —
/// the run is fused with a directly following text token, or written back
/// over the last marker token — and the line is parsed as a plain paragraph.
fn parse_header(stream: &mut TokenStream) -> (res: Node)
    requires
        old(stream).wf(),
        old(stream).index < old(stream).tokens@.len(),
        views_of(old(stream).tokens@)[old(stream).index as int].kind is Header,
    ensures
        final(stream).wf(),
        final(stream).tokens@.len() == old(stream).tokens@.len(),
        old(stream).index < final(stream).index <= final(stream).tokens@.len(),
        node_wf(res),
        res is Header || res is Paragraph,
        res is Header <==> valid_header_at(
            views_of(old(stream).tokens@),
            old(stream).index as int,
        ),
        res is Header ==> header_level_of(res) as int == header_run(
            views_of(old(stream).tokens@),
            old(stream).index as int,
        ) - old(stream).index,
        forall|k: int|
            0 <= k < final(stream).tokens@.len() ==> (#[trigger] final(stream).tokens@[k]).line
                == old(stream).tokens@[k].line,
        res.spec_position().start == old(stream).tokens@[old(stream).index as int].line,
        res.spec_position().end == old(stream).tokens@[final(stream).index - 1].line,
        node_view(res) == parse_header_spec(
            views_of(old(stream).tokens@),
            old(stream).index as int,
        ).0,
        final(stream).index as int == parse_header_spec(
            views_of(old(stream).tokens@),
            old(stream).index as int,
        ).1,
        views_of(final(stream).tokens@) == parse_header_spec(
            views_of(old(stream).tokens@),
            old(stream).index as int,
        ).2,
{
    let ghost toks = stream.tokens@;
    let ghost m = views_of(toks);
    let ghost i0 = stream.index as int;

    let mut header_level: usize = 0;
    let mut header_line: usize = 0;

    proof {
        assert(m[i0] == toks[i0]@);
    }
    while stream.index < stream.tokens.len() && stream.tokens[stream.index].token_type
        == TokenType::Header
        invariant
            stream.wf(),
            stream.tokens@ == toks,
            m == views_of(toks),
            0 <= i0 <= stream.index <= toks.len(),
            m[i0].kind is Header,
            header_level as int == stream.index - i0,
            forall|k: int| i0 <= k < stream.index ==> (#[trigger] m[k]).kind is Header,
            forall|k: int| i0 <= k < stream.index ==> (#[trigger] m[k]).line == m[i0].line,
            stream.index > i0 ==> header_line == toks[stream.index - 1].line,
        decreases toks.len() - stream.index,
    {
        let ghost j = stream.index as int;
        let token = stream.next().unwrap();
        header_level = header_level + 1;
        header_line = token.line;
        proof {
            if j > i0 {
                assert(m[(j - 1) + 1].line == m[j - 1].line + eol_inc(m[j - 1]));
            }
        }
    }
    let ghost e = stream.index as int;
    proof {
        if e < toks.len() {
            assert(m[e] == toks[e]@);
        }
        lemma_header_run_is(m, i0, e);
        assert(i0 < e);
        assert(m[e - 1].line == m[i0].line);
        assert(header_line == toks[e - 1].line);
    }

    if stream.index < stream.tokens.len() {
        let tt = stream.tokens[stream.index].token_type;
        if tt == TokenType::Whitespace {
            let header_position = stream.tokens[stream.index].line;
            if header_level > 6 {
                // An over-long run is no header: rewrite the last marker
                // token into the literal run and reparse as a paragraph.
                let value = repeat_hash(header_level);
                let tok = Token { token_type: TokenType::Text, value, line: header_line };
                proof {
                    assert(m[e - 1] == toks[e - 1]@);
                    assert(tok@.value =~= hashes(e - i0));
                    assert(tok@ == TokenModel {
                        kind: TokenType::Text,
                        value: hashes(e - i0),
                        line: m[e - 1].line,
                    });
                }
                stream.back();
                stream.replace(tok);
                proof {
                    crate::lexer::lemma_views_update(toks, e - 1, tok);
                    lemma_wf_replace(m, e - 1, tok@);
                    assert(m[e - 1] == toks[e - 1]@);
                    assert forall|k: int|
                        0 <= k < stream.tokens@.len() implies (#[trigger] stream.tokens@[k]).line
                        == toks[k].line by {
                        if k != e - 1 {
                            assert(stream.tokens@[k] == toks[k]);
                        }
                    }
                }
                return parse_paragraph(stream);
            }
            proof {
                assert(m[(e - 1) + 1].line == m[e - 1].line + eol_inc(m[e - 1]));
                assert(m[e].line >= 1);
            }
            stream.next();
            proof {
                if e + 1 < toks.len() {
                    assert(m[e + 1].line == m[e].line + eol_inc(m[e]));
                }
            }
            let child = parse_paragraph(stream);
            let mut nodes: Vec<Node> = Vec::new();
            nodes.push(child);
            proof {
                assert(nodes@[0] == child);
                assert(nodes@.drop_first() =~= Seq::<Node>::empty());
                assert(nodes_view(nodes@.drop_first()) =~= Seq::<NodeModel>::empty());
                assert(nodes_view(nodes@) =~= seq![node_view(nodes@[0])]);
            }
            return Node::Header(
                Header {
                    level: header_level,
                    nodes,
                    position: LineSpan { start: header_position, end: header_position },
                },
            );
        } else if tt == TokenType::Text {
            // A text token directly after the run: fuse the markers and the
            // text into one literal token, then reparse as a paragraph.
            let mut value = repeat_hash(header_level);
            let ghost hash_part = value@;
            value.append(stream.tokens[stream.index].value.as_str());
            let tok = Token { token_type: TokenType::Text, value, line: header_line };
            proof {
                assert(m[(e - 1) + 1].line == m[e - 1].line + eol_inc(m[e - 1]));
                assert(m[e - 1] == toks[e - 1]@);
                assert(hash_part =~= hashes(e - i0));
                assert(tok@.value == hashes(e - i0) + m[e].value);
                assert(tok@ == TokenModel {
                    kind: TokenType::Text,
                    value: hashes(e - i0) + m[e].value,
                    line: m[e - 1].line,
                });
            }
            stream.replace(tok);
            proof {
                crate::lexer::lemma_views_update(toks, e, tok);
                lemma_wf_replace(m, e, tok@);
                assert(m[e - 1] == toks[e - 1]@);
                assert forall|k: int|
                    0 <= k < stream.tokens@.len() implies (#[trigger] stream.tokens@[k]).line
                    == toks[k].line by {
                    if k != e {
                        assert(stream.tokens@[k] == toks[k]);
                    }
                }
            }
            return parse_paragraph(stream);
        } else {
            // No whitespace after the run: not a header; rewrite the last
            // marker token into the literal run and reparse as a paragraph.
            let value = repeat_hash(header_level);
            let tok = Token { token_type: TokenType::Text, value, line: header_line };
            proof {
                assert(m[e - 1] == toks[e - 1]@);
                assert(tok@.value =~= hashes(e - i0));
                assert(tok@ == TokenModel {
                    kind: TokenType::Text,
                    value: hashes(e - i0),
                    line: m[e - 1].line,
                });
            }
            stream.back();
            stream.replace(tok);
            proof {
                crate::lexer::lemma_views_update(toks, e - 1, tok);
                lemma_wf_replace(m, e - 1, tok@);
                assert forall|k: int|
                    0 <= k < stream.tokens@.len() implies (#[trigger] stream.tokens@[k]).line
                    == toks[k].line by {
                    if k != e - 1 {
                        assert(stream.tokens@[k] == toks[k]);
                    }
                }
            }
            return parse_paragraph(stream);
        }
    }
    // The input ends directly after the run: not a header either; degrade
    // to literal text the same way.
    let value = repeat_hash(header_level);
    let tok = Token { token_type: TokenType::Text, value, line: header_line };
    proof {
        assert(m[e - 1] == toks[e - 1]@);
        assert(tok@.value =~= hashes(e - i0));
        assert(tok@ == TokenModel {
            kind: TokenType::Text,
            value: hashes(e - i0),
            line: m[e - 1].line,
        });
    }
    stream.back();
    stream.replace(tok);
    proof {
        crate::lexer::lemma_views_update(toks, e - 1, tok);
        lemma_wf_replace(m, e - 1, tok@);
        assert(m[e - 1] == toks[e - 1]@);
        assert forall|k: int|
            0 <= k < stream.tokens@.len() implies (#[trigger] stream.tokens@[k]).line
            == toks[k].line by {
            if k != e - 1 {
                assert(stream.tokens@[k] == toks[k]);
            }
        }
    }
    parse_paragraph(stream)
}

/// Wraps the inline nodes of one line in a paragraph. The paragraph's span
/// is the line they sit on; a paragraph that collected no nodes at all falls
/// back to the line of the token just before the cursor, which keeps a
/// sensible span even for an empty header body.
fn parse_paragraph(stream: &mut TokenStream) -> (res: Node)
    requires
        old(stream).wf(),
        old(stream).index >= 1 || old(stream).tokens@.len() > 0,
    ensures
        final(stream).tokens@ == old(stream).tokens@,
        final(stream).wf(),
        old(stream).index <= final(stream).index <= final(stream).tokens@.len(),
        old(stream).index < old(stream).tokens@.len() ==> final(stream).index > old(stream).index,
        res is Paragraph,
        node_wf(res),
        res.spec_position() == ({
            let line = if old(stream).index < old(stream).tokens@.len() {
                old(stream).tokens@[old(stream).index as int].line
            } else {
                old(stream).tokens@[old(stream).index - 1].line
            };
            LineSpan { start: line, end: line }
        }),
        final(stream).index >= 1,
        res.spec_position().end == old(stream).tokens@[final(stream).index - 1].line,
        node_view(res) == parse_paragraph_spec(
            views_of(old(stream).tokens@),
            old(stream).index as int,
        ).0,
        final(stream).index as int == parse_paragraph_spec(
            views_of(old(stream).tokens@),
            old(stream).index as int,
        ).1,
{
    let nodes = parse_line(stream);
    proof {
        lemma_nodes_view_len(nodes@);
    }
    if nodes.len() > 0 {
        proof {
            assert(node_wf(nodes@[0]));
            assert(node_wf(nodes@[nodes@.len() - 1]));
            let ii = old(stream).index as int;
            let jj = stream.index - 1;
            assert(views_of(stream.tokens@)[ii].line >= 1);
            assert(views_of(stream.tokens@)[ii] == stream.tokens@[ii]@);
            assert(views_of(stream.tokens@)[jj].line == views_of(stream.tokens@)[ii].line);
            assert(views_of(stream.tokens@)[jj] == stream.tokens@[jj]@);
            lemma_nodes_view_index(nodes@, 0);
            lemma_nodes_view_index(nodes@, nodes@.len() - 1);
            crate::tree::lemma_view_position(nodes@[0]);
            crate::tree::lemma_view_position(nodes@[nodes@.len() - 1]);
        }
        let first = &nodes[0];
        let start = first.position().start;
        let last = &nodes[nodes.len() - 1];
        let end = last.position().end;
        Node::Paragraph(Paragraph { nodes, position: LineSpan { start, end } })
    } else {
        match stream.get(stream.index - 1) {
            Some(prev_token) => {
                proof {
                    let ii = stream.index - 1;
                    assert(views_of(stream.tokens@)[ii].line >= 1);
                    assert(views_of(stream.tokens@)[ii] == stream.tokens@[ii]@);
                    assert(nodes_view(nodes@) =~= Seq::<NodeModel>::empty());
                }
                let line = prev_token.line;
                Node::Paragraph(Paragraph { nodes, position: LineSpan { start: line, end: line } })
            },
            None => {
                // The cursor moved at least once, so a preceding token
                // always exists: this arm cannot run.
                proof {
                    assert(false);
                }
                Node::Paragraph(Paragraph { nodes, position: LineSpan { start: 0, end: 0 } })
            },
        }
    }
}

} // verus!
