//! The document tree data model: a closed sum type of block and inline node
//! variants, each carrying an inclusive range of 1-based source lines, plus
//! the well-formedness predicate that the tree builder guarantees.

use vstd::prelude::*;

verus! {

/// Inclusive 1-based line bounds of a node's content.
#[derive(Debug, PartialEq, Eq, Structural, Clone, Copy)]
pub struct LineSpan {
    /// First source line of the node's content.
    pub start: usize,
    /// Last source line of the node's content.
    pub end: usize,
}

/// A typed element of the output document tree.
///
/// Block variants (`Header`, `Paragraph`, `UnorderedList`) own an ordered
/// sequence of child nodes; `UnorderedList` additionally owns its nested
/// sub-lists. Inline variants are leaves except `Italic` and `Bold`, which
/// wrap the inline content between their markers.
#[derive(Debug, PartialEq, Eq)]
pub enum Node {
    /// A header line: `#` markers, a space, then inline content.
    Header(Header),
    /// A run of inline content up to the end of a line.
    Paragraph(Paragraph),
    /// One unordered-list item together with its nested sub-lists.
    UnorderedList(UnorderedList),
    /// A literal text run.
    Text(Text),
    /// Inline content between matched `*` markers.
    Italic(Italic),
    /// Inline content between matched `**` markers.
    Bold(Bold),
    /// A single space.
    Whitespace(Whitespace),
    /// An end of line.
    Eol(Eol),
}

/// A node that reports the source lines its content covers.
pub trait Positioned {
    /// The node's line span, as seen by specifications.
    spec fn spec_position(&self) -> LineSpan;

    /// Returns the node's line span.
    fn position(&self) -> (res: &LineSpan)
        ensures
            *res == self.spec_position(),
    ;
}

/// A header: `level` counts its `#` markers and is always between 1 and 6;
/// `nodes` holds the single paragraph built from the rest of the line.
#[derive(Debug, PartialEq, Eq)]
pub struct Header {
    /// Number of `#` markers, between 1 and 6.
    pub level: usize,
    /// The header's content, a single paragraph.
    pub nodes: Vec<Node>,
    /// Line bounds of the header.
    pub position: LineSpan,
}

/// A paragraph: the inline nodes of one source line.
#[derive(Debug, PartialEq, Eq)]
pub struct Paragraph {
    /// The paragraph's inline content.
    pub nodes: Vec<Node>,
    /// Line bounds of the paragraph.
    pub position: LineSpan,
}

/// One unordered-list item: its own inline content in `nodes`, its nested
/// sub-lists in `children`, and its nesting `level` (0 at the root), equal to
/// the number of leading spaces before the item's `- ` marker.
#[derive(Debug, PartialEq, Eq)]
pub struct UnorderedList {
    /// Nesting depth; 0 for a top-level item.
    pub level: usize,
    /// The item's own inline content.
    pub nodes: Vec<Node>,
    /// Nested sub-lists, each strictly deeper than `level`.
    pub children: Vec<Node>,
    /// Line bounds of the item including its nested sub-lists.
    pub position: LineSpan,
}

/// A literal text run; `value` is never empty.
#[derive(Debug, PartialEq, Eq)]
pub struct Text {
    /// The literal text.
    pub value: String,
    /// Line bounds; a single line.
    pub position: LineSpan,
}

/// Inline content between matched `*` markers.
#[derive(Debug, PartialEq, Eq)]
pub struct Italic {
    /// The wrapped inline content.
    pub nodes: Vec<Node>,
    /// Line bounds of the wrapped content.
    pub position: LineSpan,
}

/// Inline content between matched `**` markers.
#[derive(Debug, PartialEq, Eq)]
pub struct Bold {
    /// The wrapped inline content.
    pub nodes: Vec<Node>,
    /// Line bounds of the wrapped content.
    pub position: LineSpan,
}

/// A single space of inline content.
#[derive(Debug, PartialEq, Eq)]
pub struct Whitespace {
    /// Line bounds; a single line.
    pub position: LineSpan,
}

/// An end of line.
#[derive(Debug, PartialEq, Eq)]
pub struct Eol {
    /// Line bounds; a single line.
    pub position: LineSpan,
}

impl Positioned for Header {
    open spec fn spec_position(&self) -> LineSpan {
        self.position
    }

    fn position(&self) -> (res: &LineSpan) {
        &self.position
    }
}

impl Positioned for Paragraph {
    open spec fn spec_position(&self) -> LineSpan {
        self.position
    }

    fn position(&self) -> (res: &LineSpan) {
        &self.position
    }
}

impl Positioned for UnorderedList {
    open spec fn spec_position(&self) -> LineSpan {
        self.position
    }

    fn position(&self) -> (res: &LineSpan) {
        &self.position
    }
}

impl Positioned for Text {
    open spec fn spec_position(&self) -> LineSpan {
        self.position
    }

    fn position(&self) -> (res: &LineSpan) {
        &self.position
    }
}

impl Positioned for Italic {
    open spec fn spec_position(&self) -> LineSpan {
        self.position
    }

    fn position(&self) -> (res: &LineSpan) {
        &self.position
    }
}

impl Positioned for Bold {
    open spec fn spec_position(&self) -> LineSpan {
        self.position
    }

    fn position(&self) -> (res: &LineSpan) {
        &self.position
    }
}

impl Positioned for Whitespace {
    open spec fn spec_position(&self) -> LineSpan {
        self.position
    }

    fn position(&self) -> (res: &LineSpan) {
        &self.position
    }
}

impl Positioned for Eol {
    open spec fn spec_position(&self) -> LineSpan {
        self.position
    }

    fn position(&self) -> (res: &LineSpan) {
        &self.position
    }
}

impl Node {
    /// The line span of any node variant, as seen by specifications.
    pub open spec fn spec_position(&self) -> LineSpan {
        match self {
            Node::Header(header) => header.position,
            Node::Paragraph(paragraph) => paragraph.position,
            Node::UnorderedList(unordered_list) => unordered_list.position,
            Node::Text(text) => text.position,
            Node::Italic(italic) => italic.position,
            Node::Bold(bold) => bold.position,
            Node::Whitespace(whitespace) => whitespace.position,
            Node::Eol(eol) => eol.position,
        }
    }

    /// Returns the line span of any node variant.
    pub fn position(&self) -> (res: &LineSpan)
        ensures
            *res == self.spec_position(),
    {
        match self {
            Node::Header(header) => header.position(),
            Node::Paragraph(paragraph) => paragraph.position(),
            Node::UnorderedList(unordered_list) => unordered_list.position(),
            Node::Text(text) => text.position(),
            Node::Italic(italic) => italic.position(),
            Node::Bold(bold) => bold.position(),
            Node::Whitespace(whitespace) => whitespace.position(),
            Node::Eol(eol) => eol.position(),
        }
    }
}

/// A line span is well formed when its bounds are 1-based and ordered.
pub open spec fn span_wf(span: LineSpan) -> bool {
    1 <= span.start && span.start <= span.end
}

/// The mathematical model of a [`LineSpan`]: the same bounds as unbounded
/// naturals.
pub struct SpanModel {
    /// First source line.
    pub start: nat,
    /// Last source line.
    pub end: nat,
}

/// The mathematical model of a [`Node`]: the same variants with text as a
/// character sequence, levels as naturals, and child vectors as sequences.
pub enum NodeModel {
    /// Level, content (one paragraph), span.
    Header(nat, Seq<NodeModel>, SpanModel),
    /// Content, span.
    Paragraph(Seq<NodeModel>, SpanModel),
    /// Level, own content, nested sub-lists, span.
    UnorderedList(nat, Seq<NodeModel>, Seq<NodeModel>, SpanModel),
    /// Literal text, span.
    Text(Seq<char>, SpanModel),
    /// Wrapped content, span.
    Italic(Seq<NodeModel>, SpanModel),
    /// Wrapped content, span.
    Bold(Seq<NodeModel>, SpanModel),
    /// Span.
    Whitespace(SpanModel),
    /// Span.
    Eol(SpanModel),
}

/// The model of a line span.
pub open spec fn span_view(span: LineSpan) -> SpanModel {
    SpanModel { start: span.start as nat, end: span.end as nat }
}

/// The span a node model carries.
pub open spec fn model_position(node: NodeModel) -> SpanModel {
    match node {
        NodeModel::Header(_, _, span) => span,
        NodeModel::Paragraph(_, span) => span,
        NodeModel::UnorderedList(_, _, _, span) => span,
        NodeModel::Text(_, span) => span,
        NodeModel::Italic(_, span) => span,
        NodeModel::Bold(_, span) => span,
        NodeModel::Whitespace(span) => span,
        NodeModel::Eol(span) => span,
    }
}

/// The model of a node, recursively.
pub open spec fn node_view(node: Node) -> NodeModel
    decreases node,
{
    match node {
        Node::Header(header) => NodeModel::Header(
            header.level as nat,
            nodes_view(header.nodes@),
            span_view(header.position),
        ),
        Node::Paragraph(paragraph) => NodeModel::Paragraph(
            nodes_view(paragraph.nodes@),
            span_view(paragraph.position),
        ),
        Node::UnorderedList(unordered_list) => NodeModel::UnorderedList(
            unordered_list.level as nat,
            nodes_view(unordered_list.nodes@),
            nodes_view(unordered_list.children@),
            span_view(unordered_list.position),
        ),
        Node::Text(text) => NodeModel::Text(text.value@, span_view(text.position)),
        Node::Italic(italic) => NodeModel::Italic(
            nodes_view(italic.nodes@),
            span_view(italic.position),
        ),
        Node::Bold(bold) => NodeModel::Bold(nodes_view(bold.nodes@), span_view(bold.position)),
        Node::Whitespace(whitespace) => NodeModel::Whitespace(span_view(whitespace.position)),
        Node::Eol(eol) => NodeModel::Eol(span_view(eol.position)),
    }
}

/// The models of a sequence of nodes, in order.
pub open spec fn nodes_view(nodes: Seq<Node>) -> Seq<NodeModel>
    decreases nodes,
{
    if nodes.len() == 0 {
        Seq::<NodeModel>::empty()
    } else {
        seq![node_view(nodes[0])] + nodes_view(nodes.drop_first())
    }
}

/// A node's model carries the model of the node's span.
pub proof fn lemma_view_position(node: Node)
    ensures
        model_position(node_view(node)) == span_view(node.spec_position()),
{
    match node {
        Node::Header(_) => {},
        Node::Paragraph(_) => {},
        Node::UnorderedList(_) => {},
        Node::Text(_) => {},
        Node::Italic(_) => {},
        Node::Bold(_) => {},
        Node::Whitespace(_) => {},
        Node::Eol(_) => {},
    }
}

/// There are as many node models as nodes.
pub proof fn lemma_nodes_view_len(nodes: Seq<Node>)
    ensures
        nodes_view(nodes).len() == nodes.len(),
    decreases nodes.len(),
{
    if nodes.len() > 0 {
        lemma_nodes_view_len(nodes.drop_first());
    }
}

/// The model sequence is the element-wise model.
pub proof fn lemma_nodes_view_index(nodes: Seq<Node>, i: int)
    requires
        0 <= i < nodes.len(),
    ensures
        nodes_view(nodes).len() == nodes.len(),
        nodes_view(nodes)[i] == node_view(nodes[i]),
    decreases i,
{
    lemma_nodes_view_len(nodes);
    lemma_nodes_view_len(nodes.drop_first());
    if i > 0 {
        lemma_nodes_view_index(nodes.drop_first(), i - 1);
        assert(nodes.drop_first()[i - 1] == nodes[i]);
    }
}

/// Appending a node appends its model.
pub proof fn lemma_nodes_view_push(nodes: Seq<Node>, node: Node)
    ensures
        nodes_view(nodes.push(node)) == nodes_view(nodes).push(node_view(node)),
    decreases nodes.len(),
{
    let pushed = nodes.push(node);
    if nodes.len() == 0 {
        assert(pushed[0] == node);
        assert(pushed.drop_first() =~= Seq::<Node>::empty());
        assert(nodes_view(pushed.drop_first()) =~= Seq::<NodeModel>::empty());
        assert(nodes_view(pushed) =~= seq![node_view(node)]);
        assert(nodes_view(nodes).push(node_view(node)) =~= seq![node_view(node)]);
    } else {
        assert(pushed[0] == nodes[0]);
        assert(pushed.drop_first() =~= nodes.drop_first().push(node));
        lemma_nodes_view_push(nodes.drop_first(), node);
        assert(nodes_view(pushed) == seq![node_view(nodes[0])] + nodes_view(
            nodes.drop_first(),
        ).push(node_view(node)));
        assert(seq![node_view(nodes[0])] + nodes_view(nodes.drop_first()).push(node_view(node))
            =~= (seq![node_view(nodes[0])] + nodes_view(nodes.drop_first())).push(
            node_view(node),
        ));
    }
}

/// Concatenating node sequences concatenates their models.
pub proof fn lemma_nodes_view_add(left: Seq<Node>, right: Seq<Node>)
    ensures
        nodes_view(left + right) == nodes_view(left) + nodes_view(right),
    decreases left.len(),
{
    if left.len() == 0 {
        assert(left + right =~= right);
        assert(nodes_view(left) + nodes_view(right) =~= nodes_view(right));
    } else {
        assert((left + right)[0] == left[0]);
        assert((left + right).drop_first() =~= left.drop_first() + right);
        lemma_nodes_view_add(left.drop_first(), right);
        assert(seq![node_view(left[0])] + (nodes_view(left.drop_first()) + nodes_view(right))
            =~= (seq![node_view(left[0])] + nodes_view(left.drop_first())) + nodes_view(right));
    }
}

/// Every node of `nodes` covers lines inside `span`.
pub open spec fn nodes_in_span(nodes: Seq<Node>, span: LineSpan) -> bool {
    forall|i: int|
        0 <= i < nodes.len() ==> span.start <= (#[trigger] nodes[i]).spec_position().start
            && nodes[i].spec_position().end <= span.end
}

/// The nesting level of an unordered-list node; 0 for any other variant.
pub open spec fn list_level(node: Node) -> usize {
    match node {
        Node::UnorderedList(unordered_list) => unordered_list.level,
        _ => 0,
    }
}

/// Well-formedness of a document tree, guaranteed for every node the builder
/// produces:
/// - every span is 1-based with `start <= end`, and `start == end` on leaves;
/// - a header's level is between 1 and 6 and its content is one paragraph
///   covering the header's own line;
/// - a paragraph holds only inline content — text, whitespace, italic and
///   bold nodes — and its span contains the spans of all of them;
/// - `Italic` and `Bold` wrap only text and whitespace leaves, inside their
///   span;
/// - a list item's own content is text and whitespace leaves inside its
///   span; every nested sub-list is itself an `UnorderedList` with a level
///   strictly greater than the parent's, and its span lies inside the
///   parent's;
/// - text runs are never empty.
pub open spec fn node_wf(node: Node) -> bool
    decreases node,
{
    match node {
        Node::Header(header) => {
            &&& span_wf(header.position)
            &&& header.position.start == header.position.end
            &&& 1 <= header.level <= 6
            &&& header.nodes@.len() == 1
            &&& header.nodes@[0] is Paragraph
            &&& nodes_in_span(header.nodes@, header.position)
            &&& forall|i: int|
                0 <= i < header.nodes@.len() ==> node_wf(#[trigger] header.nodes@[i])
        },
        Node::Paragraph(paragraph) => {
            &&& span_wf(paragraph.position)
            &&& nodes_in_span(paragraph.nodes@, paragraph.position)
            &&& forall|i: int|
                0 <= i < paragraph.nodes@.len() ==> ((#[trigger] paragraph.nodes@[i]) is Text
                    || paragraph.nodes@[i] is Whitespace || paragraph.nodes@[i] is Italic
                    || paragraph.nodes@[i] is Bold)
            &&& forall|i: int|
                0 <= i < paragraph.nodes@.len() ==> node_wf(#[trigger] paragraph.nodes@[i])
        },
        Node::UnorderedList(unordered_list) => {
            &&& span_wf(unordered_list.position)
            &&& nodes_in_span(unordered_list.nodes@, unordered_list.position)
            &&& forall|i: int|
                0 <= i < unordered_list.nodes@.len() ==> ((
                #[trigger] unordered_list.nodes@[i]) is Text
                    || unordered_list.nodes@[i] is Whitespace)
            &&& forall|i: int|
                0 <= i < unordered_list.nodes@.len() ==> node_wf(
                    #[trigger] unordered_list.nodes@[i],
                )
            &&& forall|i: int|
                0 <= i < unordered_list.children@.len() ==> {
                    &&& (#[trigger] unordered_list.children@[i]) is UnorderedList
                    &&& list_level(unordered_list.children@[i]) > unordered_list.level
                    &&& unordered_list.position.start
                        <= unordered_list.children@[i].spec_position().start
                    &&& unordered_list.children@[i].spec_position().end
                        <= unordered_list.position.end
                    &&& node_wf(unordered_list.children@[i])
                }
        },
        Node::Text(text) => {
            &&& span_wf(text.position)
            &&& text.position.start == text.position.end
            &&& text.value@.len() > 0
        },
        Node::Italic(italic) => {
            &&& span_wf(italic.position)
            &&& nodes_in_span(italic.nodes@, italic.position)
            &&& forall|i: int|
                0 <= i < italic.nodes@.len() ==> ((#[trigger] italic.nodes@[i]) is Text
                    || italic.nodes@[i] is Whitespace)
            &&& forall|i: int|
                0 <= i < italic.nodes@.len() ==> node_wf(#[trigger] italic.nodes@[i])
        },
        Node::Bold(bold) => {
            &&& span_wf(bold.position)
            &&& nodes_in_span(bold.nodes@, bold.position)
            &&& forall|i: int|
                0 <= i < bold.nodes@.len() ==> ((#[trigger] bold.nodes@[i]) is Text
                    || bold.nodes@[i] is Whitespace)
            &&& forall|i: int| 0 <= i < bold.nodes@.len() ==> node_wf(#[trigger] bold.nodes@[i])
        },
        Node::Whitespace(whitespace) => {
            &&& span_wf(whitespace.position)
            &&& whitespace.position.start == whitespace.position.end
        },
        Node::Eol(eol) => {
            &&& span_wf(eol.position)
            &&& eol.position.start == eol.position.end
        },
    }
}

} // verus!
