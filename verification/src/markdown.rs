//! The Markdown parser, seen as two functions on plain values.
//!
//! The parser builds a tree in an arena and hands out references into it, so a
//! parsed document cannot leave the function that parsed it. What the rewriting
//! rules read of a document is the payload of each of its nodes, in document
//! order: `document_nodes` gives that list, and `render_document` writes a list
//! of the same shape back into the freshly parsed tree and serialises it.

use comrak::nodes::NodeValue;
use comrak::{format_commonmark, parse_document, Arena, ComrakOptions};
use vstd::prelude::*;
use vstd::utf8::*;

verus! {

/// What the rewriting rules read of one node of a document.
#[derive(Debug)]
pub enum DocumentNode {
    /// An image reference, with the bytes of its link target.
    Image { url: Vec<u8> },
    /// The front-matter block, with its raw bytes, fences included.
    FrontMatter { text: Vec<u8> },
    /// A code span, with the bytes between its backticks.
    Code { literal: Vec<u8> },
    /// Any other node.
    Other,
}

/// A `DocumentNode` as a mathematical value.
pub enum NodeView {
    Image { url: Seq<u8> },
    FrontMatter { text: Seq<u8> },
    Code { literal: Seq<u8> },
    Other,
}

impl View for DocumentNode {
    type V = NodeView;

    open spec fn view(&self) -> NodeView {
        match *self {
            DocumentNode::Image { url } => NodeView::Image { url: url@ },
            DocumentNode::FrontMatter { text } => NodeView::FrontMatter { text: text@ },
            DocumentNode::Code { literal } => NodeView::Code { literal: literal@ },
            DocumentNode::Other => NodeView::Other,
        }
    }
}

/// The views of a list of nodes.
pub open spec fn node_views(nodes: Seq<DocumentNode>) -> Seq<NodeView> {
    nodes.map_values(|node: DocumentNode| node@)
}

/// The longest fence that is handed to the parser, in characters.
///
/// The parser compiles the fence, twice over, into a pattern whose compiled size
/// must stay below ten mebibytes. A character of the fence takes at most four
/// bytes and a byte one state of 32 bytes, so a fence of this length takes about
/// a tenth of that.
pub const MAX_DELIMITER_LEN: usize = 4096;

/// The longest run of backticks inside a code span that the serialiser is asked
/// to write.
///
/// The serialiser looks for the shortest run that the span does not hold, and
/// marks each length that it holds as one bit of a signed 32-bit number: a run
/// of 32 overflows the shift, and one of 31 sets the sign.
pub const MAX_CODE_RUN: usize = 30;

/// The backtick, as a byte.
pub const BACKTICK: u8 = 96;

/// The length of the run of `b` that `s` ends in.
pub open spec fn run_at_end(s: Seq<u8>, b: u8) -> nat
    decreases s.len(),
{
    if s.len() == 0 || s.last() != b {
        0
    } else {
        1 + run_at_end(s.drop_last(), b)
    }
}

/// The length of the longest run of `b` in `s`.
pub open spec fn longest_run(s: Seq<u8>, b: u8) -> nat
    decreases s.len(),
{
    if s.len() == 0 {
        0
    } else if longest_run(s.drop_last(), b) >= run_at_end(s, b) {
        longest_run(s.drop_last(), b)
    } else {
        run_at_end(s, b)
    }
}

/// Whether the serialiser can write `node`: a code span is one that holds
/// something, and no run of backticks longer than `MAX_CODE_RUN`.
pub open spec fn is_writable(node: NodeView) -> bool {
    match node {
        NodeView::Code { literal } => literal.len() > 0 && longest_run(literal, BACKTICK)
            <= MAX_CODE_RUN,
        _ => true,
    }
}

/// Whether the serialiser can write every one of `nodes`.
pub open spec fn all_writable(nodes: Seq<NodeView>) -> bool {
    forall|i: int| 0 <= i < nodes.len() ==> is_writable(#[trigger] nodes[i])
}

/// Whether two nodes are of one kind.
pub open spec fn same_kind(a: NodeView, b: NodeView) -> bool {
    &&& a is Image <==> b is Image
    &&& a is FrontMatter <==> b is FrontMatter
    &&& a is Code <==> b is Code
    &&& a is Other <==> b is Other
}

/// Whether two lists hold as many nodes, of one kind place by place.
pub open spec fn same_kinds(a: Seq<NodeView>, b: Seq<NodeView>) -> bool {
    &&& a.len() == b.len()
    &&& forall|i: int| 0 <= i < a.len() ==> same_kind(#[trigger] a[i], b[i])
}

/// The length of the longest run of `b` in `bytes`.
pub fn longest_run_of(bytes: &Vec<u8>, b: u8) -> (longest: usize)
    ensures
        longest == longest_run(bytes@, b),
{
    let mut longest: usize = 0;
    let mut current: usize = 0;
    let mut i: usize = 0;
    assert(bytes@.take(0) =~= Seq::<u8>::empty());
    while i < bytes.len()
        invariant
            i <= bytes.len(),
            current == run_at_end(bytes@.take(i as int), b),
            longest == longest_run(bytes@.take(i as int), b),
            current <= i,
            longest <= i,
        decreases bytes.len() - i,
    {
        assert(bytes@.take(i + 1).drop_last() =~= bytes@.take(i as int));
        assert(bytes@.take(i + 1).last() == bytes@[i as int]);
        if bytes[i] == b {
            current += 1;
        } else {
            current = 0;
        }
        if current > longest {
            longest = current;
        }
        i += 1;
    }
    assert(bytes@.take(i as int) =~= bytes@);
    longest
}

/// Whether the serialiser can write `node`.
pub fn writable(node: &DocumentNode) -> (b: bool)
    ensures
        b == is_writable(node@),
{
    match node {
        DocumentNode::Code { literal } => literal.len() > 0 && longest_run_of(literal, BACKTICK)
            <= MAX_CODE_RUN,
        _ => true,
    }
}

/// Whether the serialiser can write every one of `nodes`.
pub fn all_nodes_writable(nodes: &Vec<DocumentNode>) -> (b: bool)
    ensures
        b == all_writable(node_views(nodes@)),
{
    let mut i: usize = 0;
    while i < nodes.len()
        invariant
            i <= nodes.len(),
            forall|j: int| 0 <= j < i ==> is_writable(#[trigger] node_views(nodes@)[j]),
        decreases nodes.len() - i,
    {
        if !writable(&nodes[i]) {
            assert(!is_writable(node_views(nodes@)[i as int]));
            return false;
        }
        i += 1;
    }
    true
}

/// The payloads of the nodes of `body`, parent before children and children in
/// document order, as the parser finds them with the task-list extension set to
/// `tasklist` and front matter fenced by `delimiter`.
pub uninterp spec fn parsed_nodes(body: Seq<char>, tasklist: bool, delimiter: Seq<char>) -> Seq<
    NodeView,
>;

/// The CommonMark text, as bytes, of the document `body` after the payloads of its
/// image and front-matter nodes were replaced, node by node, by those of `nodes`.
pub uninterp spec fn rendered(
    body: Seq<char>,
    tasklist: bool,
    delimiter: Seq<char>,
    nodes: Seq<NodeView>,
) -> Seq<u8>;

/// Calls comrak's `parse_document` and walks the tree with `descendants`.
///
/// Trusted: the list that comes back is the one that `parsed_nodes` names. The
/// parser is deterministic, so the name is a function of the three arguments. The
/// fence is compiled into a pattern, and the parser stops where that fails: a
/// fence within `MAX_DELIMITER_LEN` keeps it from failing.
#[verifier::external_body]
pub(crate) fn document_nodes(body: &str, tasklist: bool, delimiter: &str) -> (nodes: Vec<
    DocumentNode,
>)
    requires
        delimiter@.len() <= MAX_DELIMITER_LEN,
    ensures
        node_views(nodes@) == parsed_nodes(body@, tasklist, delimiter@),
{
    let arena = Arena::new();
    let mut options = ComrakOptions::default();
    options.extension.tasklist = tasklist;
    options.extension.front_matter_delimiter = Some(delimiter.to_string());
    let root = parse_document(&arena, body, &options);
    root.descendants().map(|node| match &node.data.borrow().value {
        NodeValue::Image(link) => DocumentNode::Image { url: link.url.clone() },
        NodeValue::FrontMatter(text) => DocumentNode::FrontMatter { text: text.clone() },
        NodeValue::Code(code) => DocumentNode::Code { literal: code.literal.clone() },
        _ => DocumentNode::Other,
    }).collect()
}

/// Calls comrak's `parse_document`, writes `nodes` into the tree along
/// `descendants`, and calls `format_commonmark`.
///
/// Trusted: the bytes that come back are those that `rendered` names. An image
/// node takes the link target of an `Image`, the title staying as it was; the
/// front-matter node takes the text of a `FrontMatter`; nothing else is touched.
/// The serialiser stops on a code span that is empty or holds a long run of
/// backticks: the document as parsed may hold none that is not writable. The
/// list is laid on the tree place by place, so it has the kinds of the parsed
/// nodes.
#[verifier::external_body]
pub(crate) fn render_document(
    body: &str,
    tasklist: bool,
    delimiter: &str,
    nodes: &Vec<DocumentNode>,
) -> (out: Vec<u8>)
    requires
        delimiter@.len() <= MAX_DELIMITER_LEN,
        all_writable(parsed_nodes(body@, tasklist, delimiter@)),
        same_kinds(node_views(nodes@), parsed_nodes(body@, tasklist, delimiter@)),
    ensures
        out@ == rendered(body@, tasklist, delimiter@, node_views(nodes@)),
{
    let arena = Arena::new();
    let mut options = ComrakOptions::default();
    options.extension.tasklist = tasklist;
    options.extension.front_matter_delimiter = Some(delimiter.to_string());
    let root = parse_document(&arena, body, &options);
    for (node, new) in root.descendants().zip(nodes) {
        match (&mut node.data.borrow_mut().value, new) {
            (NodeValue::Image(link), DocumentNode::Image { url }) => link.url = url.clone(),
            (NodeValue::FrontMatter(old), DocumentNode::FrontMatter { text }) => *old = text.clone(),
            _ => (),
        }
    }
    let mut out = Vec::new();
    format_commonmark(root, &options, &mut out).ok();
    out
}

/// Calls `std::str::from_utf8`.
///
/// Trusted: the bytes are read as text exactly when they are valid UTF-8, and
/// then as the characters that they encode.
#[verifier::external_body]
pub(crate) fn decode_text(bytes: &[u8]) -> (text: Option<&str>)
    ensures
        match text {
            Some(s) => valid_utf8(bytes@) && s@ == decode_utf8(bytes@),
            None => !valid_utf8(bytes@),
        },
{
    std::str::from_utf8(bytes).ok()
}

} // verus!
