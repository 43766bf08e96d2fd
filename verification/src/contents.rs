//! Format adapters and the document transformer.

use crate::error::ExportError;
use crate::front_matter::{FrontMatter, FrontMatterView};
use crate::markdown::{
    all_nodes_writable, all_writable, decode_text, document_nodes, node_views, parsed_nodes,
    render_document, rendered, same_kind, same_kinds, DocumentNode, NodeView, MAX_DELIMITER_LEN,
};
use crate::path::{
    basename, file_name, is_plain_name, is_remote, join_path, joined, lemma_file_name_of_joined,
};
use crate::Format;
use vstd::prelude::*;
use vstd::string::*;
use vstd::utf8::*;

pub mod hugo_robust;
pub mod zenn;

use hugo_robust::HugoRobust;
use zenn::Zenn;

verus! {

/// What a content platform knows of its own conventions: where its files lie,
/// how its front matter is fenced and written, and how its images are referred to.
///
/// An adapter may play the source of a conversion, the target, or both. An
/// operation of a role that it does not play fails with
/// `UnimplementedAdapterOperation`.
pub trait ContentsFormat: Sized {
    /// The directory of the articles, below the content root.
    spec fn articles_dirname(&self) -> Seq<char>;

    /// The directory of the local images, below the content root.
    spec fn images_dirname(&self) -> Seq<char>;

    /// The fence that bounds the front-matter block.
    spec fn front_matter_delimiter(&self) -> Seq<char>;

    /// Whether `link` points at an image that the platform keeps locally.
    spec fn local_image(&self, link: Seq<char>) -> Result<bool, ExportError>;

    /// The front matter that the raw block `text` holds.
    spec fn parsed_front_matter(&self, text: Seq<char>) -> Result<FrontMatterView, ExportError>;

    /// The raw block, fences included, that holds `model`.
    spec fn formatted_front_matter(&self, model: FrontMatterView) -> Result<
        Seq<char>,
        ExportError,
    >;

    /// The reference to the image `filename` once it lies in the images directory.
    spec fn image_path(&self, filename: Seq<char>) -> Result<Seq<char>, ExportError>;

    fn new() -> Self;

    fn get_articles_dirname(&self) -> (name: &str)
        ensures
            name@ == self.articles_dirname(),
    ;

    fn get_images_dirname(&self) -> (name: &str)
        ensures
            name@ == self.images_dirname(),
    ;

    fn get_front_matter_delimiter(&self) -> (fence: &str)
        ensures
            fence@ == self.front_matter_delimiter(),
    ;

    fn is_local_image(&self, image_link: String) -> (local: Result<bool, ExportError>)
        ensures
            local == self.local_image(image_link@),
    ;

    fn parse_front_matter(&self, front_matter_str: String) -> (model: Result<
        FrontMatter,
        ExportError,
    >)
        ensures
            match model {
                Ok(m) => self.parsed_front_matter(front_matter_str@) == Ok::<
                    FrontMatterView,
                    ExportError,
                >(m@),
                Err(e) => self.parsed_front_matter(front_matter_str@) == Err::<
                    FrontMatterView,
                    ExportError,
                >(e),
            },
    ;

    fn format_front_matter(&self, front_matters: FrontMatter) -> (text: Result<
        String,
        ExportError,
    >)
        ensures
            match text {
                Ok(t) => self.formatted_front_matter(front_matters@) == Ok::<
                    Seq<char>,
                    ExportError,
                >(t@),
                Err(e) => self.formatted_front_matter(front_matters@) == Err::<
                    Seq<char>,
                    ExportError,
                >(e),
            },
    ;

    fn format_image_path(&self, filename: &str) -> (path: Result<String, ExportError>)
        ensures
            match path {
                Ok(p) => self.image_path(filename@) == Ok::<Seq<char>, ExportError>(p@),
                Err(e) => self.image_path(filename@) == Err::<Seq<char>, ExportError>(e),
            },
    ;
}

/// What becomes of the link target `url` of an image: a local image is referred
/// to by the target's path for its file name, any other is left as it is.
pub open spec fn rewritten_image<S: ContentsFormat, T: ContentsFormat>(
    source: S,
    target: T,
    url: Seq<u8>,
) -> Result<Seq<u8>, ExportError> {
    if !valid_utf8(url) {
        Err(ExportError::MalformedInput)
    } else {
        let link = decode_utf8(url);
        match source.local_image(link) {
            Err(e) => Err(e),
            Ok(false) => Ok(url),
            Ok(true) => match file_name(link) {
                None => Err(ExportError::MalformedInput),
                Some(name) => match target.image_path(name) {
                    Err(e) => Err(e),
                    Ok(path) => Ok(encode_utf8(path)),
                },
            },
        }
    }
}

/// What becomes of the raw front-matter block `text`: the source reads it, the
/// target writes it.
pub open spec fn rewritten_front_matter<S: ContentsFormat, T: ContentsFormat>(
    source: S,
    target: T,
    text: Seq<u8>,
) -> Result<Seq<u8>, ExportError> {
    if !valid_utf8(text) {
        Err(ExportError::MalformedInput)
    } else {
        match source.parsed_front_matter(decode_utf8(text)) {
            Err(e) => Err(e),
            Ok(model) => match target.formatted_front_matter(model) {
                Err(e) => Err(e),
                Ok(block) => Ok(encode_utf8(block)),
            },
        }
    }
}

/// What becomes of one node. Only images and the front matter are rewritten.
pub open spec fn rewritten_node<S: ContentsFormat, T: ContentsFormat>(
    source: S,
    target: T,
    node: NodeView,
) -> Result<NodeView, ExportError> {
    match node {
        NodeView::Image { url } => match rewritten_image(source, target, url) {
            Ok(url) => Ok(NodeView::Image { url }),
            Err(e) => Err(e),
        },
        NodeView::FrontMatter { text } => match rewritten_front_matter(source, target, text) {
            Ok(text) => Ok(NodeView::FrontMatter { text }),
            Err(e) => Err(e),
        },
        NodeView::Code { literal } => Ok(NodeView::Code { literal }),
        NodeView::Other => Ok(NodeView::Other),
    }
}

/// What becomes of the nodes of a document, each rewritten by itself. The first
/// node that cannot be rewritten decides the error.
pub open spec fn rewritten_nodes<S: ContentsFormat, T: ContentsFormat>(
    source: S,
    target: T,
    nodes: Seq<NodeView>,
) -> Result<Seq<NodeView>, ExportError>
    decreases nodes.len(),
{
    if nodes.len() == 0 {
        Ok(Seq::empty())
    } else {
        match rewritten_nodes(source, target, nodes.drop_last()) {
            Err(e) => Err(e),
            Ok(before) => match rewritten_node(source, target, nodes.last()) {
                Err(e) => Err(e),
                Ok(node) => Ok(before.push(node)),
            },
        }
    }
}

/// The serialised text of the document `body` with its nodes replaced by
/// `nodes`, where it is text.
pub open spec fn serialised(body: Seq<char>, fence: Seq<char>, nodes: Seq<NodeView>) -> Result<
    Seq<char>,
    ExportError,
> {
    let bytes = rendered(body, true, fence, nodes);
    if valid_utf8(bytes) {
        Ok(decode_utf8(bytes))
    } else {
        Err(ExportError::MalformedInput)
    }
}

/// The converted text of the document `body`: parsed with task lists and the
/// source's fence, rewritten node by node, and serialised again.
///
/// A source whose fence is longer than `MAX_DELIMITER_LEN` cannot serve, and a
/// document with a code span that the serialiser cannot write is malformed.
pub open spec fn transformed<S: ContentsFormat, T: ContentsFormat>(
    source: S,
    target: T,
    body: Seq<char>,
) -> Result<Seq<char>, ExportError> {
    let fence = source.front_matter_delimiter();
    if fence.len() > MAX_DELIMITER_LEN {
        Err(ExportError::UnimplementedAdapterOperation)
    } else if !all_writable(parsed_nodes(body, true, fence)) {
        Err(ExportError::MalformedInput)
    } else {
        match rewritten_nodes(source, target, parsed_nodes(body, true, fence)) {
            Err(e) => Err(e),
            Ok(nodes) => serialised(body, fence, nodes),
        }
    }
}

/// Rewriting keeps the shape of a document: where it succeeds, there are as many
/// nodes as before, each is what `rewritten_node` makes of the node in its place,
/// and each is of the kind that it was.
pub proof fn lemma_rewriting_is_nodewise<S: ContentsFormat, T: ContentsFormat>(
    source: S,
    target: T,
    nodes: Seq<NodeView>,
)
    requires
        rewritten_nodes(source, target, nodes) is Ok,
    ensures
        same_kinds(rewritten_nodes(source, target, nodes)->Ok_0, nodes),
        forall|i: int|
            #![trigger nodes[i]]
            0 <= i < nodes.len() ==> rewritten_node(source, target, nodes[i]) == Ok::<
                NodeView,
                ExportError,
            >(rewritten_nodes(source, target, nodes)->Ok_0[i]),
    decreases nodes.len(),
{
    if nodes.len() > 0 {
        lemma_rewriting_is_nodewise(source, target, nodes.drop_last());
        let before = rewritten_nodes(source, target, nodes.drop_last())->Ok_0;
        let all = rewritten_nodes(source, target, nodes)->Ok_0;
        assert forall|i: int| 0 <= i < nodes.len() implies rewritten_node(
            source,
            target,
            #[trigger] nodes[i],
        ) == Ok::<NodeView, ExportError>(all[i]) && same_kind(all[i], nodes[i]) by {
            if i < nodes.len() - 1 {
                assert(nodes.drop_last()[i] == nodes[i]);
                assert(all[i] == before[i]);
                assert(same_kind(before[i], nodes.drop_last()[i]));
            }
        }
        assert forall|i: int| 0 <= i < all.len() implies same_kind(#[trigger] all[i], nodes[i]) by {
            assert(rewritten_node(source, target, nodes[i]) == Ok::<NodeView, ExportError>(all[i]));
        }
    }
}

/// Whether `node` is neither an image nor the front matter.
pub open spec fn is_plain(node: NodeView) -> bool {
    !(node is Image) && !(node is FrontMatter)
}

/// Whether a document holds neither an image nor front matter.
pub open spec fn all_plain(nodes: Seq<NodeView>) -> bool {
    forall|i: int| 0 <= i < nodes.len() ==> is_plain(#[trigger] nodes[i])
}

/// A document without images and without front matter is left to the parser's
/// own round trip: rewriting changes none of its nodes, whatever the adapters,
/// and the converted text is the serialised form of the document as parsed.
pub proof fn lemma_plain_document_untouched<S: ContentsFormat, T: ContentsFormat>(
    source: S,
    target: T,
    body: Seq<char>,
)
    requires
        source.front_matter_delimiter().len() <= MAX_DELIMITER_LEN,
        all_writable(parsed_nodes(body, true, source.front_matter_delimiter())),
        all_plain(parsed_nodes(body, true, source.front_matter_delimiter())),
    ensures
        transformed(source, target, body) == serialised(
            body,
            source.front_matter_delimiter(),
            parsed_nodes(body, true, source.front_matter_delimiter()),
        ),
{
    lemma_plain_nodes_stay(source, target, parsed_nodes(body, true, source.front_matter_delimiter()));
}

/// Nodes that are neither images nor front matter are rewritten to themselves.
pub proof fn lemma_plain_nodes_stay<S: ContentsFormat, T: ContentsFormat>(
    source: S,
    target: T,
    nodes: Seq<NodeView>,
)
    requires
        all_plain(nodes),
    ensures
        rewritten_nodes(source, target, nodes) == Ok::<Seq<NodeView>, ExportError>(nodes),
    decreases nodes.len(),
{
    if nodes.len() == 0 {
        assert(nodes =~= Seq::<NodeView>::empty());
    } else {
        let before = nodes.drop_last();
        assert forall|i: int| 0 <= i < before.len() implies is_plain(#[trigger] before[i]) by {
            assert(before[i] == nodes[i]);
        }
        lemma_plain_nodes_stay(source, target, before);
        assert(is_plain(nodes.last()));
        assert(rewritten_node(source, target, nodes.last()) == Ok::<NodeView, ExportError>(
            nodes.last(),
        ));
        assert(before.push(nodes.last()) =~= nodes);
    }
}

/// An image that the source does not hold to be local keeps its link, byte for
/// byte, whatever the target.
pub proof fn lemma_other_images_stay<S: ContentsFormat, T: ContentsFormat>(
    source: S,
    target: T,
    link: Seq<char>,
)
    requires
        source.local_image(link) == Ok::<bool, ExportError>(false),
    ensures
        rewritten_image(source, target, encode_utf8(link)) == Ok::<Seq<u8>, ExportError>(
            encode_utf8(link),
        ),
{
    encode_utf8_valid_utf8(link);
    encode_utf8_decode_utf8(link);
}

/// From Zenn, a link that points away from the site is kept, whatever the
/// target: so is every link that begins with `https://` or `http://`.
pub proof fn lemma_remote_images_stay<T: ContentsFormat>(target: T, link: Seq<char>)
    requires
        is_remote(link),
    ensures
        rewritten_image(Zenn {  }, target, encode_utf8(link)) == Ok::<Seq<u8>, ExportError>(
            encode_utf8(link),
        ),
{
    lemma_other_images_stay(Zenn {  }, target, link);
}

/// From Zenn to Hugo, a local image in any directory is referred to by `/img/`
/// and its file name: the directory is dropped.
pub proof fn lemma_local_images_move(dir: Seq<char>, name: Seq<char>)
    requires
        is_plain_name(name),
        !is_remote(joined(dir, name)),
    ensures
        rewritten_image(Zenn {  }, HugoRobust {  }, encode_utf8(joined(dir, name))) == Ok::<
            Seq<u8>,
            ExportError,
        >(encode_utf8("/img/"@ + name)),
{
    let link = joined(dir, name);
    encode_utf8_valid_utf8(link);
    encode_utf8_decode_utf8(link);
    lemma_file_name_of_joined(dir, name);
}

/// Rewrites one node of a document.
pub fn rewrite_node<S: ContentsFormat, T: ContentsFormat>(
    source: &S,
    target: &T,
    node: &DocumentNode,
) -> (out: Result<DocumentNode, ExportError>)
    ensures
        match out {
            Ok(n) => rewritten_node(*source, *target, node@) == Ok::<NodeView, ExportError>(n@),
            Err(e) => rewritten_node(*source, *target, node@) == Err::<NodeView, ExportError>(e),
        },
{
    match node {
        DocumentNode::Image { url } => {
            let link: &str = match decode_text(url.as_slice()) {
                Some(link) => link,
                None => { return Err(ExportError::MalformedInput); },
            };
            match source.is_local_image(link.to_owned()) {
                Err(e) => Err(e),
                Ok(false) => Ok(DocumentNode::Image { url: url.clone() }),
                Ok(true) => match basename(link) {
                    None => Err(ExportError::MalformedInput),
                    Some(name) => match target.format_image_path(name.as_str()) {
                        Err(e) => Err(e),
                        Ok(path) => Ok(DocumentNode::Image { url: path.as_str().as_bytes_vec() }),
                    },
                },
            }
        },
        DocumentNode::FrontMatter { text } => {
            let block: &str = match decode_text(text.as_slice()) {
                Some(block) => block,
                None => { return Err(ExportError::MalformedInput); },
            };
            match source.parse_front_matter(block.to_owned()) {
                Err(e) => Err(e),
                Ok(model) => match target.format_front_matter(model) {
                    Err(e) => Err(e),
                    Ok(block) => Ok(
                        DocumentNode::FrontMatter { text: block.as_str().as_bytes_vec() },
                    ),
                },
            }
        },
        DocumentNode::Code { literal } => Ok(DocumentNode::Code { literal: literal.clone() }),
        DocumentNode::Other => Ok(DocumentNode::Other),
    }
}

/// Rewrites the nodes of a document, in document order, and stops at the first
/// that cannot be rewritten.
pub fn rewrite_nodes<S: ContentsFormat, T: ContentsFormat>(
    source: &S,
    target: &T,
    nodes: &Vec<DocumentNode>,
) -> (out: Result<Vec<DocumentNode>, ExportError>)
    ensures
        match out {
            Ok(v) => rewritten_nodes(*source, *target, node_views(nodes@)) == Ok::<
                Seq<NodeView>,
                ExportError,
            >(node_views(v@)),
            Err(e) => rewritten_nodes(*source, *target, node_views(nodes@)) == Err::<
                Seq<NodeView>,
                ExportError,
            >(e),
        },
{
    let ghost all = node_views(nodes@);
    let mut out: Vec<DocumentNode> = Vec::new();
    let mut i: usize = 0;
    assert(all.take(0) =~= Seq::<NodeView>::empty());
    assert(node_views(out@) =~= Seq::<NodeView>::empty());
    while i < nodes.len()
        invariant
            i <= nodes.len(),
            all == node_views(nodes@),
            rewritten_nodes(*source, *target, all.take(i as int)) == Ok::<
                Seq<NodeView>,
                ExportError,
            >(node_views(out@)),
        decreases nodes.len() - i,
    {
        assert(all.take(i + 1).drop_last() =~= all.take(i as int));
        assert(all.take(i + 1).last() == nodes@[i as int]@);
        match rewrite_node(source, target, &nodes[i]) {
            Err(e) => {
                proof {
                    lemma_error_stays(*source, *target, all, i + 1);
                }
                return Err(e);
            },
            Ok(node) => {
                let ghost before = node_views(out@);
                out.push(node);
                assert(node_views(out@) =~= before.push(node@));
            },
        }
        i += 1;
    }
    assert(all.take(i as int) =~= all);
    Ok(out)
}

/// Once a prefix of the nodes fails, the whole list fails with the same error.
pub proof fn lemma_error_stays<S: ContentsFormat, T: ContentsFormat>(
    source: S,
    target: T,
    nodes: Seq<NodeView>,
    n: int,
)
    requires
        0 <= n <= nodes.len(),
        rewritten_nodes(source, target, nodes.take(n)) is Err,
    ensures
        rewritten_nodes(source, target, nodes) == rewritten_nodes(source, target, nodes.take(n)),
    decreases nodes.len() - n,
{
    if n == nodes.len() {
        assert(nodes.take(n) =~= nodes);
    } else {
        assert(nodes.take(n + 1).drop_last() =~= nodes.take(n));
        lemma_error_stays(source, target, nodes, n + 1);
    }
}

/// A conversion of the articles below one directory into another: the adapters
/// of the two platforms and the two content roots.
pub struct ContentsTransformer<Source: ContentsFormat, Target: ContentsFormat> {
    pub source: Source,
    pub target: Target,
    pub source_dirpath: String,
    pub target_dirpath: String,
}

impl<Source: ContentsFormat, Target: ContentsFormat> ContentsTransformer<Source, Target> {
    /// Converts the text of one article.
    ///
    /// The result is `transformed` of the text: it fails where the source's
    /// fence is too long for the parser, where the document holds a code span
    /// that the serialiser cannot write, where a node cannot be rewritten, with
    /// that node's error, and where the serialised document is no text.
    pub fn transform_body(&self, file_body: String) -> (out: Result<String, ExportError>)
        ensures
            match out {
                Ok(text) => transformed(self.source, self.target, file_body@) == Ok::<
                    Seq<char>,
                    ExportError,
                >(text@),
                Err(e) => transformed(self.source, self.target, file_body@) == Err::<
                    Seq<char>,
                    ExportError,
                >(e),
            },
    {
        let fence: &str = self.source.get_front_matter_delimiter();
        if fence.unicode_len() > MAX_DELIMITER_LEN {
            return Err(ExportError::UnimplementedAdapterOperation);
        }
        let parsed: Vec<DocumentNode> = document_nodes(file_body.as_str(), true, fence);
        if !all_nodes_writable(&parsed) {
            return Err(ExportError::MalformedInput);
        }
        let nodes: Vec<DocumentNode> = match rewrite_nodes(&self.source, &self.target, &parsed) {
            Ok(nodes) => nodes,
            Err(e) => { return Err(e); },
        };
        proof {
            lemma_rewriting_is_nodewise(self.source, self.target, node_views(parsed@));
        }
        let bytes: Vec<u8> = render_document(file_body.as_str(), true, fence, &nodes);
        match decode_text(bytes.as_slice()) {
            Some(text) => Ok(text.to_owned()),
            None => Err(ExportError::MalformedInput),
        }
    }
}

/// Where a conversion reads and writes: the patterns that find the source files
/// and the directories that take the results.
pub struct ExportPlan {
    /// Matches every article below the source's articles directory.
    pub articles_pattern: String,
    /// The directory that takes the converted articles.
    pub articles_dirpath: String,
    /// Matches every file directly in the source's images directory.
    pub images_pattern: String,
    /// The directory that takes the copied images.
    pub images_dirpath: String,
}

/// An `ExportPlan` as a mathematical value.
pub struct ExportPlanView {
    pub articles_pattern: Seq<char>,
    pub articles_dirpath: Seq<char>,
    pub images_pattern: Seq<char>,
    pub images_dirpath: Seq<char>,
}

impl View for ExportPlan {
    type V = ExportPlanView;

    open spec fn view(&self) -> ExportPlanView {
        ExportPlanView {
            articles_pattern: self.articles_pattern@,
            articles_dirpath: self.articles_dirpath@,
            images_pattern: self.images_pattern@,
            images_dirpath: self.images_dirpath@,
        }
    }
}

/// The plan of a conversion between two platforms and two content roots.
pub open spec fn planned<S: ContentsFormat, T: ContentsFormat>(
    source: S,
    target: T,
    source_dirpath: Seq<char>,
    target_dirpath: Seq<char>,
) -> ExportPlanView {
    ExportPlanView {
        articles_pattern: joined(joined(source_dirpath, source.articles_dirname()), "**/*.md"@),
        articles_dirpath: joined(target_dirpath, target.articles_dirname()),
        images_pattern: joined(joined(source_dirpath, source.images_dirname()), "*"@),
        images_dirpath: joined(target_dirpath, target.images_dirname()),
    }
}

/// Where the file at `source_filepath` goes inside `dirpath`: under its own file
/// name.
pub open spec fn placed(dirpath: Seq<char>, source_filepath: Seq<char>) -> Result<
    Seq<char>,
    ExportError,
> {
    match file_name(source_filepath) {
        Some(name) => Ok(joined(dirpath, name)),
        None => Err(ExportError::MalformedInput),
    }
}

/// The path inside `dirpath` for the file at `source_filepath`. A path without a
/// file name is refused.
pub fn place(dirpath: &str, source_filepath: &str) -> (path: Result<String, ExportError>)
    ensures
        match path {
            Ok(p) => placed(dirpath@, source_filepath@) == Ok::<Seq<char>, ExportError>(p@),
            Err(e) => placed(dirpath@, source_filepath@) == Err::<Seq<char>, ExportError>(e),
        },
{
    match basename(source_filepath) {
        Some(name) => Ok(join_path(dirpath, name.as_str())),
        None => Err(ExportError::MalformedInput),
    }
}

impl ExportPlan {
    /// The path that takes the converted article found at `source_filepath`.
    pub fn article_path(&self, source_filepath: &str) -> (path: Result<String, ExportError>)
        ensures
            match path {
                Ok(p) => placed(self@.articles_dirpath, source_filepath@) == Ok::<
                    Seq<char>,
                    ExportError,
                >(p@),
                Err(e) => placed(self@.articles_dirpath, source_filepath@) == Err::<
                    Seq<char>,
                    ExportError,
                >(e),
            },
    {
        place(self.articles_dirpath.as_str(), source_filepath)
    }

    /// The path that takes the copy of the image found at `source_filepath`.
    pub fn image_path(&self, source_filepath: &str) -> (path: Result<String, ExportError>)
        ensures
            match path {
                Ok(p) => placed(self@.images_dirpath, source_filepath@) == Ok::<
                    Seq<char>,
                    ExportError,
                >(p@),
                Err(e) => placed(self@.images_dirpath, source_filepath@) == Err::<
                    Seq<char>,
                    ExportError,
                >(e),
            },
    {
        place(self.images_dirpath.as_str(), source_filepath)
    }
}

impl<Source: ContentsFormat, Target: ContentsFormat> ContentsTransformer<Source, Target> {
    /// Plans the export: which files to read and where the results go. Articles
    /// are looked for at any depth, images directly in their directory.
    pub fn export_contents(&self) -> (plan: ExportPlan)
        ensures
            plan@ == planned(self.source, self.target, self.source_dirpath@, self.target_dirpath@),
    {
        let articles: String = join_path(
            self.source_dirpath.as_str(),
            self.source.get_articles_dirname(),
        );
        let images: String = join_path(
            self.source_dirpath.as_str(),
            self.source.get_images_dirname(),
        );
        ExportPlan {
            articles_pattern: join_path(articles.as_str(), "**/*.md"),
            articles_dirpath: join_path(
                self.target_dirpath.as_str(),
                self.target.get_articles_dirname(),
            ),
            images_pattern: join_path(images.as_str(), "*"),
            images_dirpath: join_path(
                self.target_dirpath.as_str(),
                self.target.get_images_dirname(),
            ),
        }
    }
}

/// Whether a conversion from `source` to `target` is defined. One is: from Zenn
/// to Hugo.
pub open spec fn is_supported(source: Format, target: Format) -> bool {
    source == Format::Zenn && target == Format::HugoRobust
}

/// Sets up the conversion from `source` to `target` between two content roots.
///
/// A pair of platforms without a defined conversion is refused with
/// `UnsupportedConversion`, before anything is planned or converted.
pub fn export_contents(
    source: Format,
    target: Format,
    source_dirpath: String,
    target_dirpath: String,
) -> (conversion: Result<ContentsTransformer<Zenn, HugoRobust>, ExportError>)
    ensures
        match conversion {
            Ok(c) => {
                &&& is_supported(source, target)
                &&& c.source_dirpath@ == source_dirpath@
                &&& c.target_dirpath@ == target_dirpath@
            },
            Err(e) => !is_supported(source, target) && e == ExportError::UnsupportedConversion,
        },
{
    if source == Format::Zenn && target == Format::HugoRobust {
        Ok(
            ContentsTransformer {
                source: Zenn::new(),
                target: HugoRobust::new(),
                source_dirpath,
                target_dirpath,
            },
        )
    } else {
        Err(ExportError::UnsupportedConversion)
    }
}

} // verus!
