//! The adapter for Hugo sites with the Robust theme: the target of a conversion.

use crate::contents::ContentsFormat;
use crate::error::ExportError;
use crate::front_matter::{normalized, FrontMatter, FrontMatterView};
use crate::key_values::{
    assignment, block_fields, lemma_assignment_reads_back, lemma_fields_of_push,
    lemma_line_without_equals,
};
use crate::text::{lemma_first_line, lemma_single_line, lines};
use vstd::prelude::*;
use vstd::string::*;

verus! {

/// The front-matter block of a Hugo article: the date, the title and an empty
/// thumbnail between `+++` fences. Custom fields are not written.
pub open spec fn hugo_front_matter(model: FrontMatterView) -> Seq<char> {
    "\n+++\ndate = \""@ + model.published_at + "\"\ntitle = \""@ + model.title
        + "\"\nthumbnail = \"\"\n+++\n"@
}

/// The reference to an image of a Hugo site.
pub open spec fn hugo_image_path(filename: Seq<char>) -> Seq<char> {
    "/img/"@ + filename
}

/// The fields that a Hugo block holds for `model`.
pub open spec fn hugo_fields(model: FrontMatterView) -> Map<Seq<char>, Seq<char>> {
    Map::<Seq<char>, Seq<char>>::empty().insert("date"@, model.published_at).insert(
        "title"@,
        model.title,
    ).insert("thumbnail"@, Seq::empty())
}

/// The lines of a Hugo block.
proof fn lemma_hugo_lines(model: FrontMatterView)
    requires
        !model.title.contains('\n'),
        !model.published_at.contains('\n'),
    ensures
        lines(hugo_front_matter(model)) == seq![
            Seq::<char>::empty(),
            "+++"@,
            assignment("date"@, model.published_at),
            assignment("title"@, model.title),
            assignment("thumbnail"@, Seq::empty()),
            "+++"@,
            Seq::<char>::empty(),
        ],
{
    reveal_strlit("\n+++\ndate = \"");
    reveal_strlit("\"\ntitle = \"");
    reveal_strlit("\"\nthumbnail = \"\"\n+++\n");
    reveal_strlit("+++");
    reveal_strlit("date");
    reveal_strlit("title");
    reveal_strlit("thumbnail");
    let nl = seq!['\n'];
    let empty = Seq::<char>::empty();
    let fence = "+++"@;
    let date = assignment("date"@, model.published_at);
    let title = assignment("title"@, model.title);
    let thumbnail = assignment("thumbnail"@, Seq::empty());
    let r6 = empty;
    let r5 = fence + nl + r6;
    let r4 = thumbnail + nl + r5;
    let r3 = title + nl + r4;
    let r2 = date + nl + r3;
    let r1 = fence + nl + r2;
    let r0 = empty + nl + r1;
    assert(r0 =~= hugo_front_matter(model));
    lemma_assignment_in_one_line("date"@, model.published_at);
    lemma_assignment_in_one_line("title"@, model.title);
    lemma_assignment_in_one_line("thumbnail"@, Seq::empty());
    assert(!fence.contains('\n'));
    assert(!empty.contains('\n'));
    lemma_single_line(r6);
    lemma_first_line(fence, r6);
    lemma_first_line(thumbnail, r5);
    lemma_first_line(title, r4);
    lemma_first_line(date, r3);
    lemma_first_line(fence, r2);
    lemma_first_line(empty, r1);
    assert(lines(r0) =~= seq![empty, fence, date, title, thumbnail, fence, empty]);
}

/// An assignment of a value without a line feed to a key without one holds none.
proof fn lemma_assignment_in_one_line(key: Seq<char>, value: Seq<char>)
    requires
        !key.contains('\n'),
        !value.contains('\n'),
    ensures
        !assignment(key, value).contains('\n'),
{
    let line = assignment(key, value);
    let k = key.len() as int;
    assert forall|j: int| 0 <= j < line.len() implies line[j] != '\n' by {
        if j < k {
            assert(line[j] == key[j]);
            assert(key.contains(key[j]));
        } else if k + 4 <= j < k + 4 + value.len() {
            assert(line[j] == value[j - k - 4]);
            assert(value.contains(value[j - k - 4]));
        }
    }
}

/// What Hugo writes reads back: the key/value reader finds, in the block of a
/// model whose title and date hold no line feed, the date under `date`, the
/// title under `title` and an empty `thumbnail`, and nothing else.
pub proof fn lemma_hugo_block_reads_back(model: FrontMatterView)
    requires
        !model.title.contains('\n'),
        !model.published_at.contains('\n'),
    ensures
        block_fields(hugo_front_matter(model)) == hugo_fields(model),
{
    reveal_strlit("+++");
    reveal_strlit("date");
    reveal_strlit("title");
    reveal_strlit("thumbnail");
    lemma_hugo_lines(model);
    let empty = Seq::<char>::empty();
    let fence = "+++"@;
    let date = assignment("date"@, model.published_at);
    let title = assignment("title"@, model.title);
    let thumbnail = assignment("thumbnail"@, Seq::empty());
    lemma_line_without_equals(empty);
    lemma_line_without_equals(fence);
    lemma_assignment_reads_back("date"@, model.published_at);
    lemma_assignment_reads_back("title"@, model.title);
    lemma_assignment_reads_back("thumbnail"@, Seq::empty());
    let l0 = Seq::<Seq<char>>::empty();
    let l1 = l0.push(empty);
    let l2 = l1.push(fence);
    let l3 = l2.push(date);
    let l4 = l3.push(title);
    let l5 = l4.push(thumbnail);
    let l6 = l5.push(fence);
    let l7 = l6.push(empty);
    lemma_fields_of_push(l0, empty);
    lemma_fields_of_push(l1, fence);
    lemma_fields_of_push(l2, date);
    lemma_fields_of_push(l3, title);
    lemma_fields_of_push(l4, thumbnail);
    lemma_fields_of_push(l5, fence);
    lemma_fields_of_push(l6, empty);
    assert(l7 =~= seq![empty, fence, date, title, thumbnail, fence, empty]);
}

/// A front matter survives the conversion to Hugo: read back as fields and
/// normalized, the block gives the title again, and the date of publication
/// under Hugo's key `date`.
pub proof fn lemma_title_and_date_survive(model: FrontMatterView)
    requires
        !model.title.contains('\n'),
        !model.published_at.contains('\n'),
    ensures
        normalized(block_fields(hugo_front_matter(model))).title == model.title,
        normalized(block_fields(hugo_front_matter(model))).custom.contains_key("date"@),
        normalized(block_fields(hugo_front_matter(model))).custom["date"@] == model.published_at,
{
    reveal_strlit("date");
    reveal_strlit("title");
    reveal_strlit("thumbnail");
    reveal_strlit("published_at");
    lemma_hugo_block_reads_back(model);
    assert("date"@.len() == 4);
    assert("title"@.len() == 5);
    assert("thumbnail"@.len() == 9);
    assert("published_at"@.len() == 12);
}

pub struct HugoRobust {}

impl ContentsFormat for HugoRobust {
    open spec fn articles_dirname(&self) -> Seq<char> {
        "content"@
    }

    open spec fn images_dirname(&self) -> Seq<char> {
        "static/img"@
    }

    open spec fn front_matter_delimiter(&self) -> Seq<char> {
        "+++"@
    }

    open spec fn local_image(&self, link: Seq<char>) -> Result<bool, ExportError> {
        Err(ExportError::UnimplementedAdapterOperation)
    }

    open spec fn parsed_front_matter(&self, text: Seq<char>) -> Result<
        FrontMatterView,
        ExportError,
    > {
        Err(ExportError::UnimplementedAdapterOperation)
    }

    open spec fn formatted_front_matter(&self, model: FrontMatterView) -> Result<
        Seq<char>,
        ExportError,
    > {
        Ok(hugo_front_matter(model))
    }

    open spec fn image_path(&self, filename: Seq<char>) -> Result<Seq<char>, ExportError> {
        Ok(hugo_image_path(filename))
    }

    fn new() -> Self {
        Self {  }
    }

    fn get_articles_dirname(&self) -> (name: &str) {
        "content"
    }

    fn get_images_dirname(&self) -> (name: &str) {
        "static/img"
    }

    fn get_front_matter_delimiter(&self) -> (fence: &str) {
        "+++"
    }

    /// Hugo is no source: the operation is not implemented.
    fn is_local_image(&self, image_link: String) -> (local: Result<bool, ExportError>) {
        Err(ExportError::UnimplementedAdapterOperation)
    }

    /// Hugo is no source: the operation is not implemented.
    fn parse_front_matter(&self, front_matter_str: String) -> (model: Result<
        FrontMatter,
        ExportError,
    >) {
        Err(ExportError::UnimplementedAdapterOperation)
    }

    fn format_front_matter(&self, front_matters: FrontMatter) -> (text: Result<
        String,
        ExportError,
    >) {
        let mut text: String = "\n+++\ndate = \"".to_owned();
        text.append(front_matters.published_at());
        text.append("\"\ntitle = \"");
        text.append(front_matters.title());
        text.append("\"\nthumbnail = \"\"\n+++\n");
        Ok(text)
    }

    fn format_image_path(&self, filename: &str) -> (path: Result<String, ExportError>) {
        let mut path: String = "/img/".to_owned();
        path.append(filename);
        Ok(path)
    }
}

} // verus!
