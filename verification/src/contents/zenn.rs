//! The adapter for Zenn: the source of a conversion.

use crate::contents::ContentsFormat;
use crate::error::ExportError;
use crate::front_matter::{normalized, FrontMatter, FrontMatterView};
use crate::key_values::{block_fields, parse_fields};
use crate::path::{is_remote, remote};
use vstd::prelude::*;
use vstd::string::*;

verus! {

pub struct Zenn {}

impl ContentsFormat for Zenn {
    open spec fn articles_dirname(&self) -> Seq<char> {
        "articles"@
    }

    open spec fn images_dirname(&self) -> Seq<char> {
        "images"@
    }

    open spec fn front_matter_delimiter(&self) -> Seq<char> {
        "+++"@
    }

    /// Every link that does not point away from the site is a local image.
    open spec fn local_image(&self, link: Seq<char>) -> Result<bool, ExportError> {
        Ok(!is_remote(link))
    }

    /// The fields of the block, normalized.
    open spec fn parsed_front_matter(&self, text: Seq<char>) -> Result<
        FrontMatterView,
        ExportError,
    > {
        Ok(normalized(block_fields(text)))
    }

    open spec fn formatted_front_matter(&self, model: FrontMatterView) -> Result<
        Seq<char>,
        ExportError,
    > {
        Err(ExportError::UnimplementedAdapterOperation)
    }

    open spec fn image_path(&self, filename: Seq<char>) -> Result<Seq<char>, ExportError> {
        Err(ExportError::UnimplementedAdapterOperation)
    }

    fn new() -> Self {
        Self {  }
    }

    fn get_articles_dirname(&self) -> (name: &str) {
        "articles"
    }

    fn get_images_dirname(&self) -> (name: &str) {
        "images"
    }

    fn get_front_matter_delimiter(&self) -> (fence: &str) {
        "+++"
    }

    fn is_local_image(&self, image_link: String) -> (local: Result<bool, ExportError>) {
        Ok(!remote(image_link.as_str()))
    }

    fn parse_front_matter(&self, front_matter_str: String) -> (model: Result<
        FrontMatter,
        ExportError,
    >) {
        Ok(FrontMatter::new(parse_fields(front_matter_str.as_str())))
    }

    /// Zenn is no target: the operation is not implemented.
    fn format_front_matter(&self, front_matters: FrontMatter) -> (text: Result<
        String,
        ExportError,
    >) {
        Err(ExportError::UnimplementedAdapterOperation)
    }

    /// Zenn is no target: the operation is not implemented.
    fn format_image_path(&self, filename: &str) -> (path: Result<String, ExportError>) {
        Err(ExportError::UnimplementedAdapterOperation)
    }
}

} // verus!
