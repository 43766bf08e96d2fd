//! Converts authored articles from one static-site content format to another.
//!
//! An article is a Markdown body with a front-matter block. A conversion rewrites
//! the front matter and the references to local images, and leaves the rest of the
//! document to the Markdown parser's own round trip. This crate holds the
//! transformation and the rules around it; it reads and writes no files.

use vstd::prelude::*;

pub mod contents;
pub mod error;
pub mod front_matter;
pub mod key_values;
pub mod markdown;
pub mod path;
pub mod text;

verus! {

/// A content platform that articles can be converted from or to.
#[derive(Clone, Copy, Debug, PartialEq, Eq, PartialOrd, Ord, Structural)]
pub enum Format {
    HugoRobust,
    Zenn,
}

} // verus!
