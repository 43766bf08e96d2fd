//! The ways in which a conversion fails.

use vstd::prelude::*;

verus! {

/// Why a conversion was refused or abandoned.
#[derive(Clone, Copy, Debug, PartialEq, Eq, Structural)]
pub enum ExportError {
    /// No conversion is defined from the requested source to the requested target.
    UnsupportedConversion,
    /// An adapter was asked for an operation of a role that it does not play, or
    /// its fence is too long to serve as a source's.
    UnimplementedAdapterOperation,
    /// A link or a front-matter block could not be read as text, a local image
    /// link names no file, or a code span cannot be written again.
    MalformedInput,
}

} // verus!
