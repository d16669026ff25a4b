//! What can go wrong with a document.

use vstd::prelude::*;

verus! {

/// Why a page could not be shown or written. `S` is the type of text: `String` at run time,
/// `Seq<char>` in contracts.
#[derive(Debug, PartialEq)]
pub enum RenderError<S = String> {
    /// The document library reported an error.
    Mupdf(S),
    /// The document has no pages.
    EmptyDocument,
    /// A rendered page could not be brought into the form that is shown or written.
    Converting(S),
}

impl View for RenderError {
    type V = RenderError<Seq<char>>;

    open spec fn view(&self) -> RenderError<Seq<char>> {
        match *self {
            RenderError::Mupdf(s) => RenderError::Mupdf(s@),
            RenderError::EmptyDocument => RenderError::EmptyDocument,
            RenderError::Converting(s) => RenderError::Converting(s@),
        }
    }
}

} // verus!
