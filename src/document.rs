use vstd::prelude::*;

verus! {

/// A document as handed in by a caller: its identifier, title, link and
/// body text. Nothing here validates the fields; they pass through as given.
pub struct SourceDocument {
    pub id: String,
    pub title: String,
    pub link: String,
    pub body: String,
}

} // verus!
