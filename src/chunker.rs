use vstd::prelude::*;

verus! {

/// The chunks that the semantic text splitter makes of `text` with a capacity
/// of `capacity` characters, in the order in which they stand in the text.
pub uninterp spec fn text_chunks(text: Seq<char>, capacity: usize) -> Seq<Seq<char>>;

/// Relies on `text_splitter::TextSplitter::chunks`, with the default sizer
/// (characters) and the default trimming of surrounding whitespace: the chunks
/// depend on the text and the capacity alone, none is empty, none holds more
/// than `capacity` characters, and a text without characters has no chunk.
#[verifier::external_body]
pub(crate) fn split_text(text: &str, capacity: usize) -> (r: Vec<String>)
    requires
        capacity >= 1,
    ensures
        r@.map_values(|s: String| s@) == text_chunks(text@, capacity),
        forall|i: int| 0 <= i < r@.len() ==> 0 < (#[trigger] r@[i])@.len() <= capacity,
        text@.len() == 0 ==> r@.len() == 0,
{
    let splitter = text_splitter::TextSplitter::<text_splitter::Characters>::new(capacity);
    splitter.chunks(text).map(|c| c.to_string()).collect()
}

} // verus!
