use vstd::prelude::*;
use crate::attributes::{document_attributes, link_field, title_field, Attributes};
use crate::chunker::text_chunks;
use crate::document::SourceDocument;
use crate::pipeline::{ChunkPipeline, RecordView};

verus! {

/// The maximum chunk size, in characters, that a builder uses by default.
pub const CHUNK_SIZE: usize = 2048;

/// The tag put before every document id of this source, so that its ids
/// cannot collide with those of other sources that share the index.
pub open spec fn id_namespace() -> Seq<char> {
    "web:"@
}

/// The index identifier of the document with id `id`.
pub open spec fn index_id(id: Seq<char>) -> Seq<char> {
    id_namespace() + id
}

/// Builds the identifier, the document attributes and the chunk records of
/// web documents.
pub struct DocBuilder {
    chunk_size: usize,
}

impl DocBuilder {
    #[verifier::type_invariant]
    spec fn inv(&self) -> bool {
        self.chunk_size >= 1
    }

    /// The maximum size of a chunk, in characters.
    pub closed spec fn max_chunk_size(&self) -> usize {
        self.chunk_size
    }

    /// A builder with the default maximum chunk size.
    pub fn new() -> (r: DocBuilder)
        ensures
            r.max_chunk_size() == CHUNK_SIZE,
    {
        DocBuilder { chunk_size: CHUNK_SIZE }
    }

    /// A builder whose chunks hold at most `chunk_size` characters; none for a
    /// size of zero, which no chunk can meet.
    pub fn with_chunk_size(chunk_size: usize) -> (r: Option<DocBuilder>)
        ensures
            r is Some <==> chunk_size >= 1,
            r is Some ==> r->0.max_chunk_size() == chunk_size,
    {
        if chunk_size >= 1 {
            Some(DocBuilder { chunk_size })
        } else {
            None
        }
    }

    /// The maximum size of a chunk, in characters.
    pub fn chunk_size(&self) -> (r: usize)
        ensures
            r == self.max_chunk_size(),
            r >= 1,
    {
        proof {
            use_type_invariant(self);
        }
        self.chunk_size
    }

    /// The index identifier of a document id: the namespace tag followed by
    /// the id.
    pub fn format_id(&self, id: &str) -> (r: String)
        ensures
            r@ == index_id(id@),
    {
        proof {
            reveal_strlit("web:");
        }
        let mut r = String::from_str("web:");
        r.append(id);
        r
    }

    /// The index identifier of a document.
    pub fn build_id(&self, document: &SourceDocument) -> (r: String)
        ensures
            r@ == index_id(document.id@),
    {
        self.format_id(document.id.as_str())
    }

    /// The document-level attributes: title and link, as given.
    pub fn build_attributes(&self, document: &SourceDocument) -> (r: Attributes)
        ensures
            r@ == seq![(title_field(), document.title@), (link_field(), document.link@)],
    {
        document_attributes(&document.title, &document.link)
    }

    /// Starts the chunk processing of a document: its body split into chunks
    /// of at most the maximum size, none empty, none taken yet.
    pub fn build_chunk_attributes(&self, document: SourceDocument) -> (r: ChunkPipeline)
        ensures
            r.wf(),
            r.chunk_texts() == text_chunks(document.body@, self.max_chunk_size()),
            forall|i: int| 0 <= i < r.chunk_texts().len()
                ==> 0 < (#[trigger] r.chunk_texts()[i]).len() <= self.max_chunk_size(),
            document.body@.len() == 0 ==> r.chunk_texts().len() == 0,
            r.position() == 0,
            r.emitted() == Seq::<RecordView>::empty(),
    {
        proof {
            use_type_invariant(self);
        }
        let r = ChunkPipeline::new(document.body.as_str(), self.chunk_size);
        assert(r.emitted() =~= Seq::<RecordView>::empty());
        r
    }
}

} // verus!
