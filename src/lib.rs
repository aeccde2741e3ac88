//! Turns a source document into indexable chunk records: bounded-size text
//! chunks, each paired with sign-binarized embedding tokens and its attributes.

mod attributes;
mod binarize;
mod builder;
mod chunker;
mod decimal;
mod document;
mod pipeline;

pub use attributes::{
    chunk_attributes, chunk_text_field, document_attributes, link_field, title_field, Attributes,
    Field,
};
pub use binarize::{
    binarize_embedding, binarized, is_non_negative, lemma_binarize_deterministic,
    lemma_binarize_zero_vector, sign_pattern, token, views,
};
pub use builder::{id_namespace, index_id, DocBuilder, CHUNK_SIZE};
pub use chunker::text_chunks;
pub use decimal::{decimal, push_decimal};
pub use document::SourceDocument;
pub use pipeline::{
    chunk_record, lemma_record_count, lemma_records_follow_chunks, outcome_view, records_of,
    ChunkPipeline, ChunkRecord, RecordView,
};
