use vstd::prelude::*;
use crate::attributes::{chunk_attributes, chunk_text_field, Attributes};
use crate::binarize::{binarize_embedding, binarized, views};
use crate::chunker::{split_text, text_chunks};

verus! {

/// What one record holds: the tokens of the chunk's embedding and the chunk's
/// attributes.
pub type RecordView = (Seq<Seq<char>>, Seq<(Seq<char>, Seq<char>)>);

/// The record made of a chunk whose embedding (components as `f32` bit
/// patterns) is `bits`.
pub open spec fn chunk_record(text: Seq<char>, bits: Seq<u32>) -> RecordView {
    (binarized(bits), seq![(chunk_text_field(), text)])
}

/// The records emitted for the first `outcomes.len()` chunks, where
/// `outcomes[k]` is the embedding of chunk `k`, or `None` where embedding it
/// failed: one record per embedded chunk, in chunk order, none for a failed one.
pub open spec fn records_of(
    chunks: Seq<Seq<char>>,
    outcomes: Seq<Option<Seq<u32>>>,
) -> Seq<RecordView>
    decreases outcomes.len(),
{
    if outcomes.len() == 0 {
        Seq::empty()
    } else {
        let k = outcomes.len() - 1;
        let earlier = records_of(chunks, outcomes.drop_last());
        match outcomes[k] {
            Some(bits) => earlier.push(chunk_record(chunks[k], bits)),
            None => earlier,
        }
    }
}

/// The embedding outcome of one chunk, as a value of the model.
pub open spec fn outcome_view(outcome: Option<Vec<u32>>) -> Option<Seq<u32>> {
    match outcome {
        Some(v) => Some(v@),
        None => None,
    }
}

/// The record built for one successfully embedded chunk.
pub struct ChunkRecord {
    pub tokens: Vec<String>,
    pub attributes: Attributes,
}

impl View for ChunkRecord {
    type V = RecordView;

    open spec fn view(&self) -> RecordView {
        (views(self.tokens@), self.attributes@)
    }
}

/// The per-document state of chunk processing. The document's body has been
/// split into chunks; they are then taken one at a time: the caller embeds the
/// pending chunk's text and hands the outcome to `advance`, which returns the
/// chunk's record, or none where the embedding failed. Once every chunk has
/// been taken the pipeline is done.
pub struct ChunkPipeline {
    chunks: Vec<String>,
    next: usize,
    outcomes: Ghost<Seq<Option<Seq<u32>>>>,
}

impl ChunkPipeline {
    /// The position never passes the last chunk, and there is one outcome per
    /// chunk taken.
    pub closed spec fn wf(&self) -> bool {
        &&& self.next <= self.chunks@.len()
        &&& self.outcomes@.len() == self.next
    }

    /// The texts of the chunks, in order.
    pub closed spec fn chunk_texts(&self) -> Seq<Seq<char>> {
        views(self.chunks@)
    }

    /// The number of chunks taken so far.
    pub closed spec fn position(&self) -> nat {
        self.next as nat
    }

    /// The embedding outcomes handed in so far, one per chunk taken.
    pub closed spec fn outcomes(&self) -> Seq<Option<Seq<u32>>> {
        self.outcomes@
    }

    /// The records emitted so far.
    pub open spec fn emitted(&self) -> Seq<RecordView> {
        records_of(self.chunk_texts(), self.outcomes())
    }

    /// Splits `body` into chunks of at most `max_chunk_size` characters; no
    /// chunk is taken yet.
    pub fn new(body: &str, max_chunk_size: usize) -> (r: ChunkPipeline)
        requires
            max_chunk_size >= 1,
        ensures
            r.chunk_texts() == text_chunks(body@, max_chunk_size),
            forall|i: int| 0 <= i < r.chunk_texts().len()
                ==> 0 < (#[trigger] r.chunk_texts()[i]).len() <= max_chunk_size,
            body@.len() == 0 ==> r.chunk_texts().len() == 0,
            r.wf(),
            r.position() == 0,
            r.outcomes() == Seq::<Option<Seq<u32>>>::empty(),
    {
        let chunks = split_text(body, max_chunk_size);
        let r = ChunkPipeline { chunks, next: 0, outcomes: Ghost(Seq::empty()) };
        assert forall|i: int| 0 <= i < r.chunk_texts().len()
            implies 0 < (#[trigger] r.chunk_texts()[i]).len() <= max_chunk_size by {
            assert(r.chunk_texts()[i] == r.chunks@[i]@);
        }
        r
    }

    /// At any point of processing, at most one record has been emitted per
    /// chunk taken, one exactly where no embedding has failed; once the
    /// pipeline is done, the records number at most the chunks.
    pub proof fn lemma_emitted_bound(&self)
        requires
            self.wf(),
        ensures
            self.emitted().len() <= self.position() <= self.chunk_texts().len(),
            (forall|k: int| 0 <= k < self.position() ==> (#[trigger] self.outcomes()[k]) is Some)
                ==> self.emitted().len() == self.position(),
    {
        lemma_record_count(self.chunk_texts(), self.outcomes());
    }

    /// The number of chunks of the document.
    pub fn num_chunks(&self) -> (r: usize)
        ensures
            r == self.chunk_texts().len(),
    {
        self.chunks.len()
    }

    /// Whether every chunk has been taken.
    pub fn is_done(&self) -> (r: bool)
        requires
            self.wf(),
        ensures
            r == (self.position() >= self.chunk_texts().len()),
    {
        self.next >= self.chunks.len()
    }

    /// The text of the chunk to embed next, or none once every chunk has been
    /// taken.
    pub fn pending(&self) -> (r: Option<&String>)
        requires
            self.wf(),
        ensures
            self.position() < self.chunk_texts().len() ==> r is Some && r->0@
                == self.chunk_texts()[self.position() as int],
            self.position() >= self.chunk_texts().len() ==> r is None,
    {
        if self.next < self.chunks.len() {
            Some(&self.chunks[self.next])
        } else {
            None
        }
    }

    /// Takes the pending chunk with the outcome of embedding its text: its
    /// record where the embedding (components as `f32` bit patterns) came
    /// back, none where it failed.
    pub fn advance(&mut self, outcome: Option<Vec<u32>>) -> (r: Option<ChunkRecord>)
        requires
            old(self).wf(),
            old(self).position() < old(self).chunk_texts().len(),
        ensures
            final(self).wf(),
            final(self).chunk_texts() == old(self).chunk_texts(),
            final(self).position() == old(self).position() + 1,
            final(self).outcomes() == old(self).outcomes().push(outcome_view(outcome)),
            outcome is None ==> r is None,
            outcome is Some ==> r is Some && r->0@ == chunk_record(
                old(self).chunk_texts()[old(self).position() as int],
                outcome->0@,
            ),
            final(self).emitted() == match r {
                Some(rec) => old(self).emitted().push(rec@),
                None => old(self).emitted(),
            },
    {
        assert(self.chunk_texts().len() == self.chunks@.len());
        let k = self.next;
        let n = self.chunks.len();
        assert(k < n);
        let r = match outcome {
            Some(bits) => {
                let tokens = binarize_embedding(bits.as_slice());
                let attributes = chunk_attributes(&self.chunks[k]);
                let rec = ChunkRecord { tokens, attributes };
                assert(rec@.0 =~= binarized(bits@));
                Some(rec)
            },
            None => None,
        };
        self.next = k + 1;
        self.outcomes = Ghost(self.outcomes@.push(outcome_view(outcome)));
        proof {
            assert(self.outcomes@.drop_last() =~= old(self).outcomes());
        }
        r
    }
}

/// Every emitted record comes from a chunk that was taken: there are at most
/// as many records as outcomes, hence at most as many as chunks, and exactly
/// as many where no embedding failed.
pub proof fn lemma_record_count(chunks: Seq<Seq<char>>, outcomes: Seq<Option<Seq<u32>>>)
    requires
        outcomes.len() <= chunks.len(),
    ensures
        records_of(chunks, outcomes).len() <= outcomes.len() <= chunks.len(),
        (forall|k: int| 0 <= k < outcomes.len() ==> (#[trigger] outcomes[k]) is Some)
            ==> records_of(chunks, outcomes).len() == outcomes.len(),
    decreases outcomes.len(),
{
    if outcomes.len() > 0 {
        let rest = outcomes.drop_last();
        lemma_record_count(chunks, rest);
        if forall|k: int| 0 <= k < outcomes.len() ==> (#[trigger] outcomes[k]) is Some {
            assert forall|k: int| 0 <= k < rest.len() implies (#[trigger] rest[k]) is Some by {
                assert(rest[k] == outcomes[k]);
            }
        }
    }
}

/// Where no embedding fails, the records follow the chunks one for one and in
/// order: record `k` holds the text of chunk `k` and the tokens of its
/// embedding.
pub proof fn lemma_records_follow_chunks(
    chunks: Seq<Seq<char>>,
    outcomes: Seq<Option<Seq<u32>>>,
)
    requires
        outcomes.len() <= chunks.len(),
        forall|k: int| 0 <= k < outcomes.len() ==> (#[trigger] outcomes[k]) is Some,
    ensures
        records_of(chunks, outcomes).len() == outcomes.len(),
        forall|k: int| 0 <= k < outcomes.len() ==> #[trigger] records_of(chunks, outcomes)[k]
            == chunk_record(chunks[k], outcomes[k]->0),
    decreases outcomes.len(),
{
    lemma_record_count(chunks, outcomes);
    if outcomes.len() > 0 {
        let rest = outcomes.drop_last();
        assert forall|k: int| 0 <= k < rest.len() implies (#[trigger] rest[k]) is Some by {
            assert(rest[k] == outcomes[k]);
        }
        lemma_records_follow_chunks(chunks, rest);
        assert forall|k: int| 0 <= k < outcomes.len() implies #[trigger] records_of(
            chunks,
            outcomes,
        )[k] == chunk_record(chunks[k], outcomes[k]->0) by {
            if k < rest.len() {
                assert(rest[k] == outcomes[k]);
                assert(records_of(chunks, rest)[k] == chunk_record(chunks[k], rest[k]->0));
            }
        }
    }
}

} // verus!
