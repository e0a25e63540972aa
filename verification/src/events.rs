use vstd::prelude::*;
use vstd::string::StringExecFns;

verus! {

/// The one event kind that is embedded and indexed: plain text notes.
/// Events of any other kind are accepted at the edge but never stored.
pub const INDEXED_KIND: i32 = 1;

/// A fixed-length embedding vector. Each component carries the IEEE-754 bit
/// pattern of one 32-bit float component produced by the provider; the
/// engine never interprets the numeric value, it only carries the vector
/// between the provider and the store.
#[derive(Debug, PartialEq)]
pub struct Embedding {
    pub bits: Vec<u32>,
}

impl Embedding {
    /// An exact copy of the vector.
    pub fn dup(&self) -> (r: Embedding)
        ensures
            r.bits@ == self.bits@,
    {
        let mut bits: Vec<u32> = Vec::new();
        let mut i: usize = 0;
        while i < self.bits.len()
            invariant
                i <= self.bits.len(),
                bits@ == self.bits@.take(i as int),
            decreases self.bits.len() - i,
        {
            bits.push(self.bits[i]);
            assert(bits@ =~= self.bits@.take(i as int + 1));
            i += 1;
        }
        assert(bits@ =~= self.bits@);
        Embedding { bits }
    }
}

/// The unit of storage and search.
#[derive(Debug)]
pub struct Event {
    pub id: String,
    pub pubkey: String,
    pub created_at: i64,
    pub kind: i32,
    pub content: String,
    pub tags: Vec<Vec<String>>,
}

/// Two events carry the same data: all fields agree at the view level.
pub open spec fn event_view_eq(a: Event, b: Event) -> bool {
    &&& a.id@ == b.id@
    &&& a.pubkey@ == b.pubkey@
    &&& a.created_at == b.created_at
    &&& a.kind == b.kind
    &&& a.content@ == b.content@
    &&& a.tags.deep_view() == b.tags.deep_view()
}

/// What one call of the embedding provider came to, as handed back by the
/// caller that performed it.
pub enum EmbedOutcome {
    Produced(Embedding),
    Failed,
}

/// Why a search could not be answered: either no embedding could be produced
/// for the query, or the store could not execute the statements.
#[derive(Clone, Copy, PartialEq, Eq, Structural, Debug)]
pub enum SearchError {
    EmbeddingFailed,
    StoreFailed,
}

impl SearchError {
    /// A short human-readable description, distinct per error kind.
    pub fn describe(&self) -> (r: String)
        ensures
            *self is EmbeddingFailed ==> r@ == "could not produce an embedding for the query"@,
            *self is StoreFailed ==> r@ == "could not execute the search against the store"@,
    {
        match self {
            SearchError::EmbeddingFailed => String::from_str(
                "could not produce an embedding for the query",
            ),
            SearchError::StoreFailed => String::from_str(
                "could not execute the search against the store",
            ),
        }
    }
}

/// Pick the embedding out of the provider's response: the first vector of
/// the returned array. An empty array is a provider failure, not a vector.
pub fn select_embedding(vectors: Vec<Embedding>) -> (r: Result<Embedding, SearchError>)
    ensures
        r is Ok <==> vectors@.len() > 0,
        vectors@.len() > 0 ==> (r matches Ok(e) && e == vectors@[0]),
        vectors@.len() == 0 ==> (r matches Err(er) && er is EmbeddingFailed),
{
    let mut vectors = vectors;
    if vectors.len() == 0 {
        Err(SearchError::EmbeddingFailed)
    } else {
        Ok(vectors.remove(0))
    }
}

} // verus!
