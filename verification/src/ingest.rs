use vstd::prelude::*;
use vstd::string::StringExecFns;

use crate::events::{Event, INDEXED_KIND};

verus! {

// The ingestion pipeline reads one record per line from an input stream and
// processes lines strictly in order: parse, acknowledge (enveloped mode),
// check existence, embed, write. The loop, the stream and the store round
// trips live with the caller; the decisions taken at each step are here.

/// The two input shapes a stream can carry.
#[derive(Clone, Copy, PartialEq, Eq, Structural, Debug)]
pub enum IngestMode {
    /// Each line is the raw event representation.
    Direct,
    /// Each line wraps the event with provenance metadata, and each
    /// successfully parsed line is acknowledged before any store work.
    Enveloped,
}

/// One enveloped input line: the event with its provenance metadata.
#[derive(Debug)]
pub struct PluginInput {
    pub msg_type: String,
    pub event: Event,
    pub received_at: i64,
    pub source_type: String,
    pub source_info: String,
}

/// One acknowledgment record written back to the upstream producer.
#[derive(Debug)]
pub struct PluginOutput {
    pub id: String,
    pub action: String,
    pub msg: Option<String>,
}

/// The decision taken after the existence check.
#[derive(Clone, Copy, PartialEq, Eq, Structural, Debug)]
pub enum IngestDecision {
    /// The id is already stored: skip embedding and insert entirely.
    AlreadyExists,
    /// Fresh id, indexed kind: call the embedding provider next.
    RequestEmbedding,
    /// Fresh id, unindexed kind: no embedding, nothing stored.
    NotIndexable,
}

/// The accept handshake: in enveloped mode, every successfully parsed line
/// is answered with exactly one accept ack, decided on the parse outcome
/// alone — before any store operation — and a line that failed to parse
/// gets none. Direct mode never acknowledges.
pub fn ack_for_line(mode: IngestMode, parsed: &Option<Event>) -> (r: Option<PluginOutput>)
    ensures
        r is Some <==> (mode is Enveloped && *parsed is Some),
        r is Some ==> r->0.id@ == (*parsed)->0.id@,
        r is Some ==> r->0.action@ == "accept"@,
        r is Some ==> r->0.msg is None,
{
    match (mode, parsed) {
        (IngestMode::Enveloped, Some(ev)) => Some(
            PluginOutput { id: ev.id.clone(), action: String::from_str("accept"), msg: None },
        ),
        _ => None,
    }
}

/// The decision after the existence check: a stored id makes the line a
/// no-op replay, a fresh indexed-kind event goes on to embedding, and any
/// other kind is dropped without an embedding call.
pub fn screen_event(exists: bool, kind: i32) -> (d: IngestDecision)
    ensures
        d is AlreadyExists <==> exists,
        d is RequestEmbedding <==> (!exists && kind == INDEXED_KIND),
        d is NotIndexable <==> (!exists && kind != INDEXED_KIND),
{
    if exists {
        IngestDecision::AlreadyExists
    } else if kind == INDEXED_KIND {
        IngestDecision::RequestEmbedding
    } else {
        IngestDecision::NotIndexable
    }
}

} // verus!
