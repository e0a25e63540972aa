use noah::events::{select_embedding, EmbedOutcome, Embedding, Event, SearchError};
use noah::ingest::{ack_for_line, screen_event, IngestDecision, IngestMode};
use noah::search::{assemble_search_result, resolve_paging};
use noah::store::{IngestOutcome, ModelStore};

fn ip_event(id: &str, pubkey: &str, kind: i32, content: &str) -> Event {
    Event {
        id: id.to_string(),
        pubkey: pubkey.to_string(),
        created_at: 1700000000,
        kind,
        content: content.to_string(),
        tags: vec![],
    }
}

fn ip_stub_vector() -> Embedding {
    Embedding { bits: vec![0.1f32.to_bits(), 0.2f32.to_bits(), 0.3f32.to_bits()] }
}

#[test]
fn ingesting_the_same_id_twice_stores_one_row() {
    let mut store = ModelStore::new();
    let first = store.ingest(
        ip_event("e1", "p1", 1, "hello world"),
        EmbedOutcome::Produced(ip_stub_vector()),
    );
    assert_eq!(first, IngestOutcome::Inserted);
    assert_eq!(store.rows.len(), 1);
    assert_eq!(store.rows[0].event.id, "e1");
    assert_eq!(store.rows[0].embedding, ip_stub_vector());
    // Replaying the identical record reports "already exists" and writes
    // nothing.
    let second = store.ingest(
        ip_event("e1", "p1", 1, "hello world"),
        EmbedOutcome::Produced(ip_stub_vector()),
    );
    assert_eq!(second, IngestOutcome::AlreadyExists);
    assert_eq!(store.rows.len(), 1);
}

#[test]
fn unindexed_kinds_are_never_embedded_or_stored() {
    let mut store = ModelStore::new();
    let outcome = store.ingest(
        ip_event("e2", "p1", 7, "a repost"),
        EmbedOutcome::Produced(ip_stub_vector()),
    );
    assert_eq!(outcome, IngestOutcome::SkippedKind);
    assert_eq!(store.rows.len(), 0);
    // The screening decision never asks for an embedding for such a kind.
    assert_eq!(screen_event(false, 7), IngestDecision::NotIndexable);
    assert_eq!(screen_event(false, 1), IngestDecision::RequestEmbedding);
    assert_eq!(screen_event(true, 1), IngestDecision::AlreadyExists);
    assert_eq!(screen_event(true, 7), IngestDecision::AlreadyExists);
}

#[test]
fn failed_embedding_skips_the_event_without_aborting() {
    let mut store = ModelStore::new();
    let outcome = store.ingest(ip_event("e3", "p1", 1, "hello"), EmbedOutcome::Failed);
    assert_eq!(outcome, IngestOutcome::EmbeddingFailed);
    assert_eq!(store.rows.len(), 0);
    // A later replay of the same line can still store it.
    let retry = store.ingest(
        ip_event("e3", "p1", 1, "hello"),
        EmbedOutcome::Produced(ip_stub_vector()),
    );
    assert_eq!(retry, IngestOutcome::Inserted);
    assert_eq!(store.rows.len(), 1);
}

#[test]
fn enveloped_mode_acks_each_parsed_line_once() {
    let parsed = Some(ip_event("e1", "p1", 1, "hello"));
    let ack = ack_for_line(IngestMode::Enveloped, &parsed);
    let ack = ack.expect("a parsed line in enveloped mode is acknowledged");
    assert_eq!(ack.id, "e1");
    assert_eq!(ack.action, "accept");
    assert!(ack.msg.is_none());
    // A line that fails to parse gets no ack.
    assert!(ack_for_line(IngestMode::Enveloped, &None).is_none());
    // Direct mode never acknowledges.
    assert!(ack_for_line(IngestMode::Direct, &parsed).is_none());
    assert!(ack_for_line(IngestMode::Direct, &None).is_none());
}

#[test]
fn provider_response_needs_at_least_one_vector() {
    let picked = select_embedding(vec![ip_stub_vector(), Embedding { bits: vec![9] }]);
    assert_eq!(picked.unwrap(), ip_stub_vector());
    let empty = select_embedding(vec![]);
    assert_eq!(empty.unwrap_err(), SearchError::EmbeddingFailed);
}

#[test]
fn error_kinds_describe_themselves_distinctly() {
    let embed_msg = SearchError::EmbeddingFailed.describe();
    let store_msg = SearchError::StoreFailed.describe();
    assert_eq!(embed_msg, "could not produce an embedding for the query");
    assert_eq!(store_msg, "could not execute the search against the store");
    assert_ne!(embed_msg, store_msg);
}

#[test]
fn paging_defaults_and_echo() {
    assert_eq!(resolve_paging(&None, &None), (10, 0));
    assert_eq!(resolve_paging(&Some(25), &Some(5)), (25, 5));
    let r = assemble_search_result(vec![], 42, 25, 5);
    assert_eq!(r.total, 42);
    assert_eq!(r.limit, 25);
    assert_eq!(r.offset, 5);
    assert_eq!(r.results.len(), 0);
}
