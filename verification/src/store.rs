use vstd::prelude::*;

use crate::events::{event_view_eq, EmbedOutcome, Embedding, Event, INDEXED_KIND};
use crate::search::{event_matches, event_matches_exec, EventWithSimilarity, SearchFilters};
use crate::tags::copy_tag_doc;

verus! {

// The reference semantics of the event store: what the generated statements
// mean at the relational store, stated over plain values. The model store
// below implements exactly these semantics in memory; it is what the tests
// exercise and what the ingestion and search laws are proved against.

/// Similarities and distances are carried in millionths: a distance d in
/// [0, SIMILARITY_SCALE] stands for the normalized distance d / 10^6, and
/// the similarity of a row is SIMILARITY_SCALE - d (one minus the distance).
pub const SIMILARITY_SCALE: i64 = 1_000_000;

/// A stored row: an event together with its embedding.
#[derive(Debug)]
pub struct StoredEvent {
    pub event: Event,
    pub embedding: Embedding,
}

/// A stored row together with its distance to a query vector, in
/// millionths: one candidate row as the ranked query sees it.
#[derive(Debug)]
pub struct ScoredEvent {
    pub row: StoredEvent,
    pub distance: i64,
}

/// Two scored rows carry the same result data: same event views, same
/// distance (the embedding itself never reaches a result row).
pub open spec fn scored_like(a: ScoredEvent, b: ScoredEvent) -> bool {
    event_view_eq(a.row.event, b.row.event) && a.distance == b.distance
}

/// How many rows match the filters.
pub open spec fn count_matching(rows: Seq<ScoredEvent>, f: Option<SearchFilters>) -> int
    decreases rows.len(),
{
    if rows.len() == 0 {
        0
    } else {
        count_matching(rows.drop_last(), f) + (if event_matches(rows.last().row.event, f) {
            1int
        } else {
            0
        })
    }
}

pub proof fn lemma_count_matching_bounds(rows: Seq<ScoredEvent>, f: Option<SearchFilters>)
    ensures
        0 <= count_matching(rows, f) <= rows.len(),
    decreases rows.len(),
{
    if rows.len() > 0 {
        lemma_count_matching_bounds(rows.drop_last(), f);
    }
}

pub proof fn lemma_count_matching_take_step(rows: Seq<ScoredEvent>, f: Option<SearchFilters>, i: int)
    requires
        0 <= i < rows.len(),
    ensures
        count_matching(rows.take(i + 1), f) == count_matching(rows.take(i), f) + (
        if event_matches(rows[i].row.event, f) {
            1int
        } else {
            0
        }),
{
    assert(rows.take(i + 1).drop_last() =~= rows.take(i));
    assert(rows.take(i + 1).last() == rows[i]);
}

/// The total a search with paging (limit, offset) reports: the number of
/// rows matching the filters. The paging arguments are carried so that the
/// law below can speak of two differently paged searches; the count never
/// reads them.
pub open spec fn search_total(
    rows: Seq<ScoredEvent>,
    f: Option<SearchFilters>,
    limit: i64,
    offset: i64,
) -> int {
    count_matching(rows, f)
}

/// `total` is invariant under paging: two searches over the same rows with
/// the same filters report the same total, whatever their limit and offset.
pub proof fn lemma_total_paging_invariant(
    rows: Seq<ScoredEvent>,
    f: Option<SearchFilters>,
    l1: i64,
    o1: i64,
    l2: i64,
    o2: i64,
)
    ensures
        search_total(rows, f, l1, o1) == search_total(rows, f, l2, o2),
{
}

/// Execute the count twin of a search against the given rows: the number of
/// rows matching the filters, blind to limit and offset.
pub fn run_count_query(rows: &Vec<ScoredEvent>, f: &Option<SearchFilters>) -> (n: i64)
    requires
        rows@.len() <= i64::MAX,
    ensures
        n as int == count_matching(rows@, *f),
{
    let mut n: i64 = 0;
    let mut i: usize = 0;
    while i < rows.len()
        invariant
            i <= rows@.len(),
            rows@.len() <= i64::MAX,
            0 <= n as int <= i as int,
            n as int == count_matching(rows@.take(i as int), *f),
        decreases rows@.len() - i,
    {
        proof {
            lemma_count_matching_take_step(rows@, *f, i as int);
        }
        if event_matches_exec(&rows[i].row.event, f) {
            n = n + 1;
        }
        i += 1;
    }
    proof {
        assert(rows@.take(rows@.len() as int) =~= rows@);
    }
    n
}

/// A result row carries exactly the data of a scored row: the event
/// projection and the similarity, one scale minus the distance.
pub open spec fn result_of(out: EventWithSimilarity, s: ScoredEvent) -> bool {
    &&& out.id@ == s.row.event.id@
    &&& out.pubkey@ == s.row.event.pubkey@
    &&& out.created_at == s.row.event.created_at
    &&& out.kind == s.row.event.kind
    &&& out.content@ == s.row.event.content@
    &&& out.tags.deep_view() == s.row.event.tags.deep_view()
    &&& out.similarity == SIMILARITY_SCALE - s.distance
}

/// A scored row carries the data of some matching input row.
pub open spec fn drawn_from(s: ScoredEvent, rows: Seq<ScoredEvent>, f: Option<SearchFilters>) -> bool {
    exists|k: int|
        0 <= k < rows.len() && scored_like(s, rows[k]) && event_matches(rows[k].row.event, f)
}

/// Some row of `s` carries the same result data as `r`.
pub open spec fn represented_in(r: ScoredEvent, s: Seq<ScoredEvent>) -> bool {
    exists|m: int| 0 <= m < s.len() && scored_like(s[m], r)
}

/// A result row carries the data of some matching input row.
pub open spec fn result_drawn_from(
    out: EventWithSimilarity,
    rows: Seq<ScoredEvent>,
    f: Option<SearchFilters>,
) -> bool {
    exists|k: int|
        0 <= k < rows.len() && result_of(out, rows[k]) && event_matches(rows[k].row.event, f)
}

/// Distances never decrease along the sequence.
pub open spec fn distance_sorted(s: Seq<ScoredEvent>) -> bool {
    forall|i: int, j: int|
        #![trigger s[i].distance, s[j].distance]
        0 <= i <= j < s.len() ==> s[i].distance <= s[j].distance
}

/// Similarities never increase along the sequence.
pub open spec fn similarity_sorted(s: Seq<EventWithSimilarity>) -> bool {
    forall|i: int, j: int|
        #![trigger s[i].similarity, s[j].similarity]
        0 <= i <= j < s.len() ==> s[i].similarity >= s[j].similarity
}

/// How many rows a ranked query returns out of `n` matching ones, under the
/// given limit and offset.
pub open spec fn window_len(n: int, limit: i64, offset: i64) -> int {
    if offset >= n {
        0
    } else if n - offset <= limit {
        n - offset
    } else {
        limit as int
    }
}

/// A copy of an event carrying the same data.
fn dup_event(ev: &Event) -> (r: Event)
    ensures
        event_view_eq(r, *ev),
{
    Event {
        id: ev.id.clone(),
        pubkey: ev.pubkey.clone(),
        created_at: ev.created_at,
        kind: ev.kind,
        content: ev.content.clone(),
        tags: copy_tag_doc(&ev.tags),
    }
}

/// A copy of a scored row carrying the same data.
fn dup_scored(s: &ScoredEvent) -> (r: ScoredEvent)
    ensures
        scored_like(r, *s),
{
    ScoredEvent {
        row: StoredEvent { event: dup_event(&s.row.event), embedding: s.row.embedding.dup() },
        distance: s.distance,
    }
}

/// The result row of one scored row.
fn make_result_row(s: &ScoredEvent) -> (r: EventWithSimilarity)
    requires
        0 <= s.distance <= SIMILARITY_SCALE,
    ensures
        result_of(r, *s),
{
    EventWithSimilarity {
        id: s.row.event.id.clone(),
        pubkey: s.row.event.pubkey.clone(),
        created_at: s.row.event.created_at,
        kind: s.row.event.kind,
        content: s.row.event.content.clone(),
        tags: copy_tag_doc(&s.row.event.tags),
        similarity: SIMILARITY_SCALE - s.distance,
    }
}

/// Execute the ranked query of a search against the given rows: keep the
/// rows matching the filters, order them by distance ascending — which is
/// similarity descending — and return the page cut by offset and limit,
/// each row carrying its similarity. The statements pass negative paging
/// values through for the store to settle; this store asks for resolved,
/// nonnegative ones.
pub fn run_ranked_query(
    rows: &Vec<ScoredEvent>,
    f: &Option<SearchFilters>,
    limit: i64,
    offset: i64,
) -> (res: Vec<EventWithSimilarity>)
    requires
        limit >= 0,
        offset >= 0,
        forall|k: int| 0 <= k < rows@.len() ==> 0 <= #[trigger] rows@[k].distance <= SIMILARITY_SCALE,
    ensures
        res@.len() == window_len(count_matching(rows@, *f), limit, offset),
        forall|i: int| 0 <= i < res@.len() ==> result_drawn_from(#[trigger] res@[i], rows@, *f),
        similarity_sorted(res@),
        offset == 0 && count_matching(rows@, *f) <= limit ==> forall|k: int|
            0 <= k < rows@.len() && event_matches(#[trigger] rows@[k].row.event, *f)
                ==> exists|j: int| 0 <= j < res@.len() && result_of(res@[j], rows@[k]),
{
    // Keep the matching rows.
    let mut matched: Vec<ScoredEvent> = Vec::new();
    let mut i: usize = 0;
    while i < rows.len()
        invariant
            i <= rows@.len(),
            matched@.len() == count_matching(rows@.take(i as int), *f),
            forall|k: int| 0 <= k < matched@.len() ==> drawn_from(#[trigger] matched@[k], rows@, *f),
            forall|k: int|
                0 <= k < matched@.len() ==> 0 <= #[trigger] matched@[k].distance <= SIMILARITY_SCALE,
            forall|k: int|
                0 <= k < rows@.len() ==> 0 <= #[trigger] rows@[k].distance <= SIMILARITY_SCALE,
            forall|k: int|
                0 <= k < i && event_matches(#[trigger] rows@[k].row.event, *f)
                    ==> represented_in(rows@[k], matched@),
        decreases rows@.len() - i,
    {
        proof {
            lemma_count_matching_take_step(rows@, *f, i as int);
        }
        let ghost matched0 = matched@;
        if event_matches_exec(&rows[i].row.event, f) {
            let c = dup_scored(&rows[i]);
            proof {
                assert(scored_like(c, rows@[i as int]));
                assert(drawn_from(c, rows@, *f));
            }
            matched.push(c);
            proof {
                assert(matched@[matched0.len() as int] == c);
            }
        }
        proof {
            assert forall|k: int|
                0 <= k < i + 1 && event_matches(#[trigger] rows@[k].row.event, *f)
                    implies represented_in(rows@[k], matched@) by {
                if k < i {
                    let m = choose|m: int| 0 <= m < matched0.len() && scored_like(matched0[m], rows@[k]);
                    assert(matched@[m] == matched0[m]);
                }
            }
        }
        i += 1;
    }
    proof {
        assert(rows@.take(rows@.len() as int) =~= rows@);
        lemma_count_matching_bounds(rows@, *f);
    }
    let ghost total_matched = count_matching(rows@, *f);

    // Order by distance ascending.
    let mut sorted: Vec<ScoredEvent> = Vec::new();
    while matched.len() > 0
        invariant
            matched@.len() + sorted@.len() == total_matched,
            distance_sorted(sorted@),
            forall|k: int| 0 <= k < matched@.len() ==> drawn_from(#[trigger] matched@[k], rows@, *f),
            forall|k: int|
                0 <= k < matched@.len() ==> 0 <= #[trigger] matched@[k].distance <= SIMILARITY_SCALE,
            forall|k: int| 0 <= k < sorted@.len() ==> drawn_from(#[trigger] sorted@[k], rows@, *f),
            forall|k: int|
                0 <= k < sorted@.len() ==> 0 <= #[trigger] sorted@[k].distance <= SIMILARITY_SCALE,
            forall|k: int|
                0 <= k < rows@.len() && event_matches(#[trigger] rows@[k].row.event, *f)
                    ==> represented_in(rows@[k], matched@) || represented_in(rows@[k], sorted@),
        decreases matched@.len(),
    {
        let ghost matched0 = matched@;
        let ghost sorted0 = sorted@;
        let xo = matched.pop();
        match xo {
            Some(x) => {
                let mut pos: usize = 0;
                while pos < sorted.len() && sorted[pos].distance <= x.distance
                    invariant
                        pos <= sorted@.len(),
                        forall|k: int| 0 <= k < pos ==> #[trigger] sorted@[k].distance <= x.distance,
                    decreases sorted@.len() - pos,
                {
                    pos += 1;
                }
                let ghost prev = sorted@;
                sorted.insert(pos, x);
                proof {
                    prev.insert_ensures(pos as int, x);
                    assert forall|a: int, b: int|
                        #![trigger sorted@[a].distance, sorted@[b].distance]
                        0 <= a <= b < sorted@.len() implies sorted@[a].distance
                        <= sorted@[b].distance by {
                        if a < pos {
                            assert(sorted@[a] == prev[a]);
                        }
                        if b < pos {
                            assert(sorted@[b] == prev[b]);
                        }
                        if a > pos {
                            assert(sorted@[a] == prev[a - 1]);
                        }
                        if b > pos {
                            assert(sorted@[b] == prev[b - 1]);
                            assert(x.distance <= prev[b - 1].distance);
                        }
                    }
                    assert forall|k: int| 0 <= k < sorted@.len() implies drawn_from(
                        #[trigger] sorted@[k],
                        rows@,
                        *f,
                    ) && 0 <= sorted@[k].distance <= SIMILARITY_SCALE by {
                        if k < pos {
                            assert(sorted@[k] == prev[k]);
                        } else if k == pos {
                            assert(sorted@[k] == x);
                        } else {
                            assert(sorted@[k] == prev[k - 1]);
                        }
                    }
                    assert(sorted@[pos as int] == x);
                    assert forall|k: int|
                        0 <= k < rows@.len() && event_matches(#[trigger] rows@[k].row.event, *f)
                            implies represented_in(rows@[k], matched@) || represented_in(
                            rows@[k],
                            sorted@,
                        ) by {
                        if represented_in(rows@[k], matched0) {
                            let m = choose|m: int|
                                0 <= m < matched0.len() && scored_like(matched0[m], rows@[k]);
                            if m < matched@.len() {
                                assert(matched@[m] == matched0[m]);
                            } else {
                                assert(matched0[m] == x);
                                assert(scored_like(sorted@[pos as int], rows@[k]));
                            }
                        } else {
                            let m = choose|m: int|
                                0 <= m < sorted0.len() && scored_like(sorted0[m], rows@[k]);
                            if m < pos {
                                assert(sorted@[m] == sorted0[m]);
                            } else {
                                assert(sorted@[m + 1] == sorted0[m]);
                            }
                        }
                    }
                }
            },
            None => {
                proof {
                    assert(false);
                }
            },
        }
    }
    // sorted holds all the matching rows, ordered.
    assert(sorted@.len() == total_matched);

    // Cut the page: skip `offset` rows, return at most `limit`.
    let mut out: Vec<EventWithSimilarity> = Vec::new();
    let mut idx: usize = 0;
    let mut skipped: i64 = 0;
    while idx < sorted.len() && (skipped < offset || (out.len() as i64) < limit)
        invariant
            idx <= sorted@.len(),
            idx as int == skipped as int + out@.len(),
            0 <= skipped <= offset,
            out@.len() <= limit as int,
            skipped < offset ==> out@.len() == 0,
            forall|k: int|
                0 <= k < out@.len() ==> result_of(#[trigger] out@[k], sorted@[offset + k]),
            distance_sorted(sorted@),
            forall|k: int| 0 <= k < sorted@.len() ==> drawn_from(#[trigger] sorted@[k], rows@, *f),
            forall|k: int|
                0 <= k < sorted@.len() ==> 0 <= #[trigger] sorted@[k].distance <= SIMILARITY_SCALE,
            forall|k: int|
                0 <= k < rows@.len() && event_matches(#[trigger] rows@[k].row.event, *f)
                    ==> represented_in(rows@[k], sorted@),
        decreases sorted@.len() - idx,
    {
        if skipped < offset {
            skipped = skipped + 1;
        } else {
            let row = make_result_row(&sorted[idx]);
            proof {
                assert(idx as int == offset + out@.len());
            }
            out.push(row);
        }
        idx += 1;
    }
    proof {
        // The page has the expected length.
        assert(out@.len() == window_len(total_matched, limit, offset));
        // Each page row carries the data of some matching input row.
        assert(out@.len() > 0 ==> offset + out@.len() <= sorted@.len());
        assert forall|k: int| 0 <= k < out@.len() implies result_drawn_from(
            #[trigger] out@[k],
            rows@,
            *f,
        ) by {
            let s = sorted@[offset + k];
            assert(result_of(out@[k], s));
            assert(drawn_from(s, rows@, *f));
            let m = choose|m: int|
                0 <= m < rows@.len() && scored_like(s, rows@[m]) && event_matches(
                    rows@[m].row.event,
                    *f,
                );
            assert(result_of(out@[k], rows@[m]));
        }
        // Similarity never increases along the page.
        assert forall|a: int, b: int|
            #![trigger out@[a].similarity, out@[b].similarity]
            0 <= a <= b < out@.len() implies out@[a].similarity >= out@[b].similarity by {
            assert(sorted@[offset + a].distance <= sorted@[offset + b].distance);
        }
        // A page that starts at the top and can hold every match holds
        // every match.
        if offset == 0 && total_matched <= limit {
            assert(out@.len() == sorted@.len());
            assert forall|k: int|
                0 <= k < rows@.len() && event_matches(#[trigger] rows@[k].row.event, *f)
                    implies exists|j: int| 0 <= j < out@.len() && result_of(out@[j], rows@[k]) by {
                let m = choose|m: int| 0 <= m < sorted@.len() && scored_like(sorted@[m], rows@[k]);
                assert(result_of(out@[m], sorted@[m]));
                assert(result_of(out@[m], rows@[k]));
            }
        }
    }
    out
}

/// Does some stored row carry this id?
pub open spec fn store_has_id(rows: Seq<StoredEvent>, id: Seq<char>) -> bool {
    exists|i: int| 0 <= i < rows.len() && rows[i].event.id@ == id
}

/// How many stored rows carry this id.
pub open spec fn id_count(rows: Seq<StoredEvent>, id: Seq<char>) -> int
    decreases rows.len(),
{
    if rows.len() == 0 {
        0
    } else {
        id_count(rows.drop_last(), id) + (if rows.last().event.id@ == id {
            1int
        } else {
            0
        })
    }
}

pub proof fn lemma_id_count_absent(rows: Seq<StoredEvent>, id: Seq<char>)
    requires
        !store_has_id(rows, id),
    ensures
        id_count(rows, id) == 0,
    decreases rows.len(),
{
    if rows.len() > 0 {
        assert(!store_has_id(rows.drop_last(), id)) by {
            if store_has_id(rows.drop_last(), id) {
                let i = choose|i: int|
                    0 <= i < rows.drop_last().len() && rows.drop_last()[i].event.id@ == id;
                assert(rows[i].event.id@ == id);
            }
        }
        lemma_id_count_absent(rows.drop_last(), id);
        assert(rows.last().event.id@ != id);
    }
}

/// How one ingestion ended.
#[derive(Clone, Copy, PartialEq, Eq, Structural, Debug)]
pub enum IngestOutcome {
    /// The id was already stored: a replay, nothing written.
    AlreadyExists,
    /// The event was embedded and written.
    Inserted,
    /// The event's kind is not indexed: nothing written.
    SkippedKind,
    /// The provider produced no embedding: nothing written.
    EmbeddingFailed,
}

/// What one ingestion does to the stored rows: a replayed id or an
/// unindexed kind changes nothing, a failed embedding changes nothing, and
/// only a fresh indexed-kind event with an embedding appends its row.
pub open spec fn ingest_spec(rows: Seq<StoredEvent>, ev: Event, embed: EmbedOutcome) -> Seq<
    StoredEvent,
> {
    if store_has_id(rows, ev.id@) {
        rows
    } else if ev.kind != INDEXED_KIND {
        rows
    } else {
        match embed {
            EmbedOutcome::Produced(e) => rows.push(StoredEvent { event: ev, embedding: e }),
            EmbedOutcome::Failed => rows,
        }
    }
}

/// How one ingestion reports, matching `ingest_spec` case by case.
pub open spec fn ingest_outcome_spec(
    rows: Seq<StoredEvent>,
    ev: Event,
    embed: EmbedOutcome,
) -> IngestOutcome {
    if store_has_id(rows, ev.id@) {
        IngestOutcome::AlreadyExists
    } else if ev.kind != INDEXED_KIND {
        IngestOutcome::SkippedKind
    } else {
        match embed {
            EmbedOutcome::Produced(_) => IngestOutcome::Inserted,
            EmbedOutcome::Failed => IngestOutcome::EmbeddingFailed,
        }
    }
}

/// An in-memory event store with the reference semantics: ids unique, only
/// indexed-kind events stored, every stored row embedded. The tests run the
/// ingestion pipeline and the search executors against it.
#[derive(Debug)]
pub struct ModelStore {
    pub rows: Vec<StoredEvent>,
}

impl ModelStore {
    /// The store's invariant: ids are unique and every row holds an
    /// indexed-kind event.
    pub open spec fn wf(self) -> bool {
        &&& forall|i: int, j: int|
            #![trigger self.rows@[i].event.id@, self.rows@[j].event.id@]
            0 <= i < j < self.rows@.len() ==> self.rows@[i].event.id@ != self.rows@[j].event.id@
        &&& forall|i: int|
            0 <= i < self.rows@.len() ==> #[trigger] self.rows@[i].event.kind == INDEXED_KIND
    }

    /// An empty store.
    pub fn new() -> (s: ModelStore)
        ensures
            s.rows@.len() == 0,
            s.wf(),
    {
        ModelStore { rows: Vec::new() }
    }

    /// The existence check that deduplicates ingestion.
    pub fn contains_id(&self, id: &String) -> (r: bool)
        ensures
            r == store_has_id(self.rows@, id@),
    {
        let mut i: usize = 0;
        while i < self.rows.len()
            invariant
                i <= self.rows@.len(),
                forall|k: int| 0 <= k < i ==> #[trigger] self.rows@[k].event.id@ != id@,
            decreases self.rows@.len() - i,
        {
            if self.rows[i].event.id == *id {
                return true;
            }
            i += 1;
        }
        false
    }

    /// Ingest one event: check existence first, drop unindexed kinds, and
    /// write the row only when the given provider call produced a vector.
    /// Replaying a stored id is a no-op.
    pub fn ingest(&mut self, ev: Event, embed: EmbedOutcome) -> (r: IngestOutcome)
        ensures
            final(self).rows@ == ingest_spec(old(self).rows@, ev, embed),
            r == ingest_outcome_spec(old(self).rows@, ev, embed),
            old(self).wf() ==> final(self).wf(),
    {
        if self.contains_id(&ev.id) {
            return IngestOutcome::AlreadyExists;
        }
        if ev.kind != INDEXED_KIND {
            return IngestOutcome::SkippedKind;
        }
        match embed {
            EmbedOutcome::Produced(e) => {
                proof {
                    assert forall|i: int| 0 <= i < self.rows@.len() implies #[trigger] self.rows@[i].event.id@
                        != ev.id@ by {
                        if self.rows@[i].event.id@ == ev.id@ {
                            assert(store_has_id(self.rows@, ev.id@));
                        }
                    }
                }
                self.rows.push(StoredEvent { event: ev, embedding: e });
                IngestOutcome::Inserted
            },
            EmbedOutcome::Failed => IngestOutcome::EmbeddingFailed,
        }
    }
}

/// Ingesting an event twice under one id stores exactly one row: after a
/// successful first ingestion the id is present, and a second ingestion
/// under the same id — whatever its payload and whatever its provider call
/// returned — leaves the store unchanged.
pub proof fn lemma_ingest_idempotent(
    rows: Seq<StoredEvent>,
    ev: Event,
    emb: Embedding,
    ev2: Event,
    embed2: EmbedOutcome,
)
    requires
        !store_has_id(rows, ev.id@),
        ev.kind == INDEXED_KIND,
        ev2.id@ == ev.id@,
    ensures
        id_count(ingest_spec(rows, ev, EmbedOutcome::Produced(emb)), ev.id@) == 1,
        ingest_spec(ingest_spec(rows, ev, EmbedOutcome::Produced(emb)), ev2, embed2)
            == ingest_spec(rows, ev, EmbedOutcome::Produced(emb)),
{
    let rows1 = ingest_spec(rows, ev, EmbedOutcome::Produced(emb));
    assert(rows1 == rows.push(StoredEvent { event: ev, embedding: emb }));
    assert(rows1[rows.len() as int].event.id@ == ev.id@);
    assert(store_has_id(rows1, ev2.id@));
    lemma_id_count_absent(rows, ev.id@);
    assert(rows1.drop_last() =~= rows);
    assert(id_count(rows1, ev.id@) == 1);
}

/// An event of an unindexed kind is never stored: whatever the provider
/// call returned, ingesting it leaves the store unchanged.
pub proof fn lemma_unindexed_kind_not_stored(rows: Seq<StoredEvent>, ev: Event, embed: EmbedOutcome)
    requires
        ev.kind != INDEXED_KIND,
    ensures
        ingest_spec(rows, ev, embed) == rows,
{
}

/// Ingestion preserves the all-indexed-kind shape of the store, so rows of
/// other kinds never exist to be searched.
pub proof fn lemma_store_only_indexed(rows: Seq<StoredEvent>, ev: Event, embed: EmbedOutcome)
    requires
        forall|i: int| 0 <= i < rows.len() ==> #[trigger] rows[i].event.kind == INDEXED_KIND,
    ensures
        forall|i: int|
            0 <= i < ingest_spec(rows, ev, embed).len() ==> #[trigger] ingest_spec(
                rows,
                ev,
                embed,
            )[i].event.kind == INDEXED_KIND,
{
    let rows1 = ingest_spec(rows, ev, embed);
    assert forall|i: int| 0 <= i < rows1.len() implies #[trigger] rows1[i].event.kind
        == INDEXED_KIND by {
        if i < rows.len() {
            assert(rows1[i] == rows[i]);
        }
    }
}

/// The only kinds a ranked query can surface are the kinds its input rows
/// carry: over rows holding indexed-kind events only — as every row of a
/// well-formed store does — no other kind ever appears in search results.
pub proof fn lemma_results_only_indexed(
    rows: Seq<ScoredEvent>,
    res: Seq<EventWithSimilarity>,
    f: Option<SearchFilters>,
)
    requires
        forall|k: int| 0 <= k < rows.len() ==> #[trigger] rows[k].row.event.kind == INDEXED_KIND,
        forall|i: int| 0 <= i < res.len() ==> result_drawn_from(#[trigger] res[i], rows, f),
    ensures
        forall|i: int| 0 <= i < res.len() ==> #[trigger] res[i].kind == INDEXED_KIND,
{
    assert forall|i: int| 0 <= i < res.len() implies #[trigger] res[i].kind == INDEXED_KIND by {
        let k = choose|k: int|
            0 <= k < rows.len() && result_of(res[i], rows[k]) && event_matches(
                rows[k].row.event,
                f,
            );
        assert(res[i].kind == rows[k].row.event.kind);
    }
}

} // verus!
