use vstd::prelude::*;

use crate::events::{Embedding, Event};
use crate::query::{
    build_search_plan, count_params, count_text, params_view, ranked_params, ranked_text,
    SearchPlan,
};
use crate::tags::{doc_contains, tags_contain, TagFilters};

verus! {

/// Default number of results when a search request names no limit.
pub const DEFAULT_LIMIT: i64 = 10;

/// Default offset when a search request names none.
pub const DEFAULT_OFFSET: i64 = 0;

/// The structured predicate set of a search request; every predicate is
/// independently optional, and the present ones are AND-combined.
#[derive(Debug)]
pub struct SearchFilters {
    pub pubkey: Option<String>,
    pub kind: Option<i32>,
    pub tags: Option<TagFilters>,
}

/// One search request.
#[derive(Debug)]
pub struct SearchQuery {
    pub query: String,
    pub limit: Option<i64>,
    pub offset: Option<i64>,
    pub filters: Option<SearchFilters>,
}

/// One ranked result row: the event projection plus its similarity to the
/// query, in millionths (similarity is one minus the normalized distance).
#[derive(Debug)]
pub struct EventWithSimilarity {
    pub id: String,
    pub pubkey: String,
    pub created_at: i64,
    pub kind: i32,
    pub content: String,
    pub tags: Vec<Vec<String>>,
    pub similarity: i64,
}

/// The answer to a search: the ranked rows, the count of rows matching the
/// filters irrespective of paging, and the echoed paging values.
#[derive(Debug)]
pub struct SearchResult {
    pub results: Vec<EventWithSimilarity>,
    pub total: i64,
    pub limit: i64,
    pub offset: i64,
}

/// Is the pubkey predicate present?
pub open spec fn has_pubkey(f: Option<SearchFilters>) -> bool {
    f is Some && f->0.pubkey is Some
}

/// Is the kind predicate present?
pub open spec fn has_kind(f: Option<SearchFilters>) -> bool {
    f is Some && f->0.kind is Some
}

/// Is the tags-exact predicate present?
pub open spec fn has_tags_exact(f: Option<SearchFilters>) -> bool {
    f is Some && f->0.tags is Some && f->0.tags->0.exact is Some
}

/// The pubkey asked for (meaningful only when present).
pub open spec fn pubkey_of(f: Option<SearchFilters>) -> Seq<char> {
    f->0.pubkey->0@
}

/// The kind asked for (meaningful only when present).
pub open spec fn kind_of(f: Option<SearchFilters>) -> i32 {
    f->0.kind->0
}

/// The tag document asked for (meaningful only when present).
pub open spec fn tags_exact_of(f: Option<SearchFilters>) -> Seq<Seq<Seq<char>>> {
    f->0.tags->0.exact->0.deep_view()
}

/// How many predicates the filter set contributes to a WHERE clause.
pub open spec fn filter_count(f: Option<SearchFilters>) -> int {
    (if has_pubkey(f) { 1int } else { 0 }) + (if has_kind(f) { 1int } else { 0 }) + (
    if has_tags_exact(f) { 1int } else { 0 })
}

/// Does an event satisfy every present predicate? An absent predicate
/// constrains nothing; only the `exact` tag predicate takes part.
pub open spec fn event_matches(ev: Event, f: Option<SearchFilters>) -> bool {
    &&& (has_pubkey(f) ==> ev.pubkey@ == pubkey_of(f))
    &&& (has_kind(f) ==> ev.kind == kind_of(f))
    &&& (has_tags_exact(f) ==> doc_contains(ev.tags.deep_view(), tags_exact_of(f)))
}

/// Decide whether an event satisfies a filter set.
pub fn event_matches_exec(ev: &Event, f: &Option<SearchFilters>) -> (res: bool)
    ensures
        res == event_matches(*ev, *f),
{
    match f {
        None => true,
        Some(fs) => {
            let pk_ok = match &fs.pubkey {
                None => true,
                Some(p) => ev.pubkey == *p,
            };
            let kind_ok = match &fs.kind {
                None => true,
                Some(k) => ev.kind == *k,
            };
            let tags_ok = match &fs.tags {
                None => true,
                Some(tf) => match &tf.exact {
                    None => true,
                    Some(q) => tags_contain(&ev.tags, q),
                },
            };
            pk_ok && kind_ok && tags_ok
        },
    }
}

/// Resolve the optional paging fields of a search request to concrete values.
pub fn resolve_paging(limit: &Option<i64>, offset: &Option<i64>) -> (r: (i64, i64))
    ensures
        r.0 == (if *limit is Some { (*limit)->0 } else { DEFAULT_LIMIT }),
        r.1 == (if *offset is Some { (*offset)->0 } else { DEFAULT_OFFSET }),
{
    let l: i64 = match limit {
        Some(l) => *l,
        None => DEFAULT_LIMIT,
    };
    let o: i64 = match offset {
        Some(o) => *o,
        None => DEFAULT_OFFSET,
    };
    (l, o)
}

/// The compute core of answering a search, once the caller has obtained the
/// query vector: resolve the paging defaults and build the two statements
/// from the filters and the vector. The caller executes the statements and
/// hands the rows to `assemble_search_result`; a failed provider call never
/// reaches this point, and a store failure yields no partial answer.
pub fn plan_search(q: &SearchQuery, embedding: &Embedding) -> (r: (i64, i64, SearchPlan))
    ensures
        r.0 == (if q.limit is Some { q.limit->0 } else { DEFAULT_LIMIT }),
        r.1 == (if q.offset is Some { q.offset->0 } else { DEFAULT_OFFSET }),
        r.2.ranked.sql@ == ranked_text(q.filters),
        params_view(r.2.ranked.params@) == ranked_params(q.filters, embedding.bits@, r.0, r.1),
        r.2.count.sql@ == count_text(q.filters),
        params_view(r.2.count.params@) == count_params(q.filters),
{
    let (limit, offset) = resolve_paging(&q.limit, &q.offset);
    let plan = build_search_plan(&q.filters, embedding, limit, offset);
    (limit, offset, plan)
}

/// Put a search answer together: the ranked rows, the filter-only total and
/// the echoed paging values, each taken as given.
pub fn assemble_search_result(
    results: Vec<EventWithSimilarity>,
    total: i64,
    limit: i64,
    offset: i64,
) -> (r: SearchResult)
    ensures
        r.results == results,
        r.total == total,
        r.limit == limit,
        r.offset == offset,
{
    SearchResult { results, total, limit, offset }
}

} // verus!
