use noah::events::{Embedding, Event};
use noah::search::SearchFilters;
use noah::store::{run_count_query, run_ranked_query, ScoredEvent, StoredEvent};
use noah::tags::{tags_contain, TagFilters};

fn st_event(id: &str, pubkey: &str, kind: i32, content: &str, tags: Vec<Vec<&str>>) -> Event {
    Event {
        id: id.to_string(),
        pubkey: pubkey.to_string(),
        created_at: 1700000000,
        kind,
        content: content.to_string(),
        tags: tags
            .into_iter()
            .map(|r| r.into_iter().map(|s| s.to_string()).collect())
            .collect(),
    }
}

fn st_scored(ev: Event, distance: i64) -> ScoredEvent {
    ScoredEvent {
        row: StoredEvent { event: ev, embedding: Embedding { bits: vec![7] } },
        distance,
    }
}

fn st_pubkey_filter(pubkey: &str) -> Option<SearchFilters> {
    Some(SearchFilters { pubkey: Some(pubkey.to_string()), kind: None, tags: None })
}

fn st_tags_filter(exact: Vec<Vec<&str>>) -> Option<SearchFilters> {
    Some(SearchFilters {
        pubkey: None,
        kind: None,
        tags: Some(TagFilters {
            exact: Some(
                exact
                    .into_iter()
                    .map(|r| r.into_iter().map(|s| s.to_string()).collect())
                    .collect(),
            ),
            any: None,
            values: None,
        }),
    })
}

fn st_rows() -> Vec<ScoredEvent> {
    vec![
        st_scored(st_event("a", "p1", 1, "hello world", vec![vec!["t", "v"]]), 300_000),
        st_scored(st_event("b", "p2", 1, "goodbye", vec![]), 100_000),
        st_scored(st_event("c", "p1", 1, "hello again", vec![vec!["t", "w"]]), 200_000),
    ]
}

#[test]
fn similarity_never_increases_along_results() {
    let rows = st_rows();
    let res = run_ranked_query(&rows, &None, 10, 0);
    assert_eq!(res.len(), 3);
    let sims: Vec<i64> = res.iter().map(|r| r.similarity).collect();
    assert_eq!(sims, vec![900_000, 800_000, 700_000]);
    for w in sims.windows(2) {
        assert!(w[0] >= w[1]);
    }
    let ids: Vec<&str> = res.iter().map(|r| r.id.as_str()).collect();
    assert_eq!(ids, vec!["b", "c", "a"]);
}

#[test]
fn pubkey_filter_returns_only_that_author() {
    let rows = st_rows();
    let f = st_pubkey_filter("p1");
    let res = run_ranked_query(&rows, &f, 10, 0);
    assert_eq!(res.len(), 2);
    for r in &res {
        assert_eq!(r.pubkey, "p1");
    }
    let total = run_count_query(&rows, &f);
    assert_eq!(total, 2);
    // `total` does not move with the limit.
    let res_one = run_ranked_query(&rows, &f, 1, 0);
    assert_eq!(res_one.len(), 1);
    assert_eq!(run_count_query(&rows, &f), total);
}

#[test]
fn tags_exact_filter_returns_only_containing_docs() {
    let rows = st_rows();
    let f = st_tags_filter(vec![vec!["t", "v"]]);
    let res = run_ranked_query(&rows, &f, 10, 0);
    assert_eq!(res.len(), 1);
    assert_eq!(res[0].id, "a");
    assert_eq!(run_count_query(&rows, &f), 1);
}

#[test]
fn containment_is_superset_not_equality() {
    let doc: Vec<Vec<String>> = vec![
        vec!["t".to_string(), "v".to_string(), "extra".to_string()],
        vec!["e".to_string(), "x".to_string()],
    ];
    let just_tv: Vec<Vec<String>> = vec![vec!["t".to_string(), "v".to_string()]];
    let wrong: Vec<Vec<String>> = vec![vec!["t".to_string(), "z".to_string()]];
    let empty: Vec<Vec<String>> = vec![];
    assert!(tags_contain(&doc, &just_tv));
    assert!(!tags_contain(&doc, &wrong));
    assert!(tags_contain(&doc, &empty));
    assert!(!tags_contain(&empty, &just_tv));
}

#[test]
fn offset_and_limit_cut_the_page() {
    let rows = st_rows();
    let page = run_ranked_query(&rows, &None, 2, 1);
    assert_eq!(page.len(), 2);
    assert_eq!(page[0].id, "c");
    assert_eq!(page[1].id, "a");
    let beyond = run_ranked_query(&rows, &None, 10, 5);
    assert_eq!(beyond.len(), 0);
    let none = run_ranked_query(&rows, &None, 0, 0);
    assert_eq!(none.len(), 0);
}

#[test]
fn kind_filter_never_matches_unstored_kinds() {
    // A well-formed store holds only indexed-kind rows, so a search for any
    // other kind comes back empty with a zero total.
    let rows = st_rows();
    let f = Some(SearchFilters { pubkey: None, kind: Some(7), tags: None });
    assert_eq!(run_ranked_query(&rows, &f, 10, 0).len(), 0);
    assert_eq!(run_count_query(&rows, &f), 0);
}

#[test]
fn result_rows_carry_the_event_projection() {
    let rows = vec![st_scored(
        st_event("a", "p1", 1, "hello world", vec![vec!["t", "v"]]),
        250_000,
    )];
    let res = run_ranked_query(&rows, &None, 10, 0);
    assert_eq!(res.len(), 1);
    assert_eq!(res[0].id, "a");
    assert_eq!(res[0].pubkey, "p1");
    assert_eq!(res[0].created_at, 1700000000);
    assert_eq!(res[0].kind, 1);
    assert_eq!(res[0].content, "hello world");
    assert_eq!(res[0].tags, vec![vec!["t".to_string(), "v".to_string()]]);
    assert_eq!(res[0].similarity, 750_000);
}
