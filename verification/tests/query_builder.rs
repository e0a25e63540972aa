use noah::events::Embedding;
use noah::query::{
    build_count_statement, build_ranked_statement, build_search_plan,
    build_similar_events_statement, build_tag_values_statement, Param,
};
use noah::search::{SearchFilters, SearchQuery};
use noah::tags::TagFilters;

fn qb_filters(
    pubkey: Option<&str>,
    kind: Option<i32>,
    exact: Option<Vec<Vec<&str>>>,
) -> Option<SearchFilters> {
    if pubkey.is_none() && kind.is_none() && exact.is_none() {
        return None;
    }
    Some(SearchFilters {
        pubkey: pubkey.map(|p| p.to_string()),
        kind,
        tags: exact.map(|e| TagFilters {
            exact: Some(
                e.into_iter()
                    .map(|r| r.into_iter().map(|s| s.to_string()).collect())
                    .collect(),
            ),
            any: None,
            values: None,
        }),
    })
}

fn qb_embedding() -> Embedding {
    Embedding { bits: vec![1, 2, 3] }
}

const QB_RANKED_HEAD: &str =
    "SELECT id, pubkey, created_at, kind, content, tags, 1 - (embedding <=> $1) as similarity FROM nostr_search.events";
const QB_COUNT_HEAD: &str = "SELECT COUNT(*) FROM nostr_search.events";

#[test]
fn where_clause_for_every_filter_subset() {
    let emb = qb_embedding();
    let cases: Vec<(Option<SearchFilters>, &str, &str)> = vec![
        (
            qb_filters(None, None, None),
            " ORDER BY embedding <=> $2 LIMIT $3 OFFSET $4",
            "",
        ),
        (
            qb_filters(Some("p1"), None, None),
            " WHERE pubkey = $2 ORDER BY embedding <=> $3 LIMIT $4 OFFSET $5",
            " WHERE pubkey = $1",
        ),
        (
            qb_filters(None, Some(1), None),
            " WHERE kind = $2 ORDER BY embedding <=> $3 LIMIT $4 OFFSET $5",
            " WHERE kind = $1",
        ),
        (
            qb_filters(None, None, Some(vec![vec!["t", "v"]])),
            " WHERE tags @> $2 ORDER BY embedding <=> $3 LIMIT $4 OFFSET $5",
            " WHERE tags @> $1",
        ),
        (
            qb_filters(Some("p1"), Some(1), None),
            " WHERE pubkey = $2 AND kind = $3 ORDER BY embedding <=> $4 LIMIT $5 OFFSET $6",
            " WHERE pubkey = $1 AND kind = $2",
        ),
        (
            qb_filters(Some("p1"), None, Some(vec![vec!["t", "v"]])),
            " WHERE pubkey = $2 AND tags @> $3 ORDER BY embedding <=> $4 LIMIT $5 OFFSET $6",
            " WHERE pubkey = $1 AND tags @> $2",
        ),
        (
            qb_filters(None, Some(1), Some(vec![vec!["t", "v"]])),
            " WHERE kind = $2 AND tags @> $3 ORDER BY embedding <=> $4 LIMIT $5 OFFSET $6",
            " WHERE kind = $1 AND tags @> $2",
        ),
        (
            qb_filters(Some("p1"), Some(1), Some(vec![vec!["t", "v"]])),
            " WHERE pubkey = $2 AND kind = $3 AND tags @> $4 ORDER BY embedding <=> $5 LIMIT $6 OFFSET $7",
            " WHERE pubkey = $1 AND kind = $2 AND tags @> $3",
        ),
    ];
    for (f, ranked_tail, count_tail) in cases {
        let plan = build_search_plan(&f, &emb, 10, 0);
        assert_eq!(plan.ranked.sql, format!("{}{}", QB_RANKED_HEAD, ranked_tail));
        assert_eq!(plan.count.sql, format!("{}{}", QB_COUNT_HEAD, count_tail));
    }
}

#[test]
fn bound_values_travel_in_fixed_order() {
    let emb = qb_embedding();
    let f = qb_filters(Some("p1"), Some(1), Some(vec![vec!["t", "v"]]));
    let plan = build_search_plan(&f, &emb, 7, 3);
    assert_eq!(
        plan.ranked.params,
        vec![
            Param::Vector(Embedding { bits: vec![1, 2, 3] }),
            Param::Text("p1".to_string()),
            Param::Int4(1),
            Param::TagDoc(vec![vec!["t".to_string(), "v".to_string()]]),
            Param::Vector(Embedding { bits: vec![1, 2, 3] }),
            Param::Int8(7),
            Param::Int8(3),
        ]
    );
    assert_eq!(
        plan.count.params,
        vec![
            Param::Text("p1".to_string()),
            Param::Int4(1),
            Param::TagDoc(vec![vec!["t".to_string(), "v".to_string()]]),
        ]
    );
}

#[test]
fn same_filter_shape_same_sql_text() {
    let emb = qb_embedding();
    let f1 = qb_filters(Some("p1"), Some(1), None);
    let f2 = qb_filters(Some("someone else entirely"), Some(42), None);
    let plan1 = build_search_plan(&f1, &emb, 10, 0);
    let plan2 = build_search_plan(&f2, &emb, 10, 0);
    assert_eq!(plan1.ranked.sql, plan2.ranked.sql);
    assert_eq!(plan1.count.sql, plan2.count.sql);
    assert_ne!(plan1.ranked.params, plan2.ranked.params);
}

#[test]
fn count_statement_ignores_paging() {
    let f = qb_filters(Some("p1"), None, None);
    let emb = qb_embedding();
    let plan_a = build_search_plan(&f, &emb, 1, 0);
    let plan_b = build_search_plan(&f, &emb, 500, 250);
    assert_eq!(plan_a.count.sql, plan_b.count.sql);
    assert_eq!(plan_a.count.params, plan_b.count.params);
    // The paging values reach only the ranked statement's last two binds.
    assert_eq!(
        plan_b.ranked.params[plan_b.ranked.params.len() - 2..],
        [Param::Int8(500), Param::Int8(250)]
    );
}

#[test]
fn ranked_statement_binds_vector_twice() {
    let emb = qb_embedding();
    let st = build_ranked_statement(&None, &emb, 10, 0);
    assert_eq!(
        st.params,
        vec![
            Param::Vector(Embedding { bits: vec![1, 2, 3] }),
            Param::Vector(Embedding { bits: vec![1, 2, 3] }),
            Param::Int8(10),
            Param::Int8(0),
        ]
    );
}

#[test]
fn count_statement_alone_has_no_paging_binds() {
    let st = build_count_statement(&qb_filters(None, Some(1), None));
    assert_eq!(st.sql, format!("{} WHERE kind = $1", QB_COUNT_HEAD));
    assert_eq!(st.params, vec![Param::Int4(1)]);
}

#[test]
fn plan_search_resolves_defaults() {
    let q = SearchQuery { query: "hello".to_string(), limit: None, offset: None, filters: None };
    let emb = qb_embedding();
    let (limit, offset, plan) = noah::search::plan_search(&q, &emb);
    assert_eq!(limit, 10);
    assert_eq!(offset, 0);
    assert_eq!(plan.ranked.params[2], Param::Int8(10));
    assert_eq!(plan.ranked.params[3], Param::Int8(0));
}

#[test]
fn similar_events_statement_text_and_binds() {
    let st = build_similar_events_statement(&"e1".to_string(), 5);
    assert_eq!(
        st.sql,
        "WITH event_embedding AS (SELECT embedding FROM nostr_search.events WHERE id = $1) SELECT ne.id, ne.pubkey, ne.created_at, ne.kind, ne.content, ne.tags, 1 - (ne.embedding <=> e.embedding) as similarity FROM nostr_search.events ne, event_embedding e WHERE ne.id != $1 ORDER BY ne.embedding <=> e.embedding LIMIT $2"
    );
    assert_eq!(st.params, vec![Param::Text("e1".to_string()), Param::Int8(5)]);
}

#[test]
fn tag_values_statement_text_and_binds() {
    let st = build_tag_values_statement(&"t".to_string(), 100);
    assert_eq!(
        st.sql,
        "SELECT DISTINCT tag->>'value' as value, COUNT(*) as count FROM nostr_search.events, jsonb_array_elements(tags) tag WHERE tag->>'key' = $1 GROUP BY tag->>'value' ORDER BY count DESC LIMIT $2"
    );
    assert_eq!(st.params, vec![Param::Text("t".to_string()), Param::Int8(100)]);
}
