use vstd::prelude::*;
use vstd::string::StringExecFns;

use crate::events::Embedding;
use crate::search::{
    filter_count, has_kind, has_pubkey, has_tags_exact, kind_of, pubkey_of, tags_exact_of,
    SearchFilters,
};
use crate::tags::copy_tag_doc;

verus! {

// The query builder turns one search request into two parameterized SQL
// statements: the ranked similarity query and its count twin. Every
// user-supplied value travels as a bound parameter, never as SQL text; the
// three optional predicates are folded into one WHERE clause in the fixed
// order pubkey, kind, tags-exact, so that two requests with the same set of
// present predicates always produce identical SQL text.

/// One bound parameter of a statement.
#[derive(Debug, PartialEq)]
pub enum Param {
    /// A text value (the pubkey predicate, or a path segment such as an id).
    Text(String),
    /// A 32-bit integer (the kind predicate).
    Int4(i32),
    /// A 64-bit integer (limit and offset).
    Int8(i64),
    /// A tag document (the tags-exact predicate).
    TagDoc(Vec<Vec<String>>),
    /// The query embedding.
    Vector(Embedding),
}

/// The value a bound parameter carries, at the specification level.
pub enum ParamValue {
    Text(Seq<char>),
    Int4(i32),
    Int8(i64),
    TagDoc(Seq<Seq<Seq<char>>>),
    Vector(Seq<u32>),
}

/// What a parameter binds, stripped to its value.
pub open spec fn param_view(p: Param) -> ParamValue {
    match p {
        Param::Text(s) => ParamValue::Text(s@),
        Param::Int4(k) => ParamValue::Int4(k),
        Param::Int8(n) => ParamValue::Int8(n),
        Param::TagDoc(d) => ParamValue::TagDoc(d.deep_view()),
        Param::Vector(e) => ParamValue::Vector(e.bits@),
    }
}

/// The values a parameter list binds, in order.
pub open spec fn params_view(ps: Seq<Param>) -> Seq<ParamValue> {
    ps.map(|i: int, p: Param| param_view(p))
}

pub proof fn lemma_params_view_push(ps: Seq<Param>, p: Param)
    ensures
        params_view(ps.push(p)) == params_view(ps).push(param_view(p)),
{
    assert(params_view(ps.push(p)) =~= params_view(ps).push(param_view(p)));
}

/// One parameterized SQL statement: its text and its bound values, where the
/// n-th parameter of the list feeds the placeholder `$n`.
#[derive(Debug)]
pub struct Statement {
    pub sql: String,
    pub params: Vec<Param>,
}

/// The two statements that answer one search.
#[derive(Debug)]
pub struct SearchPlan {
    pub ranked: Statement,
    pub count: Statement,
}

/// The text of the n-th bind placeholder (statements bind at most seven
/// values, so one digit always suffices).
pub open spec fn placeholder_text(n: int) -> Seq<char> {
    if n == 1 {
        "$1"@
    } else if n == 2 {
        "$2"@
    } else if n == 3 {
        "$3"@
    } else if n == 4 {
        "$4"@
    } else if n == 5 {
        "$5"@
    } else if n == 6 {
        "$6"@
    } else if n == 7 {
        "$7"@
    } else if n == 8 {
        "$8"@
    } else {
        "$9"@
    }
}

/// The pubkey predicate's clause text, bound at placeholder `n`. When
/// present it is always the first predicate, so it brings `WHERE` itself.
pub open spec fn pubkey_clause(f: Option<SearchFilters>, n: int) -> Seq<char> {
    if has_pubkey(f) {
        " WHERE pubkey = "@ + placeholder_text(n)
    } else {
        Seq::<char>::empty()
    }
}

/// The kind predicate's clause text, bound at placeholder `n`.
pub open spec fn kind_clause(f: Option<SearchFilters>, n: int) -> Seq<char> {
    if has_kind(f) {
        (if has_pubkey(f) {
            " AND "@
        } else {
            " WHERE "@
        }) + "kind = "@ + placeholder_text(n)
    } else {
        Seq::<char>::empty()
    }
}

/// The tags-exact predicate's clause text, bound at placeholder `n`.
pub open spec fn tags_clause(f: Option<SearchFilters>, n: int) -> Seq<char> {
    if has_tags_exact(f) {
        (if has_pubkey(f) || has_kind(f) {
            " AND "@
        } else {
            " WHERE "@
        }) + "tags @> "@ + placeholder_text(n)
    } else {
        Seq::<char>::empty()
    }
}

/// The whole WHERE clause of a filter set, with binds numbered from `start`:
/// the three optional predicates in their fixed order. An absent predicate
/// contributes no text; with no predicate at all the clause is empty.
pub open spec fn where_text(f: Option<SearchFilters>, start: int) -> Seq<char> {
    pubkey_clause(f, start) + kind_clause(f, start + (if has_pubkey(f) {
        1int
    } else {
        0
    })) + tags_clause(
        f,
        start + (if has_pubkey(f) {
            1int
        } else {
            0
        }) + (if has_kind(f) {
            1int
        } else {
            0
        }),
    )
}

/// The values the WHERE clause binds, in the same fixed order.
pub open spec fn where_params(f: Option<SearchFilters>) -> Seq<ParamValue> {
    (if has_pubkey(f) {
        seq![ParamValue::Text(pubkey_of(f))]
    } else {
        Seq::<ParamValue>::empty()
    }) + (if has_kind(f) {
        seq![ParamValue::Int4(kind_of(f))]
    } else {
        Seq::<ParamValue>::empty()
    }) + (if has_tags_exact(f) {
        seq![ParamValue::TagDoc(tags_exact_of(f))]
    } else {
        Seq::<ParamValue>::empty()
    })
}

/// The ranked statement's text: select the projection and the similarity,
/// filter, order by distance ascending (the same bound vector in both
/// places), then page.
pub open spec fn ranked_text(f: Option<SearchFilters>) -> Seq<char> {
    "SELECT id, pubkey, created_at, kind, content, tags, 1 - (embedding <=> "@
        + placeholder_text(1) + ") as similarity FROM nostr_search.events"@ + where_text(f, 2)
        + " ORDER BY embedding <=> "@ + placeholder_text(2 + filter_count(f)) + " LIMIT "@
        + placeholder_text(3 + filter_count(f)) + " OFFSET "@ + placeholder_text(
        4 + filter_count(f),
    )
}

/// The ranked statement's bound values: the vector, the filter values, then
/// the vector again for the ordering key, the limit and the offset.
pub open spec fn ranked_params(
    f: Option<SearchFilters>,
    emb: Seq<u32>,
    limit: i64,
    offset: i64,
) -> Seq<ParamValue> {
    seq![ParamValue::Vector(emb)] + where_params(f) + seq![
        ParamValue::Vector(emb),
        ParamValue::Int8(limit),
        ParamValue::Int8(offset),
    ]
}

/// The count statement's text: the same WHERE clause applied to a bare
/// count, with no vector term and no paging.
pub open spec fn count_text(f: Option<SearchFilters>) -> Seq<char> {
    "SELECT COUNT(*) FROM nostr_search.events"@ + where_text(f, 1)
}

/// The count statement's bound values: the filter values alone.
pub open spec fn count_params(f: Option<SearchFilters>) -> Seq<ParamValue> {
    where_params(f)
}

/// The WHERE clause composes the three optional predicates in the fixed
/// order pubkey, kind, tags-exact — never in request or map order — and an
/// absent predicate contributes neither clause text nor a bound value. With
/// no predicate present there is no WHERE clause at all. The count twin
/// reuses the same composition, so both statements agree on it.
pub proof fn lemma_where_clause_composition(f: Option<SearchFilters>, start: int)
    ensures
        where_text(f, start) == pubkey_clause(f, start) + kind_clause(
            f,
            start + (if has_pubkey(f) {
                1int
            } else {
                0
            }),
        ) + tags_clause(f, start + filter_count(f) - (if has_tags_exact(f) {
            1int
        } else {
            0
        })),
        !has_pubkey(f) ==> pubkey_clause(f, start) == Seq::<char>::empty(),
        !has_kind(f) ==> kind_clause(f, start) == Seq::<char>::empty(),
        !has_tags_exact(f) ==> tags_clause(f, start) == Seq::<char>::empty(),
        filter_count(f) == 0 ==> where_text(f, start) == Seq::<char>::empty(),
        where_params(f).len() == filter_count(f),
        count_text(f) == "SELECT COUNT(*) FROM nostr_search.events"@ + where_text(f, 1),
{
    assert(filter_count(f) == 0 ==> where_text(f, start) =~= Seq::<char>::empty());
}

/// Two requests with the same set of present predicates produce identical
/// SQL text, for the ranked statement and for its count twin alike: the
/// bound values never reach the text.
pub proof fn lemma_same_shape_same_text(f1: Option<SearchFilters>, f2: Option<SearchFilters>)
    requires
        has_pubkey(f1) == has_pubkey(f2),
        has_kind(f1) == has_kind(f2),
        has_tags_exact(f1) == has_tags_exact(f2),
    ensures
        ranked_text(f1) == ranked_text(f2),
        count_text(f1) == count_text(f2),
{
    assert(where_text(f1, 1) == where_text(f2, 1));
    assert(where_text(f1, 2) == where_text(f2, 2));
}

/// Append the n-th bind placeholder to the statement text.
fn push_placeholder(sql: &mut String, n: u64)
    requires
        1 <= n <= 9,
    ensures
        final(sql)@ == old(sql)@ + placeholder_text(n as int),
{
    let p: &str = if n == 1 {
        "$1"
    } else if n == 2 {
        "$2"
    } else if n == 3 {
        "$3"
    } else if n == 4 {
        "$4"
    } else if n == 5 {
        "$5"
    } else if n == 6 {
        "$6"
    } else if n == 7 {
        "$7"
    } else if n == 8 {
        "$8"
    } else {
        "$9"
    };
    sql.append(p);
}

/// Append the WHERE clause of a filter set, with binds numbered from
/// `start`, and push the values it binds: the original's chain of optional
/// appends guarded by a first-predicate flag, as one pure fold over the
/// fixed predicate order.
fn push_where(f: &Option<SearchFilters>, start: u64, sql: &mut String, params: &mut Vec<Param>)
    requires
        1 <= start,
        start + 3 <= 10,
    ensures
        final(sql)@ == old(sql)@ + where_text(*f, start as int),
        params_view(final(params)@) == params_view(old(params)@) + where_params(*f),
{
    let ghost sql0 = sql@;
    let ghost params0 = params@;
    let mut n: u64 = start;
    match f {
        None => {},
        Some(fs) => {
            if let Some(pk) = &fs.pubkey {
                sql.append(" WHERE pubkey = ");
                push_placeholder(sql, n);
                params.push(Param::Text(pk.clone()));
                proof {
                    lemma_params_view_push(params0, Param::Text(*pk));
                }
                n = n + 1;
            }
            let ghost sql1 = sql@;
            let ghost params1 = params@;
            assert(sql1 == sql0 + pubkey_clause(*f, start as int));
            if let Some(k) = &fs.kind {
                if n == start {
                    sql.append(" WHERE ");
                } else {
                    sql.append(" AND ");
                }
                sql.append("kind = ");
                push_placeholder(sql, n);
                params.push(Param::Int4(*k));
                proof {
                    lemma_params_view_push(params1, Param::Int4(*k));
                }
                n = n + 1;
            }
            let ghost sql2 = sql@;
            let ghost params2 = params@;
            assert(sql2 == sql1 + kind_clause(*f, start as int + (if has_pubkey(*f) {
                1int
            } else {
                0
            })));
            if let Some(tf) = &fs.tags {
                if let Some(q) = &tf.exact {
                    if n == start {
                        sql.append(" WHERE ");
                    } else {
                        sql.append(" AND ");
                    }
                    sql.append("tags @> ");
                    push_placeholder(sql, n);
                    params.push(Param::TagDoc(copy_tag_doc(q)));
                    proof {
                        lemma_params_view_push(params2, params@.last());
                    }
                }
            }
        },
    }
    proof {
        assert(sql@ =~= sql0 + where_text(*f, start as int));
        assert(params_view(params@) =~= params_view(params0) + where_params(*f));
    }
}

/// Build the ranked similarity statement of one search.
pub fn build_ranked_statement(
    f: &Option<SearchFilters>,
    embedding: &Embedding,
    limit: i64,
    offset: i64,
) -> (st: Statement)
    ensures
        st.sql@ == ranked_text(*f),
        params_view(st.params@) == ranked_params(*f, embedding.bits@, limit, offset),
{
    let mut sql = String::from_str(
        "SELECT id, pubkey, created_at, kind, content, tags, 1 - (embedding <=> ",
    );
    let mut params: Vec<Param> = Vec::new();
    push_placeholder(&mut sql, 1);
    sql.append(") as similarity FROM nostr_search.events");
    params.push(Param::Vector(embedding.dup()));
    let ghost params1 = params@;
    push_where(f, 2, &mut sql, &mut params);
    let nf: u64 = count_present(f);
    let ghost params2 = params@;
    sql.append(" ORDER BY embedding <=> ");
    push_placeholder(&mut sql, 2 + nf);
    sql.append(" LIMIT ");
    push_placeholder(&mut sql, 3 + nf);
    sql.append(" OFFSET ");
    push_placeholder(&mut sql, 4 + nf);
    params.push(Param::Vector(embedding.dup()));
    proof {
        lemma_params_view_push(params2, params@.last());
    }
    let ghost params3 = params@;
    params.push(Param::Int8(limit));
    proof {
        lemma_params_view_push(params3, params@.last());
    }
    let ghost params4 = params@;
    params.push(Param::Int8(offset));
    proof {
        lemma_params_view_push(params4, params@.last());
        assert(sql@ =~= ranked_text(*f));
        assert(params_view(params@) =~= ranked_params(*f, embedding.bits@, limit, offset));
    }
    Statement { sql, params }
}

/// Build the count twin of one search: same filters, same bound values, no
/// vector, no paging.
pub fn build_count_statement(f: &Option<SearchFilters>) -> (st: Statement)
    ensures
        st.sql@ == count_text(*f),
        params_view(st.params@) == count_params(*f),
{
    let mut sql = String::from_str("SELECT COUNT(*) FROM nostr_search.events");
    let mut params: Vec<Param> = Vec::new();
    push_where(f, 1, &mut sql, &mut params);
    proof {
        assert(params_view(params@) =~= count_params(*f));
    }
    Statement { sql, params }
}

/// Build the statement answering "events most similar to a stored event":
/// rank every other event by the distance of its embedding to the given
/// event's, most similar first. The id travels as a bound parameter.
pub fn build_similar_events_statement(event_id: &String, limit: i64) -> (st: Statement)
    ensures
        st.sql@
            == "WITH event_embedding AS (SELECT embedding FROM nostr_search.events WHERE id = $1) SELECT ne.id, ne.pubkey, ne.created_at, ne.kind, ne.content, ne.tags, 1 - (ne.embedding <=> e.embedding) as similarity FROM nostr_search.events ne, event_embedding e WHERE ne.id != $1 ORDER BY ne.embedding <=> e.embedding LIMIT $2"@,
        params_view(st.params@) == seq![ParamValue::Text(event_id@), ParamValue::Int8(limit)],
{
    let sql = String::from_str(
        "WITH event_embedding AS (SELECT embedding FROM nostr_search.events WHERE id = $1) SELECT ne.id, ne.pubkey, ne.created_at, ne.kind, ne.content, ne.tags, 1 - (ne.embedding <=> e.embedding) as similarity FROM nostr_search.events ne, event_embedding e WHERE ne.id != $1 ORDER BY ne.embedding <=> e.embedding LIMIT $2",
    );
    let mut params: Vec<Param> = Vec::new();
    params.push(Param::Text(event_id.clone()));
    params.push(Param::Int8(limit));
    proof {
        assert(params_view(params@) =~= seq![
            ParamValue::Text(event_id@),
            ParamValue::Int8(limit),
        ]);
    }
    Statement { sql, params }
}

/// Build the statement listing the values seen under one tag key, with how
/// many events carry each, most frequent first. The key travels as a bound
/// parameter.
pub fn build_tag_values_statement(tag_key: &String, limit: i64) -> (st: Statement)
    ensures
        st.sql@
            == "SELECT DISTINCT tag->>'value' as value, COUNT(*) as count FROM nostr_search.events, jsonb_array_elements(tags) tag WHERE tag->>'key' = $1 GROUP BY tag->>'value' ORDER BY count DESC LIMIT $2"@,
        params_view(st.params@) == seq![ParamValue::Text(tag_key@), ParamValue::Int8(limit)],
{
    let sql = String::from_str(
        "SELECT DISTINCT tag->>'value' as value, COUNT(*) as count FROM nostr_search.events, jsonb_array_elements(tags) tag WHERE tag->>'key' = $1 GROUP BY tag->>'value' ORDER BY count DESC LIMIT $2",
    );
    let mut params: Vec<Param> = Vec::new();
    params.push(Param::Text(tag_key.clone()));
    params.push(Param::Int8(limit));
    proof {
        assert(params_view(params@) =~= seq![ParamValue::Text(tag_key@), ParamValue::Int8(limit)]);
    }
    Statement { sql, params }
}

/// How many predicates are present, as a machine integer.
fn count_present(f: &Option<SearchFilters>) -> (n: u64)
    ensures
        n as int == filter_count(*f),
{
    match f {
        None => 0,
        Some(fs) => {
            let mut n: u64 = 0;
            if fs.pubkey.is_some() {
                n = n + 1;
            }
            if fs.kind.is_some() {
                n = n + 1;
            }
            let has_exact = match &fs.tags {
                None => false,
                Some(tf) => tf.exact.is_some(),
            };
            if has_exact {
                n = n + 1;
            }
            n
        },
    }
}

/// Build both statements of one search from the same filter set, the same
/// query vector and the resolved paging.
pub fn build_search_plan(
    f: &Option<SearchFilters>,
    embedding: &Embedding,
    limit: i64,
    offset: i64,
) -> (plan: SearchPlan)
    ensures
        plan.ranked.sql@ == ranked_text(*f),
        params_view(plan.ranked.params@) == ranked_params(*f, embedding.bits@, limit, offset),
        plan.count.sql@ == count_text(*f),
        params_view(plan.count.params@) == count_params(*f),
{
    SearchPlan {
        ranked: build_ranked_statement(f, embedding, limit, offset),
        count: build_count_statement(f),
    }
}

} // verus!
