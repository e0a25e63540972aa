use vstd::prelude::*;

verus! {

// A tag document is an ordered sequence of records; each record is a list of
// strings (a key first, then its values). A search can ask that a stored
// document contain a queried document: every record of the query must be
// covered by some record of the stored document, and a record covers another
// when it holds every entry of it. This is containment on semi-structured
// documents, not equality.

/// Record `r` is covered by record `s`: every entry of `r` appears in `s`.
pub open spec fn record_covered(r: Seq<Seq<char>>, s: Seq<Seq<char>>) -> bool {
    forall|i: int| 0 <= i < r.len() ==> s.contains(#[trigger] r[i])
}

/// Record `rec` is covered by some record of document `doc`.
pub open spec fn some_record_covers(doc: Seq<Seq<Seq<char>>>, rec: Seq<Seq<char>>) -> bool {
    exists|j: int| 0 <= j < doc.len() && record_covered(rec, doc[j])
}

/// Document `q` is contained in document `doc`: every record of `q` is
/// covered by some record of `doc`.
pub open spec fn doc_contains(doc: Seq<Seq<Seq<char>>>, q: Seq<Seq<Seq<char>>>) -> bool {
    forall|i: int| 0 <= i < q.len() ==> some_record_covers(doc, #[trigger] q[i])
}

/// Does record `s` hold the entry `x`?
fn record_has_entry(s: &Vec<String>, x: &String) -> (res: bool)
    ensures
        res == s.deep_view().contains(x@),
{
    let mut j: usize = 0;
    while j < s.len()
        invariant
            j <= s.len(),
            forall|k: int| 0 <= k < j ==> s.deep_view()[k] != x@,
        decreases s.len() - j,
    {
        if s[j] == *x {
            assert(s.deep_view()[j as int] == x@);
            return true;
        }
        j += 1;
    }
    assert(!s.deep_view().contains(x@));
    false
}

/// Is record `r` covered by record `s`?
fn record_covered_exec(r: &Vec<String>, s: &Vec<String>) -> (res: bool)
    ensures
        res == record_covered(r.deep_view(), s.deep_view()),
{
    let mut i: usize = 0;
    while i < r.len()
        invariant
            i <= r.len(),
            forall|k: int| 0 <= k < i ==> s.deep_view().contains(#[trigger] r.deep_view()[k]),
        decreases r.len() - i,
    {
        if !record_has_entry(s, &r[i]) {
            assert(r.deep_view()[i as int] == r@[i as int]@);
            assert(!record_covered(r.deep_view(), s.deep_view()));
            return false;
        }
        assert(r.deep_view()[i as int] == r@[i as int]@);
        i += 1;
    }
    true
}

/// Is record `rec` covered by some record of `doc`?
fn covered_by_some(doc: &Vec<Vec<String>>, rec: &Vec<String>) -> (res: bool)
    ensures
        res == some_record_covers(doc.deep_view(), rec.deep_view()),
{
    let mut j: usize = 0;
    while j < doc.len()
        invariant
            j <= doc.len(),
            forall|k: int|
                0 <= k < j ==> !record_covered(rec.deep_view(), #[trigger] doc.deep_view()[k]),
        decreases doc.len() - j,
    {
        if record_covered_exec(rec, &doc[j]) {
            assert(doc.deep_view()[j as int] == doc@[j as int].deep_view());
            return true;
        }
        assert(doc.deep_view()[j as int] == doc@[j as int].deep_view());
        j += 1;
    }
    assert(!some_record_covers(doc.deep_view(), rec.deep_view()));
    false
}

/// Does the stored tag document `doc` contain the queried document `q`?
pub fn tags_contain(doc: &Vec<Vec<String>>, q: &Vec<Vec<String>>) -> (res: bool)
    ensures
        res == doc_contains(doc.deep_view(), q.deep_view()),
{
    let mut i: usize = 0;
    while i < q.len()
        invariant
            i <= q.len(),
            forall|k: int|
                0 <= k < i ==> some_record_covers(doc.deep_view(), #[trigger] q.deep_view()[k]),
        decreases q.len() - i,
    {
        if !covered_by_some(doc, &q[i]) {
            assert(q.deep_view()[i as int] == q@[i as int].deep_view());
            assert(!doc_contains(doc.deep_view(), q.deep_view()));
            return false;
        }
        assert(q.deep_view()[i as int] == q@[i as int].deep_view());
        i += 1;
    }
    true
}

/// An exact copy of one record.
pub fn copy_record(v: &Vec<String>) -> (r: Vec<String>)
    ensures
        r@ == v@,
{
    let mut r: Vec<String> = Vec::new();
    let mut i: usize = 0;
    while i < v.len()
        invariant
            i <= v.len(),
            r@ == v@.take(i as int),
        decreases v.len() - i,
    {
        r.push(v[i].clone());
        assert(r@ =~= v@.take(i as int + 1));
        i += 1;
    }
    assert(r@ =~= v@);
    r
}

/// A copy of a tag document carrying the same records.
pub fn copy_tag_doc(d: &Vec<Vec<String>>) -> (r: Vec<Vec<String>>)
    ensures
        r.deep_view() == d.deep_view(),
{
    let mut r: Vec<Vec<String>> = Vec::new();
    let mut i: usize = 0;
    while i < d.len()
        invariant
            i <= d.len(),
            r@.len() == i as int,
            forall|k: int| 0 <= k < i ==> r.deep_view()[k] == d.deep_view()[k],
        decreases d.len() - i,
    {
        let c = copy_record(&d[i]);
        proof {
            assert(c.deep_view() =~= d@[i as int].deep_view());
        }
        r.push(c);
        i += 1;
    }
    assert(r.deep_view() =~= d.deep_view());
    r
}

/// The tag predicates a search request may carry. Only `exact` — document
/// containment — takes part in statement generation; the other shapes are
/// carried through the API unused.
#[derive(Debug)]
pub struct TagFilters {
    pub exact: Option<Vec<Vec<String>>>,
    pub any: Option<Vec<String>>,
    pub values: Option<TagValueFilter>,
}

/// A key with the set of values asked of it.
#[derive(Debug)]
pub struct TagValueFilter {
    pub key: String,
    pub values: Vec<String>,
}

/// One value of a tag key together with how many events carry it.
#[derive(Debug)]
pub struct TagValue {
    pub value: String,
    pub count: i64,
}

} // verus!
