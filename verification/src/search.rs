//! The Elasticsearch bodies of the catalog searches a refresh asks for.
//!
//! Every search starts at hit zero and is a `bool` query whose `must` (and, for
//! columns, `filter`) clauses are `terms` clauses: a field and the values it may
//! take.

use vstd::prelude::*;
use crate::json::Json;
use crate::provenance::texts;
use crate::refresh::Query;

verus! {

/// A `terms` clause: a field and the values it may take.
pub type Terms = (Seq<char>, Seq<Seq<char>>);

/// The text of a number value.
pub open spec fn number_text(j: Json) -> Option<Seq<char>> {
    match j {
        Json::Number(n) => Some(n@),
        _ => None,
    }
}

/// `j` is an array of the strings `values`, in order.
pub open spec fn is_str_array(j: Json, values: Seq<Seq<char>>) -> bool {
    &&& j matches Json::Array(items)
    &&& items@.len() == values.len()
    &&& forall|i: int| 0 <= i < values.len() ==> (#[trigger] items@[i]).text() == Some(values[i])
}

/// `j` is `{"terms": {field: [values...]}}`.
pub open spec fn is_terms(j: Json, t: Terms) -> bool {
    &&& j matches Json::Object(outer)
    &&& outer@.len() == 1
    &&& outer@[0].0@ == "terms"@
    &&& outer@[0].1 matches Json::Object(inner)
    &&& inner@.len() == 1
    &&& inner@[0].0@ == t.0
    &&& is_str_array(inner@[0].1, t.1)
}

/// `j` is an array of the `terms` clauses `clauses`, in order.
pub open spec fn is_terms_array(j: Json, clauses: Seq<Terms>) -> bool {
    &&& j matches Json::Array(items)
    &&& items@.len() == clauses.len()
    &&& forall|i: int| 0 <= i < clauses.len() ==> is_terms(#[trigger] items@[i], clauses[i])
}

/// `j` is `{"from": 0, "size": size, "query": {"bool": {"must": [...]}}}`, with
/// a `filter` array after `must` when `filter` is given.
pub open spec fn is_search_body(
    j: Json,
    size: Seq<char>,
    must: Seq<Terms>,
    filter: Option<Seq<Terms>>,
) -> bool {
    &&& j matches Json::Object(top)
    &&& top@.len() == 3
    &&& top@[0].0@ == "from"@ && number_text(top@[0].1) == Some("0"@)
    &&& top@[1].0@ == "size"@ && number_text(top@[1].1) == Some(size)
    &&& top@[2].0@ == "query"@
    &&& top@[2].1 matches Json::Object(query)
    &&& query@.len() == 1
    &&& query@[0].0@ == "bool"@
    &&& query@[0].1 matches Json::Object(clauses)
    &&& clauses@.len() == if filter is Some {
        2int
    } else {
        1int
    }
    &&& clauses@[0].0@ == "must"@ && is_terms_array(clauses@[0].1, must)
    &&& filter matches Some(f) ==> clauses@[1].0@ == "filter"@ && is_terms_array(
        clauses@[1].1,
        f,
    )
}

/// How many hits a search asks for: one asset, up to a thousand columns, up to
/// five thousand edges or objects.
pub open spec fn search_size(q: Query) -> Seq<char> {
    match q {
        Query::Asset(_) => "1"@,
        Query::Columns(_) => "1000"@,
        _ => "5000"@,
    }
}

/// The `must` clauses of a search.
pub open spec fn search_must(q: Query) -> Seq<Terms> {
    match q {
        Query::Asset(id) => seq![("elementType"@, seq!["OBJECT"@]), ("core.identity"@, seq![id@])],
        Query::Columns(_) => seq![
            ("core.classType"@, seq!["com.infa.odin.models.file.flat.FlatField"@]),
        ],
        Query::EdgesFrom(ids) => seq![
            ("elementType"@, seq!["RELATIONSHIP"@]),
            ("core.sourceIdentity"@, texts(ids@)),
        ],
        Query::EdgesTo(ids) => seq![
            ("elementType"@, seq!["RELATIONSHIP"@]),
            ("core.targetIdentity"@, texts(ids@)),
        ],
        Query::Objects(ids) => seq![("elementType"@, seq!["OBJECT"@]), ("core.identity"@, texts(ids@))],
    }
}

/// The `filter` clauses of a search: the columns search keeps the fields whose
/// parent path is the asset's location.
pub open spec fn search_filter(q: Query) -> Option<Seq<Terms>> {
    match q {
        Query::Columns(location) => Some(
            seq![("core.location::path_hierarchy.parent"@, seq![location@])],
        ),
        _ => None,
    }
}

/// An object member.
fn member(key: &str, value: Json) -> (r: (String, Json))
    ensures
        r.0@ == key@,
        r.1 == value,
{
    (key.to_owned(), value)
}

/// The array of the one string `v`.
fn one_str(v: &str) -> (r: Json)
    ensures
        is_str_array(r, seq![v@]),
{
    let r = Json::Array(vec![Json::Str(v.to_owned())]);
    assert(r->Array_0@[0].text() == Some(v@));
    r
}

/// The array of the strings `values`.
fn str_array(values: &Vec<String>) -> (r: Json)
    ensures
        is_str_array(r, texts(values@)),
{
    let mut items: Vec<Json> = Vec::new();
    let n = values.len();
    let mut i: usize = 0;
    while i < n
        invariant
            n == values@.len(),
            0 <= i <= n,
            items@.len() == i,
            forall|j: int| 0 <= j < i ==> (#[trigger] items@[j]).text() == Some(values@[j]@),
        decreases n - i,
    {
        items.push(Json::Str(values[i].clone()));
        i = i + 1;
    }
    Json::Array(items)
}

/// `{"terms": {field: values}}`.
fn terms(field: &str, values: Json) -> (r: Json)
    ensures
        forall|vs: Seq<Seq<char>>| is_str_array(values, vs) ==> #[trigger] is_terms(r, (field@, vs)),
{
    let inner = Json::Object(vec![member(field, values)]);
    Json::Object(vec![member("terms", inner)])
}

/// The Elasticsearch body of the catalog search `q`.
pub fn query_body(q: &Query) -> (r: Json)
    ensures
        is_search_body(r, search_size(*q), search_must(*q), search_filter(*q)),
{
    let ghost must_spec = search_must(*q);
    let (size, must, filter): (&str, Vec<Json>, Option<Vec<Json>>) = match q {
        Query::Asset(id) => {
            let a = terms("elementType", one_str("OBJECT"));
            let b = terms("core.identity", one_str(id.as_str()));
            assert(is_terms(a, must_spec[0]));
            assert(is_terms(b, must_spec[1]));
            ("1", vec![a, b], None)
        },
        Query::Columns(location) => {
            let a = terms("core.classType", one_str("com.infa.odin.models.file.flat.FlatField"));
            let f = terms("core.location::path_hierarchy.parent", one_str(location.as_str()));
            assert(is_terms(a, must_spec[0]));
            assert(is_terms(f, search_filter(*q)->Some_0[0]));
            ("1000", vec![a], Some(vec![f]))
        },
        Query::EdgesFrom(ids) => {
            let a = terms("elementType", one_str("RELATIONSHIP"));
            let b = terms("core.sourceIdentity", str_array(ids));
            assert(is_terms(a, must_spec[0]));
            assert(is_terms(b, must_spec[1]));
            ("5000", vec![a, b], None)
        },
        Query::EdgesTo(ids) => {
            let a = terms("elementType", one_str("RELATIONSHIP"));
            let b = terms("core.targetIdentity", str_array(ids));
            assert(is_terms(a, must_spec[0]));
            assert(is_terms(b, must_spec[1]));
            ("5000", vec![a, b], None)
        },
        Query::Objects(ids) => {
            let a = terms("elementType", one_str("OBJECT"));
            let b = terms("core.identity", str_array(ids));
            assert(is_terms(a, must_spec[0]));
            assert(is_terms(b, must_spec[1]));
            ("5000", vec![a, b], None)
        },
    };
    proof {
        reveal_strlit("1");
        reveal_strlit("1000");
        reveal_strlit("5000");
    }
    let must_json = Json::Array(must);
    assert(is_terms_array(must_json, must_spec));
    let mut clauses: Vec<(String, Json)> = vec![member("must", must_json)];
    match filter {
        Some(f) => {
            let filter_json = Json::Array(f);
            assert(is_terms_array(filter_json, search_filter(*q)->Some_0));
            clauses.push(member("filter", filter_json));
        },
        None => {},
    }
    let query = Json::Object(vec![member("bool", Json::Object(clauses))]);
    Json::Object(
        vec![
            member("from", Json::Number("0".to_owned())),
            member("size", Json::Number(size.to_owned())),
            member("query", query),
        ],
    )
}

} // verus!
