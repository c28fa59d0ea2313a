use provenance_stamping::json::Json;
use provenance_stamping::refresh::Query;
use provenance_stamping::search::query_body;

fn member<'a>(j: &'a Json, key: &str) -> &'a Json {
    match j {
        Json::Object(m) => &m.iter().find(|(k, _)| k == key).expect("member").1,
        _ => panic!("not an object"),
    }
}

fn keys(j: &Json) -> Vec<String> {
    match j {
        Json::Object(m) => m.iter().map(|(k, _)| k.clone()).collect(),
        _ => panic!("not an object"),
    }
}

fn number(j: &Json) -> &str {
    match j {
        Json::Number(n) => n.as_str(),
        _ => panic!("not a number"),
    }
}

fn items(j: &Json) -> &Vec<Json> {
    match j {
        Json::Array(a) => a,
        _ => panic!("not an array"),
    }
}

/// The field and the string values of a `terms` clause.
fn terms(j: &Json) -> (String, Vec<String>) {
    let inner = member(j, "terms");
    let field = keys(inner).remove(0);
    let values = items(member(inner, &field))
        .iter()
        .map(|v| match v {
            Json::Str(s) => s.clone(),
            _ => panic!("not a string"),
        })
        .collect();
    (field, values)
}

fn strings(v: &[&str]) -> Vec<String> {
    v.iter().map(|s| s.to_string()).collect()
}

#[test]
fn asset_search_asks_for_one_object_by_identity() {
    let body = query_body(&Query::Asset("a-1".to_string()));
    assert_eq!(keys(&body), strings(&["from", "size", "query"]));
    assert_eq!(number(member(&body, "from")), "0");
    assert_eq!(number(member(&body, "size")), "1");
    let b = member(member(&body, "query"), "bool");
    assert_eq!(keys(b), strings(&["must"]));
    let must = items(member(b, "must"));
    assert_eq!(must.len(), 2);
    assert_eq!(terms(&must[0]), ("elementType".to_string(), strings(&["OBJECT"])));
    assert_eq!(terms(&must[1]), ("core.identity".to_string(), strings(&["a-1"])));
}

#[test]
fn columns_search_filters_by_parent_location() {
    let body = query_body(&Query::Columns("/conn/dir/file.csv".to_string()));
    assert_eq!(number(member(&body, "size")), "1000");
    let b = member(member(&body, "query"), "bool");
    assert_eq!(keys(b), strings(&["must", "filter"]));
    let must = items(member(b, "must"));
    assert_eq!(must.len(), 1);
    assert_eq!(
        terms(&must[0]),
        ("core.classType".to_string(), strings(&["com.infa.odin.models.file.flat.FlatField"]))
    );
    let filter = items(member(b, "filter"));
    assert_eq!(filter.len(), 1);
    assert_eq!(
        terms(&filter[0]),
        ("core.location::path_hierarchy.parent".to_string(), strings(&["/conn/dir/file.csv"]))
    );
}

#[test]
fn edge_and_object_searches_list_every_id() {
    let ids = strings(&["a", "b", "c"]);
    for (q, field, kind) in [
        (Query::EdgesFrom(ids.clone()), "core.sourceIdentity", "RELATIONSHIP"),
        (Query::EdgesTo(ids.clone()), "core.targetIdentity", "RELATIONSHIP"),
        (Query::Objects(ids.clone()), "core.identity", "OBJECT"),
    ] {
        let body = query_body(&q);
        assert_eq!(number(member(&body, "size")), "5000");
        let must = items(member(member(member(&body, "query"), "bool"), "must"));
        assert_eq!(must.len(), 2);
        assert_eq!(terms(&must[0]), ("elementType".to_string(), strings(&[kind])));
        assert_eq!(terms(&must[1]), (field.to_string(), ids.clone()));
    }
}
