use provenance_stamping::config::Config;
use provenance_stamping::headers::HeaderMap;
use provenance_stamping::json::Json;
use provenance_stamping::provenance::{
    add_lineage, collection_id, column_ids, join_commas, neighbour_ids, neighbour_names,
    provenance_fields, search_hits,
};
use provenance_stamping::refresh::{Query, Refresh, RefreshAction, RefreshStage};

fn text(s: &str) -> Json {
    Json::Str(s.to_string())
}

fn obj(members: Vec<(&str, Json)>) -> Json {
    Json::Object(members.into_iter().map(|(k, v)| (k.to_string(), v)).collect())
}

fn config(lineage: Option<bool>) -> Config {
    Config {
        cdgc_org_password: "test-password".to_string(),
        cdgc_org_username: "svc".to_string(),
        distributed: None,
        fail_open_on_cdgc_error: None,
        header_on_miss: None,
        include_lineage: lineage,
        refresh_interval_seconds: None,
        schema_id: "schema-1".to_string(),
        schema_id_claim: None,
        schema_id_header: None,
        timeout: None,
    }
}

fn entries(m: &HeaderMap) -> Vec<(String, String)> {
    m.entries().clone()
}

fn get(m: &HeaderMap, k: &str) -> Option<String> {
    m.get(k).cloned()
}

fn strings(v: &[&str]) -> Vec<String> {
    v.iter().map(|s| s.to_string()).collect()
}

fn dim_product() -> Json {
    obj(vec![
        ("core.name", text("dim_product.csv")),
        ("core.origin", text("src-9")),
        ("core.externalId", text("src-9://FileServer/data/csv/dim_product.csv~FlatFile")),
        ("core.resourceType", text("File System")),
        ("core.resourceName", text("Product Catalog dim_productProduct Catalog dim_product")),
        ("com.infa.odin.models.file.path", text("FileServer/data/csv/dim_product.csv")),
        ("core.sourceModifiedOn", text("2026-08-31")),
        ("core.modifiedOn", Json::Number("1788347759583".to_string())),
        ("core.assetLifecycle", text("Published")),
        ("core.supplement.certified", Json::Array(vec![Json::Bool(true)])),
        ("core.location", text("loc-1")),
        (
            "core.aggregatedByObjects",
            Json::Array(vec![
                obj(vec![
                    ("core.objectClassType", text("com.infa.Glossary")),
                    ("core.objectIdentity", text("g-1")),
                ]),
                obj(vec![
                    ("core.objectClassType", text("com.infa.cdmp.marketplace.DataCollection")),
                    ("core.objectIdentity", text("coll-1")),
                ]),
            ]),
        ),
    ])
}

#[test]
fn provenance_fields_read_the_asset_hit() {
    let f = provenance_fields(&dim_product());
    assert_eq!(get(&f, "x-dp-provenance-name").as_deref(), Some("dim_product.csv"));
    assert_eq!(get(&f, "x-dp-provenance-catalog-source").as_deref(), Some("Product Catalog dim_product"));
    assert_eq!(get(&f, "x-dp-provenance-catalog-modified-ms").as_deref(), Some("1788347759583"));
    assert_eq!(get(&f, "x-dp-provenance-certified").as_deref(), Some("true"));
    assert_eq!(get(&f, "x-dp-provenance-lifecycle").as_deref(), Some("Published"));
    assert_eq!(get(&f, "x-dp-provenance-source-type").as_deref(), Some("File System"));
    assert_eq!(f.len(), 10);
    let bare = provenance_fields(&obj(vec![("core.supplement.certified", Json::Array(vec![Json::Bool(false)]))]));
    assert_eq!(entries(&bare), vec![("x-dp-provenance-certified".to_string(), "false".to_string())]);
    assert!(provenance_fields(&obj(vec![])).is_empty());
}

#[test]
fn collection_is_the_first_data_collection() {
    assert_eq!(collection_id(&dim_product()).as_deref(), Some("coll-1"));
    assert_eq!(collection_id(&obj(vec![])), None);
}

#[test]
fn search_hits_take_source_maps() {
    let response = obj(vec![(
        "hits",
        obj(vec![(
            "hits",
            Json::Array(vec![
                obj(vec![("sourceAsMap", obj(vec![("core.name", text("a"))]))]),
                obj(vec![("other", Json::Null)]),
                obj(vec![("sourceAsMap", obj(vec![("core.name", text("b"))]))]),
            ]),
        )]),
    )]);
    let hits = search_hits(response);
    assert_eq!(hits.len(), 2);
    assert!(search_hits(obj(vec![("hits", obj(vec![]))])).is_empty());
}

#[test]
fn lineage_ids_skip_structural_and_own_edges() {
    let ours = strings(&["schema-1", "col-1"]);
    let rels = vec![
        obj(vec![("type", text("core.DataSetDataFlow")), ("core.targetIdentity", text("fact-9"))]),
        obj(vec![("type", text("core.DirectionalDataFlow")), ("core.targetIdentity", text("fact-2"))]),
        obj(vec![("type", text("com.infa.odin.models.file.FileToField")), ("core.targetIdentity", text("col-7"))]),
        obj(vec![("type", text("core.DataSetDataFlow")), ("core.targetIdentity", text("col-1"))]),
        obj(vec![("type", text("core.DataSetDataFlow")), ("core.targetIdentity", text("fact-2"))]),
    ];
    assert_eq!(neighbour_ids(&rels, "core.targetIdentity", &ours), strings(&["fact-2", "fact-9"]));
    assert!(neighbour_ids(&rels, "core.sourceIdentity", &ours).is_empty());
}

#[test]
fn lineage_names_resolve_columns_to_files() {
    let objs = vec![
        obj(vec![("core.identity", text("fact-2")), ("core.name", text("sku")),
            ("core.externalId", text("adb://x/fact_order_line.csv/sku~FlatField"))]),
        obj(vec![("core.identity", text("fact-9")), ("core.name", text("fact_order_line.csv"))]),
        obj(vec![("core.identity", text("other")), ("core.name", text("zzz"))]),
    ];
    assert_eq!(
        neighbour_names(&strings(&["fact-2", "fact-9", "unknown"]), &objs),
        strings(&["fact_order_line.csv"])
    );
    assert_eq!(neighbour_names(&strings(&["other", "fact-9"]), &objs), strings(&["fact_order_line.csv", "zzz"]));
}

#[test]
fn lineage_headers_join_names() {
    assert_eq!(join_commas(&strings(&["a", "b", "c"])), "a,b,c");
    assert_eq!(join_commas(&strings(&[])), "");
    let mut f = HeaderMap::new();
    add_lineage(&mut f, &strings(&[]), &strings(&["x", "y"]));
    assert_eq!(get(&f, "x-dp-lineage-downstream").as_deref(), Some("x,y"));
    assert_eq!(get(&f, "x-dp-lineage-upstream"), None);
    assert_eq!(get(&f, "x-dp-lineage-status").as_deref(), Some("present"));
    let mut g = HeaderMap::new();
    add_lineage(&mut g, &strings(&[]), &strings(&[]));
    assert_eq!(entries(&g), vec![("x-dp-lineage-status".to_string(), "none".to_string())]);
}

#[test]
fn column_ids_start_with_the_schema() {
    let cols = vec![obj(vec![("core.identity", text("c1"))]), obj(vec![]), obj(vec![("core.identity", text("c2"))])];
    assert_eq!(column_ids("s", &cols), strings(&["s", "c1", "c2"]));
}

fn search_of(a: RefreshAction) -> Query {
    match a {
        RefreshAction::Search(q) => q,
        _ => panic!("expected a search"),
    }
}

#[test]
fn refresh_walks_asset_collection_and_lineage() {
    let (mut r, first) = Refresh::start("schema-1", &config(None));
    match search_of(first) {
        Query::Asset(id) => assert_eq!(id, "schema-1"),
        _ => panic!("asset first"),
    }
    match search_of(r.step(vec![dim_product()])) {
        Query::Asset(id) => assert_eq!(id, "coll-1"),
        _ => panic!("collection next"),
    }
    match search_of(r.step(vec![obj(vec![("core.name", text("Product Catalog"))])])) {
        Query::Columns(loc) => assert_eq!(loc, "loc-1"),
        _ => panic!("columns next"),
    }
    match search_of(r.step(vec![obj(vec![("core.identity", text("col-1"))])])) {
        Query::EdgesFrom(ids) => assert_eq!(ids, strings(&["schema-1", "col-1"])),
        _ => panic!("outgoing edges next"),
    }
    let out = vec![obj(vec![("type", text("core.DataSetDataFlow")), ("core.sourceIdentity", text("schema-1")), ("core.targetIdentity", text("fact-9"))])];
    match search_of(r.step(out)) {
        Query::EdgesTo(ids) => assert_eq!(ids, strings(&["schema-1", "col-1"])),
        _ => panic!("incoming edges next"),
    }
    match search_of(r.step(vec![])) {
        Query::Objects(ids) => assert_eq!(ids, strings(&["fact-9"])),
        _ => panic!("names next"),
    }
    let objs = vec![obj(vec![("core.identity", text("fact-9")), ("core.name", text("fact_order_line.csv"))])];
    match r.step(objs) {
        RefreshAction::Done(f) => {
            assert_eq!(get(&f, "x-dp-provenance-collection").as_deref(), Some("Product Catalog"));
            assert_eq!(get(&f, "x-dp-lineage-downstream").as_deref(), Some("fact_order_line.csv"));
            assert_eq!(get(&f, "x-dp-lineage-status").as_deref(), Some("present"));
            assert_eq!(get(&f, "x-dp-lineage-upstream"), None);
            assert_eq!(f.len(), 13);
        },
        _ => panic!("done"),
    }
    assert_eq!(r.stage, RefreshStage::Finished);
}

#[test]
fn refresh_without_lineage_or_asset() {
    let (mut r, _) = Refresh::start("schema-1", &config(Some(false)));
    let file = obj(vec![("core.name", text("n"))]);
    match r.step(vec![file]) {
        RefreshAction::Done(f) => assert_eq!(entries(&f), vec![("x-dp-provenance-name".to_string(), "n".to_string())]),
        _ => panic!("done without lineage"),
    }
    let (mut missing, _) = Refresh::start("nope", &config(None));
    assert!(matches!(missing.step(vec![]), RefreshAction::NotFound));
}

#[test]
fn refresh_with_no_lineage_edges_reports_none() {
    let (mut r, _) = Refresh::start("schema-1", &config(None));
    match search_of(r.step(vec![obj(vec![("core.name", text("n"))])])) {
        Query::EdgesFrom(ids) => assert_eq!(ids, strings(&["schema-1"])),
        _ => panic!("edges without location"),
    }
    let _ = search_of(r.step(vec![]));
    match r.step(vec![]) {
        RefreshAction::Done(f) => assert_eq!(get(&f, "x-dp-lineage-status").as_deref(), Some("none")),
        _ => panic!("done"),
    }
}
