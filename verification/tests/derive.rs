use provenance_stamping::derive::{
    dedupe_doubled, is_content_method, neighbor_file, num_or_str, rel_is_structural,
};
use provenance_stamping::json::Json;

fn text(s: &str) -> Json {
    Json::Str(s.to_string())
}

fn obj(members: Vec<(&str, Json)>) -> Json {
    Json::Object(members.into_iter().map(|(k, v)| (k.to_string(), v)).collect())
}

#[test]
fn dedupe_doubled_halves_exact_duplication() {
    assert_eq!(
        dedupe_doubled("Product Catalog dim_productProduct Catalog dim_product"),
        "Product Catalog dim_product"
    );
    assert_eq!(dedupe_doubled("abcabc"), "abc");
}

#[test]
fn dedupe_doubled_leaves_non_doubled_untouched() {
    assert_eq!(dedupe_doubled("File System"), "File System");
    assert_eq!(dedupe_doubled("abcd"), "abcd"); // even len, halves differ
    assert_eq!(dedupe_doubled("aba"), "aba"); // odd len
    assert_eq!(dedupe_doubled(""), "");
}

#[test]
fn dedupe_doubled_halves_multibyte_names() {
    assert_eq!(dedupe_doubled("éüéü"), "éü");
    assert_eq!(dedupe_doubled("éaé"), "éaé");
    assert_eq!(dedupe_doubled("aéb"), "aéb"); // byte midpoint inside 'é'
    assert_eq!(dedupe_doubled("ééé"), "ééé");
}

#[test]
fn num_or_str_reads_numbers_and_strings() {
    let v = obj(vec![
        ("core.modifiedOn", Json::Number("1788347759583".to_string())),
        ("core.sourceModifiedOn", text("2026-08-31")),
        ("empty", text("")),
    ]);
    assert_eq!(num_or_str(&v, "core.modifiedOn").as_deref(), Some("1788347759583"));
    assert_eq!(num_or_str(&v, "core.sourceModifiedOn").as_deref(), Some("2026-08-31"));
    assert_eq!(num_or_str(&v, "empty"), None);
    assert_eq!(num_or_str(&v, "missing"), None);
}

#[test]
fn neighbor_file_resolves_file_and_column_to_file_name() {
    let file = obj(vec![
        ("core.name", text("fact_order_line.csv")),
        (
            "core.externalId",
            text("adb://FileServer/data/csv/order-transactions/fact_order_line.csv~com.infa.odin.models.file.flat.FlatFile"),
        ),
    ]);
    let col = obj(vec![
        ("core.name", text("sku")),
        (
            "core.externalId",
            text("adb://FileServer/data/csv/order-transactions/fact_order_line.csv/sku~com.infa.odin.models.file.flat.FlatField"),
        ),
    ]);
    assert_eq!(neighbor_file(&file).as_deref(), Some("fact_order_line.csv"));
    assert_eq!(neighbor_file(&col).as_deref(), Some("fact_order_line.csv"));
}

#[test]
fn neighbor_file_falls_back_to_core_name() {
    let rel = obj(vec![
        ("core.name", text("customer_master")),
        (
            "core.externalId",
            text("sql://SQLDB/dbo/customer_master~com.infa.odin.models.relational.Table"),
        ),
    ]);
    assert_eq!(neighbor_file(&rel).as_deref(), Some("customer_master"));
    let noext = obj(vec![("core.name", text("thing"))]);
    assert_eq!(neighbor_file(&noext).as_deref(), Some("thing"));
}

#[test]
fn neighbor_file_takes_last_csv_piece_before_tilde() {
    let v = obj(vec![(
        "core.externalId",
        text("x://a.csv/b.csv/c~d/e.csv"),
    )]);
    assert_eq!(neighbor_file(&v).as_deref(), Some("b.csv"));
    assert_eq!(neighbor_file(&obj(vec![])), None);
}

#[test]
fn rel_is_structural_matches_string_and_array_types() {
    assert!(rel_is_structural(&obj(vec![(
        "type",
        text("com.infa.odin.models.file.FileToField")
    )])));
    assert!(rel_is_structural(&obj(vec![(
        "type",
        Json::Array(vec![text("core.IClass"), text("core.QuasiClassifiedAs")])
    )])));
    assert!(rel_is_structural(&obj(vec![(
        "core.classType",
        text("com.infa.cdmp.marketplace.asscDataCollection")
    )])));
}

#[test]
fn rel_is_structural_false_for_lineage_edges() {
    assert!(!rel_is_structural(&obj(vec![("type", text("core.DataSetDataFlow"))])));
    assert!(!rel_is_structural(&obj(vec![("type", text("core.DirectionalDataFlow"))])));
    assert!(!rel_is_structural(&obj(vec![(
        "type",
        Json::Array(vec![text("core.IClass"), text("core.DirectionalDataFlow")])
    )])));
    assert!(!rel_is_structural(&obj(vec![])));
}

#[test]
fn rel_is_structural_type_field_shadows_class_type() {
    let rel = obj(vec![
        ("type", Json::Null),
        ("core.classType", text("core.QuasiClassifiedAs")),
    ]);
    assert!(!rel_is_structural(&rel));
}

#[test]
fn is_content_method_gates_mcp_and_a2a() {
    assert!(is_content_method("tools/call"));
    assert!(is_content_method("resources/read"));
    assert!(is_content_method("message/send"));
    assert!(!is_content_method("tools/list"));
    assert!(!is_content_method("initialize"));
}

#[test]
fn is_content_method_covers_prompts_and_streaming() {
    assert!(is_content_method("prompts/get"));
    assert!(is_content_method("message/stream"));
    assert!(is_content_method("SendMessage"));
    assert!(is_content_method("SendStreamingMessage"));
    assert!(!is_content_method("Tools/Call"));
}
