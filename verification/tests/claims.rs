use provenance_stamping::claims::{base64url_decode, claim_str, decode_bearer_claims};
use provenance_stamping::json::Json;
use serde_json::{Number, Value};

fn b64url(bytes: &[u8]) -> String {
    const T: &[u8] = b"ABCDEFGHIJKLMNOPQRSTUVWXYZabcdefghijklmnopqrstuvwxyz0123456789-_";
    let mut s = String::new();
    for chunk in bytes.chunks(3) {
        let b = [chunk[0], *chunk.get(1).unwrap_or(&0), *chunk.get(2).unwrap_or(&0)];
        let n = ((b[0] as u32) << 16) | ((b[1] as u32) << 8) | b[2] as u32;
        for i in 0..chunk.len() + 1 {
            s.push(T[((n >> (18 - 6 * i)) & 63) as usize] as char);
        }
    }
    s
}

fn make_jwt(payload: &Value) -> String {
    format!("h.{}.sig", b64url(payload.to_string().as_bytes()))
}

fn to_json(v: &Value) -> Json {
    match v {
        Value::Null => Json::Null,
        Value::Bool(b) => Json::Bool(*b),
        Value::Number(n) => Json::Number(n.to_string()),
        Value::String(s) => Json::Str(s.clone()),
        Value::Array(a) => Json::Array(a.iter().map(to_json).collect()),
        Value::Object(o) => Json::Object(o.iter().map(|(k, v)| (k.clone(), to_json(v))).collect()),
    }
}

fn parse_claims(bytes: &[u8]) -> Json {
    to_json(&serde_json::from_slice::<Value>(bytes).unwrap())
}

fn object(members: Vec<(&str, Value)>) -> Value {
    let mut m = serde_json::Map::new();
    for (k, v) in members {
        m.insert(k.to_string(), v);
    }
    Value::Object(m)
}

fn text(s: &str) -> Value {
    Value::String(s.to_string())
}

#[test]
fn decodes_and_reads_claims() {
    let jwt = make_jwt(&object(vec![
        ("clearance", text("restricted")),
        ("purpose", text("fraud-detection")),
    ]));
    let auth = format!("Bearer {jwt}");
    let claims = parse_claims(&decode_bearer_claims(Some(&auth)).unwrap());
    assert_eq!(claim_str(&claims, "clearance").as_deref(), Some("restricted"));
    assert_eq!(claim_str(&claims, "purpose").as_deref(), Some("fraud-detection"));
    assert_eq!(claim_str(&claims, "missing"), None);
}

#[test]
fn namespaced_claim_key_and_lowercase_scheme() {
    let jwt = make_jwt(&object(vec![("https://acme/clearance", text("internal"))]));
    let auth = format!("bearer {jwt}");
    let claims = parse_claims(&decode_bearer_claims(Some(&auth)).unwrap());
    assert_eq!(claim_str(&claims, "https://acme/clearance").as_deref(), Some("internal"));
}

#[test]
fn single_element_array_and_number() {
    let claims = to_json(&object(vec![
        ("roles", Value::Array(vec![text("restricted")])),
        ("lvl", Value::Number(Number::from(3))),
        ("many", Value::Array(vec![text("a"), text("b")])),
    ]));
    assert_eq!(claim_str(&claims, "roles").as_deref(), Some("restricted"));
    assert_eq!(claim_str(&claims, "lvl").as_deref(), Some("3"));
    assert_eq!(claim_str(&claims, "many"), None);
}

#[test]
fn non_bearer_or_malformed() {
    assert!(decode_bearer_claims(None).is_none());
    assert!(decode_bearer_claims(Some("Basic xyz")).is_none());
    assert!(decode_bearer_claims(Some("Bearer notajwt")).is_none());
}

#[test]
fn bearer_scheme_in_capitals_and_padded_header() {
    let jwt = make_jwt(&object(vec![("k", text("v"))]));
    let auth = format!("  BEARER   {jwt}  ");
    let claims = parse_claims(&decode_bearer_claims(Some(&auth)).unwrap());
    assert_eq!(claim_str(&claims, "k").as_deref(), Some("v"));
    assert!(decode_bearer_claims(Some("Bearer a.!!.c")).is_none());
    assert_eq!(decode_bearer_claims(Some("Bearer a..c")), Some(vec![]));
}

#[test]
fn claim_str_trims_and_rejects_blank_and_objects() {
    let claims = to_json(&object(vec![
        ("pad", text("  x  ")),
        ("blank", text("   ")),
        ("obj", object(vec![("a", text("b"))])),
        ("arr_num", Value::Array(vec![Value::Number(Number::from(1))])),
        ("arr_pad", Value::Array(vec![text(" y ")])),
        ("arr_two", Value::Array(vec![text("a"), text("b")])),
        ("flag", Value::Bool(true)),
    ]));
    assert_eq!(claim_str(&claims, "pad").as_deref(), Some("x"));
    assert_eq!(claim_str(&claims, "blank"), None);
    assert_eq!(claim_str(&claims, "obj"), None);
    assert_eq!(claim_str(&claims, "arr_num").as_deref(), Some("1"));
    assert_eq!(claim_str(&claims, "arr_pad").as_deref(), Some("y"));
    assert_eq!(claim_str(&claims, "arr_two"), None);
    assert_eq!(claim_str(&claims, "flag"), None);
    assert_eq!(claim_str(&Json::Str("x".to_string()), "pad"), None);
}

#[test]
fn base64url_decodes_groups_and_partial_groups() {
    assert_eq!(base64url_decode("TWFu"), Some(b"Man".to_vec()));
    assert_eq!(base64url_decode("TWE"), Some(b"Ma".to_vec()));
    assert_eq!(base64url_decode("TQ"), Some(b"M".to_vec()));
    assert_eq!(base64url_decode("T"), Some(vec![]));
    assert_eq!(base64url_decode(""), Some(vec![]));
    assert_eq!(base64url_decode("-_8"), Some(vec![0xfb, 0xff]));
}

#[test]
fn base64url_stops_at_padding_and_rejects_foreign_bytes() {
    assert_eq!(base64url_decode("TQ==garbage!"), Some(b"M".to_vec()));
    assert_eq!(base64url_decode("TW+u"), None);
    assert_eq!(base64url_decode("TW/u"), None);
    assert_eq!(base64url_decode("TWé"), None);
}

#[test]
fn base64url_round_trips_encoded_bytes() {
    let data: Vec<u8> = (0u8..=255).collect();
    assert_eq!(base64url_decode(&b64url(&data)), Some(data));
}

#[test]
fn bearer_token_in_any_scheme_carries_its_payload_bytes() {
    let payload: Vec<u8> = vec![0, 1, 2, 250, 255, b'{', b'}'];
    for scheme in ["Bearer ", "bearer ", "BEARER "] {
        for (header, sig) in [("h", "sig"), ("", ""), ("  x", "a.b . "), ("eyJ", "  ")] {
            let auth = format!("{scheme}{header}.{}.{sig}", b64url(&payload));
            assert_eq!(decode_bearer_claims(Some(&auth)), Some(payload.clone()), "{auth:?}");
        }
    }
}
