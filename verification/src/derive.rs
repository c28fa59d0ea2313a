//! Derivation helpers: reading catalog search hits into the values stamped as
//! headers, and classifying relationships as structural or lineage.

use vstd::prelude::*;
use crate::json::{opt_text, Json};
use crate::text::{chars_of, ends_with, has_suffix, pieces, split_on, split_ranges, str_eq, utf8};

verus! {

broadcast use vstd::utf8::encode_utf8_decode_utf8;

/// The JSON-RPC methods that carry data-product content worth enriching.
pub open spec fn content_method(m: Seq<char>) -> bool {
    ||| m == "tools/call"@
    ||| m == "resources/read"@
    ||| m == "prompts/get"@
    ||| m == "message/send"@
    ||| m == "message/stream"@
    ||| m == "SendMessage"@
    ||| m == "SendStreamingMessage"@
}

/// JSON-RPC methods carrying data-product content worth enriching (MCP tool
/// calls, resource reads and prompt fetches; A2A messages).
pub fn is_content_method(method: &str) -> (r: bool)
    ensures
        r == content_method(method@),
{
    str_eq(method, "tools/call") || str_eq(method, "resources/read") || str_eq(
        method,
        "prompts/get",
    ) || str_eq(method, "message/send") || str_eq(method, "message/stream") || str_eq(
        method,
        "SendMessage",
    ) || str_eq(method, "SendStreamingMessage")
}

/// The content methods are exactly these seven: MCP `tools/call`,
/// `resources/read`, `prompts/get`, and A2A `message/send`, `message/stream`,
/// `SendMessage`, `SendStreamingMessage`. Any other method, in particular a
/// listing method ending in `/list`, carries no content.
pub proof fn lemma_content_methods(m: Seq<char>)
    ensures
        content_method(m) <==> (m == "tools/call"@ || m == "resources/read"@ || m
            == "prompts/get"@ || m == "message/send"@ || m == "message/stream"@ || m
            == "SendMessage"@ || m == "SendStreamingMessage"@),
        m.len() >= 5 && m.skip(m.len() - 5) == "/list"@ ==> !content_method(m),
{
    reveal_strlit("tools/call");
    reveal_strlit("resources/read");
    reveal_strlit("prompts/get");
    reveal_strlit("message/send");
    reveal_strlit("message/stream");
    reveal_strlit("SendMessage");
    reveal_strlit("SendStreamingMessage");
    reveal_strlit("/list");
    if m.len() >= 5 && m.skip(m.len() - 5) == "/list"@ {
        let l = m.len() - 1;
        assert(m[l] == m.skip(m.len() - 5)[4]);
        assert(m[l - 1] == m.skip(m.len() - 5)[3]);
        assert(m[l] == 't' && m[l - 1] == 's');
    }
}

/// Read a string attribute.
pub fn s(map: &Json, key: &str) -> (r: Option<String>)
    ensures
        opt_text(r) == map.text_field(key@),
{
    match map.get(key) {
        Some(Json::Str(v)) => Some(v.clone()),
        _ => None,
    }
}

/// A scalar attribute that may be a non-empty string or a number, as text.
pub open spec fn scalar_text(map: Json, key: Seq<char>) -> Option<Seq<char>> {
    match map.field(key) {
        Some(Json::Str(v)) => if v@.len() > 0 {
            Some(v@)
        } else {
            None
        },
        Some(Json::Number(n)) => Some(n@),
        _ => None,
    }
}

/// Read a scalar attribute that may be a string OR a JSON number (e.g. epoch ms).
pub fn num_or_str(map: &Json, key: &str) -> (r: Option<String>)
    ensures
        opt_text(r) == scalar_text(*map, key@),
{
    match map.get(key) {
        Some(Json::Str(v)) => if v.as_str().is_empty() {
            None
        } else {
            Some(v.clone())
        },
        Some(Json::Number(n)) => Some(n.clone()),
        _ => None,
    }
}

/// `b` is two equal halves, one after the other.
pub open spec fn is_doubled_bytes(b: Seq<u8>) -> bool {
    b.len() % 2 == 0 && b.take((b.len() / 2) as int) == b.skip((b.len() / 2) as int)
}

/// What `dedupe_doubled` gives: the first half when the UTF-8 bytes of `v` are
/// two equal halves, else `v`.
pub open spec fn dedupe(v: Seq<char>) -> Seq<char> {
    let b = utf8(v);
    if is_doubled_bytes(b) {
        vstd::utf8::decode_utf8(b.take((b.len() / 2) as int))
    } else {
        v
    }
}

/// Two equal halves of UTF-8 meet at a character boundary: the byte after the
/// midpoint repeats the first byte, which starts a character.
proof fn lemma_doubled_splits_at_boundary(v: Seq<char>)
    requires
        is_doubled_bytes(utf8(v)),
    ensures
        vstd::utf8::is_char_boundary(utf8(v), (utf8(v).len() / 2) as int),
{
    broadcast use vstd::utf8::encode_utf8_valid_utf8;

    let b = utf8(v);
    let m = (b.len() / 2) as int;
    if m > 0 {
        assert(b =~= b.take(m) + b.skip(m));
        assert(b[m] == b.skip(m)[0]);
        assert(b.take(m)[0] == b[0]);
        vstd::utf8::is_char_boundary_iff_not_is_continuation_byte(b, 0);
        vstd::utf8::is_char_boundary_iff_not_is_continuation_byte(b, m);
    } else {
        vstd::utf8::is_char_boundary_start_end_of_seq(b);
    }
}

/// The catalog sometimes doubles a resource name ("Foo BarFoo Bar"); halve it
/// when it is an exact concatenation of two equal halves. A text whose byte
/// midpoint falls inside a character is not two equal halves and is left
/// untouched.
pub fn dedupe_doubled(v: &str) -> (r: String)
    ensures
        r@ == dedupe(v@),
{
    let n = v.as_bytes().len();
    if n % 2 == 0 && v.is_char_boundary(n / 2) {
        let (a, b) = v.split_at(n / 2);
        proof {
            assert(vstd::utf8::decode_utf8(utf8(a@)) == a@);
            assert(vstd::utf8::decode_utf8(utf8(b@)) == b@);
        }
        if str_eq(a, b) {
            return a.to_owned();
        }
        assert(utf8(v@).take((n / 2) as int) != utf8(v@).skip((n / 2) as int)) by {
            assert(utf8(v@).take((n / 2) as int) =~= utf8(a@));
            assert(utf8(v@).skip((n / 2) as int) =~= utf8(b@));
        }
    } else if n % 2 == 0 {
        proof {
            if is_doubled_bytes(utf8(v@)) {
                lemma_doubled_splits_at_boundary(v@);
            }
        }
    }
    v.to_owned()
}

/// Halving law: `dedupe_doubled` gives back `a` for a doubled string `a + a`.
pub proof fn lemma_dedupe_doubled_halves(a: Seq<char>)
    ensures
        dedupe(a + a) == a,
{
    broadcast use vstd::utf8::encode_utf8_valid_utf8;

    let b = utf8(a);
    let bb = utf8(a + a);
    crate::text::lemma_utf8_concat(a, a);
    assert(bb == b + b);
    assert(bb.len() % 2 == 0);
    assert(bb.take(b.len() as int) =~= b);
    assert(bb.skip(b.len() as int) =~= b);
    assert((bb.len() / 2) as int == b.len());
    if b.len() > 0 {
        vstd::utf8::is_char_boundary_iff_not_is_continuation_byte(b, 0);
        vstd::utf8::is_char_boundary_iff_not_is_continuation_byte(bb, b.len() as int);
        assert(bb[b.len() as int] == b[0]);
    }
}

/// `dedupe_doubled` only ever halves: its result is the input, or the input is
/// the result written twice.
pub proof fn lemma_dedupe_is_input_or_half(v: Seq<char>)
    ensures
        dedupe(v) == v || v == dedupe(v) + dedupe(v),
{
    broadcast use vstd::utf8::encode_utf8_valid_utf8;

    let b = utf8(v);
    if is_doubled_bytes(b) {
        let m = (b.len() / 2) as int;
        let h = b.take(m);
        assert(b =~= h + h);
        if m > 0 {
            vstd::utf8::is_char_boundary_iff_not_is_continuation_byte(b, 0);
            vstd::utf8::is_char_boundary_iff_not_is_continuation_byte(b, m);
            assert(b[m] == b[0]);
        } else {
            vstd::utf8::is_char_boundary_start_end_of_seq(b);
        }
        vstd::utf8::valid_utf8_split(b, m);
        assert(b.subrange(0, m) =~= h);
        let d = vstd::utf8::decode_utf8(h);
        vstd::utf8::decode_utf8_encode_utf8(h);
        assert(utf8(d) == h);
        crate::text::lemma_utf8_concat(d, d);
        assert(utf8(d + d) == b);
        assert(vstd::utf8::decode_utf8(utf8(v)) == v);
        assert(vstd::utf8::decode_utf8(utf8(d + d)) == d + d);
    }
}

/// The last piece of `parts` that ends in `.csv`.
pub open spec fn last_csv(parts: Seq<Seq<char>>) -> Option<Seq<char>>
    decreases parts.len(),
{
    if parts.len() == 0 {
        None
    } else if has_suffix(parts.last(), ".csv"@) {
        Some(parts.last())
    } else {
        last_csv(parts.drop_last())
    }
}

/// The file name inside an external id: the part before the first `~`, split
/// on `/`, and the last piece that ends in `.csv`.
pub open spec fn csv_file_of(ext: Seq<char>) -> Option<Seq<char>> {
    last_csv(split_on(split_on(ext, '~')[0], '/'))
}

/// The display name of a lineage neighbour: the `.csv` file of its external
/// id, else its `core.name`.
pub open spec fn neighbour_name(obj: Json) -> Option<Seq<char>> {
    match obj.text_field("core.externalId"@) {
        Some(ext) => match csv_file_of(ext) {
            Some(f) => Some(f),
            None => obj.text_field("core.name"@),
        },
        None => obj.text_field("core.name"@),
    }
}

/// The last `/`-piece ending in `.csv` of the part of `ext` before the first `~`.
fn csv_file(ext: &str) -> (r: Option<String>)
    ensures
        opt_text(r) == csv_file_of(ext@),
{
    let v = chars_of(ext);
    let r1 = split_ranges(&v, '~');
    let (a, b) = r1[0];
    assert(pieces(v@, r1@)[0] == v@.subrange(a as int, b as int));
    let base = ext.substring_char(a, b);
    let w = chars_of(base);
    let r2 = split_ranges(&w, '/');
    let ghost parts = split_on(base@, '/');
    let mut j: usize = r2.len();
    assert(parts.take(j as int) =~= parts);
    while j > 0
        invariant
            w@ == base@,
            parts == pieces(w@, r2@),
            parts == split_on(base@, '/'),
            base@ == split_on(ext@, '~')[0],
            crate::text::ranges_within(r2@, w@.len()),
            0 <= j <= r2@.len(),
            r2@.len() == parts.len(),
            last_csv(parts) == last_csv(parts.take(j as int)),
        decreases j,
    {
        let (c, d) = r2[j - 1];
        assert(parts[j - 1] == w@.subrange(c as int, d as int));
        let piece = base.substring_char(c, d);
        proof {
            reveal_strlit(".csv");
        }
        assert(parts.take(j as int).last() == parts[j - 1]);
        if ends_with(piece, ".csv") {
            return Some(piece.to_owned());
        }
        assert(parts.take(j as int).drop_last() =~= parts.take(j - 1));
        j = j - 1;
    }
    None
}

/// The display name of a lineage neighbour, resolved to its parent FILE so a
/// column-level edge (e.g. sku->sku) still reports as "fact_order_line.csv".
/// Parses the *.csv segment out of the external id; falls back to core.name.
pub fn neighbor_file(obj: &Json) -> (r: Option<String>)
    ensures
        opt_text(r) == neighbour_name(*obj),
{
    if let Some(ext) = s(obj, "core.externalId") {
        if let Some(f) = csv_file(ext.as_str()) {
            return Some(f);
        }
    }
    s(obj, "core.name")
}

/// Relationship class types that are structural/governance edges on a scanned
/// asset, not data lineage. Lineage uses `core.DataSetDataFlow` /
/// `core.DirectionalDataFlow`, which are deliberately absent.
pub open spec fn structural_types() -> Seq<Seq<char>> {
    seq![
        "com.infa.odin.models.file.FileToField"@,
        "com.infa.odin.models.file.FolderToFile"@,
        "core.QuasiClassifiedAs"@,
        "com.infa.ccgf.models.governance.asscIClassDQResult"@,
        "com.infa.ccgf.models.governance.asscParentDataElementRuleInstance"@,
        "com.infa.ccgf.models.governance.asscSecondaryObjectofRuleInstance"@,
        "com.infa.ccgf.models.governance.IClassTechnicalGlossaryBase"@,
        "com.infa.ccgf.models.governance.asscSystemDataSet"@,
        "com.infa.cdmp.marketplace.asscDataCollection"@,
    ]
}

/// The class types that custom lineage writes, object-level
/// (`core.DataSetDataFlow`) and column-level (`core.DirectionalDataFlow`), are
/// not structural: seeded lineage surfaces with no rebuild.
pub proof fn lemma_dataflow_types_are_lineage()
    ensures
        !structural_types().contains("core.DataSetDataFlow"@),
        !structural_types().contains("core.DirectionalDataFlow"@),
{
    reveal_strlit("core.DataSetDataFlow");
    reveal_strlit("core.DirectionalDataFlow");
    reveal_strlit("com.infa.odin.models.file.FileToField");
    reveal_strlit("com.infa.odin.models.file.FolderToFile");
    reveal_strlit("core.QuasiClassifiedAs");
    reveal_strlit("com.infa.ccgf.models.governance.asscIClassDQResult");
    reveal_strlit("com.infa.ccgf.models.governance.asscParentDataElementRuleInstance");
    reveal_strlit("com.infa.ccgf.models.governance.asscSecondaryObjectofRuleInstance");
    reveal_strlit("com.infa.ccgf.models.governance.IClassTechnicalGlossaryBase");
    reveal_strlit("com.infa.ccgf.models.governance.asscSystemDataSet");
    reveal_strlit("com.infa.cdmp.marketplace.asscDataCollection");
    let st = structural_types();
    assert forall|i: int| 0 <= i < st.len() implies st[i] != "core.DataSetDataFlow"@ && st[i]
        != "core.DirectionalDataFlow"@ by {
        if i == 2 {
            assert(st[i][5] != "core.DataSetDataFlow"@[5]);
            assert(st[i][5] != "core.DirectionalDataFlow"@[5]);
        } else {
            assert(st[i][2] != "core.DataSetDataFlow"@[2]);
            assert(st[i][2] != "core.DirectionalDataFlow"@[2]);
        }
    }
}

/// The structural class types are exactly nine: the folder-to-file and
/// file-to-field edges of a scanned file, classification, data-quality and rule
/// links, the technical glossary, the system data set, and the marketplace
/// data collection.
pub proof fn lemma_structural_type_names(t: Seq<char>)
    ensures
        structural_types().contains(t) <==> (
            t == "com.infa.odin.models.file.FileToField"@ ||
            t == "com.infa.odin.models.file.FolderToFile"@ ||
            t == "core.QuasiClassifiedAs"@ ||
            t == "com.infa.ccgf.models.governance.asscIClassDQResult"@ ||
            t == "com.infa.ccgf.models.governance.asscParentDataElementRuleInstance"@ ||
            t == "com.infa.ccgf.models.governance.asscSecondaryObjectofRuleInstance"@ ||
            t == "com.infa.ccgf.models.governance.IClassTechnicalGlossaryBase"@ ||
            t == "com.infa.ccgf.models.governance.asscSystemDataSet"@ ||
            t == "com.infa.cdmp.marketplace.asscDataCollection"@
        ),
{
    let st = structural_types();
    if t == "com.infa.odin.models.file.FileToField"@ {
        assert(st[0] == t);
    } else if t == "com.infa.odin.models.file.FolderToFile"@ {
        assert(st[1] == t);
    } else if t == "core.QuasiClassifiedAs"@ {
        assert(st[2] == t);
    } else if t == "com.infa.ccgf.models.governance.asscIClassDQResult"@ {
        assert(st[3] == t);
    } else if t == "com.infa.ccgf.models.governance.asscParentDataElementRuleInstance"@ {
        assert(st[4] == t);
    } else if t == "com.infa.ccgf.models.governance.asscSecondaryObjectofRuleInstance"@ {
        assert(st[5] == t);
    } else if t == "com.infa.ccgf.models.governance.IClassTechnicalGlossaryBase"@ {
        assert(st[6] == t);
    } else if t == "com.infa.ccgf.models.governance.asscSystemDataSet"@ {
        assert(st[7] == t);
    } else if t == "com.infa.cdmp.marketplace.asscDataCollection"@ {
        assert(st[8] == t);
    } else {
        assert forall|i: int| 0 <= i < st.len() implies st[i] != t by {
            if i == 0 {
            } else if i == 1 {
            } else if i == 2 {
            } else if i == 3 {
            } else if i == 4 {
            } else if i == 5 {
            } else if i == 6 {
            } else if i == 7 {
            } else {
            }
        }
    }
}

/// A relationship whose `type` is a single string is structural exactly when
/// the string is one of the nine structural class types; so is one with no
/// `type` whose `core.classType` is such a string.
pub proof fn lemma_structural_by_type(rel: Json, t: Seq<char>)
    requires
        (rel.field("type"@) matches Some(Json::Str(s)) && s@ == t) || (rel.field("type"@) is None
            && (rel.field("core.classType"@) matches Some(Json::Str(s)) && s@ == t)),
    ensures
        structural(rel) <==> (
            t == "com.infa.odin.models.file.FileToField"@ ||
            t == "com.infa.odin.models.file.FolderToFile"@ ||
            t == "core.QuasiClassifiedAs"@ ||
            t == "com.infa.ccgf.models.governance.asscIClassDQResult"@ ||
            t == "com.infa.ccgf.models.governance.asscParentDataElementRuleInstance"@ ||
            t == "com.infa.ccgf.models.governance.asscSecondaryObjectofRuleInstance"@ ||
            t == "com.infa.ccgf.models.governance.IClassTechnicalGlossaryBase"@ ||
            t == "com.infa.ccgf.models.governance.asscSystemDataSet"@ ||
            t == "com.infa.cdmp.marketplace.asscDataCollection"@
        ),
{
    lemma_structural_type_names(t);
}

/// A relationship whose `type` is an array (the class hierarchy) is
/// structural exactly when one of its string entries is one of the nine
/// structural class types.
pub proof fn lemma_structural_by_hierarchy(rel: Json)
    requires
        rel.field("type"@) matches Some(Json::Array(_)),
    ensures
        structural(rel) <==> exists|i: int|
            0 <= i < rel.field("type"@)->Some_0->Array_0@.len() && match #[trigger] rel.field(
                "type"@,
            )->Some_0->Array_0@[i] {
                Json::Str(t) => t@ == "com.infa.odin.models.file.FileToField"@ ||
                    t@ == "com.infa.odin.models.file.FolderToFile"@ ||
                    t@ == "core.QuasiClassifiedAs"@ ||
                    t@ == "com.infa.ccgf.models.governance.asscIClassDQResult"@ ||
                    t@ == "com.infa.ccgf.models.governance.asscParentDataElementRuleInstance"@ ||
                    t@ == "com.infa.ccgf.models.governance.asscSecondaryObjectofRuleInstance"@ ||
                    t@ == "com.infa.ccgf.models.governance.IClassTechnicalGlossaryBase"@ ||
                    t@ == "com.infa.ccgf.models.governance.asscSystemDataSet"@ ||
                    t@ == "com.infa.cdmp.marketplace.asscDataCollection"@,
                _ => false,
            },
{
    let items = rel.field("type"@)->Some_0->Array_0@;
    assert forall|i: int| 0 <= i < items.len() implies (match #[trigger] items[i] {
        Json::Str(t) => structural_types().contains(t@),
        _ => false,
    }) == (match items[i] {
        Json::Str(t) => t@ == "com.infa.odin.models.file.FileToField"@ ||
            t@ == "com.infa.odin.models.file.FolderToFile"@ ||
            t@ == "core.QuasiClassifiedAs"@ ||
            t@ == "com.infa.ccgf.models.governance.asscIClassDQResult"@ ||
            t@ == "com.infa.ccgf.models.governance.asscParentDataElementRuleInstance"@ ||
            t@ == "com.infa.ccgf.models.governance.asscSecondaryObjectofRuleInstance"@ ||
            t@ == "com.infa.ccgf.models.governance.IClassTechnicalGlossaryBase"@ ||
            t@ == "com.infa.ccgf.models.governance.asscSystemDataSet"@ ||
            t@ == "com.infa.cdmp.marketplace.asscDataCollection"@,
        _ => false,
    }) by {
        if let Json::Str(t) = items[i] {
            lemma_structural_type_names(t@);
        }
    }
}

/// A relationship whose class type, or every string entry of its class
/// hierarchy, is a dataflow type counts as lineage.
pub proof fn lemma_dataflow_edges_are_lineage(rel: Json)
    requires
        match class_type(rel) {
            Some(Json::Str(t)) => t@ == "core.DataSetDataFlow"@ || t@
                == "core.DirectionalDataFlow"@,
            Some(Json::Array(items)) => forall|i: int|
                0 <= i < items@.len() ==> match #[trigger] items@[i] {
                    Json::Str(t) => t@ == "core.DataSetDataFlow"@ || t@
                        == "core.DirectionalDataFlow"@,
                    _ => true,
                },
            _ => true,
        },
    ensures
        !structural(rel),
{
    lemma_dataflow_types_are_lineage();
}

/// The relationship class types that are structural, not lineage.
pub fn structural_rel_types() -> (r: Vec<&'static str>)
    ensures
        r@.map_values(|t: &str| t@) == structural_types(),
{
    let r = vec![
        "com.infa.odin.models.file.FileToField",
        "com.infa.odin.models.file.FolderToFile",
        "core.QuasiClassifiedAs",
        "com.infa.ccgf.models.governance.asscIClassDQResult",
        "com.infa.ccgf.models.governance.asscParentDataElementRuleInstance",
        "com.infa.ccgf.models.governance.asscSecondaryObjectofRuleInstance",
        "com.infa.ccgf.models.governance.IClassTechnicalGlossaryBase",
        "com.infa.ccgf.models.governance.asscSystemDataSet",
        "com.infa.cdmp.marketplace.asscDataCollection",
    ];
    assert(r@.map_values(|t: &str| t@) =~= structural_types());
    r
}

/// Whether `t` is one of the structural class types.
fn is_structural_type(t: &str) -> (r: bool)
    ensures
        r == structural_types().contains(t@),
{
    let types = structural_rel_types();
    let n = types.len();
    let mut i: usize = 0;
    while i < n
        invariant
            n == types@.len(),
            types@.map_values(|x: &str| x@) == structural_types(),
            0 <= i <= n,
            forall|k: int| 0 <= k < i ==> structural_types()[k] != t@,
        decreases n - i,
    {
        assert(structural_types()[i as int] == types@[i as int]@);
        if str_eq(types[i], t) {
            return true;
        }
        i = i + 1;
    }
    false
}

/// A relationship's class type: its `type`, or, when that is absent, its
/// `core.classType`.
pub open spec fn class_type(rel: Json) -> Option<Json> {
    match rel.field("type"@) {
        Some(t) => Some(t),
        None => rel.field("core.classType"@),
    }
}

/// A relationship is structural if its class type is a structural type, or
/// is an array (the class hierarchy) holding one as a string entry.
pub open spec fn structural(rel: Json) -> bool {
    match class_type(rel) {
        Some(Json::Str(t)) => structural_types().contains(t@),
        Some(Json::Array(items)) => exists|i: int|
            0 <= i < items@.len() && match #[trigger] items@[i] {
                Json::Str(t) => structural_types().contains(t@),
                _ => false,
            },
        _ => false,
    }
}

/// The relationship's class type can be a single string or an array (the class
/// hierarchy). A relationship is structural if ANY of its type entries is known.
pub fn rel_is_structural(rel: &Json) -> (r: bool)
    ensures
        r == structural(*rel),
{
    let t = match rel.get("type") {
        Some(t) => Some(t),
        None => rel.get("core.classType"),
    };
    match t {
        Some(Json::Str(v)) => is_structural_type(v.as_str()),
        Some(Json::Array(items)) => {
            let n = items.len();
            let mut i: usize = 0;
            while i < n
                invariant
                    n == items@.len(),
                    0 <= i <= n,
                    class_type(*rel) matches Some(Json::Array(xs)) && xs@ == items@,
                    forall|k: int|
                        0 <= k < i ==> match #[trigger] items@[k] {
                            Json::Str(t) => !structural_types().contains(t@),
                            _ => true,
                        },
                decreases n - i,
            {
                if let Json::Str(e) = &items[i] {
                    if is_structural_type(e.as_str()) {
                        return true;
                    }
                }
                i = i + 1;
            }
            false
        },
        _ => false,
    }
}

} // verus!
