//! Deriving the provenance and lineage headers of a data product from catalog
//! search results.

use vstd::prelude::*;
use crate::derive::{
    dedupe, dedupe_doubled, neighbor_file, neighbour_name, num_or_str, rel_is_structural, s,
    scalar_text, structural,
};
use crate::headers::HeaderMap;
use crate::json::{opt_text, Json};
use crate::order::text_lt;
use crate::text::{contains, has_infix, lemma_split_on_last, lemma_split_on_none, split_on, str_eq};

verus! {

/// `m` with `k` set to `v` when there is a value.
pub open spec fn put(m: Map<Seq<char>, Seq<char>>, k: Seq<char>, v: Option<Seq<char>>) -> Map<Seq<char>, Seq<char>> {
    match v {
        Some(x) => m.insert(k, x),
        None => m,
    }
}

/// Whether the asset is steward-certified: the first entry of
/// `core.supplement.certified`, when it is a boolean, as `true` / `false`.
pub open spec fn certified_text(file: Json) -> Option<Seq<char>> {
    match file.field("core.supplement.certified"@) {
        Some(Json::Array(items)) => if items@.len() > 0 {
            match items@[0] {
                Json::Bool(b) => Some(
                    if b {
                        "true"@
                    } else {
                        "false"@
                    },
                ),
                _ => None,
            }
        } else {
            None
        },
        _ => None,
    }
}

/// The catalog source name, with a doubled name halved.
pub open spec fn catalog_source(file: Json) -> Option<Seq<char>> {
    match file.text_field("core.resourceName"@) {
        Some(v) => Some(dedupe(v)),
        None => None,
    }
}

/// The provenance headers read from the schema asset's search hit.
pub open spec fn provenance_of(file: Json) -> Map<Seq<char>, Seq<char>> {
    let m = Map::<Seq<char>, Seq<char>>::empty();
    let m = put(m, "x-dp-provenance-name"@, file.text_field("core.name"@));
    let m = put(m, "x-dp-provenance-origin"@, file.text_field("core.origin"@));
    let m = put(m, "x-dp-provenance-external-id"@, file.text_field("core.externalId"@));
    let m = put(m, "x-dp-provenance-source-type"@, file.text_field("core.resourceType"@));
    let m = put(m, "x-dp-provenance-catalog-source"@, catalog_source(file));
    let m = put(m, "x-dp-provenance-path"@, file.text_field("com.infa.odin.models.file.path"@));
    let m = put(
        m,
        "x-dp-provenance-source-modified"@,
        file.text_field("core.sourceModifiedOn"@),
    );
    let m = put(m, "x-dp-provenance-catalog-modified-ms"@, scalar_text(file, "core.modifiedOn"@));
    let m = put(m, "x-dp-provenance-lifecycle"@, file.text_field("core.assetLifecycle"@));
    put(m, "x-dp-provenance-certified"@, certified_text(file))
}

/// `m` has header `h` exactly when there is a value `v`, and then `m[h] == v`.
pub open spec fn stamps(m: Map<Seq<char>, Seq<char>>, h: Seq<char>, v: Option<Seq<char>>) -> bool {
    match v {
        Some(x) => m.dom().contains(h) && m[h] == x,
        None => !m.dom().contains(h),
    }
}

/// Each provenance header carries its own catalog attribute of the schema
/// asset, and is there exactly when the attribute is: name from `core.name`,
/// origin from `core.origin`, external id from `core.externalId`, source type
/// from `core.resourceType`, catalog source from `core.resourceName` (a doubled
/// name halved), path from `com.infa.odin.models.file.path`, source
/// modification time from `core.sourceModifiedOn`, catalog modification time
/// from `core.modifiedOn` (string or number), lifecycle from
/// `core.assetLifecycle`, and certification from `core.supplement.certified`.
/// No other header is stamped.
pub proof fn lemma_provenance_headers(file: Json)
    ensures
        stamps(provenance_of(file), "x-dp-provenance-name"@, file.text_field("core.name"@)),
        stamps(provenance_of(file), "x-dp-provenance-origin"@, file.text_field("core.origin"@)),
        stamps(
            provenance_of(file),
            "x-dp-provenance-external-id"@,
            file.text_field("core.externalId"@),
        ),
        stamps(
            provenance_of(file),
            "x-dp-provenance-source-type"@,
            file.text_field("core.resourceType"@),
        ),
        stamps(
            provenance_of(file),
            "x-dp-provenance-catalog-source"@,
            match file.text_field("core.resourceName"@) {
                Some(v) => Some(dedupe(v)),
                None => None,
            },
        ),
        stamps(
            provenance_of(file),
            "x-dp-provenance-path"@,
            file.text_field("com.infa.odin.models.file.path"@),
        ),
        stamps(
            provenance_of(file),
            "x-dp-provenance-source-modified"@,
            file.text_field("core.sourceModifiedOn"@),
        ),
        stamps(
            provenance_of(file),
            "x-dp-provenance-catalog-modified-ms"@,
            scalar_text(file, "core.modifiedOn"@),
        ),
        stamps(
            provenance_of(file),
            "x-dp-provenance-lifecycle"@,
            file.text_field("core.assetLifecycle"@),
        ),
        stamps(provenance_of(file), "x-dp-provenance-certified"@, certified_text(file)),
        forall|h: Seq<char>|
            #[trigger] provenance_of(file).dom().contains(h) ==> h == "x-dp-provenance-name"@ || h
                == "x-dp-provenance-origin"@ || h == "x-dp-provenance-external-id"@ || h
                == "x-dp-provenance-source-type"@ || h == "x-dp-provenance-catalog-source"@ || h
                == "x-dp-provenance-path"@ || h == "x-dp-provenance-source-modified"@ || h
                == "x-dp-provenance-catalog-modified-ms"@ || h == "x-dp-provenance-lifecycle"@
                || h == "x-dp-provenance-certified"@,
{
    reveal_strlit("x-dp-provenance-name");
    reveal_strlit("x-dp-provenance-origin");
    reveal_strlit("x-dp-provenance-external-id");
    reveal_strlit("x-dp-provenance-source-type");
    reveal_strlit("x-dp-provenance-catalog-source");
    reveal_strlit("x-dp-provenance-path");
    reveal_strlit("x-dp-provenance-source-modified");
    reveal_strlit("x-dp-provenance-catalog-modified-ms");
    reveal_strlit("x-dp-provenance-lifecycle");
    reveal_strlit("x-dp-provenance-certified");
    assert("x-dp-provenance-name"@.len() == 20 && "x-dp-provenance-name"@[16] == 'n' && "x-dp-provenance-name"@[17] == 'a');
    assert("x-dp-provenance-origin"@.len() == 22 && "x-dp-provenance-origin"@[16] == 'o' && "x-dp-provenance-origin"@[17] == 'r');
    assert("x-dp-provenance-external-id"@.len() == 27 && "x-dp-provenance-external-id"@[16] == 'e' && "x-dp-provenance-external-id"@[17] == 'x');
    assert("x-dp-provenance-source-type"@.len() == 27 && "x-dp-provenance-source-type"@[16] == 's' && "x-dp-provenance-source-type"@[17] == 'o');
    assert("x-dp-provenance-catalog-source"@.len() == 30 && "x-dp-provenance-catalog-source"@[16] == 'c' && "x-dp-provenance-catalog-source"@[17] == 'a');
    assert("x-dp-provenance-path"@.len() == 20 && "x-dp-provenance-path"@[16] == 'p' && "x-dp-provenance-path"@[17] == 'a');
    assert("x-dp-provenance-source-modified"@.len() == 31 && "x-dp-provenance-source-modified"@[16] == 's' && "x-dp-provenance-source-modified"@[17] == 'o');
    assert("x-dp-provenance-catalog-modified-ms"@.len() == 35 && "x-dp-provenance-catalog-modified-ms"@[16] == 'c' && "x-dp-provenance-catalog-modified-ms"@[17] == 'a');
    assert("x-dp-provenance-lifecycle"@.len() == 25 && "x-dp-provenance-lifecycle"@[16] == 'l' && "x-dp-provenance-lifecycle"@[17] == 'i');
    assert("x-dp-provenance-certified"@.len() == 25 && "x-dp-provenance-certified"@[16] == 'c' && "x-dp-provenance-certified"@[17] == 'e');
    assert("x-dp-provenance-source-type"@[23] != "x-dp-provenance-source-modified"@[23]);
    assert("x-dp-provenance-catalog-source"@[24] != "x-dp-provenance-catalog-modified-ms"@[24]);
}

/// Set `name` in `fields` when `value` is there.
fn put_some(fields: &mut HeaderMap, name: &str, value: Option<String>)
    ensures
        final(fields)@ == put(old(fields)@, name@, opt_text(value)),
{
    if let Some(v) = value {
        fields.insert(name.to_owned(), v);
    }
}

/// The certification flag of the asset as text.
fn certified(file: &Json) -> (r: Option<String>)
    ensures
        opt_text(r) == certified_text(*file),
{
    match file.get("core.supplement.certified") {
        Some(Json::Array(items)) => if items.len() > 0 {
            match &items[0] {
                Json::Bool(b) => {
                    proof {
                        reveal_strlit("true");
                        reveal_strlit("false");
                    }
                    Some(
                        if *b {
                            "true".to_owned()
                        } else {
                            "false".to_owned()
                        },
                    )
                },
                _ => None,
            }
        } else {
            None
        },
        _ => None,
    }
}

/// The provenance headers of the schema asset: name, origin, external id,
/// source type, catalog source (doubled names halved), path, source and catalog
/// modification times, lifecycle and certification, each when present.
pub fn provenance_fields(file: &Json) -> (r: HeaderMap)
    ensures
        r@ == provenance_of(*file),
{
    let mut m = HeaderMap::new();
    put_some(&mut m, "x-dp-provenance-name", s(file, "core.name"));
    put_some(&mut m, "x-dp-provenance-origin", s(file, "core.origin"));
    put_some(&mut m, "x-dp-provenance-external-id", s(file, "core.externalId"));
    put_some(&mut m, "x-dp-provenance-source-type", s(file, "core.resourceType"));
    let source = match s(file, "core.resourceName") {
        Some(v) => Some(dedupe_doubled(v.as_str())),
        None => None,
    };
    put_some(&mut m, "x-dp-provenance-catalog-source", source);
    put_some(&mut m, "x-dp-provenance-path", s(file, "com.infa.odin.models.file.path"));
    put_some(&mut m, "x-dp-provenance-source-modified", s(file, "core.sourceModifiedOn"));
    put_some(&mut m, "x-dp-provenance-catalog-modified-ms", num_or_str(file, "core.modifiedOn"));
    put_some(&mut m, "x-dp-provenance-lifecycle", s(file, "core.assetLifecycle"));
    put_some(&mut m, "x-dp-provenance-certified", certified(file));
    m
}

/// The marketplace collection among `objs`: the identity of the first object
/// whose class type mentions `DataCollection` and that has an identity.
pub open spec fn first_collection(objs: Seq<Json>) -> Option<Seq<char>>
    decreases objs.len(),
{
    if objs.len() == 0 {
        None
    } else {
        let o = objs[0];
        match (o.text_field("core.objectClassType"@), o.text_field("core.objectIdentity"@)) {
            (Some(ct), Some(id)) => if has_infix(ct, "DataCollection"@) {
                Some(id)
            } else {
                first_collection(objs.drop_first())
            },
            _ => first_collection(objs.drop_first()),
        }
    }
}

/// The identity of the marketplace collection that aggregates the asset.
pub open spec fn collection_of(file: Json) -> Option<Seq<char>> {
    match file.field("core.aggregatedByObjects"@) {
        Some(Json::Array(items)) => first_collection(items@),
        _ => None,
    }
}

/// The identity of the marketplace data collection the asset belongs to, if any.
pub fn collection_id(file: &Json) -> (r: Option<String>)
    ensures
        opt_text(r) == collection_of(*file),
{
    let items = match file.get("core.aggregatedByObjects") {
        Some(Json::Array(items)) => items,
        _ => return None,
    };
    let n = items.len();
    let mut i: usize = 0;
    assert(items@.skip(0) =~= items@);
    while i < n
        invariant
            n == items@.len(),
            0 <= i <= n,
            collection_of(*file) == first_collection(items@.skip(i as int)),
        decreases n - i,
    {
        let o = &items[i];
        assert(items@.skip(i as int)[0] == items@[i as int]);
        assert(items@.skip(i as int).drop_first() =~= items@.skip(i + 1));
        if let (Some(ct), Some(id)) = (s(o, "core.objectClassType"), s(o, "core.objectIdentity")) {
            if contains(ct.as_str(), "DataCollection") {
                return Some(id);
            }
        }
        i = i + 1;
    }
    None
}

/// The name of the first collection search hit.
pub fn collection_name(colls: &Vec<Json>) -> (r: Option<String>)
    ensures
        opt_text(r) == (if colls@.len() > 0 {
            colls@[0].text_field("core.name"@)
        } else {
            None
        }),
{
    if colls.len() > 0 {
        s(&colls[0], "core.name")
    } else {
        None
    }
}

/// The identities of the hits in `hits` that have one, in order.
pub open spec fn identities(hits: Seq<Json>) -> Seq<Seq<char>>
    decreases hits.len(),
{
    if hits.len() == 0 {
        Seq::empty()
    } else {
        let rest = identities(hits.drop_last());
        match hits.last().text_field("core.identity"@) {
            Some(id) => rest.push(id),
            None => rest,
        }
    }
}

/// The views of a list of strings.
pub open spec fn texts(v: Seq<String>) -> Seq<Seq<char>> {
    v.map_values(|x: String| x@)
}

/// The ids whose lineage is looked up: the schema asset, then each column hit
/// that has an identity.
pub fn column_ids(schema_id: &str, cols: &Vec<Json>) -> (r: Vec<String>)
    ensures
        texts(r@) == seq![schema_id@] + identities(cols@),
{
    let mut out: Vec<String> = Vec::new();
    out.push(schema_id.to_owned());
    let n = cols.len();
    let mut i: usize = 0;
    assert(cols@.take(0) =~= Seq::<Json>::empty());
    assert(texts(out@) =~= seq![schema_id@] + identities(cols@.take(0)));
    while i < n
        invariant
            n == cols@.len(),
            0 <= i <= n,
            texts(out@) == seq![schema_id@] + identities(cols@.take(i as int)),
        decreases n - i,
    {
        let ghost before = out@;
        assert(cols@.take(i + 1).drop_last() =~= cols@.take(i as int));
        assert(cols@.take(i + 1).last() == cols@[i as int]);
        if let Some(id) = s(&cols[i], "core.identity") {
            out.push(id);
            assert(texts(out@) =~= texts(before).push(out@.last()@));
        }
        i = i + 1;
    }
    assert(cols@.take(n as int) =~= cols@);
    out
}

/// The `sourceAsMap` of each hit that has one, in order.
pub open spec fn source_maps(hits: Seq<Json>) -> Seq<Json>
    decreases hits.len(),
{
    if hits.len() == 0 {
        Seq::empty()
    } else {
        let rest = source_maps(hits.drop_last());
        match hits.last().field("sourceAsMap"@) {
            Some(m) => rest.push(m),
            None => rest,
        }
    }
}

/// The documents of a catalog search response: `hits.hits[*].sourceAsMap`.
pub open spec fn hits_of(response: Json) -> Seq<Json> {
    match response.field("hits"@) {
        Some(h) => match h.field("hits"@) {
            Some(Json::Array(items)) => source_maps(items@),
            _ => Seq::empty(),
        },
        None => Seq::empty(),
    }
}

/// The documents a catalog search returned.
pub fn search_hits(response: Json) -> (r: Vec<Json>)
    ensures
        r@ == hits_of(response),
{
    let ghost whole = response;
    let outer = match response.into_field("hits") {
        Some(h) => h,
        None => return Vec::new(),
    };
    let items = match outer.into_field("hits") {
        Some(Json::Array(items)) => items,
        _ => return Vec::new(),
    };
    let ghost all = items@;
    let mut out: Vec<Json> = Vec::new();
    assert(all.take(0) =~= Seq::<Json>::empty());
    for item in it: items
        invariant
            it.seq() == all,
            hits_of(whole) == source_maps(all),
            out@ == source_maps(all.take(it.index() as int)),
    {
        let ghost k = it.index() as int;
        assert(all.take(k + 1).drop_last() =~= all.take(k));
        assert(all.take(k + 1).last() == item);
        if let Some(m) = item.into_field("sourceAsMap") {
            out.push(m);
        }
    }
    assert(all.take(all.len() as int) =~= all);
    out
}

/// `parts` joined with `sep` between each two.
pub open spec fn joined(parts: Seq<Seq<char>>, sep: Seq<char>) -> Seq<char>
    decreases parts.len(),
{
    if parts.len() == 0 {
        Seq::empty()
    } else if parts.len() == 1 {
        parts[0]
    } else {
        joined(parts.drop_last(), sep) + sep + parts.last()
    }
}

/// `parts` joined with commas.
pub fn join_commas(parts: &Vec<String>) -> (r: String)
    ensures
        r@ == joined(texts(parts@), ","@),
{
    proof {
        reveal_strlit(",");
    }
    let mut out = String::new();
    let n = parts.len();
    let mut i: usize = 0;
    assert(texts(parts@).take(0) =~= Seq::<Seq<char>>::empty());
    while i < n
        invariant
            n == parts@.len(),
            0 <= i <= n,
            out@ == joined(texts(parts@).take(i as int), ","@),
        decreases n - i,
    {
        let ghost t = texts(parts@).take(i + 1);
        assert(t.drop_last() =~= texts(parts@).take(i as int));
        assert(t.last() == parts@[i as int]@);
        if i > 0 {
            out.append(",");
        }
        out.append(parts[i].as_str());
        assert(out@ =~= joined(t, ","@));
        i = i + 1;
    }
    assert(texts(parts@).take(n as int) =~= texts(parts@));
    out
}

/// The lineage headers for neighbour names `upstream` and `downstream`: each
/// list joined with commas when it is not empty, and the status `present` or
/// `none`.
pub open spec fn with_lineage(m: Map<Seq<char>, Seq<char>>, upstream: Seq<Seq<char>>, downstream: Seq<Seq<char>>) -> Map<Seq<char>, Seq<char>> {
    let m = if upstream.len() > 0 {
        m.insert("x-dp-lineage-upstream"@, joined(upstream, ","@))
    } else {
        m
    };
    let m = if downstream.len() > 0 {
        m.insert("x-dp-lineage-downstream"@, joined(downstream, ","@))
    } else {
        m
    };
    m.insert(
        "x-dp-lineage-status"@,
        if upstream.len() == 0 && downstream.len() == 0 {
            "none"@
        } else {
            "present"@
        },
    )
}

/// The lineage status is `none` exactly when neither direction has a
/// neighbour, and each direction's header is there exactly when it has one.
pub proof fn lemma_lineage_status(m: Map<Seq<char>, Seq<char>>, upstream: Seq<Seq<char>>, downstream: Seq<Seq<char>>)
    ensures
        with_lineage(m, upstream, downstream)["x-dp-lineage-status"@] == (if upstream.len() == 0
            && downstream.len() == 0 {
            "none"@
        } else {
            "present"@
        }),
        upstream.len() > 0 ==> with_lineage(m, upstream, downstream).dom().contains(
            "x-dp-lineage-upstream"@,
        ),
        downstream.len() > 0 ==> with_lineage(m, upstream, downstream).dom().contains(
            "x-dp-lineage-downstream"@,
        ),
{
}

/// Names without commas joined with commas split back into the names.
proof fn lemma_split_joined(parts: Seq<Seq<char>>)
    requires
        parts.len() > 0,
        forall|i: int| 0 <= i < parts.len() ==> !(#[trigger] parts[i]).contains(','),
    ensures
        split_on(joined(parts, ","@), ',') == parts,
    decreases parts.len(),
{
    reveal_strlit(",");
    if parts.len() == 1 {
        lemma_split_on_none(parts[0], ',');
        assert(seq![parts[0]] =~= parts);
    } else {
        let init = parts.drop_last();
        assert forall|i: int| 0 <= i < init.len() implies !(#[trigger] init[i]).contains(',') by {
            assert(init[i] == parts[i]);
        }
        lemma_split_joined(init);
        assert(!parts.last().contains(','));
        assert(joined(parts, ","@) == joined(init, ","@) + seq![','] + parts.last());
        lemma_split_on_last(joined(init, ","@), ',', parts.last());
        assert(init + seq![parts.last()] =~= parts);
    }
}

/// The lineage headers name every neighbour, in order: when no name holds a
/// comma, splitting a direction's header on commas gives back exactly that
/// direction's names, and the status is `present`.
pub proof fn lemma_lineage_lists_every_name(
    m: Map<Seq<char>, Seq<char>>,
    upstream: Seq<Seq<char>>,
    downstream: Seq<Seq<char>>,
)
    requires
        forall|i: int| 0 <= i < upstream.len() ==> !(#[trigger] upstream[i]).contains(','),
        forall|i: int| 0 <= i < downstream.len() ==> !(#[trigger] downstream[i]).contains(','),
    ensures
        upstream.len() > 0 ==> split_on(
            with_lineage(m, upstream, downstream)["x-dp-lineage-upstream"@],
            ',',
        ) == upstream,
        downstream.len() > 0 ==> split_on(
            with_lineage(m, upstream, downstream)["x-dp-lineage-downstream"@],
            ',',
        ) == downstream,
        upstream.len() + downstream.len() > 0 ==> with_lineage(m, upstream, downstream)[
            "x-dp-lineage-status"@] == "present"@,
{
    reveal_strlit("x-dp-lineage-upstream");
    reveal_strlit("x-dp-lineage-downstream");
    reveal_strlit("x-dp-lineage-status");
    assert("x-dp-lineage-upstream"@[13] != "x-dp-lineage-downstream"@[13]);
    assert("x-dp-lineage-upstream"@[13] != "x-dp-lineage-status"@[13]);
    assert("x-dp-lineage-downstream"@ != "x-dp-lineage-status"@);
    if upstream.len() > 0 {
        lemma_split_joined(upstream);
    }
    if downstream.len() > 0 {
        lemma_split_joined(downstream);
    }
}

/// Stamp the lineage headers into `fields`.
pub fn add_lineage(fields: &mut HeaderMap, upstream: &Vec<String>, downstream: &Vec<String>)
    ensures
        final(fields)@ == with_lineage(old(fields)@, texts(upstream@), texts(downstream@)),
{
    if upstream.len() > 0 {
        fields.insert("x-dp-lineage-upstream".to_owned(), join_commas(upstream));
    }
    if downstream.len() > 0 {
        fields.insert("x-dp-lineage-downstream".to_owned(), join_commas(downstream));
    }
    proof {
        reveal_strlit("none");
        reveal_strlit("present");
    }
    let status = if upstream.len() == 0 && downstream.len() == 0 {
        "none"
    } else {
        "present"
    };
    fields.insert("x-dp-lineage-status".to_owned(), status.to_owned());
}

/// Texts strictly increase along `v`, byte-wise: sorted, without repeats.
pub open spec fn sorted_texts(v: Seq<Seq<char>>) -> bool {
    forall|i: int, j: int| 0 <= i < j < v.len() ==> text_lt(#[trigger] v[i], #[trigger] v[j])
}

/// The names of `m`, sorted.
fn sorted_names(m: &HeaderMap) -> (r: Vec<String>)
    ensures
        sorted_texts(texts(r@)),
        texts(r@).to_set() == m@.dom(),
{
    let r = m.keys();
    let ghost p = m.pairs();
    assert(texts(r@) =~= p.map_values(|e: (Seq<char>, Seq<char>)| e.0));
    assert(texts(r@).to_set() =~= m@.dom()) by {
        assert forall|k: Seq<char>| texts(r@).to_set().contains(k) implies m@.dom().contains(k) by {
            let i = choose|i: int| 0 <= i < texts(r@).len() && texts(r@)[i] == k;
            assert(p[i].0 == k);
        }
        assert forall|k: Seq<char>| m@.dom().contains(k) implies texts(r@).to_set().contains(k) by {
            let i = choose|i: int| 0 <= i < p.len() && #[trigger] p[i].0 == k;
            assert(texts(r@)[i] == k);
        }
    }
    r
}

/// Whether `v` holds `t`.
fn holds_text(v: &Vec<String>, t: &str) -> (r: bool)
    ensures
        r == texts(v@).contains(t@),
{
    let n = v.len();
    let mut i: usize = 0;
    while i < n
        invariant
            n == v@.len(),
            0 <= i <= n,
            forall|k: int| 0 <= k < i ==> texts(v@)[k] != t@,
        decreases n - i,
    {
        if str_eq(v[i].as_str(), t) {
            assert(texts(v@)[i as int] == t@);
            return true;
        }
        i = i + 1;
    }
    false
}

/// The neighbour a relationship reaches through its `end` field, when the
/// relationship is lineage (not structural) and the neighbour is not one of
/// `ours`.
pub open spec fn edge_end(rel: Json, end: Seq<char>, ours: Seq<Seq<char>>) -> Option<Seq<char>> {
    if structural(rel) {
        None
    } else {
        match rel.text_field(end) {
            Some(n) => if ours.contains(n) {
                None
            } else {
                Some(n)
            },
            None => None,
        }
    }
}

/// The neighbours that `rels` reach through `end`.
pub open spec fn ends_of(rels: Seq<Json>, end: Seq<char>, ours: Seq<Seq<char>>) -> Set<Seq<char>> {
    Set::new(
        |n: Seq<char>|
            exists|i: int| 0 <= i < rels.len() && #[trigger] edge_end(rels[i], end, ours) == Some(n),
    )
}

/// The lineage neighbours of our asset and columns through relationships
/// `rels`: for edges leaving us (`end` = `core.targetIdentity`) the downstream
/// ids, for edges arriving (`core.sourceIdentity`) the upstream ids. Structural
/// edges and our own ids are skipped; the ids come sorted, each once.
pub fn neighbour_ids(rels: &Vec<Json>, end: &str, ours: &Vec<String>) -> (r: Vec<String>)
    ensures
        sorted_texts(texts(r@)),
        texts(r@).to_set() == ends_of(rels@, end@, texts(ours@)),
{
    let mut found = HeaderMap::new();
    let n = rels.len();
    let mut i: usize = 0;
    assert(found@.dom() =~= ends_of(rels@.take(0), end@, texts(ours@)));
    while i < n
        invariant
            n == rels@.len(),
            0 <= i <= n,
            found@.dom() == ends_of(rels@.take(i as int), end@, texts(ours@)),
        decreases n - i,
    {
        let rel = &rels[i];
        let ghost before = found@.dom();
        let ghost e = edge_end(rels@[i as int], end@, texts(ours@));
        if !rel_is_structural(rel) {
            if let Some(t) = s(rel, end) {
                if !holds_text(ours, t.as_str()) {
                    found.insert(t, String::new());
                }
            }
        }
        assert(found@.dom() == match e {
            Some(x) => before.insert(x),
            None => before,
        });
        assert(found@.dom() =~= ends_of(rels@.take(i + 1), end@, texts(ours@))) by {
            let t1 = rels@.take(i + 1);
            let t0 = rels@.take(i as int);
            assert forall|x: Seq<char>| #![auto] ends_of(t1, end@, texts(ours@)).contains(x) implies found@.dom().contains(x) by {
                let k = choose|k: int| 0 <= k < t1.len() && #[trigger] edge_end(t1[k], end@, texts(ours@)) == Some(x);
                if k < i {
                    assert(t0[k] == t1[k]);
                    assert(ends_of(t0, end@, texts(ours@)).contains(x));
                }
            }
            assert forall|x: Seq<char>| #![auto] found@.dom().contains(x) implies ends_of(t1, end@, texts(ours@)).contains(x) by {
                if before.contains(x) {
                    let k = choose|k: int| 0 <= k < t0.len() && #[trigger] edge_end(t0[k], end@, texts(ours@)) == Some(x);
                    assert(t0[k] == t1[k]);
                } else {
                    assert(t1[i as int] == rels@[i as int]);
                }
            }
        }
        i = i + 1;
    }
    assert(rels@.take(n as int) =~= rels@);
    sorted_names(&found)
}

/// Neighbour identity to display name, from the object hits in order (a later
/// hit for the same identity wins).
pub open spec fn name_index(objs: Seq<Json>) -> Map<Seq<char>, Seq<char>>
    decreases objs.len(),
{
    if objs.len() == 0 {
        Map::empty()
    } else {
        let m = name_index(objs.drop_last());
        match (objs.last().text_field("core.identity"@), neighbour_name(objs.last())) {
            (Some(id), Some(name)) => m.insert(id, name),
            _ => m,
        }
    }
}

/// The names that `index` gives to the ids it knows of `ids`.
pub open spec fn names_for(ids: Seq<Seq<char>>, index: Map<Seq<char>, Seq<char>>) -> Set<Seq<char>> {
    Set::new(
        |name: Seq<char>|
            exists|i: int|
                0 <= i < ids.len() && index.dom().contains(#[trigger] ids[i]) && index[ids[i]] == name,
    )
}

/// The display names of neighbour `ids`, resolved through the object hits
/// `objs` (a column resolves to its file), sorted, each once; ids without a
/// hit are dropped.
pub fn neighbour_names(ids: &Vec<String>, objs: &Vec<Json>) -> (r: Vec<String>)
    ensures
        sorted_texts(texts(r@)),
        texts(r@).to_set() == names_for(texts(ids@), name_index(objs@)),
{
    let mut index = HeaderMap::new();
    let n = objs.len();
    let mut i: usize = 0;
    assert(objs@.take(0) =~= Seq::<Json>::empty());
    while i < n
        invariant
            n == objs@.len(),
            0 <= i <= n,
            index@ == name_index(objs@.take(i as int)),
        decreases n - i,
    {
        let o = &objs[i];
        assert(objs@.take(i + 1).drop_last() =~= objs@.take(i as int));
        assert(objs@.take(i + 1).last() == objs@[i as int]);
        if let Some(id) = s(o, "core.identity") {
            if let Some(name) = neighbor_file(o) {
                index.insert(id, name);
            }
        }
        i = i + 1;
    }
    assert(objs@.take(n as int) =~= objs@);
    let ghost idx = index@;
    let mut names = HeaderMap::new();
    let m = ids.len();
    let mut j: usize = 0;
    assert(names@.dom() =~= names_for(texts(ids@).take(0), idx));
    while j < m
        invariant
            m == ids@.len(),
            0 <= j <= m,
            index@ == idx,
            names@.dom() == names_for(texts(ids@).take(j as int), idx),
        decreases m - j,
    {
        let ghost before = names@.dom();
        let ghost id = texts(ids@)[j as int];
        if let Some(name) = index.get(ids[j].as_str()) {
            names.insert(name.clone(), String::new());
        }
        assert(names@.dom() == if idx.dom().contains(id) {
            before.insert(idx[id])
        } else {
            before
        });
        assert(names@.dom() =~= names_for(texts(ids@).take(j + 1), idx)) by {
            let t1 = texts(ids@).take(j + 1);
            let t0 = texts(ids@).take(j as int);
            assert forall|x: Seq<char>| #![auto] names_for(t1, idx).contains(x) implies names@.dom().contains(x) by {
                let k = choose|k: int| 0 <= k < t1.len() && idx.dom().contains(#[trigger] t1[k]) && idx[t1[k]] == x;
                if k < j {
                    assert(t0[k] == t1[k]);
                    assert(names_for(t0, idx).contains(x));
                }
            }
            assert forall|x: Seq<char>| #![auto] names@.dom().contains(x) implies names_for(t1, idx).contains(x) by {
                if before.contains(x) {
                    let k = choose|k: int| 0 <= k < t0.len() && idx.dom().contains(#[trigger] t0[k]) && idx[t0[k]] == x;
                    assert(t0[k] == t1[k]);
                } else {
                    assert(t1[j as int] == id);
                }
            }
        }
        j = j + 1;
    }
    assert(texts(ids@).take(m as int) =~= texts(ids@));
    sorted_names(&names)
}

} // verus!
