//! One provenance refresh as a sequence of catalog searches.
//!
//! The gateway authenticates, then asks `Refresh` what to search for, runs the
//! search and hands back the hits, until the refresh is done. The refresh reads
//! the schema asset, the marketplace collection it belongs to, and, when lineage
//! is on, the asset's columns, the lineage edges leaving and arriving at them,
//! and the names of the neighbours those edges reach.

use vstd::prelude::*;
use crate::config::Config;
use crate::derive::s;
use crate::headers::HeaderMap;
use crate::json::{opt_text, Json};
use crate::policy::lineage_enabled;
use crate::provenance::{
    add_lineage, collection_id, collection_name, collection_of, column_ids, ends_of, identities,
    name_index, names_for, neighbour_ids, neighbour_names, provenance_fields, provenance_of, put,
    sorted_texts, texts, with_lineage,
};

verus! {

/// A catalog search that a refresh asks for.
pub enum Query {
    /// The object with this identity (one hit).
    Asset(String),
    /// The flat-file fields under this location (up to a thousand hits).
    Columns(String),
    /// Relationships whose source is one of these ids.
    EdgesFrom(Vec<String>),
    /// Relationships whose target is one of these ids.
    EdgesTo(Vec<String>),
    /// The objects with these identities.
    Objects(Vec<String>),
}

/// What the refresh waits for.
#[derive(PartialEq, Eq, Structural, Clone, Copy, Debug)]
pub enum RefreshStage {
    Asset,
    Collection,
    Columns,
    Outgoing,
    Incoming,
    Names,
    Finished,
}

/// What the gateway does next for a refresh.
pub enum RefreshAction {
    /// Run this search and hand back its hits.
    Search(Query),
    /// The refresh is complete: these are the headers.
    Done(HeaderMap),
    /// The schema asset does not exist in the catalog.
    NotFound,
}

/// A refresh in progress.
pub struct Refresh {
    /// The schema asset being refreshed.
    pub schema_id: String,
    /// Whether lineage is resolved too.
    pub include_lineage: bool,
    /// What the refresh waits for.
    pub stage: RefreshStage,
    /// The asset's catalog location, whose columns carry column-level lineage.
    pub location: Option<String>,
    /// The headers derived so far.
    pub fields: HeaderMap,
    /// The asset and its columns.
    pub ids: Vec<String>,
    /// Downstream neighbour ids, sorted.
    pub downstream: Vec<String>,
    /// Upstream neighbour ids, sorted.
    pub upstream: Vec<String>,
}

/// The search is for the object `id`.
pub open spec fn asks_asset(a: RefreshAction, id: Seq<char>) -> bool {
    a matches RefreshAction::Search(Query::Asset(x)) && x@ == id
}

/// Once the asset's details are read: done when lineage is off; else the
/// columns under its location, or, without one, the edges leaving the asset.
pub open spec fn after_details(r: Refresh, a: RefreshAction) -> bool {
    if !r.include_lineage {
        r.stage == RefreshStage::Finished && (a matches RefreshAction::Done(m) && m@ == r.fields@)
    } else {
        &&& texts(r.ids@) =~= seq![r.schema_id@]
        &&& match r.location {
            Some(loc) => r.stage == RefreshStage::Columns && (a matches RefreshAction::Search(
                Query::Columns(x),
            ) && x@ == loc@),
            None => r.stage == RefreshStage::Outgoing && (a matches RefreshAction::Search(
                Query::EdgesFrom(v),
            ) && texts(v@) == texts(r.ids@)),
        }
    }
}

impl Refresh {
    /// Begin refreshing `schema_id`: first the asset itself.
    pub fn start(schema_id: &str, config: &Config) -> (r: (Refresh, RefreshAction))
        ensures
            r.0.schema_id@ == schema_id@,
            r.0.include_lineage == config.include_lineage.unwrap_or(true),
            r.0.stage == RefreshStage::Asset,
            r.0.fields@ == Map::<Seq<char>, Seq<char>>::empty(),
            asks_asset(r.1, schema_id@),
    {
        let refresh = Refresh {
            schema_id: schema_id.to_owned(),
            include_lineage: lineage_enabled(config),
            stage: RefreshStage::Asset,
            location: None,
            fields: HeaderMap::new(),
            ids: Vec::new(),
            downstream: Vec::new(),
            upstream: Vec::new(),
        };
        (refresh, RefreshAction::Search(Query::Asset(schema_id.to_owned())))
    }

    /// Move on once the asset's details are read.
    fn continue_after_details(&mut self) -> (a: RefreshAction)
        ensures
            final(self).schema_id == old(self).schema_id,
            final(self).include_lineage == old(self).include_lineage,
            final(self).location == old(self).location,
            final(self).fields@ == old(self).fields@,
            after_details(*final(self), a),
    {
        if !self.include_lineage {
            self.stage = RefreshStage::Finished;
            return RefreshAction::Done(self.fields.clone());
        }
        let mut ids: Vec<String> = Vec::new();
        ids.push(self.schema_id.clone());
        self.ids = ids;
        assert(texts(self.ids@) =~= seq![self.schema_id@]);
        match &self.location {
            Some(loc) => {
                self.stage = RefreshStage::Columns;
                RefreshAction::Search(Query::Columns(loc.clone()))
            },
            None => {
                self.stage = RefreshStage::Outgoing;
                let v = copy_texts(&self.ids);
                RefreshAction::Search(Query::EdgesFrom(v))
            },
        }
    }

    /// Take the hits of the search last asked for and say what comes next.
    pub fn step(&mut self, hits: Vec<Json>) -> (a: RefreshAction)
        ensures
            final(self).schema_id == old(self).schema_id,
            final(self).include_lineage == old(self).include_lineage,
            match old(self).stage {
                RefreshStage::Asset => if hits@.len() == 0 {
                    final(self).stage == RefreshStage::Finished && a is NotFound
                } else {
                    let file = hits@[0];
                    &&& opt_text(final(self).location) == file.text_field("core.location"@)
                    &&& match collection_of(file) {
                        Some(cid) => final(self).stage == RefreshStage::Collection
                            && final(self).fields@ == provenance_of(file) && asks_asset(a, cid),
                        None => final(self).fields@ == provenance_of(file) && after_details(
                            *final(self),
                            a,
                        ),
                    }
                },
                RefreshStage::Collection => {
                    let name = if hits@.len() > 0 {
                        hits@[0].text_field("core.name"@)
                    } else {
                        None
                    };
                    &&& final(self).location == old(self).location
                    &&& final(self).fields@ == put(
                        old(self).fields@,
                        "x-dp-provenance-collection"@,
                        name,
                    )
                    &&& after_details(*final(self), a)
                },
                RefreshStage::Columns => {
                    &&& texts(final(self).ids@) == seq![old(self).schema_id@] + identities(hits@)
                    &&& final(self).stage == RefreshStage::Outgoing
                    &&& final(self).fields@ == old(self).fields@
                    &&& a matches RefreshAction::Search(Query::EdgesFrom(v)) && texts(v@) == texts(
                        final(self).ids@,
                    )
                },
                RefreshStage::Outgoing => {
                    &&& final(self).ids == old(self).ids
                    &&& sorted_texts(texts(final(self).downstream@))
                    &&& texts(final(self).downstream@).to_set() == ends_of(
                        hits@,
                        "core.targetIdentity"@,
                        texts(old(self).ids@),
                    )
                    &&& final(self).stage == RefreshStage::Incoming
                    &&& final(self).fields@ == old(self).fields@
                    &&& a matches RefreshAction::Search(Query::EdgesTo(v)) && texts(v@) == texts(
                        old(self).ids@,
                    )
                },
                RefreshStage::Incoming => {
                    &&& final(self).downstream == old(self).downstream
                    &&& sorted_texts(texts(final(self).upstream@))
                    &&& texts(final(self).upstream@).to_set() == ends_of(
                        hits@,
                        "core.sourceIdentity"@,
                        texts(old(self).ids@),
                    )
                    &&& if final(self).downstream@.len() == 0 && final(self).upstream@.len() == 0 {
                        final(self).stage == RefreshStage::Finished && (a matches RefreshAction::Done(
                            m,
                        ) && m@ == with_lineage(old(self).fields@, Seq::empty(), Seq::empty()))
                    } else {
                        final(self).stage == RefreshStage::Names && (a matches RefreshAction::Search(
                            Query::Objects(v),
                        ) && texts(v@) == texts(final(self).downstream@) + texts(
                            final(self).upstream@,
                        ))
                    }
                },
                RefreshStage::Names => {
                    &&& final(self).stage == RefreshStage::Finished
                    &&& a matches RefreshAction::Done(m) && exists|up: Seq<Seq<char>>, down: Seq<Seq<char>>|
                        {
                            &&& sorted_texts(up)
                            &&& up.to_set() == names_for(
                                texts(old(self).upstream@),
                                name_index(hits@),
                            )
                            &&& sorted_texts(down)
                            &&& down.to_set() == names_for(
                                texts(old(self).downstream@),
                                name_index(hits@),
                            )
                            &&& m@ == with_lineage(old(self).fields@, up, down)
                        }
                },
                RefreshStage::Finished => final(self).stage == RefreshStage::Finished
                    && (a matches RefreshAction::Done(m) && m@ == old(self).fields@),
            },
    {
        match self.stage {
            RefreshStage::Asset => {
                if hits.len() == 0 {
                    self.stage = RefreshStage::Finished;
                    return RefreshAction::NotFound;
                }
                let file = &hits[0];
                self.fields = provenance_fields(file);
                self.location = s(file, "core.location");
                match collection_id(file) {
                    Some(cid) => {
                        self.stage = RefreshStage::Collection;
                        RefreshAction::Search(Query::Asset(cid))
                    },
                    None => self.continue_after_details(),
                }
            },
            RefreshStage::Collection => {
                if let Some(name) = collection_name(&hits) {
                    self.fields.insert("x-dp-provenance-collection".to_owned(), name);
                }
                self.continue_after_details()
            },
            RefreshStage::Columns => {
                self.ids = column_ids(self.schema_id.as_str(), &hits);
                self.stage = RefreshStage::Outgoing;
                RefreshAction::Search(Query::EdgesFrom(copy_texts(&self.ids)))
            },
            RefreshStage::Outgoing => {
                self.downstream = neighbour_ids(&hits, "core.targetIdentity", &self.ids);
                self.stage = RefreshStage::Incoming;
                RefreshAction::Search(Query::EdgesTo(copy_texts(&self.ids)))
            },
            RefreshStage::Incoming => {
                self.upstream = neighbour_ids(&hits, "core.sourceIdentity", &self.ids);
                if self.downstream.len() == 0 && self.upstream.len() == 0 {
                    self.stage = RefreshStage::Finished;
                    let mut m = self.fields.clone();
                    add_lineage(&mut m, &self.upstream, &self.downstream);
                    assert(texts(self.upstream@) =~= Seq::empty());
                    assert(texts(self.downstream@) =~= Seq::empty());
                    return RefreshAction::Done(m);
                }
                let mut all = copy_texts(&self.downstream);
                let mut up = copy_texts(&self.upstream);
                all.append(&mut up);
                assert(texts(all@) =~= texts(self.downstream@) + texts(self.upstream@));
                self.stage = RefreshStage::Names;
                RefreshAction::Search(Query::Objects(all))
            },
            RefreshStage::Names => {
                let up = neighbour_names(&self.upstream, &hits);
                let down = neighbour_names(&self.downstream, &hits);
                let mut m = self.fields.clone();
                add_lineage(&mut m, &up, &down);
                self.stage = RefreshStage::Finished;
                assert(sorted_texts(texts(up@)) && sorted_texts(texts(down@)));
                RefreshAction::Done(m)
            },
            RefreshStage::Finished => RefreshAction::Done(self.fields.clone()),
        }
    }
}

/// A copy of a list of strings.
fn copy_texts(v: &Vec<String>) -> (r: Vec<String>)
    ensures
        texts(r@) == texts(v@),
{
    let mut out: Vec<String> = Vec::new();
    let n = v.len();
    let mut i: usize = 0;
    while i < n
        invariant
            n == v@.len(),
            0 <= i <= n,
            texts(out@) == texts(v@).take(i as int),
            out@.len() == i,
        decreases n - i,
    {
        out.push(v[i].clone());
        assert(texts(out@) =~= texts(v@).take(i + 1));
        i = i + 1;
    }
    assert(texts(v@).take(n as int) =~= texts(v@));
    out
}

} // verus!
