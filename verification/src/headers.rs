//! An ordered map from header names to values.
//!
//! Entries are kept sorted by name, byte-wise, as a `BTreeMap<String, String>`
//! keeps them, so iterating stamps headers in the same order.

use vstd::prelude::*;
use crate::order::{lemma_text_order, text_lt, text_order, TextOrder};

verus! {

/// Names and values of `entries`, in order.
pub open spec fn pair_views(entries: Seq<(String, String)>) -> Seq<(Seq<char>, Seq<char>)> {
    entries.map_values(|e: (String, String)| (e.0@, e.1@))
}

/// Names strictly increase along `p`.
pub open spec fn strictly_sorted(p: Seq<(Seq<char>, Seq<char>)>) -> bool {
    forall|i: int, j: int| 0 <= i < j < p.len() ==> text_lt(#[trigger] p[i].0, #[trigger] p[j].0)
}

/// `k` is the name of some entry of `p`.
pub open spec fn has_key(p: Seq<(Seq<char>, Seq<char>)>, k: Seq<char>) -> bool {
    exists|i: int| 0 <= i < p.len() && #[trigger] p[i].0 == k
}

/// The position of the entry named `k`.
pub open spec fn key_index(p: Seq<(Seq<char>, Seq<char>)>, k: Seq<char>) -> int {
    choose|i: int| 0 <= i < p.len() && #[trigger] p[i].0 == k
}

/// The map that entries `p` stand for.
pub open spec fn as_map(p: Seq<(Seq<char>, Seq<char>)>) -> Map<Seq<char>, Seq<char>> {
    Map::new(|k: Seq<char>| has_key(p, k), |k: Seq<char>| p[key_index(p, k)].1)
}

/// In sorted entries, the entry named `p[i].0` is the one at `i`.
pub proof fn lemma_sorted_index(p: Seq<(Seq<char>, Seq<char>)>, i: int)
    requires
        strictly_sorted(p),
        0 <= i < p.len(),
    ensures
        has_key(p, p[i].0),
        key_index(p, p[i].0) == i,
        as_map(p)[p[i].0] == p[i].1,
{
    assert(p[i].0 == p[i].0);
    let j = key_index(p, p[i].0);
    if j != i {
        lemma_text_order(p[i].0, p[i].0, p[i].0);
        if j < i {
            assert(text_lt(p[j].0, p[i].0));
        } else {
            assert(text_lt(p[i].0, p[j].0));
        }
    }
}

/// Header names mapped to values.
///
/// The entries are a `Vec` kept strictly sorted by name rather than a
/// `BTreeMap<String, String>` or `HashMap<String, String>`: vstd states what
/// those maps do only for key types known to obey its ordering or hashing model
/// (`obeys_cmp`, `obeys_key_model`), and it states that of the integer types
/// and `bool`, not of `String`, so no contract over a map keyed by header name
/// could be proved. The view is the map the entries stand for, and `pairs`
/// gives them in name order, as iterating the ordered map does.
#[derive(Debug)]
pub struct HeaderMap {
    entries: Vec<(String, String)>,
}

impl Clone for HeaderMap {
    /// A copy with the same entries.
    fn clone(&self) -> (r: Self)
        ensures
            r@ == self@,
            r.pairs() == self.pairs(),
    {
        proof {
            use_type_invariant(self);
        }
        let n = self.entries.len();
        let mut out: Vec<(String, String)> = Vec::new();
        let mut i: usize = 0;
        while i < n
            invariant
                n == self.pairs().len(),
                pair_views(self.entries@) == self.pairs(),
                0 <= i <= n,
                pair_views(out@) == self.pairs().take(i as int),
                out@.len() == i,
            decreases n - i,
        {
            let e = &self.entries[i];
            let ghost before = out@;
            out.push((e.0.clone(), e.1.clone()));
            assert(self.pairs()[i as int] == (self.entries@[i as int].0@, self.entries@[i as int].1@));
            assert(out@ == before.push(out@[i as int]));
            assert(pair_views(out@) =~= pair_views(before).push(self.pairs()[i as int]));
            assert(pair_views(out@) =~= self.pairs().take(i + 1));
            i = i + 1;
        }
        assert(self.pairs().take(n as int) =~= self.pairs());
        HeaderMap { entries: out }
    }
}

impl View for HeaderMap {
    type V = Map<Seq<char>, Seq<char>>;

    open spec fn view(&self) -> Map<Seq<char>, Seq<char>> {
        as_map(self.pairs())
    }
}

impl HeaderMap {
    /// The entries, sorted by name.
    pub closed spec fn pairs(&self) -> Seq<(Seq<char>, Seq<char>)> {
        pair_views(self.entries@)
    }

    #[verifier::type_invariant]
    closed spec fn sorted(&self) -> bool {
        strictly_sorted(self.pairs())
    }

    /// An empty map.
    pub fn new() -> (r: HeaderMap)
        ensures
            r@ == Map::<Seq<char>, Seq<char>>::empty(),
            r.pairs().len() == 0,
    {
        let r = HeaderMap { entries: Vec::new() };
        assert(as_map(r.pairs()) =~= Map::<Seq<char>, Seq<char>>::empty());
        r
    }

    /// The number of entries.
    pub fn len(&self) -> (r: usize)
        ensures
            r == self.pairs().len(),
            r == self@.dom().len(),
    {
        proof {
            use_type_invariant(self);
            self.lemma_dom_len();
        }
        self.entries.len()
    }

    /// Sorted entries have distinct names, one per key of the map.
    proof fn lemma_dom_len(&self)
        requires
            strictly_sorted(self.pairs()),
        ensures
            self@.dom().len() == self.pairs().len(),
            self@.dom().finite(),
    {
        let p = self.pairs();
        let keys = p.map_values(|e: (Seq<char>, Seq<char>)| e.0);
        assert forall|i: int, j: int| 0 <= i < j < keys.len() implies keys[i] != keys[j] by {
            lemma_text_order(p[i].0, p[j].0, p[j].0);
            assert(text_lt(p[i].0, p[j].0));
        }
        keys.unique_seq_to_set();
        assert(self@.dom() =~= keys.to_set()) by {
            assert forall|k: Seq<char>| self@.dom().contains(k) implies keys.to_set().contains(k) by {
                let i = choose|i: int| 0 <= i < p.len() && #[trigger] p[i].0 == k;
                assert(keys[i] == k);
            }
            assert forall|k: Seq<char>| keys.to_set().contains(k) implies self@.dom().contains(k) by {
                let i = choose|i: int| 0 <= i < keys.len() && #[trigger] keys[i] == k;
                assert(p[i].0 == k);
            }
        }
    }

    /// Whether the map has no entry.
    pub fn is_empty(&self) -> (r: bool)
        ensures
            r == (self@ == Map::<Seq<char>, Seq<char>>::empty()),
            r == (self.pairs().len() == 0),
    {
        let r = self.entries.len() == 0;
        if !r {
            proof {
                use_type_invariant(self);
                lemma_sorted_index(self.pairs(), 0);
                assert(self@.dom().contains(self.pairs()[0].0));
            }
        } else {
            assert(self@ =~= Map::<Seq<char>, Seq<char>>::empty());
        }
        r
    }

    /// The entries, sorted by name.
    pub fn entries(&self) -> (r: &Vec<(String, String)>)
        ensures
            pair_views(r@) == self.pairs(),
            strictly_sorted(self.pairs()),
            self@ == as_map(self.pairs()),
    {
        proof {
            use_type_invariant(self);
        }
        &self.entries
    }

    /// The names, in order.
    pub fn keys(&self) -> (r: Vec<String>)
        ensures
            r@.map_values(|k: String| k@) == self.pairs().map_values(
                |e: (Seq<char>, Seq<char>)| e.0,
            ),
            strictly_sorted(self.pairs()),
            self@ == as_map(self.pairs()),
    {
        proof {
            use_type_invariant(self);
        }
        let n = self.entries.len();
        let mut out: Vec<String> = Vec::new();
        let mut i: usize = 0;
        while i < n
            invariant
                n == self.pairs().len(),
                pair_views(self.entries@) == self.pairs(),
                0 <= i <= n,
                out@.map_values(|k: String| k@) == self.pairs().map_values(
                    |e: (Seq<char>, Seq<char>)| e.0,
                ).take(i as int),
                out@.len() == i,
            decreases n - i,
        {
            let ghost before = out@;
            out.push(self.entries[i].0.clone());
            assert(self.pairs()[i as int] == (self.entries@[i as int].0@, self.entries@[i as int].1@));
            assert(out@ == before.push(out@[i as int]));
            assert(out@.map_values(|k: String| k@) =~= self.pairs().map_values(
                |e: (Seq<char>, Seq<char>)| e.0,
            ).take(i + 1));
            i = i + 1;
        }
        assert(self.pairs().map_values(|e: (Seq<char>, Seq<char>)| e.0).take(n as int)
            =~= self.pairs().map_values(|e: (Seq<char>, Seq<char>)| e.0));
        out
    }

    /// The value of `name`.
    pub fn get(&self, name: &str) -> (r: Option<&String>)
        ensures
            match r {
                Some(v) => self@.dom().contains(name@) && self@[name@] == v@,
                None => !self@.dom().contains(name@),
            },
    {
        proof {
            use_type_invariant(self);
        }
        let n = self.entries.len();
        let mut i: usize = 0;
        while i < n
            invariant
                n == self.pairs().len(),
                0 <= i <= n,
                strictly_sorted(self.pairs()),
                pair_views(self.entries@) == self.pairs(),
                forall|k: int| 0 <= k < i ==> self.pairs()[k].0 != name@,
            decreases n - i,
        {
            if crate::text::str_eq(self.entries[i].0.as_str(), name) {
                proof {
                    lemma_sorted_index(self.pairs(), i as int);
                }
                return Some(&self.entries[i].1);
            }
            i = i + 1;
        }
        None
    }

    /// Set `name` to `value`, replacing any value it had.
    pub fn insert(&mut self, name: String, value: String)
        ensures
            final(self)@ == old(self)@.insert(name@, value@),
    {
        proof {
            use_type_invariant(&*self);
        }
        let ghost p = self.pairs();
        let n = self.entries.len();
        let mut i: usize = 0;
        let mut same = false;
        while i < n
            invariant_except_break
                n == p.len(),
                0 <= i <= n,
                p == pair_views(self.entries@),
                strictly_sorted(p),
                forall|k: int| 0 <= k < i ==> text_lt(#[trigger] p[k].0, name@),
                !same,
            ensures
                n == p.len(),
                0 <= i <= n,
                p == pair_views(self.entries@),
                strictly_sorted(p),
                forall|k: int| 0 <= k < i ==> text_lt(#[trigger] p[k].0, name@),
                same ==> i < n && p[i as int].0 == name@,
                !same ==> i < n ==> text_lt(name@, p[i as int].0),
            decreases n - i,
        {
            match text_order(self.entries[i].0.as_str(), name.as_str()) {
                TextOrder::Less => {
                    i = i + 1;
                },
                TextOrder::Equal => {
                    same = true;
                    break;
                },
                TextOrder::Greater => {
                    break;
                },
            }
        }
        let ghost kv = (name@, value@);
        let mut entries: Vec<(String, String)> = Vec::new();
        std::mem::swap(&mut entries, &mut self.entries);
        if same {
            entries.set(i, (name, value));
            proof {
                let q = p.update(i as int, kv);
                assert(pair_views(entries@) =~= q);
                assert(strictly_sorted(q)) by {
                    assert forall|a: int, b: int| 0 <= a < b < q.len() implies text_lt(
                        #[trigger] q[a].0,
                        #[trigger] q[b].0,
                    ) by {
                        assert(p[a].0 == q[a].0 && p[b].0 == q[b].0);
                    }
                }
                lemma_insert_map(p, q, i as int);
            }
        } else {
            entries.insert(i, (name, value));
            proof {
                let q = p.insert(i as int, kv);
                assert(pair_views(entries@) =~= q);
                assert(strictly_sorted(q)) by {
                    assert forall|a: int, b: int| 0 <= a < b < q.len() implies text_lt(
                        #[trigger] q[a].0,
                        #[trigger] q[b].0,
                    ) by {
                        if b < i {
                            assert(q[a] == p[a] && q[b] == p[b]);
                        } else if b == i {
                            assert(q[a] == p[a]);
                        } else if a == i {
                            assert(q[b] == p[b - 1]);
                            if b - 1 > i {
                                assert(text_lt(p[i as int].0, p[b - 1].0));
                                lemma_text_order(name@, p[i as int].0, p[b - 1].0);
                            }
                        } else if a < i {
                            assert(q[a] == p[a] && q[b] == p[b - 1]);
                            assert(text_lt(p[a].0, name@));
                            if b - 1 >= i {
                                if b - 1 > i {
                                    assert(text_lt(p[i as int].0, p[b - 1].0));
                                    lemma_text_order(name@, p[i as int].0, p[b - 1].0);
                                }
                                lemma_text_order(p[a].0, name@, p[b - 1].0);
                            }
                        } else {
                            assert(q[a] == p[a - 1] && q[b] == p[b - 1]);
                        }
                    }
                }
                lemma_insert_new_map(p, q, i as int);
            }
        }
        self.entries = entries;
    }
}

/// Replacing the value of an entry sets that name in the map.
proof fn lemma_insert_map(
    p: Seq<(Seq<char>, Seq<char>)>,
    q: Seq<(Seq<char>, Seq<char>)>,
    i: int,
)
    requires
        strictly_sorted(p),
        strictly_sorted(q),
        0 <= i < p.len(),
        q.len() == p.len(),
        q[i].0 == p[i].0,
        forall|k: int| 0 <= k < p.len() && k != i ==> q[k] == p[k],
    ensures
        as_map(q) == as_map(p).insert(p[i].0, q[i].1),
{
    lemma_sorted_index(p, i);
    lemma_sorted_index(q, i);
    assert forall|k: Seq<char>| has_key(q, k) <==> has_key(p, k) by {
        if has_key(q, k) {
            let j = choose|j: int| 0 <= j < q.len() && #[trigger] q[j].0 == k;
            assert(p[j].0 == k);
        }
        if has_key(p, k) {
            let j = choose|j: int| 0 <= j < p.len() && #[trigger] p[j].0 == k;
            assert(q[j].0 == k);
        }
    }
    assert forall|k: Seq<char>| has_key(q, k) && k != p[i].0 implies as_map(q)[k] == as_map(
        p,
    )[k] by {
        let j = choose|j: int| 0 <= j < q.len() && #[trigger] q[j].0 == k;
        lemma_sorted_index(q, j);
        lemma_sorted_index(p, j);
    }
    assert(as_map(q) =~= as_map(p).insert(p[i].0, q[i].1));
}

/// Inserting an entry with a new name adds that name to the map.
proof fn lemma_insert_new_map(
    p: Seq<(Seq<char>, Seq<char>)>,
    q: Seq<(Seq<char>, Seq<char>)>,
    i: int,
)
    requires
        strictly_sorted(p),
        strictly_sorted(q),
        0 <= i <= p.len(),
        q == p.insert(i, q[i]),
    ensures
        as_map(q) == as_map(p).insert(q[i].0, q[i].1),
{
    lemma_sorted_index(q, i);
    assert forall|k: Seq<char>| has_key(q, k) <==> (has_key(p, k) || k == q[i].0) by {
        if has_key(q, k) {
            let j = choose|j: int| 0 <= j < q.len() && #[trigger] q[j].0 == k;
            if j < i {
                assert(p[j].0 == k);
            } else if j > i {
                assert(p[j - 1].0 == k);
            }
        }
        if has_key(p, k) {
            let j = choose|j: int| 0 <= j < p.len() && #[trigger] p[j].0 == k;
            if j < i {
                assert(q[j].0 == k);
            } else {
                assert(q[j + 1].0 == k);
            }
        }
    }
    assert forall|k: Seq<char>| has_key(q, k) && k != q[i].0 implies as_map(q)[k] == as_map(
        p,
    )[k] by {
        let j = choose|j: int| 0 <= j < q.len() && #[trigger] q[j].0 == k;
        lemma_sorted_index(q, j);
        if j < i {
            lemma_sorted_index(p, j);
        } else {
            lemma_sorted_index(p, j - 1);
        }
    }
    assert(as_map(q) =~= as_map(p).insert(q[i].0, q[i].1));
}

} // verus!
