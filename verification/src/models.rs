//! Data model: credential context, tag set, and the two payload shapes.

use vstd::prelude::*;

use crate::norm::{is_normal_seq, lemma_normalized_charset, norm_seq, normalize};

verus! {

/// The credential context: an API token and the project it belongs to.
/// Immutable after construction.
#[derive(Clone, Debug)]
pub struct Config {
    pub api_token: String,
    pub project: String,
}

impl Config {
    /// Stores the token and project exactly as given; validation of
    /// non-emptiness is the caller's responsibility.
    pub fn new(api_token: &str, project: &str) -> (r: Config)
        ensures
            r.api_token@ == api_token@,
            r.project@ == project@,
    {
        Config { api_token: api_token.to_owned(), project: project.to_owned() }
    }
}

/// No two pairs share a key.
spec fn keys_distinct(ps: Seq<(Seq<char>, Seq<char>)>) -> bool {
    forall|i: int, j: int| 0 <= i < j < ps.len() ==> (#[trigger] ps[i]).0 != (#[trigger] ps[j]).0
}

/// The mapping a pair sequence represents; a later pair with the same key
/// overrides an earlier one.
pub open spec fn pairs_to_map(ps: Seq<(Seq<char>, Seq<char>)>) -> Map<Seq<char>, Seq<char>>
    decreases ps.len(),
{
    if ps.len() == 0 {
        Map::<Seq<char>, Seq<char>>::empty()
    } else {
        pairs_to_map(ps.drop_last()).insert(ps.last().0, ps.last().1)
    }
}

/// The index of the first pair whose key is `k`, or `-1` if there is none.
pub open spec fn index_of_key(ps: Seq<(Seq<char>, Seq<char>)>, k: Seq<char>) -> int
    decreases ps.len(),
{
    if ps.len() == 0 {
        -1
    } else if ps[0].0 == k {
        0
    } else {
        let r = index_of_key(ps.drop_first(), k);
        if r < 0 {
            -1
        } else {
            r + 1
        }
    }
}

/// Stores `(k, v)`: in place of the first pair keyed by `k` if one exists,
/// appended otherwise.
pub open spec fn upsert_pairs(
    ps: Seq<(Seq<char>, Seq<char>)>,
    k: Seq<char>,
    v: Seq<char>,
) -> Seq<(Seq<char>, Seq<char>)> {
    let i = index_of_key(ps, k);
    if i < 0 {
        ps.push((k, v))
    } else {
        ps.update(i, (k, v))
    }
}

proof fn lemma_index_of_key_found(ps: Seq<(Seq<char>, Seq<char>)>, k: Seq<char>, i: int)
    requires
        0 <= i < ps.len(),
        ps[i].0 == k,
        forall|j: int| 0 <= j < i ==> (#[trigger] ps[j]).0 != k,
    ensures
        index_of_key(ps, k) == i,
    decreases i,
{
    if i == 0 {
    } else {
        lemma_index_of_key_found(ps.drop_first(), k, i - 1);
    }
}

proof fn lemma_index_of_key_bounds(ps: Seq<(Seq<char>, Seq<char>)>, k: Seq<char>)
    ensures
        -1 <= index_of_key(ps, k) < ps.len(),
        index_of_key(ps, k) >= 0 ==> ps[index_of_key(ps, k)].0 == k && forall|j: int|
            0 <= j < index_of_key(ps, k) ==> (#[trigger] ps[j]).0 != k,
    decreases ps.len(),
{
    if ps.len() == 0 {
    } else if ps[0].0 == k {
    } else {
        lemma_index_of_key_bounds(ps.drop_first(), k);
        if index_of_key(ps, k) >= 0 {
            assert forall|j: int| 0 <= j < index_of_key(ps, k) implies (#[trigger] ps[j]).0
                != k by {
                if j >= 1 {
                    assert(ps.drop_first()[j - 1] == ps[j]);
                }
            }
        }
    }
}

proof fn lemma_index_of_key_complete(ps: Seq<(Seq<char>, Seq<char>)>, k: Seq<char>)
    ensures
        index_of_key(ps, k) < 0 ==> forall|j: int|
            0 <= j < ps.len() ==> (#[trigger] ps[j]).0 != k,
    decreases ps.len(),
{
    if ps.len() == 0 {
    } else if ps[0].0 == k {
    } else {
        lemma_index_of_key_complete(ps.drop_first(), k);
        if index_of_key(ps, k) < 0 {
            assert forall|j: int| 0 <= j < ps.len() implies (#[trigger] ps[j]).0 != k by {
                if j >= 1 {
                    assert(ps.drop_first()[j - 1] == ps[j]);
                }
            }
        }
    }
}

proof fn lemma_index_of_key_not_found(ps: Seq<(Seq<char>, Seq<char>)>, k: Seq<char>)
    requires
        forall|j: int| 0 <= j < ps.len() ==> (#[trigger] ps[j]).0 != k,
    ensures
        index_of_key(ps, k) == -1,
    decreases ps.len(),
{
    if ps.len() == 0 {
    } else {
        lemma_index_of_key_not_found(ps.drop_first(), k);
    }
}

proof fn lemma_pairs_to_map_push(ps: Seq<(Seq<char>, Seq<char>)>, k: Seq<char>, v: Seq<char>)
    ensures
        pairs_to_map(ps.push((k, v))) == pairs_to_map(ps).insert(k, v),
{
    assert(ps.push((k, v)).drop_last() =~= ps);
}

proof fn lemma_pairs_to_map_update(ps: Seq<(Seq<char>, Seq<char>)>, i: int, v: Seq<char>)
    requires
        keys_distinct(ps),
        0 <= i < ps.len(),
    ensures
        pairs_to_map(ps.update(i, (ps[i].0, v))) == pairs_to_map(ps).insert(ps[i].0, v),
    decreases ps.len(),
{
    let k = ps[i].0;
    let qs = ps.update(i, (k, v));
    if i == ps.len() - 1 {
        assert(qs.drop_last() =~= ps.drop_last());
        assert(pairs_to_map(qs) == pairs_to_map(ps.drop_last()).insert(k, v));
        assert(pairs_to_map(ps).insert(k, v) =~= pairs_to_map(ps.drop_last()).insert(k, v));
    } else {
        assert(qs.drop_last() =~= ps.drop_last().update(i, (k, v)));
        assert(keys_distinct(ps.drop_last())) by {
            assert forall|a: int, b: int|
                0 <= a < b < ps.drop_last().len() implies (#[trigger] ps.drop_last()[a]).0 != (
            #[trigger] ps.drop_last()[b]).0 by {
                assert(ps.drop_last()[a] == ps[a]);
                assert(ps.drop_last()[b] == ps[b]);
            }
        }
        assert(ps.drop_last()[i] == ps[i]);
        lemma_pairs_to_map_update(ps.drop_last(), i, v);
        let last = ps.last();
        assert(qs.last() == last);
        assert(k != last.0);
        assert(pairs_to_map(qs) == pairs_to_map(ps.drop_last()).insert(k, v).insert(
            last.0,
            last.1,
        ));
        assert(pairs_to_map(ps.drop_last()).insert(k, v).insert(last.0, last.1)
            =~= pairs_to_map(ps.drop_last()).insert(last.0, last.1).insert(k, v));
    }
}

proof fn lemma_map_matches_index(ps: Seq<(Seq<char>, Seq<char>)>, k: Seq<char>)
    requires
        keys_distinct(ps),
    ensures
        pairs_to_map(ps).contains_key(k) <==> index_of_key(ps, k) >= 0,
        index_of_key(ps, k) >= 0 ==> pairs_to_map(ps)[k] == ps[index_of_key(ps, k)].1,
    decreases ps.len(),
{
    if ps.len() == 0 {
    } else {
        let rest = ps.drop_last();
        assert(keys_distinct(rest)) by {
            assert forall|a: int, b: int| 0 <= a < b < rest.len() implies (#[trigger] rest[a]).0
                != (#[trigger] rest[b]).0 by {
                assert(rest[a] == ps[a]);
                assert(rest[b] == ps[b]);
            }
        }
        lemma_map_matches_index(rest, k);
        let last = ps.last();
        if last.0 == k {
            // the last pair is keyed by k, and by distinctness no earlier one is
            assert(forall|j: int| 0 <= j < ps.len() - 1 ==> (#[trigger] ps[j]).0 != k);
            lemma_index_of_key_found(ps, k, ps.len() - 1);
        } else {
            lemma_index_of_key_bounds(rest, k);
            if index_of_key(rest, k) >= 0 {
                let i = index_of_key(rest, k);
                assert(rest[i] == ps[i]);
                assert forall|j: int| 0 <= j < i implies (#[trigger] ps[j]).0 != k by {
                    assert(rest[j] == ps[j]);
                }
                lemma_index_of_key_found(ps, k, i);
            } else {
                lemma_index_of_key_complete(rest, k);
                assert forall|j: int| 0 <= j < ps.len() implies (#[trigger] ps[j]).0 != k by {
                    if j < ps.len() - 1 {
                        assert(rest[j] == ps[j]);
                    }
                }
                lemma_index_of_key_not_found(ps, k);
            }
        }
    }
}

/// Law: inserting under the same normalized key twice retains only the most
/// recent value.  Over the mapping view — which `TagHashMap::insert` updates
/// with `Map::insert` — a second insert with the same key overwrites the
/// first, whatever value it had stored.
pub proof fn lemma_insert_last_write_wins(
    m: Map<Seq<char>, Seq<char>>,
    k: Seq<char>,
    v1: Seq<char>,
    v2: Seq<char>,
)
    ensures
        m.insert(k, v1).insert(k, v2) == m.insert(k, v2),
        m.insert(k, v1).insert(k, v2)[k] == v2,
{
    assert(m.insert(k, v1).insert(k, v2) =~= m.insert(k, v2));
}

/// A set of tags: a mapping from normalized key to normalized value.
/// Normalization happens at insertion, so the stored pairs always consist
/// of lower-case ASCII letters and dashes only, and no key occurs twice.
#[derive(Debug)]
pub struct TagHashMap {
    entries: Vec<(String, String)>,
}

impl Clone for TagHashMap {
    fn clone(&self) -> (r: Self)
        ensures
            r.pairs() == self.pairs(),
    {
        proof {
            use_type_invariant(self);
        }
        let n = self.entries.len();
        let mut entries: Vec<(String, String)> = Vec::new();
        let mut i: usize = 0;
        while i < n
            invariant
                n == self.entries@.len(),
                i <= n,
                entries@.len() == i,
                forall|j: int|
                    0 <= j < i ==> (#[trigger] entries@[j]).0@ == self.entries@[j].0@
                        && entries@[j].1@ == self.entries@[j].1@,
            decreases n - i,
        {
            let k = self.entries[i].0.clone();
            let v = self.entries[i].1.clone();
            entries.push((k, v));
            i = i + 1;
        }
        proof {
            let qs = entries@.map_values(|p: (String, String)| (p.0@, p.1@));
            assert forall|j: int| 0 <= j < n implies qs[j] == self.pairs()[j] by {
                assert(qs[j] == (entries@[j].0@, entries@[j].1@));
                assert(self.pairs()[j] == (self.entries@[j].0@, self.entries@[j].1@));
            }
            assert(qs =~= self.pairs());
        }
        let r = TagHashMap { entries };
        r
    }
}

impl TagHashMap {
    /// The stored key/value pairs, in serialization order: insertion order
    /// of first appearance, with a repeated key keeping its position.
    pub closed spec fn pairs(&self) -> Seq<(Seq<char>, Seq<char>)> {
        self.entries@.map_values(|p: (String, String)| (p.0@, p.1@))
    }

    /// The mapping this tag set represents.
    pub open spec fn as_map(&self) -> Map<Seq<char>, Seq<char>> {
        pairs_to_map(self.pairs())
    }

    #[verifier::type_invariant]
    spec fn inv(&self) -> bool {
        &&& keys_distinct(self.pairs())
        &&& forall|i: int|
            0 <= i < self.pairs().len() ==> is_normal_seq((#[trigger] self.pairs()[i]).0)
                && is_normal_seq(self.pairs()[i].1)
    }

    /// An empty tag set.
    pub fn new() -> (r: Self)
        ensures
            r.pairs() == Seq::<(Seq<char>, Seq<char>)>::empty(),
            r.as_map() == Map::<Seq<char>, Seq<char>>::empty(),
    {
        let r = TagHashMap { entries: Vec::new() };
        proof {
            assert(r.pairs() =~= Seq::<(Seq<char>, Seq<char>)>::empty());
        }
        r
    }

    /// Normalizes both the key and the value, then stores the value under
    /// the normalized key, overwriting any value already stored there.
    pub fn insert(&mut self, key: &str, value: &str)
        ensures
            final(self).pairs() == upsert_pairs(
                old(self).pairs(),
                norm_seq(key@),
                norm_seq(value@),
            ),
            final(self).as_map() == old(self).as_map().insert(norm_seq(key@), norm_seq(value@)),
    {
        proof {
            use_type_invariant(&*self);
            lemma_normalized_charset(key@);
            lemma_normalized_charset(value@);
        }
        let (nk, nv) = normalize(key, value);
        let ghost ps = self.pairs();
        let ghost gk = norm_seq(key@);
        let ghost gv = norm_seq(value@);
        let mut entries: Vec<(String, String)> = Vec::new();
        core::mem::swap(&mut entries, &mut self.entries);
        let n = entries.len();
        let mut i: usize = 0;
        let mut found: bool = false;
        while i < n && !found
            invariant
                n == entries@.len(),
                i <= n,
                ps == entries@.map_values(|p: (String, String)| (p.0@, p.1@)),
                nk@ == gk,
                !found ==> forall|j: int| 0 <= j < i ==> (#[trigger] ps[j]).0 != gk,
                found ==> i < n && ps[i as int].0 == gk && forall|j: int|
                    0 <= j < i ==> (#[trigger] ps[j]).0 != gk,
            decreases n - i + (if found { 0int } else { 1int }),
        {
            if entries[i].0 == nk {
                found = true;
            } else {
                i = i + 1;
            }
        }
        if found {
            proof {
                lemma_index_of_key_found(ps, gk, i as int);
                lemma_pairs_to_map_update(ps, i as int, gv);
            }
            entries[i] = (nk, nv);
            proof {
                assert(entries@.map_values(|p: (String, String)| (p.0@, p.1@)) =~= ps.update(
                    i as int,
                    (gk, gv),
                ));
                assert(ps.update(i as int, (gk, gv)) == ps.update(i as int, (ps[i as int].0, gv)));
            }
        } else {
            proof {
                lemma_index_of_key_not_found(ps, gk);
                lemma_pairs_to_map_push(ps, gk, gv);
            }
            entries.push((nk, nv));
            proof {
                assert(entries@.map_values(|p: (String, String)| (p.0@, p.1@)) =~= ps.push(
                    (gk, gv),
                ));
            }
        }
        self.entries = entries;
    }

    /// How many tags are stored.
    pub fn len(&self) -> (n: usize)
        ensures
            n == self.pairs().len(),
    {
        self.entries.len()
    }

    /// Whether no tag is stored.
    pub fn is_empty(&self) -> (r: bool)
        ensures
            r == (self.pairs().len() == 0),
    {
        self.entries.len() == 0
    }

    /// Looks up the value stored under the normal form of `key`.
    pub fn get(&self, key: &str) -> (r: Option<&String>)
        ensures
            match r {
                Some(v) => self.as_map().contains_key(norm_seq(key@)) && v@ == self.as_map()[norm_seq(key@)],
                None => !self.as_map().contains_key(norm_seq(key@)),
            },
    {
        let (nk, _) = normalize(key, "");
        let ghost ps = self.pairs();
        let ghost gk = norm_seq(key@);
        let n = self.entries.len();
        let mut i: usize = 0;
        while i < n
            invariant
                n == self.entries@.len(),
                i <= n,
                ps == self.pairs(),
                gk == norm_seq(key@),
                nk@ == gk,
                forall|j: int| 0 <= j < i ==> (#[trigger] ps[j]).0 != gk,
            decreases n - i,
        {
            if self.entries[i].0 == nk {
                proof {
                    use_type_invariant(&*self);
                    assert(ps[i as int] == (
                        self.entries@[i as int].0@,
                        self.entries@[i as int].1@,
                    ));
                    lemma_index_of_key_found(ps, gk, i as int);
                    lemma_map_matches_index(ps, gk);
                }
                return Some(&self.entries[i].1);
            }
            i = i + 1;
        }
        proof {
            use_type_invariant(&*self);
            lemma_index_of_key_not_found(ps, gk);
            lemma_map_matches_index(ps, gk);
        }
        None
    }

    pub(crate) fn key_at(&self, i: usize) -> (k: &String)
        requires
            i < self.pairs().len(),
        ensures
            k@ == self.pairs()[i as int].0,
    {
        &self.entries[i].0
    }

    pub(crate) fn value_at(&self, i: usize) -> (v: &String)
        requires
            i < self.pairs().len(),
        ensures
            v@ == self.pairs()[i as int].1,
    {
        &self.entries[i].1
    }
}

/// An event-log payload.  The optional fields are left out of the JSON
/// encoding entirely when unset.
#[derive(Clone, Debug)]
pub struct Log {
    pub project: String,
    pub channel: String,
    pub event: String,
    pub description: Option<String>,
    pub icon: Option<String>,
    pub notify: Option<bool>,
    pub tags: Option<TagHashMap>,
}

impl Log {
    /// The tag pairs attached to this payload, empty when no tag set is.
    pub open spec fn tags_pairs(&self) -> Seq<(Seq<char>, Seq<char>)> {
        if self.tags is Some {
            self.tags->0.pairs()
        } else {
            Seq::<(Seq<char>, Seq<char>)>::empty()
        }
    }

    /// The tag mapping attached to this payload.
    pub open spec fn tags_map(&self) -> Map<Seq<char>, Seq<char>> {
        pairs_to_map(self.tags_pairs())
    }

    /// A payload with the three required fields and nothing optional set.
    pub fn new(project: &str, channel: &str, event: &str) -> (r: Log)
        ensures
            r.project@ == project@,
            r.channel@ == channel@,
            r.event@ == event@,
            r.description is None,
            r.icon is None,
            r.notify is None,
            r.tags is None,
    {
        Log {
            project: project.to_owned(),
            channel: channel.to_owned(),
            event: event.to_owned(),
            description: None,
            icon: None,
            notify: None,
            tags: None,
        }
    }
}

/// The value of an insight: a plain string, integer or boolean.  On the
/// wire it is encoded as the bare underlying JSON value, with no wrapper.
#[derive(Clone, Debug, PartialEq, Eq)]
pub enum InsightValue {
    Str(String),
    Int(i32),
    Bool(bool),
}

impl From<i32> for InsightValue {
    fn from(value: i32) -> (r: Self) {
        InsightValue::Int(value)
    }
}

impl vstd::std_specs::convert::FromSpecImpl<i32> for InsightValue {
    open spec fn obeys_from_spec() -> bool {
        true
    }

    open spec fn from_spec(value: i32) -> Self {
        InsightValue::Int(value)
    }
}

impl From<bool> for InsightValue {
    fn from(value: bool) -> (r: Self) {
        InsightValue::Bool(value)
    }
}

impl vstd::std_specs::convert::FromSpecImpl<bool> for InsightValue {
    open spec fn obeys_from_spec() -> bool {
        true
    }

    open spec fn from_spec(value: bool) -> Self {
        InsightValue::Bool(value)
    }
}

impl From<String> for InsightValue {
    fn from(value: String) -> (r: Self) {
        InsightValue::Str(value)
    }
}

impl vstd::std_specs::convert::FromSpecImpl<String> for InsightValue {
    open spec fn obeys_from_spec() -> bool {
        true
    }

    open spec fn from_spec(value: String) -> Self {
        InsightValue::Str(value)
    }
}

/// An insight payload.  The icon is left out of the JSON encoding when
/// unset.
#[derive(Clone, Debug)]
pub struct Insight {
    pub project: String,
    pub title: String,
    pub value: InsightValue,
    pub icon: Option<String>,
}

impl Insight {
    /// A payload with the required fields and no icon.
    pub fn new(project: &str, title: &str, value: InsightValue) -> (r: Insight)
        ensures
            r.project@ == project@,
            r.title@ == title@,
            r.value == value,
            r.icon is None,
    {
        Insight { project: project.to_owned(), title: title.to_owned(), value, icon: None }
    }
}

} // verus!
