//! The response cache: the last successful raw response per (verb, path).
//!
//! Entries never expire on their own; they are dropped by the explicit
//! clear-cache action, or overwritten when a bypassed re-read succeeds.

use vstd::prelude::*;

use crate::strutil::str_eq;

verus! {

/// The remote operation a cached response answers. A listing and a value
/// read on the same path are semantically different responses, so the verb
/// is part of the cache key.
#[derive(Clone, Copy, PartialEq, Eq, Structural, Debug)]
pub enum Verb {
    List,
    Get,
}

/// A cached response body: the raw keys of a listing, or one secret value.
pub enum Body {
    Keys(Vec<String>),
    Value(String),
}

/// Model of a cached response body.
pub enum BodyModel {
    Keys(Seq<Seq<char>>),
    Value(Seq<char>),
}

impl View for Body {
    type V = BodyModel;

    open spec fn view(&self) -> BodyModel {
        match self {
            Body::Keys(ks) => BodyModel::Keys(ks.deep_view()),
            Body::Value(v) => BodyModel::Value(v@),
        }
    }
}

struct CacheSlot {
    verb: Verb,
    path: String,
    body: Body,
}

impl CacheSlot {
    spec fn key(&self) -> (Verb, Seq<char>) {
        (self.verb, self.path@)
    }
}

spec fn cache_map(s: Seq<CacheSlot>) -> Map<(Verb, Seq<char>), BodyModel>
    decreases s.len(),
{
    if s.len() == 0 {
        Map::empty()
    } else {
        cache_map(s.drop_last()).insert(s.last().key(), s.last().body@)
    }
}

spec fn no_dup(s: Seq<CacheSlot>) -> bool {
    forall|i: int, j: int| 0 <= i < j < s.len() ==> (#[trigger] s[i].key()) != (#[trigger] s[j].key())
}

spec fn kinds_ok(s: Seq<CacheSlot>) -> bool {
    forall|i: int| 0 <= i < s.len() ==> ((#[trigger] s[i]).verb is List <==> s[i].body is Keys)
}

/// A slot whose key is not repeated later decides the map at its key.
proof fn lemma_map_index(s: Seq<CacheSlot>, i: int)
    requires
        0 <= i < s.len(),
        forall|j: int| i < j < s.len() ==> (#[trigger] s[j].key()) != s[i].key(),
    ensures
        cache_map(s).contains_key(s[i].key()),
        cache_map(s)[s[i].key()] == s[i].body@,
    decreases s.len(),
{
    if i < s.len() - 1 {
        let t = s.drop_last();
        assert(forall|j: int| i < j < t.len() ==> (#[trigger] t[j].key()) != t[i].key());
        lemma_map_index(t, i);
        assert(s.last().key() != s[i].key());
    }
}

/// A key no slot carries is outside the map.
proof fn lemma_map_absent(s: Seq<CacheSlot>, k: (Verb, Seq<char>))
    requires
        forall|i: int| 0 <= i < s.len() ==> (#[trigger] s[i].key()) != k,
    ensures
        !cache_map(s).contains_key(k),
    decreases s.len(),
{
    if s.len() > 0 {
        let t = s.drop_last();
        assert(forall|i: int| 0 <= i < t.len() ==> (#[trigger] t[i].key()) != k);
        lemma_map_absent(t, k);
    }
}

/// Replacing the slot that holds a key updates the map at that key alone.
proof fn lemma_map_update(s: Seq<CacheSlot>, i: int, slot: CacheSlot)
    requires
        no_dup(s),
        0 <= i < s.len(),
        slot.key() == s[i].key(),
    ensures
        cache_map(s.update(i, slot)) == cache_map(s).insert(slot.key(), slot.body@),
    decreases s.len(),
{
    let u = s.update(i, slot);
    if i == s.len() - 1 {
        assert(u.drop_last() =~= s.drop_last());
        assert(u.last() == slot);
        assert(cache_map(s).insert(slot.key(), slot.body@) =~= cache_map(s.drop_last()).insert(
            slot.key(),
            slot.body@,
        ));
    } else {
        let t = s.drop_last();
        assert(no_dup(t));
        assert(u.drop_last() =~= t.update(i, slot));
        assert(u.last() == s.last());
        lemma_map_update(t, i, slot);
        assert(s.last().key() != slot.key());
        assert(cache_map(t).insert(slot.key(), slot.body@).insert(s.last().key(), s.last().body@)
            =~= cache_map(t).insert(s.last().key(), s.last().body@).insert(
            slot.key(),
            slot.body@,
        ));
    }
}

/// A mapping from (verb, path) to the last successful raw response for that
/// call, used to avoid redundant round-trips during pure navigation.
pub struct ResponseCache {
    slots: Vec<CacheSlot>,
}

impl View for ResponseCache {
    type V = Map<(Verb, Seq<char>), BodyModel>;

    closed spec fn view(&self) -> Map<(Verb, Seq<char>), BodyModel> {
        cache_map(self.slots@)
    }
}

impl ResponseCache {
    /// Internal shape: one slot per key, and each verb paired with the body
    /// kind it produces.
    pub closed spec fn wf(&self) -> bool {
        no_dup(self.slots@) && kinds_ok(self.slots@)
    }

    /// A listing key always caches a `Keys` body, a value key a `Value`.
    pub proof fn lemma_kinds(&self, path: Seq<char>)
        requires
            self.wf(),
        ensures
            self@.contains_key((Verb::List, path)) ==> self@[(Verb::List, path)] is Keys,
            self@.contains_key((Verb::Get, path)) ==> self@[(Verb::Get, path)] is Value,
    {
        self.lemma_kinds_all();
    }

    proof fn lemma_kinds_all(&self)
        requires
            self.wf(),
        ensures
            forall|p: Seq<char>| #[trigger]
                self@.contains_key((Verb::List, p)) ==> self@[(Verb::List, p)] is Keys,
            forall|p: Seq<char>| #[trigger]
                self@.contains_key((Verb::Get, p)) ==> self@[(Verb::Get, p)] is Value,
    {
        Self::lemma_kinds_rec(self.slots@);
    }

    proof fn lemma_kinds_rec(s: Seq<CacheSlot>)
        requires
            kinds_ok(s),
        ensures
            forall|p: Seq<char>| #[trigger]
                cache_map(s).contains_key((Verb::List, p)) ==> cache_map(s)[(Verb::List, p)] is Keys,
            forall|p: Seq<char>| #[trigger]
                cache_map(s).contains_key((Verb::Get, p)) ==> cache_map(s)[(Verb::Get, p)] is Value,
        decreases s.len(),
    {
        if s.len() > 0 {
            let t = s.drop_last();
            assert(kinds_ok(t));
            Self::lemma_kinds_rec(t);
        }
    }

    /// An empty cache.
    pub fn new() -> (c: ResponseCache)
        ensures
            c@ == Map::<(Verb, Seq<char>), BodyModel>::empty(),
            c.wf(),
    {
        ResponseCache { slots: Vec::new() }
    }

    /// The index of the slot holding one (verb, path) key, if any.
    fn find_slot(&self, verb: Verb, path: &str) -> (r: Option<usize>)
        ensures
            match r {
                Some(i) => {
                    &&& i < self.slots@.len()
                    &&& self.slots@[i as int].key() == (verb, path@)
                    &&& forall|j: int|
                        0 <= j < i ==> (#[trigger] self.slots@[j].key()) != (verb, path@)
                },
                None => forall|j: int|
                    0 <= j < self.slots@.len() ==> (#[trigger] self.slots@[j].key()) != (
                    verb,
                    path@,
                    ),
            },
    {
        let ghost k = (verb, path@);
        let mut i: usize = 0;
        while i < self.slots.len()
            invariant
                i <= self.slots@.len(),
                k == (verb, path@),
                forall|j: int| 0 <= j < i ==> (#[trigger] self.slots@[j].key()) != k,
            decreases self.slots@.len() - i,
        {
            let slot = &self.slots[i];
            if slot.verb == verb && str_eq(slot.path.as_str(), path) {
                proof {
                    assert(self.slots@[i as int].key() == k);
                }
                return Some(i);
            }
            i = i + 1;
        }
        None
    }

    /// Look up the cached body for one (verb, path) key.
    pub fn get(&self, verb: Verb, path: &str) -> (r: Option<&Body>)
        requires
            self.wf(),
        ensures
            match r {
                Some(b) => self@.contains_key((verb, path@)) && self@[(verb, path@)] == b@,
                None => !self@.contains_key((verb, path@)),
            },
    {
        match self.find_slot(verb, path) {
            Some(i) => {
                proof {
                    lemma_map_index(self.slots@, i as int);
                }
                Some(&self.slots[i].body)
            },
            None => {
                proof {
                    lemma_map_absent(self.slots@, (verb, path@));
                }
                None
            },
        }
    }

    /// Record the last successful body for one (verb, path) key, replacing
    /// any earlier entry.
    pub fn put(&mut self, verb: Verb, path: &str, body: Body)
        requires
            old(self).wf(),
            verb is List <==> body is Keys,
        ensures
            final(self).wf(),
            final(self)@ == old(self)@.insert((verb, path@), body@),
    {
        let ghost k = (verb, path@);
        let slot = CacheSlot { verb, path: path.to_owned(), body };
        match self.find_slot(verb, path) {
            Some(i) => {
                proof {
                    assert(slot.key() == self.slots@[i as int].key());
                    lemma_map_update(self.slots@, i as int, slot);
                }
                self.slots[i] = slot;
                proof {
                    assert(self.slots@ =~= old(self).slots@.update(i as int, self.slots@[i as int]));
                    assert(no_dup(self.slots@)) by {
                        assert(forall|j: int|
                            0 <= j < self.slots@.len() ==> (#[trigger] self.slots@[j].key())
                                == old(self).slots@[j].key());
                    }
                    assert(kinds_ok(self.slots@));
                }
            },
            None => {
                self.slots.push(slot);
                proof {
                    assert(self.slots@.drop_last() =~= old(self).slots@);
                    assert(self.slots@.last().key() == k);
                    assert(no_dup(self.slots@)) by {
                        assert(forall|j: int|
                            0 <= j < old(self).slots@.len() ==> self.slots@[j]
                                == old(self).slots@[j]);
                    }
                    assert(kinds_ok(self.slots@));
                }
            },
        }
    }

    /// Drop every entry: the clear-cache action.
    pub fn clear(&mut self)
        ensures
            final(self).wf(),
            final(self)@ == Map::<(Verb, Seq<char>), BodyModel>::empty(),
    {
        self.slots.clear();
    }
}

} // verus!
