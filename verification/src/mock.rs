//! A deterministic in-memory store: the primary harness for exercising the
//! engine without a network, and the session used for the `mock/` root.

use vstd::prelude::*;

use crate::error::Error;
use crate::path::{first_seg, lemma_first_seg, lemma_first_seg_at};
use crate::store::{ListResponse, SecretStore, StoreOp};
use crate::strutil::{contains_str, str_eq, str_prefix};

verus! {

/// One stored leaf secret: its full path and its value.
pub struct Leaf {
    pub path: String,
    pub value: String,
}

/// Model of a stored leaf.
pub struct LeafModel {
    pub path: Seq<char>,
    pub value: Seq<char>,
}

impl View for Leaf {
    type V = LeafModel;

    open spec fn view(&self) -> LeafModel {
        LeafModel { path: self.path@, value: self.value@ }
    }
}

/// Index of the first leaf stored at `p`, if any.
pub open spec fn leaf_find(leaves: Seq<LeafModel>, p: Seq<char>) -> Option<int>
    decreases leaves.len(),
{
    if leaves.len() == 0 {
        None
    } else if leaves[0].path == p {
        Some(0int)
    } else {
        match leaf_find(leaves.drop_first(), p) {
            Some(i) => Some(i + 1),
            None => None,
        }
    }
}

/// The raw listing key a leaf contributes to the listing of `dir`: the next
/// path segment after the `dir` prefix, with its separator kept when the
/// leaf lies deeper.
pub open spec fn child_of(leaf: Seq<char>, dir: Seq<char>) -> Option<Seq<char>> {
    if dir.len() < leaf.len() && leaf.take(dir.len() as int) == dir {
        Some(first_seg(leaf.skip(dir.len() as int)))
    } else {
        None
    }
}

/// The listing of `dir`: each leaf's contribution in first-seen order, with
/// duplicates dropped.
pub open spec fn children_of(leaves: Seq<LeafModel>, dir: Seq<char>) -> Seq<Seq<char>>
    decreases leaves.len(),
{
    if leaves.len() == 0 {
        Seq::empty()
    } else {
        let front = children_of(leaves.drop_last(), dir);
        match child_of(leaves.last().path, dir) {
            Some(c) => if front.contains(c) {
                front
            } else {
                front.push(c)
            },
            None => front,
        }
    }
}

/// The fixture the default mock session starts from: one directory `key1`
/// holding a single leaf, and fourteen sibling leaves, all valued `value`.
pub open spec fn mock_fixture() -> Seq<LeafModel> {
    seq![
        LeafModel { path: "mock/key1/key"@, value: "value"@ },
        LeafModel { path: "mock/key2"@, value: "value"@ },
        LeafModel { path: "mock/key3"@, value: "value"@ },
        LeafModel { path: "mock/key4"@, value: "value"@ },
        LeafModel { path: "mock/key5"@, value: "value"@ },
        LeafModel { path: "mock/key6"@, value: "value"@ },
        LeafModel { path: "mock/key7"@, value: "value"@ },
        LeafModel { path: "mock/key8"@, value: "value"@ },
        LeafModel { path: "mock/key9"@, value: "value"@ },
        LeafModel { path: "mock/key10"@, value: "value"@ },
        LeafModel { path: "mock/key11"@, value: "value"@ },
        LeafModel { path: "mock/key12"@, value: "value"@ },
        LeafModel { path: "mock/key13"@, value: "value"@ },
        LeafModel { path: "mock/key14"@, value: "value"@ },
        LeafModel { path: "mock/key15"@, value: "value"@ },
    ]
}

/// The in-memory store: a flat list of leaves, the log of issued calls
/// (one path per call, newest last, observable at run time), and the ghost
/// history that realizes the abstract operation record of the
/// [`SecretStore`] trait.
pub struct MockStore {
    pub leaves: Vec<Leaf>,
    pub log: Vec<String>,
    pub history: Ghost<Seq<StoreOp>>,
}

proof fn lemma_leaf_find_hit(leaves: Seq<LeafModel>, p: Seq<char>, i: int)
    requires
        0 <= i < leaves.len(),
        leaves[i].path == p,
        forall|j: int| 0 <= j < i ==> (#[trigger] leaves[j]).path != p,
    ensures
        leaf_find(leaves, p) == Some(i),
    decreases i,
{
    if i > 0 {
        let t = leaves.drop_first();
        assert(leaves[0].path != p);
        assert(t[i - 1].path == p);
        assert(forall|j: int| 0 <= j < i - 1 ==> (#[trigger] t[j]).path != p);
        lemma_leaf_find_hit(t, p, i - 1);
    }
}

proof fn lemma_leaf_find_miss(leaves: Seq<LeafModel>, p: Seq<char>)
    requires
        forall|j: int| 0 <= j < leaves.len() ==> (#[trigger] leaves[j]).path != p,
    ensures
        leaf_find(leaves, p) is None,
    decreases leaves.len(),
{
    if leaves.len() > 0 {
        let t = leaves.drop_first();
        assert(forall|j: int| 0 <= j < t.len() ==> (#[trigger] t[j]).path != p);
        lemma_leaf_find_miss(t, p);
    }
}

impl MockStore {
    /// The stored leaves, as their models.
    pub open spec fn leaves_model(&self) -> Seq<LeafModel> {
        self.leaves@.map_values(|l: Leaf| l@)
    }

    /// An empty store with an empty call log.
    pub fn empty() -> (s: MockStore)
        ensures
            s.leaves_model() == Seq::<LeafModel>::empty(),
            s.log@.len() == 0,
            s.ops() == Seq::<StoreOp>::empty(),
    {
        let s = MockStore { leaves: Vec::new(), log: Vec::new(), history: Ghost(Seq::empty()) };
        proof {
            assert(s.leaves_model() =~= Seq::<LeafModel>::empty());
        }
        s
    }

    /// Append one leaf, regardless of duplicates.
    pub fn add(&mut self, path: &str, value: &str)
        ensures
            final(self).leaves_model() == old(self).leaves_model().push(
                LeafModel { path: path@, value: value@ },
            ),
            final(self).log == old(self).log,
            final(self).history == old(self).history,
    {
        self.leaves.push(Leaf { path: path.to_owned(), value: value.to_owned() });
        proof {
            assert(self.leaves_model() =~= old(self).leaves_model().push(
                LeafModel { path: path@, value: value@ },
            ));
        }
    }

    /// The default mock session: the fixture behind the `mock/` root.
    pub fn new() -> (s: MockStore)
        ensures
            s.leaves_model() == mock_fixture(),
            s.log@.len() == 0,
            s.ops() == Seq::<StoreOp>::empty(),
    {
        let mut s = MockStore::empty();
        s.add("mock/key1/key", "value");
        s.add("mock/key2", "value");
        s.add("mock/key3", "value");
        s.add("mock/key4", "value");
        s.add("mock/key5", "value");
        s.add("mock/key6", "value");
        s.add("mock/key7", "value");
        s.add("mock/key8", "value");
        s.add("mock/key9", "value");
        s.add("mock/key10", "value");
        s.add("mock/key11", "value");
        s.add("mock/key12", "value");
        s.add("mock/key13", "value");
        s.add("mock/key14", "value");
        s.add("mock/key15", "value");
        proof {
            assert(s.leaves_model() =~= mock_fixture());
        }
        s
    }

    /// Index of the first leaf stored at `path`.
    fn lookup(&self, path: &str) -> (r: Option<usize>)
        ensures
            r matches Some(i) ==> leaf_find(self.leaves_model(), path@) == Some(i as int),
            r is None ==> leaf_find(self.leaves_model(), path@) is None,
            r matches Some(i) ==> i < self.leaves@.len() && self.leaves_model()[i as int].path
                == path@,
    {
        let mut i: usize = 0;
        while i < self.leaves.len()
            invariant
                i <= self.leaves@.len(),
                forall|j: int| 0 <= j < i ==> (#[trigger] self.leaves_model()[j]).path != path@,
            decreases self.leaves@.len() - i,
        {
            if str_eq(self.leaves[i].path.as_str(), path) {
                proof {
                    assert(self.leaves_model()[i as int].path == path@);
                    lemma_leaf_find_hit(self.leaves_model(), path@, i as int);
                }
                return Some(i);
            }
            i = i + 1;
        }
        proof {
            lemma_leaf_find_miss(self.leaves_model(), path@);
        }
        None
    }

    /// The value of the first leaf stored at `path`, or a store-side error
    /// when no leaf sits there.
    pub fn read_value(&self, path: &str) -> (r: Result<String, Error>)
        ensures
            match leaf_find(self.leaves_model(), path@) {
                Some(i) => r matches Ok(v) && v@ == self.leaves_model()[i].value,
                None => r matches Err(e) && e is Vault,
            },
    {
        match self.lookup(path) {
            Some(i) => Ok(self.leaves[i].value.clone()),
            None => {
                let mut m = String::new();
                m.append("no secret at ");
                m.append(path);
                Err(Error::Vault(m))
            },
        }
    }

    /// Create or overwrite the leaf at `path`.
    pub fn write_value(&mut self, path: &str, value: &str)
        ensures
            match leaf_find(old(self).leaves_model(), path@) {
                Some(i) => final(self).leaves_model() == old(self).leaves_model().update(
                    i,
                    LeafModel { path: path@, value: value@ },
                ),
                None => final(self).leaves_model() == old(self).leaves_model().push(
                    LeafModel { path: path@, value: value@ },
                ),
            },
            final(self).log == old(self).log,
            final(self).history == old(self).history,
    {
        let leaf = Leaf { path: path.to_owned(), value: value.to_owned() };
        match self.lookup(path) {
            Some(i) => {
                self.leaves[i] = leaf;
                proof {
                    assert(self.leaves_model() =~= old(self).leaves_model().update(
                        i as int,
                        LeafModel { path: path@, value: value@ },
                    ));
                }
            },
            None => {
                self.leaves.push(leaf);
                proof {
                    assert(self.leaves_model() =~= old(self).leaves_model().push(
                        LeafModel { path: path@, value: value@ },
                    ));
                }
            },
        }
    }

    /// Remove the first leaf at `path`; removing an absent leaf is a no-op,
    /// as remote deletion is idempotent.
    pub fn delete_value(&mut self, path: &str)
        ensures
            match leaf_find(old(self).leaves_model(), path@) {
                Some(i) => final(self).leaves_model() == old(self).leaves_model().remove(i),
                None => final(self).leaves_model() == old(self).leaves_model(),
            },
            final(self).log == old(self).log,
            final(self).history == old(self).history,
    {
        match self.lookup(path) {
            Some(i) => {
                self.leaves.remove(i);
                proof {
                    assert(self.leaves_model() =~= old(self).leaves_model().remove(i as int));
                }
            },
            None => {},
        }
    }

    /// The immediate children of `dir`: for every leaf under the prefix,
    /// its next path segment, separator kept for deeper leaves; first-seen
    /// order, duplicates dropped.
    pub fn list_children(&self, dir: &str) -> (r: Vec<String>)
        ensures
            r.deep_view() == children_of(self.leaves_model(), dir@),
    {
        let dlen = dir.unicode_len();
        let mut keys: Vec<String> = Vec::new();
        let mut i: usize = 0;
        while i < self.leaves.len()
            invariant
                i <= self.leaves@.len(),
                dlen == dir@.len(),
                keys.deep_view() == children_of(self.leaves_model().take(i as int), dir@),
            decreases self.leaves@.len() - i,
        {
            let ghost pre = self.leaves_model().take(i as int);
            let ghost cur = self.leaves_model().take(i + 1);
            proof {
                assert(cur.drop_last() =~= pre);
                assert(cur.last() == self.leaves_model()[i as int]);
            }
            let lp = self.leaves[i].path.as_str();
            let llen = lp.unicode_len();
            if llen > dlen && str_prefix(lp, dir) {
                let mut j: usize = dlen;
                while j < llen && lp.get_char(j) != '/'
                    invariant
                        dlen <= j <= llen,
                        llen == lp@.len(),
                        dlen == dir@.len(),
                        forall|k: int| dlen <= k < j ==> lp@[k] != '/',
                    decreases llen - j,
                {
                    j = j + 1;
                }
                let end = if j < llen {
                    j + 1
                } else {
                    llen
                };
                let ghost rem = lp@.skip(dlen as int);
                proof {
                    if j < llen {
                        assert(rem[j - dlen] == '/');
                        assert(forall|k: int| 0 <= k < j - dlen ==> rem[k] != '/');
                        lemma_first_seg_at(rem, j - dlen);
                        assert(rem.take(j - dlen + 1) =~= lp@.subrange(dlen as int, end as int));
                    } else {
                        lemma_first_seg(rem);
                        assert(forall|k: int| 0 <= k < rem.len() ==> rem[k] != '/');
                        if first_seg(rem).len() < rem.len() {
                            assert(rem[first_seg(rem).len() - 1] == '/');
                        }
                        assert(first_seg(rem) =~= lp@.subrange(dlen as int, end as int));
                    }
                    assert(child_of(self.leaves_model()[i as int].path, dir@) == Some(
                        lp@.subrange(dlen as int, end as int),
                    ));
                }
                let child = lp.substring_char(dlen, end).to_owned();
                if !contains_str(&keys, child.as_str()) {
                    keys.push(child);
                    proof {
                        assert(keys.deep_view() =~= children_of(cur, dir@));
                    }
                } else {
                    proof {
                        assert(keys.deep_view() =~= children_of(cur, dir@));
                    }
                }
            } else {
                proof {
                    assert(child_of(self.leaves_model()[i as int].path, dir@) is None);
                    assert(keys.deep_view() =~= children_of(cur, dir@));
                }
            }
            i = i + 1;
        }
        proof {
            assert(self.leaves_model().take(self.leaves_model().len() as int) =~= self
                .leaves_model());
        }
        keys
    }
}

impl SecretStore for MockStore {
    open spec fn ops(&self) -> Seq<StoreOp> {
        self.history@
    }

    fn list(&mut self, path: &str) -> (r: Result<ListResponse, Error>) {
        self.log.push(path.to_owned());
        let keys = self.list_children(path);
        proof {
            self.history@ = self.history@.push(StoreOp::List(path@, Some(keys.deep_view())));
        }
        Ok(ListResponse { keys })
    }

    fn read(&mut self, path: &str) -> (r: Result<String, Error>) {
        self.log.push(path.to_owned());
        let res = self.read_value(path);
        proof {
            self.history@ = self.history@.push(
                StoreOp::Read(
                    path@,
                    match &res {
                        Ok(v) => Some(v@),
                        Err(_) => None,
                    },
                ),
            );
        }
        res
    }

    fn write(&mut self, path: &str, value: &str) -> (r: Result<(), Error>) {
        self.log.push(path.to_owned());
        self.write_value(path, value);
        proof {
            self.history@ = self.history@.push(StoreOp::Write(path@, value@, true));
        }
        Ok(())
    }

    fn delete(&mut self, path: &str) -> (r: Result<(), Error>) {
        self.log.push(path.to_owned());
        self.delete_value(path);
        proof {
            self.history@ = self.history@.push(StoreOp::Delete(path@, true));
        }
        Ok(())
    }
}

} // verus!
