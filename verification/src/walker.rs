//! The navigation controller: one session's state, and the handlers that
//! turn discrete input events into path, cache and store operations.

use vstd::prelude::*;

use crate::cache::{BodyModel, Verb};
use crate::client::{FromCache, VaultClient};
use crate::entry::{raw_is_dir, raw_name, EntryModel, VaultEntry};
use crate::error::Error;
use crate::messages;
use crate::path::{all_dirs, decode_path, joined_of, lemma_decode_all_dirs, VaultPath, MAX_DEPTH};
use crate::store::{SecretStore, StoreOp};
use crate::strutil::{ends_with_sep, str_eq};

verus! {

/// Which flow a key or value entry belongs to: inserting a new key, or
/// updating (renaming or overwriting) the selected one.
#[derive(PartialEq, Eq, Structural, Clone, Copy, Debug)]
pub enum EditMode {
    Insert,
    Update,
}

/// The modal editing state. Exactly one buffered key is live, and only in
/// `TypingKey(Insert)` and `TypingSecret(Insert)`.
#[derive(PartialEq, Eq, Structural, Clone, Copy, Debug)]
pub enum Mode {
    Navigation,
    TypingKey(EditMode),
    TypingSecret(EditMode),
    DeletingKey,
}

/// A recognized input action, abstracted over concrete key bindings.
#[derive(PartialEq, Eq, Structural, Clone, Copy, Debug)]
pub enum Action {
    Down,
    Up,
    Enter,
    Leave,
    ClearCache,
    CopyPath,
    CopySecret,
    AddKey,
    RenameKey,
    UpdateValue,
    DeleteKey,
    OpenHelp,
    Quit,
}

/// What the caller must do after a handler returns: redraw the listing,
/// display a status message (informational or error-styled), hand text to
/// the clipboard, or quit.
#[derive(Debug)]
pub struct Step {
    pub redraw: bool,
    pub message: Option<String>,
    pub message_is_error: bool,
    pub copy: Option<String>,
    pub quit: bool,
}

impl Step {
    /// A step that asks nothing of the caller.
    pub fn none() -> (s: Step)
        ensures
            !s.redraw && s.message is None && s.copy is None && !s.quit && !s.message_is_error,
    {
        Step { redraw: false, message: None, message_is_error: false, copy: None, quit: false }
    }

    /// A step that only asks for a redraw.
    pub fn redraw_only() -> (s: Step)
        ensures
            s.redraw && s.message is None && s.copy is None && !s.quit && !s.message_is_error,
    {
        Step { redraw: true, message: None, message_is_error: false, copy: None, quit: false }
    }
}

/// The entries decoded from a sequence of raw listing keys.
pub open spec fn decode_keys(keys: Seq<Seq<char>>) -> Seq<EntryModel> {
    keys.map_values(|k: Seq<char>| EntryModel { name: raw_name(k), is_dir: raw_is_dir(k) })
}

/// Index of the first entry named `name`, if any.
pub open spec fn entry_find(es: Seq<EntryModel>, name: Seq<char>) -> Option<int>
    decreases es.len(),
{
    if es.len() == 0 {
        None
    } else if es[0].name == name {
        Some(0int)
    } else {
        match entry_find(es.drop_first(), name) {
            Some(i) => Some(i + 1),
            None => None,
        }
    }
}

proof fn lemma_entry_find_hit(es: Seq<EntryModel>, name: Seq<char>, i: int)
    requires
        0 <= i < es.len(),
        es[i].name == name,
        forall|j: int| 0 <= j < i ==> (#[trigger] es[j]).name != name,
    ensures
        entry_find(es, name) == Some(i),
    decreases i,
{
    if i > 0 {
        let t = es.drop_first();
        assert(t[i - 1].name == name);
        assert(forall|j: int| 0 <= j < i - 1 ==> (#[trigger] t[j]).name != name);
        lemma_entry_find_hit(t, name, i - 1);
    }
}

proof fn lemma_entry_find_miss(es: Seq<EntryModel>, name: Seq<char>)
    requires
        forall|j: int| 0 <= j < es.len() ==> (#[trigger] es[j]).name != name,
    ensures
        entry_find(es, name) is None,
    decreases es.len(),
{
    if es.len() > 0 {
        let t = es.drop_first();
        assert(forall|j: int| 0 <= j < t.len() ==> (#[trigger] t[j]).name != name);
        lemma_entry_find_miss(t, name);
    }
}

/// Index of the first entry named `name` in a listing.
fn find_entry(list: &Vec<VaultEntry>, name: &str) -> (r: Option<usize>)
    ensures
        match r {
            Some(i) => i < list@.len() && entry_find(
                list@.map_values(|e: VaultEntry| e@),
                name@,
            ) == Some(i as int),
            None => entry_find(list@.map_values(|e: VaultEntry| e@), name@) is None,
        },
{
    let ghost es = list@.map_values(|e: VaultEntry| e@);
    let mut i: usize = 0;
    while i < list.len()
        invariant
            i <= list@.len(),
            es == list@.map_values(|e: VaultEntry| e@),
            forall|j: int| 0 <= j < i ==> (#[trigger] es[j]).name != name@,
        decreases list@.len() - i,
    {
        if str_eq(list[i].name.as_str(), name) {
            proof {
                assert(es[i as int].name == name@);
                lemma_entry_find_hit(es, name@, i as int);
            }
            return Some(i);
        }
        i = i + 1;
    }
    proof {
        lemma_entry_find_miss(es, name@);
    }
    None
}

/// An extension of the history leaves recorded operations in place.
pub proof fn lemma_prefix_index(a: Seq<StoreOp>, b: Seq<StoreOp>, i: int)
    requires
        a.is_prefix_of(b),
        0 <= i < a.len(),
    ensures
        b[i] == a[i],
{
    assert(a =~= b.subrange(0, a.len() as int));
}

/// Prefixes chain: what was history stays history.
pub proof fn lemma_prefix_trans(a: Seq<StoreOp>, b: Seq<StoreOp>, c: Seq<StoreOp>)
    requires
        a.is_prefix_of(b),
        b.is_prefix_of(c),
    ensures
        a.is_prefix_of(c),
{
    assert(a =~= c.take(a.len() as int));
}

/// The operation history of a completed rename, appended to `pre`: the
/// probe listing of `dir`, free of `new_key` and holding the selected leaf
/// at `sel`; the read of that leaf's value; the write of the same value
/// under `new_key`, strictly before the delete of the old leaf; and the
/// re-listing of `dir` that follows.
pub open spec fn rename_history(
    pre: Seq<StoreOp>,
    post: Seq<StoreOp>,
    dir: Seq<char>,
    sel: int,
    new_key: Seq<char>,
) -> bool {
    let n = pre.len() as int;
    &&& post.len() >= n + 5
    &&& post.take(n) == pre
    &&& post[n] matches StoreOp::List(p0, lres) && p0 == dir && (lres matches Some(ks0) && {
        &&& entry_find(decode_keys(ks0), new_key) is None
        &&& 0 <= sel < decode_keys(ks0).len()
        &&& !decode_keys(ks0)[sel].is_dir
        &&& (post[n + 1] matches StoreOp::Read(p1, rres) && p1 == dir + decode_keys(ks0)[sel].name
            && (rres matches Some(v) && {
            &&& post[n + 2] == StoreOp::Write(dir + new_key, v, true)
            &&& post[n + 3] == StoreOp::Delete(p1, true)
            &&& post[n + 4] matches StoreOp::List(p2, _) && p2 == dir
        }))
    })
}

/// One interactive session: the current location, the cached client around
/// the store capability, the listing and selection, and the modal state.
pub struct Vaultwalker<H: SecretStore> {
    pub client: VaultClient<H>,
    pub mode: Mode,
    pub quit_requested: bool,
    pub path: VaultPath,
    pub current_list: Vec<VaultEntry>,
    pub selected_item: usize,
    pub previous_selected_item: usize,
    pub scroll: usize,
    pub selected_secret: Option<String>,
    pub displayed_message: Option<String>,
    pub buffered_key: String,
}

impl<H: SecretStore> Vaultwalker<H> {
    /// The listing, as entry models.
    pub open spec fn list_model(&self) -> Seq<EntryModel> {
        self.current_list@.map_values(|e: VaultEntry| e@)
    }

    /// The operation history of the session's store.
    pub open spec fn ops(&self) -> Seq<StoreOp> {
        self.client.store.ops()
    }

    /// The full store path of the selected entry.
    pub open spec fn selected_path_model(&self) -> Seq<char> {
        joined_of(self.path@) + self.list_model()[self.selected_item as int].name
    }

    /// The selected secret is resolved for the current selection: `None`
    /// exactly on a directory or out-of-range selection, and otherwise the
    /// value the cache holds for the selected path.
    pub open spec fn secret_resolved(&self) -> bool {
        if self.selected_item >= self.current_list@.len() || self.list_model()[self.selected_item as int].is_dir {
            self.selected_secret is None
        } else {
            &&& self.selected_secret matches Some(v)
            &&& self.client.cache@.contains_key((Verb::Get, self.selected_path_model()))
            &&& self.client.cache@[(Verb::Get, self.selected_path_model())] == BodyModel::Value(v@)
        }
    }

    /// The listing mirrors the cached listing of the current path.
    pub open spec fn listing_synced(&self) -> bool {
        let lkey = (Verb::List, joined_of(self.path@));
        &&& self.client.cache@.contains_key(lkey)
        &&& self.client.cache@[lkey] matches BodyModel::Keys(ks) && self.list_model()
            == decode_keys(ks)
    }

    /// Session invariant: the cache is well formed, the path never drops
    /// below the session floor and holds directories only, and in the modal
    /// states the selection points where the mode needs it: at the virtual
    /// one-past-the-end row while inserting, at a real entry while updating
    /// or deleting.
    pub open spec fn wf(&self) -> bool {
        &&& self.client.wf()
        &&& self.path.wf()
        &&& all_dirs(self.path@)
        &&& match self.mode {
            Mode::Navigation => true,
            Mode::TypingKey(em) => if em is Insert {
                self.selected_item == self.current_list@.len()
            } else {
                self.selected_item < self.current_list@.len()
            },
            Mode::TypingSecret(em) => if em is Insert {
                self.selected_item == self.current_list@.len()
            } else {
                self.selected_item < self.current_list@.len()
            },
            Mode::DeletingKey => self.selected_item < self.current_list@.len(),
        }
    }

    /// A fresh session rooted at `root`, which must denote a directory
    /// prefix (empty, or ending with the separator). Nothing is fetched
    /// yet: the caller lists and renders next.
    pub fn new(store: H, root: String) -> (r: Result<Self, Error>)
        requires
            root@.len() == 0 || root@.last() == '/',
        ensures
            r matches Ok(w) && {
                &&& w.wf()
                &&& w.client.store == store
                &&& w.client.cache@ == Map::<(Verb, Seq<char>), BodyModel>::empty()
                &&& w.path@ == decode_path(root@)
                &&& w.path.root_len == w.path@.len()
                &&& w.mode is Navigation
                &&& !w.quit_requested
                &&& w.list_model() == Seq::<EntryModel>::empty()
                &&& w.selected_item == 0 && w.previous_selected_item == 0 && w.scroll == 0
                &&& w.selected_secret is None && w.displayed_message is None
                &&& w.buffered_key@.len() == 0
            },
    {
        let path = VaultPath::decode(root.as_str());
        proof {
            lemma_decode_all_dirs(root@);
        }
        let w = Vaultwalker {
            client: VaultClient::new(store),
            mode: Mode::Navigation,
            quit_requested: false,
            path,
            current_list: Vec::new(),
            selected_item: 0,
            previous_selected_item: 0,
            scroll: 0,
            selected_secret: None,
            displayed_message: None,
            buffered_key: String::new(),
        };
        proof {
            assert(w.list_model() =~= Seq::<EntryModel>::empty());
        }
        Ok(w)
    }

    /// The full store path of the selected entry.
    pub fn get_selected_path(&self) -> (r: String)
        requires
            self.selected_item < self.current_list@.len(),
        ensures
            r@ == joined_of(self.path@) + self.list_model()[self.selected_item as int].name,
    {
        let mut s = self.path.join();
        s.append(self.current_list[self.selected_item].name.as_str());
        s
    }

    /// Replace the listing with the children of the current path, through
    /// the cache under the given policy. On success the listing is the
    /// decoding of exactly the keys now cached for this path; on failure it
    /// is untouched and the error propagates.
    pub fn update_list(&mut self, cache: FromCache) -> (r: Result<(), Error>)
        requires
            old(self).wf(),
            old(self).mode is Navigation,
        ensures
            final(self).wf(),
            final(self).path == old(self).path,
            final(self).mode == old(self).mode,
            final(self).selected_item == old(self).selected_item,
            final(self).previous_selected_item == old(self).previous_selected_item,
            final(self).scroll == old(self).scroll,
            final(self).selected_secret == old(self).selected_secret,
            final(self).displayed_message == old(self).displayed_message,
            final(self).buffered_key == old(self).buffered_key,
            final(self).quit_requested == old(self).quit_requested,
            r is Ok ==> final(self).listing_synced(),
            forall|k: (Verb, Seq<char>)| #![auto]
                final(self).client.cache@.contains_key(k) ==> old(
                    self,
                ).client.cache@.contains_key(k) || k == (
                    Verb::List,
                    joined_of(old(self).path@),
                ),
            r is Err ==> final(self).current_list == old(self).current_list,
            r matches Err(e) ==> e is Vault,
            old(self).ops().is_prefix_of(final(self).ops()),
            old(self).client.hits(Verb::List, joined_of(old(self).path@), cache) ==> final(self).client.store == old(self).client.store && final(self).client.cache@ == old(self).client.cache@ && r is Ok,
            (!old(self).client.hits(Verb::List, joined_of(old(self).path@), cache) && r is Ok)
                ==> (final(self).client.cache@[(Verb::List, joined_of(old(self).path@))]
                matches BodyModel::Keys(ks) && final(self).ops() == old(self).ops().push(
                StoreOp::List(joined_of(old(self).path@), Some(ks)),
            )),
            (!old(self).client.hits(Verb::List, joined_of(old(self).path@), cache) && r is Err)
                ==> final(self).ops() == old(self).ops().push(
                StoreOp::List(joined_of(old(self).path@), None),
            ),
    {
        let path = self.path.join();
        match self.client.list_secrets(path.as_str(), cache) {
            Ok(lr) => {
                let mut list: Vec<VaultEntry> = Vec::new();
                let mut i: usize = 0;
                while i < lr.keys.len()
                    invariant
                        i <= lr.keys@.len(),
                        list@.map_values(|e: VaultEntry| e@) == decode_keys(
                            lr.keys.deep_view().take(i as int),
                        ),
                    decreases lr.keys@.len() - i,
                {
                    let e = VaultEntry::decode(lr.keys[i].as_str());
                    let ghost prev = list@;
                    list.push(e);
                    proof {
                        let ks = lr.keys.deep_view();
                        assert(ks[i as int] == lr.keys@[i as int]@);
                        assert(prev.map_values(|e: VaultEntry| e@).len() == prev.len());
                        assert(decode_keys(ks.take(i as int)).len() == i as int);
                        assert(prev.len() == i as int);
                        assert(list@ == prev.push(e));
                        assert(list@.len() == i + 1);
                        assert forall|j: int| 0 <= j < i + 1 implies #[trigger] decode_keys(
                            ks.take(i + 1),
                        )[j] == list@.map_values(|e: VaultEntry| e@)[j] by {
                            assert(list@.map_values(|e: VaultEntry| e@)[j] == list@[j]@);
                            assert(ks.take(i + 1)[j] == ks[j]);
                            if j < i {
                                assert(list@[j] == prev[j]);
                                assert(prev.map_values(|e: VaultEntry| e@)[j] == decode_keys(
                                    ks.take(i as int),
                                )[j]);
                                assert(ks.take(i as int)[j] == ks[j]);
                            } else {
                                assert(list@[j] == e);
                            }
                        }
                        assert(list@.map_values(|e: VaultEntry| e@) =~= decode_keys(
                            ks.take(i + 1),
                        ));
                    }
                    i = i + 1;
                }
                proof {
                    assert(lr.keys.deep_view().take(lr.keys@.len() as int) =~= lr
                        .keys
                        .deep_view());
                }
                self.current_list = list;
                Ok(())
            },
            Err(e) => Err(e),
        }
    }

    /// Recompute the resolved secret of the selection: `None` when the
    /// selection is out of range or a directory; otherwise the value read
    /// through the cache under the given policy.
    pub fn update_selected_secret(&mut self, cache: FromCache) -> (r: Result<(), Error>)
        requires
            old(self).wf(),
        ensures
            final(self).wf(),
            final(self).path == old(self).path,
            final(self).mode == old(self).mode,
            final(self).current_list == old(self).current_list,
            final(self).selected_item == old(self).selected_item,
            final(self).previous_selected_item == old(self).previous_selected_item,
            final(self).scroll == old(self).scroll,
            final(self).displayed_message == old(self).displayed_message,
            final(self).buffered_key == old(self).buffered_key,
            final(self).quit_requested == old(self).quit_requested,
            old(self).ops().is_prefix_of(final(self).ops()),
            r matches Err(e) ==> e is Vault,
            r is Ok ==> final(self).secret_resolved(),
            forall|q: Seq<char>| #![auto]
                old(self).client.cache@.contains_key((Verb::List, q))
                    ==> final(self).client.cache@.contains_key((Verb::List, q))
                    && final(self).client.cache@[(Verb::List, q)]
                    == old(self).client.cache@[(Verb::List, q)],
            forall|k: (Verb, Seq<char>)| #![auto]
                final(self).client.cache@.contains_key(k) ==> old(self).client.cache@.contains_key(k) || k == (
                    Verb::Get,
                    old(self).selected_path_model(),
                ),
            (old(self).selected_item >= old(self).current_list@.len() || old(self).list_model()[old(self).selected_item as int].is_dir) ==> {
                &&& r is Ok
                &&& final(self).selected_secret is None
                &&& final(self).client == old(self).client
            },
            (old(self).selected_item < old(self).current_list@.len() && !old(self).list_model()[old(self).selected_item as int].is_dir) ==> {
                let p = old(self).selected_path_model();
                &&& (r is Ok ==> (final(self).selected_secret matches Some(v) && final(self).client.cache@[(Verb::Get, p)] == BodyModel::Value(v@)))
                &&& (r is Err ==> final(self).selected_secret == old(self).selected_secret)
                &&& (old(self).client.hits(Verb::Get, p, cache) ==> final(self).client.store
                    == old(self).client.store && r is Ok)
                &&& (!old(self).client.hits(Verb::Get, p, cache) ==> final(self).ops() == old(self).ops().push(
                    StoreOp::Read(
                        p,
                        if r is Ok {
                            Some(final(self).client.cache@[(Verb::Get, p)]->Value_0)
                        } else {
                            None
                        },
                    ),
                ))
            },
    {
        if self.selected_item >= self.current_list.len() {
            self.selected_secret = None;
            return Ok(());
        }
        if self.current_list[self.selected_item].is_dir {
            self.selected_secret = None;
            return Ok(());
        }
        let p = self.get_selected_path();
        match self.client.get_secret(p.as_str(), cache) {
            Ok(v) => {
                self.selected_secret = Some(v);
                Ok(())
            },
            Err(e) => Err(e),
        }
    }

    /// Re-list the current path, then select the entry named `key` — by
    /// name, not by index, because mutations shift ordinal positions — or
    /// fall back to the remembered previous selection; finally re-resolve
    /// the selected secret.
    pub fn set_selected_item(&mut self, key: &str, cache: FromCache) -> (r: Result<(), Error>)
        requires
            old(self).wf(),
            old(self).mode is Navigation,
        ensures
            final(self).wf(),
            final(self).path == old(self).path,
            final(self).mode == old(self).mode,
            final(self).previous_selected_item == old(self).previous_selected_item,
            final(self).scroll == old(self).scroll,
            final(self).buffered_key == old(self).buffered_key,
            final(self).displayed_message == old(self).displayed_message,
            final(self).quit_requested == old(self).quit_requested,
            old(self).ops().is_prefix_of(final(self).ops()),
            r matches Err(e) ==> e is Vault,
            cache is No ==> old(self).ops().len() < final(self).ops().len() && (final(self).ops()[old(self).ops().len() as int] matches StoreOp::List(p, _) && p == joined_of(old(self).path@)),
            (cache is No && r is Ok) ==> (final(self).ops()[old(self).ops().len() as int]
                matches StoreOp::List(p, ks) && ks matches Some(fresh) && final(self).client.cache@[(
                Verb::List,
                joined_of(old(self).path@),
            )] == BodyModel::Keys(fresh)),
            r is Ok ==> ({
                &&& final(self).listing_synced()
                &&& final(self).selected_item == (match entry_find(final(self).list_model(), key@) {
                    Some(i) => i as usize,
                    None => old(self).previous_selected_item,
                })
                &&& final(self).secret_resolved()
            }),
            // success is owed when the cache already decides every read:
            // the listing is cached and the selection it determines is a
            // directory, out of range, or has its value cached
            (cache is Yes && old(self).client.cache@.contains_key(
                (Verb::List, joined_of(old(self).path@)),
            )) ==> (old(self).client.cache@[(Verb::List, joined_of(old(self).path@))]
                matches BodyModel::Keys(ks) && ({
                let es = decode_keys(ks);
                let sel = match entry_find(es, key@) {
                    Some(i) => i,
                    None => old(self).previous_selected_item as int,
                };
                (sel >= es.len() || es[sel].is_dir || old(self).client.cache@.contains_key(
                    (Verb::Get, joined_of(old(self).path@) + es[sel].name),
                )) ==> r is Ok
            })),
    {
        proof {
            self.client.cache.lemma_kinds(joined_of(self.path@));
        }
        let res = self.update_list(cache);
        if let Err(e) = res {
            return Err(e);
        }
        match find_entry(&self.current_list, key) {
            Some(i) => {
                self.selected_item = i;
            },
            None => {
                self.selected_item = self.previous_selected_item;
            },
        }
        self.update_selected_secret(cache)
    }

    /// Re-fetch the current listing and selected secret with the cache
    /// bypassed.
    pub fn refresh_all(&mut self) -> (r: Result<(), Error>)
        requires
            old(self).wf(),
            old(self).mode is Navigation,
        ensures
            final(self).wf(),
            final(self).path == old(self).path,
            final(self).mode == old(self).mode,
            final(self).selected_item == old(self).selected_item,
            final(self).scroll == old(self).scroll,
            final(self).quit_requested == old(self).quit_requested,
            old(self).ops().is_prefix_of(final(self).ops()),
            r matches Err(e) ==> e is Vault,
            old(self).ops().len() < final(self).ops().len() && (final(self).ops()[old(self).ops().len() as int] matches StoreOp::List(p, _) && p == joined_of(old(self).path@)),
            r is Ok ==> (final(self).ops()[old(self).ops().len() as int]
                matches StoreOp::List(p, ks) && ks matches Some(fresh) && final(self).client.cache@[(
                Verb::List,
                joined_of(old(self).path@),
            )] == BodyModel::Keys(fresh)),
            r is Ok ==> final(self).listing_synced() && final(self).secret_resolved(),
    {
        let res = self.update_list(FromCache::No);
        if let Err(e) = res {
            return Err(e);
        }
        self.update_selected_secret(FromCache::No)
    }

    /// Record a status message; reports whether it must be rendered, which
    /// is exactly when it differs from the one already displayed — repeated
    /// identical messages are not re-rendered.
    pub fn note_message(&mut self, message: &str) -> (emit: bool)
        ensures
            final(self).displayed_message matches Some(m) && m@ == message@,
            emit == !(old(self).displayed_message matches Some(m) && m@ == message@),
            final(self).client == old(self).client,
            final(self).path == old(self).path,
            final(self).mode == old(self).mode,
            final(self).current_list == old(self).current_list,
            final(self).selected_item == old(self).selected_item,
            final(self).quit_requested == old(self).quit_requested,
    {
        let same = match &self.displayed_message {
            Some(m) => str_eq(m.as_str(), message),
            None => false,
        };
        self.displayed_message = Some(message.to_owned());
        !same
    }

    /// Rename the selected leaf to `new_key`: re-list with the cache
    /// bypassed, refuse a duplicate name, read the old value, write it
    /// under the new key, delete the old key, and re-select the new key by
    /// name. The write-then-delete pair is not atomic: a failure between
    /// the two steps leaves both keys present and surfaces the error.
    pub fn rename_key(&mut self, new_key: &str) -> (r: Result<(), Error>)
        requires
            old(self).wf(),
            old(self).mode is Navigation,
        ensures
            final(self).wf(),
            final(self).mode == old(self).mode,
            final(self).path == old(self).path,
            final(self).quit_requested == old(self).quit_requested,
            old(self).ops().is_prefix_of(final(self).ops()),
            old(self).ops().len() < final(self).ops().len() && (final(self).ops()[old(self).ops().len() as int] matches StoreOp::List(p, _) && p == joined_of(old(self).path@)),
            r matches Err(e) ==> (e matches Error::Application(m) ==> m@ == messages::dup_key_msg(
                new_key@,
            ) || m@ == messages::cannot_rename_dir_msg()),
            r matches Err(e) && e is Application ==> final(self).ops().len() == old(self).ops().len() + 1,
            (r matches Err(e) && e matches Error::Application(m) && m@ == messages::dup_key_msg(
                new_key@,
            )) ==> final(self).ops().len() == old(self).ops().len() + 1 && entry_find(
                final(self).list_model(),
                new_key@,
            ) is Some && final(self).listing_synced(),
            // the forward directions of the two refusals: a probe listing
            // that holds new_key forces the duplicate error, with nothing
            // issued beyond the probe and the selection untouched ...
            (final(self).ops()[old(self).ops().len() as int] matches StoreOp::List(p0, lres)
                && lres matches Some(ks) && entry_find(decode_keys(ks), new_key@) is Some) ==> (r
                matches Err(e) && (e matches Error::Application(m) && m@ == messages::dup_key_msg(
                new_key@,
            )) && final(self).ops().len() == old(self).ops().len() + 1 && final(self).selected_item
                == old(self).selected_item),
            // ... and a probe whose selection is out of range or a directory
            // forces the not-a-key error, likewise after the probe alone
            (final(self).ops()[old(self).ops().len() as int] matches StoreOp::List(p1, lres1)
                && lres1 matches Some(ks1) && entry_find(decode_keys(ks1), new_key@) is None && (old(self).selected_item >= decode_keys(ks1).len() || decode_keys(ks1)[old(self).selected_item as int].is_dir)) ==> (r
                matches Err(e) && (e matches Error::Application(m)
                && m@ == messages::cannot_rename_dir_msg()) && final(self).ops().len() == old(self).ops().len() + 1 && final(self).selected_item == old(self).selected_item),
            r is Ok ==> rename_history(
                old(self).ops(),
                final(self).ops(),
                joined_of(old(self).path@),
                old(self).selected_item as int,
                new_key@,
            ),
            r is Ok ==> ({
                &&& final(self).listing_synced()
                &&& final(self).selected_item == (match entry_find(final(self).list_model(), new_key@) {
                    Some(i) => i as usize,
                    None => old(self).previous_selected_item,
                })
                &&& final(self).secret_resolved()
            }),
    {
        let ghost n = old(self).ops().len() as int;
        let ghost dir = joined_of(old(self).path@);
        let res = self.update_list(FromCache::No);
        if let Err(e) = res {
            return Err(e);
        }
        let ghost ops1 = self.ops();
        let ghost ks0 = self.client.cache@[(Verb::List, dir)]->Keys_0;
        proof {
            assert(ops1 == old(self).ops().push(StoreOp::List(dir, Some(ks0))));
            assert(self.list_model() == decode_keys(ks0));
        }
        if let Some(_) = find_entry(&self.current_list, new_key) {
            return Err(Error::Application(messages::dup_key_text(new_key)));
        }
        let res = self.update_selected_secret(FromCache::No);
        if let Err(e) = res {
            proof {
                lemma_prefix_trans(old(self).ops(), ops1, self.ops());
            }
            return Err(e);
        }
        let secret = match &self.selected_secret {
            Some(s) => s.clone(),
            None => {
                proof {
                    messages::lemma_dup_key_msg_distinct(new_key@);
                }
                return Err(Error::Application(messages::cannot_rename_dir_text()));
            },
        };
        let ghost ops2 = self.ops();
        proof {
            assert(self.selected_item < self.current_list@.len());
            assert(!self.list_model()[self.selected_item as int].is_dir);
            assert(ops2 == ops1.push(
                StoreOp::Read(dir + decode_keys(ks0)[old(self).selected_item as int].name, Some(secret@)),
            ));
        }
        let mut new_path = self.path.join();
        new_path.append(new_key);
        let res = self.client.write_secret(new_path.as_str(), secret.as_str());
        let ghost ops3 = self.ops();
        proof {
            assert(ops3 == ops2.push(StoreOp::Write(dir + new_key@, secret@, res is Ok)));
            assert(ops1.is_prefix_of(ops3));
            lemma_prefix_trans(old(self).ops(), ops1, ops3);
        }
        if let Err(e) = res {
            return Err(e);
        }
        let old_path = self.get_selected_path();
        let res = self.client.delete_secret(old_path.as_str());
        let ghost ops4 = self.ops();
        proof {
            assert(ops4 == ops3.push(
                StoreOp::Delete(dir + decode_keys(ks0)[old(self).selected_item as int].name, res is Ok),
            ));
            assert(ops1.is_prefix_of(ops4));
            lemma_prefix_trans(old(self).ops(), ops1, ops4);
        }
        if let Err(e) = res {
            return Err(e);
        }
        let r = self.set_selected_item(new_key, FromCache::No);
        proof {
            lemma_prefix_trans(ops1, ops4, self.ops());
            lemma_prefix_trans(old(self).ops(), ops1, self.ops());
            lemma_prefix_index(ops1, self.ops(), n);
            if r is Ok {
                assert(self.ops().take(n) =~= old(self).ops());
                assert(ops2.is_prefix_of(ops4) && ops3.is_prefix_of(ops4));
                lemma_prefix_trans(ops2, ops4, self.ops());
                lemma_prefix_trans(ops3, ops4, self.ops());
                lemma_prefix_index(ops1, self.ops(), n);
                lemma_prefix_index(ops2, self.ops(), n + 1);
                lemma_prefix_index(ops3, self.ops(), n + 2);
                lemma_prefix_index(ops4, self.ops(), n + 3);
                assert(self.ops()[n] == StoreOp::List(dir, Some(ks0)));
                assert(self.ops()[n + 1] == ops2[n + 1]);
                assert(self.ops()[n + 2] == ops3[n + 2]);
                assert(self.ops()[n + 3] == ops4[n + 3]);
                assert(self.ops()[n + 4] matches StoreOp::List(p2, _) && p2 == dir);
                assert(rename_history(old(self).ops(), self.ops(), dir, old(self).selected_item as int, new_key@));
            }
        }
        r
    }

    /// Handle the line submitted while typing a key name. An empty name or
    /// one ending with the separator is refused and the previous selection
    /// restored; otherwise an insert flow buffers the key and moves on to
    /// typing its value, while an update flow performs the rename.
    pub fn handle_typing_key(&mut self, edit_mode: EditMode, key: String) -> (r: Result<
        Step,
        Error,
    >)
        requires
            old(self).wf(),
            old(self).mode == Mode::TypingKey(edit_mode),
        ensures
            final(self).wf(),
            key@.len() == 0 ==> {
                &&& final(self).mode is Navigation
                &&& final(self).buffered_key@.len() == 0
                &&& final(self).selected_item == old(self).previous_selected_item
                &&& final(self).client == old(self).client
                &&& r matches Err(e) && (e matches Error::Application(m)
                    && m@ == messages::empty_key_msg())
            },
            key@.len() > 0 && key@.last() == '/' ==> {
                &&& final(self).mode is Navigation
                &&& final(self).buffered_key@.len() == 0
                &&& final(self).selected_item == old(self).previous_selected_item
                &&& final(self).client == old(self).client
                &&& r matches Err(e) && (e matches Error::Application(m)
                    && m@ == messages::dir_key_msg())
            },
            key@.len() > 0 && key@.last() != '/' && edit_mode is Insert ==> {
                &&& final(self).mode == Mode::TypingSecret(EditMode::Insert)
                &&& final(self).buffered_key == key
                &&& final(self).selected_item == old(self).selected_item
                &&& final(self).client == old(self).client
                &&& r matches Ok(st) && (st.redraw && st.message is None && !st.quit)
            },
            key@.len() > 0 && key@.last() != '/' && edit_mode is Update ==> {
                &&& final(self).mode is Navigation
                &&& old(self).ops().is_prefix_of(final(self).ops())
                &&& (r matches Ok(st) ==> (st.redraw && !st.quit && (st.message matches Some(m)
                    && m@ == messages::renamed_msg()) && !st.message_is_error))
                &&& (r is Ok ==> ({
                    &&& rename_history(
                        old(self).ops(),
                        final(self).ops(),
                        joined_of(old(self).path@),
                        old(self).selected_item as int,
                        key@,
                    )
                    &&& final(self).listing_synced()
                    &&& final(self).secret_resolved()
                }))
            },
    {
        if key.as_str().is_empty() {
            self.mode = Mode::Navigation;
            self.buffered_key = String::new();
            self.selected_item = self.previous_selected_item;
            return Err(Error::Application(messages::empty_key_text()));
        }
        if ends_with_sep(key.as_str()) {
            self.mode = Mode::Navigation;
            self.buffered_key = String::new();
            self.selected_item = self.previous_selected_item;
            return Err(Error::Application(messages::dir_key_text()));
        }
        match edit_mode {
            EditMode::Insert => {
                self.buffered_key = key;
                self.mode = Mode::TypingSecret(EditMode::Insert);
                Ok(Step::redraw_only())
            },
            EditMode::Update => {
                self.mode = Mode::Navigation;
                let res = self.rename_key(key.as_str());
                if let Err(e) = res {
                    return Err(e);
                }
                Ok(Step {
                    redraw: true,
                    message: Some(messages::renamed_text()),
                    message_is_error: false,
                    copy: None,
                    quit: false,
                })
            },
        }
    }

    /// Handle the line submitted while typing a secret value: write it at
    /// the buffered key (insert) or the selected key (update), then re-list
    /// with the cache bypassed and re-select the key by name.
    pub fn handle_typing_secret(&mut self, secret_type: EditMode, secret: String) -> (r: Result<
        Step,
        Error,
    >)
        requires
            old(self).wf(),
            old(self).mode == Mode::TypingSecret(secret_type),
        ensures
            final(self).wf(),
            final(self).mode is Navigation,
            ({
                let key = if secret_type is Insert {
                    old(self).buffered_key@
                } else {
                    old(self).list_model()[old(self).selected_item as int].name
                };
                let target = joined_of(old(self).path@) + key;
                &&& old(self).ops().len() < final(self).ops().len()
                &&& old(self).ops().is_prefix_of(final(self).ops())
                // the write of the submitted value at the key's full path is
                // always the first store operation issued
                &&& (final(self).ops()[old(self).ops().len() as int] matches StoreOp::Write(
                    p,
                    v,
                    wok,
                ) && p == target && v == secret@ && (wok || r is Err && final(self).ops().len()
                    == old(self).ops().len() + 1))
                &&& (r matches Ok(st) ==> ({
                    &&& st.redraw && !st.quit && !st.message_is_error
                    &&& st.message matches Some(m) && m@ == (if secret_type is Insert {
                        messages::added_msg(target, secret@)
                    } else {
                        messages::updated_msg(target, secret@)
                    })
                    &&& final(self).buffered_key@.len() == 0
                    // the listing was then re-read with the cache bypassed,
                    // and the selection re-positioned by name lookup of key
                    &&& (final(self).ops()[old(self).ops().len() as int + 1] matches StoreOp::List(p2, _)
                        && p2 == joined_of(old(self).path@))
                    &&& final(self).listing_synced()
                    &&& final(self).selected_item == (match entry_find(
                        final(self).list_model(),
                        key,
                    ) {
                        Some(i) => i as usize,
                        None => old(self).previous_selected_item,
                    })
                    &&& final(self).secret_resolved()
                }))
            }),
    {
        self.mode = Mode::Navigation;
        let key: String = match secret_type {
            EditMode::Insert => self.buffered_key.clone(),
            EditMode::Update => self.current_list[self.selected_item].name.clone(),
        };
        let mut path = self.path.join();
        path.append(key.as_str());
        let res = self.client.write_secret(path.as_str(), secret.as_str());
        let ghost ops1 = self.ops();
        if let Err(e) = res {
            return Err(e);
        }
        let res = self.set_selected_item(key.as_str(), FromCache::No);
        proof {
            lemma_prefix_trans(old(self).ops(), ops1, self.ops());
            lemma_prefix_index(ops1, self.ops(), old(self).ops().len() as int);
        }
        if let Err(e) = res {
            return Err(e);
        }
        let msg = match secret_type {
            EditMode::Insert => messages::added_text(path.as_str(), secret.as_str()),
            EditMode::Update => messages::updated_text(path.as_str(), secret.as_str()),
        };
        self.buffered_key = String::new();
        Ok(Step {
            redraw: true,
            message: Some(msg),
            message_is_error: false,
            copy: None,
            quit: false,
        })
    }

    /// The confirmation question for the pending deletion.
    pub fn delete_prompt(&self) -> (r: String)
        requires
            self.wf(),
            self.mode is DeletingKey,
        ensures
            r@ == messages::confirm_delete_msg(
                self.list_model()[self.selected_item as int].name,
            ),
    {
        messages::confirm_delete_text(self.current_list[self.selected_item].name.as_str())
    }

    /// Handle the confirmation answer for a pending deletion. Only the
    /// exact answer `yes` deletes — the selected path, and nothing else;
    /// any other answer leaves the store and the session untouched and
    /// reports that nothing was deleted. After a deletion that emptied the
    /// current directory, the path ascends one level at a time, re-listing
    /// with the cache bypassed (the listings are stale after the mutation),
    /// until a directory with remaining entries, or the root floor, is
    /// reached; finally the listing is re-read fresh and the selection
    /// clamped against it.
    pub fn handle_deleting_key(&mut self, answer: String) -> (r: Result<Step, Error>)
        requires
            old(self).wf(),
            old(self).mode is DeletingKey,
        ensures
            final(self).wf(),
            final(self).mode is Navigation,
            final(self).path.root_len == old(self).path.root_len,
            answer@ != "yes"@ ==> {
                &&& final(self).client == old(self).client
                &&& final(self).path == old(self).path
                &&& final(self).current_list == old(self).current_list
                &&& final(self).selected_item == old(self).selected_item
                &&& r matches Ok(st) && (st.redraw && st.message_is_error && !st.quit
                    && (st.message matches Some(m) && m@ == messages::not_deleted_msg(answer@)))
            },
            answer@ == "yes"@ ==> ({
                let target = joined_of(old(self).path@) + old(self).list_model()[old(self).selected_item as int].name;
                &&& old(self).ops().len() < final(self).ops().len()
                &&& old(self).ops().is_prefix_of(final(self).ops())
                &&& (final(self).ops()[old(self).ops().len() as int] matches StoreOp::Delete(p, delok)
                    && p == target && (delok || r is Err && final(self).ops().len() == old(self).ops().len() + 1))
                &&& final(self).path@ == old(self).path@.take(final(self).path@.len() as int)
                &&& final(self).path@.len() <= old(self).path@.len()
                // deleting the only entry of a directory above the floor
                // forces the ascent ...
                &&& (r is Ok && old(self).current_list@.len() == 1 && old(self).path@.len() > old(self).path.root_len ==> final(self).path@.len() < old(self).path@.len())
                // ... and with more entries left the path stays where it is
                &&& (old(self).current_list@.len() != 1 ==> final(self).path == old(self).path)
                &&& (r matches Ok(st) ==> ({
                    &&& (final(self).path@.len() < old(self).path@.len() ==> final(self).scroll
                        == 0)
                    &&& st.redraw && !st.message_is_error && !st.quit
                    &&& st.message matches Some(m) && m@ == messages::deleted_msg(target)
                    &&& final(self).listing_synced()
                    &&& final(self).secret_resolved()
                    &&& (final(self).current_list@.len() > 0 ==> final(self).selected_item < final(self).current_list@.len())
                    &&& (final(self).current_list@.len() == 0 ==> final(self).selected_item == 0)
                    &&& exists|i: int|
                        old(self).ops().len() <= i < final(self).ops().len() && ((#[trigger] final(self).ops()[i]) matches StoreOp::List(p, ks)
                            && p == joined_of(final(self).path@) && (ks matches Some(fresh)
                            && final(self).client.cache@[(Verb::List, p)] == BodyModel::Keys(fresh)))
                }))
            }),
    {
        self.mode = Mode::Navigation;
        if str_eq(answer.as_str(), "yes") {
            let mut full = self.path.join();
            full.append(self.current_list[self.selected_item].name.as_str());
            let res = self.client.delete_secret(full.as_str());
            if let Err(e) = res {
                return Err(e);
            }
            let ghost base = self.ops();
            proof {
                assert(base == old(self).ops().push(StoreOp::Delete(full@, true)));
            }
            proof {
                assert(old(self).ops().is_prefix_of(base));
            }
            while self.current_list.len() == 1 && self.path.entries.len() > self.path.root_len
                invariant
                    self.wf(),
                    self.mode is Navigation,
                    self.path.root_len == old(self).path.root_len,
                    self.quit_requested == old(self).quit_requested,
                    base == old(self).ops().push(StoreOp::Delete(full@, true)),
                    base.is_prefix_of(self.ops()),
                    self.path@ == old(self).path@.take(self.path@.len() as int),
                    self.path@.len() <= old(self).path@.len(),
                    self.path@.len() == old(self).path@.len() ==> self.path == old(self).path
                        && self.current_list == old(self).current_list,
                    old(self).current_list@.len() != 1 ==> self.path == old(self).path,
                    self.path@.len() < old(self).path@.len() ==> self.scroll == 0,
                    full@ == joined_of(old(self).path@) + old(self).list_model()[old(self).selected_item as int].name,
                    answer@ == "yes"@,
                decreases self.path.entries@.len(),
            {
                let ghost before = self.path@;
                let last = self.path.pop().unwrap();
                proof {
                    assert(self.path@ == before.drop_last());
                    assert(forall|k: int|
                        0 <= k < self.path@.len() ==> self.path@[k] == before[k]);
                    assert(all_dirs(self.path@));
                    assert(self.path@ =~= old(self).path@.take(self.path@.len() as int));
                }
                let ghost mid = self.ops();
                let res = self.set_selected_item(last.name.as_str(), FromCache::No);
                proof {
                    lemma_prefix_trans(base, mid, self.ops());
                    lemma_prefix_trans(old(self).ops(), base, self.ops());
                    lemma_prefix_index(base, self.ops(), old(self).ops().len() as int);
                }
                if let Err(e) = res {
                    return Err(e);
                }
                self.scroll = 0;
            }
            proof {
                // the loop cannot have exited in its starting state when the
                // stale listing was a singleton above the floor
                if old(self).current_list@.len() == 1 && old(self).path@.len() > old(self).path.root_len {
                    assert(self.path@.len() < old(self).path@.len());
                }
            }
            // re-read the listing with the cache bypassed, then clamp the
            // selection against the fresh listing and re-resolve the secret
            let ghost mid = self.ops();
            let res = self.update_list(FromCache::No);
            proof {
                lemma_prefix_trans(base, mid, self.ops());
                lemma_prefix_trans(old(self).ops(), base, self.ops());
                lemma_prefix_index(base, self.ops(), old(self).ops().len() as int);
            }
            if let Err(e) = res {
                return Err(e);
            }
            let ghost wi = mid.len();
            if self.current_list.len() == 0 {
                self.selected_item = 0;
            } else if self.selected_item >= self.current_list.len() {
                self.selected_item = self.current_list.len() - 1;
            }
            let ghost mid2 = self.ops();
            let res = self.update_selected_secret(FromCache::No);
            proof {
                lemma_prefix_trans(base, mid2, self.ops());
                lemma_prefix_trans(old(self).ops(), base, self.ops());
                lemma_prefix_index(base, self.ops(), old(self).ops().len() as int);
            }
            if let Err(e) = res {
                return Err(e);
            }
            proof {
                assert((#[trigger] self.ops()[wi as int]) matches StoreOp::List(p, ks)
                    && p == joined_of(self.path@) && (ks matches Some(fresh)
                    && self.client.cache@[(Verb::List, p)] == BodyModel::Keys(fresh)));
            }
            Ok(Step {
                redraw: true,
                message: Some(messages::deleted_text(full.as_str())),
                message_is_error: false,
                copy: None,
                quit: false,
            })
        } else {
            Ok(Step {
                redraw: true,
                message: Some(messages::not_deleted_text(answer.as_str())),
                message_is_error: true,
                copy: None,
                quit: false,
            })
        }
    }

    /// Dispatch one input action while browsing. Movement clamps and never
    /// wraps; descent is permitted only into a directory and within the
    /// depth guard; ascent only above the root floor; the editing actions
    /// are refused on directories; and every action that changed what is
    /// shown asks for a redraw, re-resolving the selected secret first.
    pub fn handle_navigation(&mut self, action: Action) -> (r: Result<Step, Error>)
        requires
            old(self).wf(),
            old(self).mode is Navigation,
        ensures
            final(self).wf(),
            final(self).path.root_len == old(self).path.root_len,
            final(self).quit_requested == (old(self).quit_requested || action is Quit),
            old(self).ops().is_prefix_of(final(self).ops()),
            match action {
                Action::Down => {
                    &&& final(self).mode is Navigation
                    &&& final(self).path == old(self).path
                    &&& final(self).current_list == old(self).current_list
                    &&& final(self).selected_item == if old(self).selected_item + 1 < old(self).current_list@.len() {
                        old(self).selected_item + 1
                    } else {
                        old(self).selected_item as int
                    }
                    &&& (r is Ok ==> final(self).secret_resolved())
                    &&& ({
                        let ns = if old(self).selected_item + 1 < old(self).current_list@.len() {
                            old(self).selected_item + 1
                        } else {
                            old(self).selected_item as int
                        };
                        (ns >= old(self).current_list@.len() || old(self).list_model()[ns].is_dir)
                            ==> r is Ok
                    })
                },
                Action::Up => {
                    &&& final(self).mode is Navigation
                    &&& final(self).path == old(self).path
                    &&& final(self).current_list == old(self).current_list
                    &&& final(self).selected_item == if old(self).selected_item > 0 {
                        old(self).selected_item - 1
                    } else {
                        0int
                    }
                    &&& (r is Ok ==> final(self).secret_resolved())
                    &&& ({
                        let ns = if old(self).selected_item > 0 {
                            old(self).selected_item - 1
                        } else {
                            0int
                        };
                        (ns >= old(self).current_list@.len() || old(self).list_model()[ns].is_dir)
                            ==> r is Ok
                    })
                },
                Action::Enter => {
                    let can = old(self).selected_item < old(self).current_list@.len() && old(self).list_model()[old(self).selected_item as int].is_dir && old(self).path@.len()
                        < MAX_DEPTH;
                    &&& final(self).mode is Navigation
                    &&& final(self).path@ == if can {
                        old(self).path@.push(
                            old(self).list_model()[old(self).selected_item as int],
                        )
                    } else {
                        old(self).path@
                    }
                    &&& (!can ==> *final(self) == *old(self) && (r matches Ok(st) && !st.redraw
                        && !st.quit && st.message is None && st.copy is None))
                    &&& (can && r is Ok ==> ({
                        let jf = joined_of(final(self).path@);
                        &&& final(self).scroll == 0
                        &&& final(self).listing_synced()
                        &&& final(self).secret_resolved()
                        // the listing shown is the entered directory's: it
                        // came from a store listing of the new path issued
                        // now, or from the cache entry that path already had
                        &&& (!old(self).client.cache@.contains_key((Verb::List, jf)) ==> (
                        final(self).ops()[old(self).ops().len() as int] matches StoreOp::List(
                            p,
                            ks,
                        ) && p == jf && (ks matches Some(fresh) && final(self).client.cache@[(
                            Verb::List,
                            jf,
                        )] == BodyModel::Keys(fresh))))
                        &&& (old(self).client.cache@.contains_key((Verb::List, jf)) ==> final(self).client.cache@[(Verb::List, jf)] == old(self).client.cache@[(Verb::List, jf)])
                        &&& final(self).selected_item as int == (if final(self).list_model().len()
                            == 0 {
                            0int
                        } else if old(self).selected_item as int > final(self).list_model().len()
                            - 1 {
                            final(self).list_model().len() - 1
                        } else {
                            old(self).selected_item as int
                        })
                    }))
                },
                Action::Leave => {
                    let can = old(self).path@.len() > old(self).path.root_len;
                    &&& final(self).mode is Navigation
                    &&& final(self).path@ == if can {
                        old(self).path@.drop_last()
                    } else {
                        old(self).path@
                    }
                    &&& (!can ==> *final(self) == *old(self) && (r matches Ok(st) && !st.redraw
                        && !st.quit && st.message is None && st.copy is None))
                    &&& (can && r is Ok ==> ({
                        &&& final(self).scroll == 0
                        &&& final(self).listing_synced()
                        &&& final(self).secret_resolved()
                        &&& final(self).selected_item == (match entry_find(
                            final(self).list_model(),
                            old(self).path@.last().name,
                        ) {
                            Some(i) => i as usize,
                            None => old(self).previous_selected_item,
                        })
                    }))
                },
                Action::ClearCache => {
                    &&& final(self).mode is Navigation
                    &&& final(self).path == old(self).path
                    &&& final(self).selected_item == old(self).selected_item
                    &&& (r is Ok ==> ({
                        &&& old(self).ops().len() < final(self).ops().len()
                        &&& (final(self).ops()[old(self).ops().len() as int]
                            matches StoreOp::List(p, _) && p == joined_of(old(self).path@))
                        &&& forall|k: (Verb, Seq<char>)| #![auto]
                            final(self).client.cache@.contains_key(k) ==> k == (
                                Verb::List,
                                joined_of(old(self).path@),
                            ) || k == (Verb::Get, final(self).selected_path_model())
                        &&& final(self).listing_synced()
                        &&& final(self).secret_resolved()
                    }))
                },
                Action::CopyPath => {
                    &&& final(self).mode is Navigation
                    &&& final(self).path == old(self).path
                    &&& final(self).current_list == old(self).current_list
                    &&& final(self).client == old(self).client
                    &&& r matches Ok(st) && !st.quit && !st.redraw
                    &&& (old(self).selected_item < old(self).current_list@.len() ==> (r matches Ok(
                        st,
                    ) && st.copy matches Some(c) && c@ == joined_of(old(self).path@) + old(self).list_model()[old(self).selected_item as int].name))
                },
                Action::CopySecret => {
                    &&& final(self).mode is Navigation
                    &&& final(self).path == old(self).path
                    &&& final(self).client == old(self).client
                    &&& r matches Ok(st) && !st.quit && !st.redraw
                    &&& ((old(self).selected_item < old(self).current_list@.len() && !old(self).list_model()[old(self).selected_item as int].is_dir && old(self).selected_secret is Some) ==> (r matches Ok(st) && st.copy matches Some(c)
                        && (old(self).selected_secret matches Some(s) && c@ == s@)))
                },
                Action::AddKey => {
                    &&& final(self).mode == Mode::TypingKey(EditMode::Insert)
                    &&& final(self).previous_selected_item == old(self).selected_item
                    &&& final(self).selected_item == old(self).current_list@.len()
                    &&& final(self).client == old(self).client
                    &&& final(self).current_list == old(self).current_list
                    &&& final(self).path == old(self).path
                    &&& final(self).selected_secret == old(self).selected_secret
                    &&& final(self).buffered_key == old(self).buffered_key
                    &&& r matches Ok(st) && st.redraw && !st.quit
                },
                Action::UpdateValue => {
                    let can = old(self).selected_item < old(self).current_list@.len();
                    let dir = can && old(self).list_model()[old(self).selected_item as int].is_dir;
                    &&& (dir ==> (r matches Err(e) && (e matches Error::Application(m)
                        && m@ == messages::cannot_update_dir_msg()) && final(self).mode
                        is Navigation))
                    &&& (can && !dir ==> final(self).mode == Mode::TypingSecret(EditMode::Update)
                        && r is Ok)
                    &&& (!can ==> *final(self) == *old(self) && (r matches Ok(st) && !st.redraw))
                    &&& final(self).client == old(self).client
                },
                Action::RenameKey => {
                    let can = old(self).selected_item < old(self).current_list@.len();
                    let dir = can && old(self).list_model()[old(self).selected_item as int].is_dir;
                    &&& (dir ==> (r matches Err(e) && (e matches Error::Application(m)
                        && m@ == messages::cannot_rename_dir_msg()) && final(self).mode
                        is Navigation))
                    &&& (can && !dir ==> final(self).mode == Mode::TypingKey(EditMode::Update)
                        && final(self).previous_selected_item == old(self).selected_item && r
                        is Ok)
                    &&& (!can ==> *final(self) == *old(self) && (r matches Ok(st) && !st.redraw))
                    &&& final(self).client == old(self).client
                },
                Action::DeleteKey => {
                    let can = old(self).selected_item < old(self).current_list@.len();
                    let dir = can && old(self).list_model()[old(self).selected_item as int].is_dir;
                    &&& (dir ==> (r matches Err(e) && (e matches Error::Application(m)
                        && m@ == messages::cannot_delete_dir_msg()) && final(self).mode
                        is Navigation))
                    &&& (can && !dir ==> final(self).mode is DeletingKey && final(self).selected_item == old(self).selected_item && r is Ok)
                    &&& (!can ==> *final(self) == *old(self) && (r matches Ok(st) && !st.redraw))
                    &&& final(self).client == old(self).client
                },
                Action::OpenHelp => {
                    &&& *final(self) == *old(self)
                    &&& r matches Ok(st) && !st.quit && !st.redraw && (st.message matches Some(m)
                        && m@ == messages::controls_msg())
                },
                Action::Quit => {
                    &&& final(self).mode is Navigation
                    &&& final(self).path == old(self).path
                    &&& final(self).client == old(self).client
                    &&& r matches Ok(st) && st.quit
                },
            },
    {
        let mut needs_refresh = false;
        let mut step = Step::none();
        match action {
            Action::Down => {
                if self.selected_item < self.current_list.len() && self.current_list.len()
                    - self.selected_item > 1 {
                    self.selected_item = self.selected_item + 1;
                }
                needs_refresh = true;
            },
            Action::Up => {
                if self.selected_item > 0 {
                    self.selected_item = self.selected_item - 1;
                }
                needs_refresh = true;
            },
            Action::Enter => {
                if self.selected_item < self.current_list.len() {
                    if self.current_list[self.selected_item].is_dir {
                        let entry = self.current_list[self.selected_item].duplicate();
                        let ghost before = self.path@;
                        let ok = self.path.push(entry);
                        if ok {
                            proof {
                                assert(self.path@ == before.push(entry@));
                                assert(forall|k: int|
                                    0 <= k < before.len() ==> self.path@[k] == before[k]);
                                assert(all_dirs(self.path@));
                            }
                            let res = self.update_list(FromCache::Yes);
                            if let Err(e) = res {
                                return Err(e);
                            }
                            if self.current_list.len() == 0 {
                                self.selected_item = 0;
                            } else if self.selected_item > self.current_list.len() - 1 {
                                self.selected_item = self.current_list.len() - 1;
                            }
                            self.scroll = 0;
                            needs_refresh = true;
                        }
                    }
                }
            },
            Action::Leave => {
                let ghost before = self.path@;
                let popped = self.path.pop();
                match popped {
                    Some(last) => {
                        proof {
                            assert(self.path@ == before.drop_last());
                            assert(forall|k: int|
                                0 <= k < self.path@.len() ==> self.path@[k] == before[k]);
                            assert(all_dirs(self.path@));
                        }
                        let res = self.set_selected_item(last.name.as_str(), FromCache::Yes);
                        if let Err(e) = res {
                            return Err(e);
                        }
                        self.scroll = 0;
                        needs_refresh = true;
                    },
                    None => {},
                }
            },
            Action::ClearCache => {
                self.client.clear_cache();
                let res = self.update_list(FromCache::Yes);
                if let Err(e) = res {
                    return Err(e);
                }
                let res = self.update_selected_secret(FromCache::Yes);
                if let Err(e) = res {
                    return Err(e);
                }
                needs_refresh = true;
            },
            Action::CopyPath => {
                if self.selected_item < self.current_list.len() {
                    let p = self.get_selected_path();
                    step.copy = Some(p);
                    step.message = Some(messages::copied_path_text());
                }
            },
            Action::CopySecret => {
                if self.selected_item < self.current_list.len()
                    && !self.current_list[self.selected_item].is_dir {
                    match &self.selected_secret {
                        Some(s) => {
                            step.copy = Some(s.clone());
                            step.message = Some(messages::copied_secret_text());
                        },
                        None => {},
                    }
                }
            },
            Action::AddKey => {
                self.previous_selected_item = self.selected_item;
                self.selected_item = self.current_list.len();
                self.mode = Mode::TypingKey(EditMode::Insert);
                needs_refresh = true;
            },
            Action::UpdateValue => {
                if self.selected_item < self.current_list.len() {
                    if self.current_list[self.selected_item].is_dir {
                        return Err(Error::Application(messages::cannot_update_dir_text()));
                    }
                    self.mode = Mode::TypingSecret(EditMode::Update);
                    needs_refresh = true;
                }
            },
            Action::RenameKey => {
                if self.selected_item < self.current_list.len() {
                    if self.current_list[self.selected_item].is_dir {
                        return Err(Error::Application(messages::cannot_rename_dir_text()));
                    }
                    self.previous_selected_item = self.selected_item;
                    self.mode = Mode::TypingKey(EditMode::Update);
                    needs_refresh = true;
                }
            },
            Action::DeleteKey => {
                if self.selected_item < self.current_list.len() {
                    if self.current_list[self.selected_item].is_dir {
                        return Err(Error::Application(messages::cannot_delete_dir_text()));
                    }
                    self.mode = Mode::DeletingKey;
                    needs_refresh = true;
                }
            },
            Action::OpenHelp => {
                step.message = Some(messages::controls_text());
            },
            Action::Quit => {
                self.quit_requested = true;
                step.quit = true;
            },
        }
        if needs_refresh {
            if self.mode == Mode::Navigation {
                let ghost before_secret = self.ops();
                let res = self.update_selected_secret(FromCache::Yes);
                proof {
                    if old(self).ops().len() < before_secret.len() {
                        lemma_prefix_index(before_secret, self.ops(), old(self).ops().len() as int);
                    }
                }
                if let Err(e) = res {
                    return Err(e);
                }
            }
            step.redraw = true;
            self.displayed_message = None;
        }
        Ok(step)
    }
}

} // verus!
