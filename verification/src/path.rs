//! The path stack: the ordered model of the current location in the store.

use vstd::prelude::*;

use crate::entry::{label_of, EntryModel, VaultEntry};

verus! {

/// Paths deeper than this are refused by `push`: a guard against a
/// pathological or adversarial store response producing unbounded descent.
pub const MAX_DEPTH: usize = 32;

/// The current location: a sequence of entries, together with the depth the
/// session started at (`root_len`), the floor below which `pop` is disabled.
pub struct VaultPath {
    pub entries: Vec<VaultEntry>,
    pub root_len: usize,
}

impl View for VaultPath {
    type V = Seq<EntryModel>;

    open spec fn view(&self) -> Seq<EntryModel> {
        self.entries@.map_values(|e: VaultEntry| e@)
    }
}

/// The store path prefix denoted by a path: each entry's name, followed by
/// the separator when the entry is a directory.
pub open spec fn joined_of(es: Seq<EntryModel>) -> Seq<char>
    decreases es.len(),
{
    if es.len() == 0 {
        Seq::empty()
    } else {
        joined_of(es.drop_last()) + label_of(es.last())
    }
}

/// The display width of a path: the sum of the name lengths, plus one
/// separator column per entry.
pub open spec fn width_of(es: Seq<EntryModel>) -> int
    decreases es.len(),
{
    if es.len() == 0 {
        0
    } else {
        width_of(es.drop_last()) + es.last().name.len() + 1
    }
}

/// The first segment of a raw path: the leading characters up to and
/// including the first separator, or the whole sequence when it has none.
pub open spec fn first_seg(s: Seq<char>) -> Seq<char>
    decreases s.len(),
{
    if s.len() == 0 {
        Seq::empty()
    } else if s[0] == '/' {
        s.take(1)
    } else {
        seq![s[0]] + first_seg(s.drop_first())
    }
}

/// Decoding a raw path: split on the separator, drop empty segments, tag
/// every segment a directory except a final separator-less remainder.
pub open spec fn decode_path(s: Seq<char>) -> Seq<EntryModel>
    decreases s.len(),
    via decode_path_decreases
{
    if s.len() == 0 {
        Seq::empty()
    } else if s[0] == '/' {
        decode_path(s.drop_first())
    } else {
        let seg = first_seg(s);
        let e = if seg.last() == '/' {
            EntryModel { name: seg.drop_last(), is_dir: true }
        } else {
            EntryModel { name: seg, is_dir: false }
        };
        seq![e] + decode_path(s.skip(seg.len() as int))
    }
}

#[via_fn]
proof fn decode_path_decreases(s: Seq<char>) {
    if s.len() > 0 && s[0] != '/' {
        lemma_first_seg(s);
    }
}

/// Every entry is a directory.
pub open spec fn all_dirs(es: Seq<EntryModel>) -> bool {
    forall|i: int| 0 <= i < es.len() ==> (#[trigger] es[i]).is_dir
}

/// Every entry name is non-empty and free of the separator: the shape that
/// decoded listing keys have.
pub open spec fn clean_names(es: Seq<EntryModel>) -> bool {
    forall|i: int| 0 <= i < es.len() ==> {
        let n = (#[trigger] es[i]).name;
        n.len() > 0 && forall|j: int| 0 <= j < n.len() ==> n[j] != '/'
    }
}

/// Shape of the first segment: it is a prefix, only its final character can
/// be the separator, and it stops short of the end only at a separator.
pub proof fn lemma_first_seg(s: Seq<char>)
    requires
        s.len() > 0,
    ensures
        1 <= first_seg(s).len() <= s.len(),
        first_seg(s) =~= s.subrange(0, first_seg(s).len() as int),
        forall|i: int| 0 <= i < first_seg(s).len() - 1 ==> s[i] != '/',
        first_seg(s).len() < s.len() ==> s[first_seg(s).len() - 1] == '/',
    decreases s.len(),
{
    if s[0] == '/' {
        assert(first_seg(s) =~= s.subrange(0, 1));
    } else if s.len() == 1 {
        let t = s.drop_first();
        assert(t.len() == 0);
        assert(first_seg(t) == Seq::<char>::empty());
        assert(first_seg(s) =~= seq![s[0]]);
        assert(first_seg(s) =~= s.subrange(0, 1));
    } else {
        let t = s.drop_first();
        lemma_first_seg(t);
        let fs = first_seg(s);
        assert(fs =~= seq![s[0]] + first_seg(t));
        assert(fs.len() == 1 + first_seg(t).len());
        assert forall|i: int| 0 <= i < fs.len() implies fs[i] == s[i] by {
            if i > 0 {
                assert(fs[i] == first_seg(t)[i - 1]);
                assert(first_seg(t)[i - 1] == t[i - 1]);
                assert(t[i - 1] == s[i]);
            }
        }
        assert(fs =~= s.subrange(0, fs.len() as int));
        assert forall|i: int| 0 <= i < fs.len() - 1 implies s[i] != '/' by {
            if i > 0 {
                assert(s[i] == t[i - 1]);
            }
        }
        if fs.len() < s.len() {
            assert(first_seg(t).len() < t.len());
            assert(t[first_seg(t).len() - 1] == '/');
            assert(s[fs.len() - 1] == t[fs.len() - 2]);
        }
    }
}

/// The first segment ends exactly at the first separator.
pub proof fn lemma_first_seg_at(s: Seq<char>, p: int)
    requires
        0 <= p < s.len(),
        s[p] == '/',
        forall|i: int| 0 <= i < p ==> s[i] != '/',
    ensures
        first_seg(s) == s.take(p + 1),
    decreases p,
{
    if s[0] == '/' {
        assert(p == 0);
        assert(first_seg(s) == s.take(1));
    } else {
        let t = s.drop_first();
        assert(t[p - 1] == '/');
        assert(forall|i: int| 0 <= i < p - 1 ==> t[i] != '/');
        lemma_first_seg_at(t, p - 1);
        assert(first_seg(s) =~= seq![s[0]] + t.take(p));
        assert(first_seg(s) =~= s.take(p + 1));
    }
}

/// The first segment of a concatenation is decided by the left part, as long
/// as the left part contains a separator.
pub proof fn lemma_first_seg_concat(x: Seq<char>, y: Seq<char>)
    requires
        x.len() > 0,
        exists|i: int| 0 <= i < x.len() && x[i] == '/',
    ensures
        first_seg(x + y) == first_seg(x),
    decreases x.len(),
{
    let s = x + y;
    assert(s[0] == x[0]);
    if x[0] == '/' {
        assert(first_seg(s) =~= s.take(1));
        assert(first_seg(x) =~= x.take(1));
        assert(s.take(1) =~= x.take(1));
    } else {
        let i = choose|i: int| 0 <= i < x.len() && x[i] == '/';
        assert(x.drop_first()[i - 1] == '/');
        lemma_first_seg_concat(x.drop_first(), y);
        assert(s.drop_first() =~= x.drop_first() + y);
        assert(first_seg(s) =~= seq![s[0]] + first_seg(s.drop_first()));
        assert(first_seg(x) =~= seq![x[0]] + first_seg(x.drop_first()));
    }
}

/// Decoding distributes over a concatenation whose left part ends at a
/// segment boundary.
pub proof fn lemma_decode_concat(x: Seq<char>, y: Seq<char>)
    requires
        x.len() == 0 || x.last() == '/',
    ensures
        decode_path(x + y) == decode_path(x) + decode_path(y),
    decreases x.len(),
{
    let s = x + y;
    if x.len() == 0 {
        assert(s =~= y);
        assert(decode_path(x) + decode_path(y) =~= decode_path(y));
    } else if x[0] == '/' {
        assert(s[0] == '/');
        assert(s.drop_first() =~= x.drop_first() + y);
        if x.len() == 1 {
            assert(x.drop_first().len() == 0);
        } else {
            assert(x.drop_first().last() == x.last());
        }
        lemma_decode_concat(x.drop_first(), y);
        assert(decode_path(x) == decode_path(x.drop_first()));
    } else {
        assert(x[x.len() - 1] == '/');
        lemma_first_seg_concat(x, y);
        lemma_first_seg(x);
        let seg = first_seg(x);
        let l = seg.len() as int;
        assert(s[0] == x[0]);
        assert(s.skip(l) =~= x.skip(l) + y);
        if l < x.len() {
            assert(x.skip(l).last() == x.last());
        } else {
            assert(x.skip(l).len() == 0);
        }
        lemma_decode_concat(x.skip(l), y);
        assert(decode_path(s) =~= seq![decode_path(s)[0]] + decode_path(s.skip(l)));
        assert(decode_path(x) =~= seq![decode_path(x)[0]] + decode_path(x.skip(l)));
        assert(decode_path(s)[0] == decode_path(x)[0]);
        assert(decode_path(x) + decode_path(y) =~= seq![decode_path(x)[0]] + (decode_path(
            x.skip(l),
        ) + decode_path(y)));
    }
}

/// Decoding one raw segment: a lone separator is dropped, a trailing
/// separator yields a directory, anything else a leaf.
pub proof fn lemma_decode_single(y: Seq<char>)
    requires
        y.len() > 0,
        forall|i: int| 0 <= i < y.len() - 1 ==> y[i] != '/',
    ensures
        decode_path(y) == if y.len() == 1 && y[0] == '/' {
            Seq::<EntryModel>::empty()
        } else if y.last() == '/' {
            seq![EntryModel { name: y.drop_last(), is_dir: true }]
        } else {
            seq![EntryModel { name: y, is_dir: false }]
        },
{
    if y[0] == '/' {
        assert(y.len() == 1);
        let t = y.drop_first();
        assert(t.len() == 0);
        assert(decode_path(t) == Seq::<EntryModel>::empty());
        assert(decode_path(y) =~= Seq::<EntryModel>::empty());
    } else {
        lemma_first_seg(y);
        let seg = first_seg(y);
        if seg.len() < y.len() {
            assert(y[seg.len() - 1] == '/');
            assert(seg.len() == y.len());
        }
        assert(seg =~= y);
        let t = y.skip(y.len() as int);
        assert(t.len() == 0);
        assert(decode_path(t) == Seq::<EntryModel>::empty());
        assert(decode_path(y) == seq![decode_path(y)[0]] + decode_path(t));
        if y.last() == '/' {
            assert(decode_path(y) =~= seq![EntryModel { name: y.drop_last(), is_dir: true }]);
        } else {
            assert(decode_path(y) =~= seq![EntryModel { name: y, is_dir: false }]);
        }
    }
}

/// A raw path ending with the separator decodes to directories only.
pub proof fn lemma_decode_all_dirs(s: Seq<char>)
    requires
        s.len() == 0 || s.last() == '/',
    ensures
        all_dirs(decode_path(s)),
    decreases s.len(),
{
    if s.len() == 0 {
    } else if s[0] == '/' {
        let t = s.drop_first();
        if t.len() > 0 {
            assert(t.last() == s.last());
        }
        lemma_decode_all_dirs(t);
    } else {
        lemma_first_seg(s);
        let seg = first_seg(s);
        let l = seg.len() as int;
        if seg.last() != '/' {
            if l < s.len() {
                assert(s[l - 1] == '/');
                assert(seg.last() == s[l - 1]);
            } else {
                assert(seg.last() == s.last());
            }
        }
        let t = s.skip(l);
        if t.len() > 0 {
            assert(t.last() == s.last());
        }
        lemma_decode_all_dirs(t);
        assert(decode_path(s)[0].is_dir);
        assert(forall|i: int|
            1 <= i < decode_path(s).len() ==> decode_path(s)[i] == decode_path(t)[i - 1]);
    }
}

/// Decoding always yields clean names: non-empty and separator-free. With
/// the round-trip law below, any directory path obtained by decoding joins
/// and decodes back to itself.
pub proof fn lemma_decode_clean_names(s: Seq<char>)
    ensures
        clean_names(decode_path(s)),
    decreases s.len(),
{
    if s.len() == 0 {
    } else if s[0] == '/' {
        lemma_decode_clean_names(s.drop_first());
    } else {
        lemma_first_seg(s);
        let seg = first_seg(s);
        let l = seg.len() as int;
        lemma_decode_clean_names(s.skip(l));
        let e = decode_path(s)[0];
        assert(seg[0] == s[0]);
        assert(forall|i: int| 0 <= i < l - 1 ==> seg[i] == s[i]);
        if seg.last() == '/' {
            assert(l >= 2);
            assert(e.name =~= seg.drop_last());
        } else {
            assert(e.name == seg);
            assert(e.name[l - 1] != '/');
        }
        assert(e.name.len() > 0 && forall|j: int| 0 <= j < e.name.len() ==> e.name[j] != '/');
        assert(forall|i: int|
            1 <= i < decode_path(s).len() ==> decode_path(s)[i] == decode_path(s.skip(l))[i - 1]);
    }
}

/// A joined all-directory path is empty or ends with the separator.
pub proof fn lemma_joined_ends_with_sep(es: Seq<EntryModel>)
    requires
        all_dirs(es),
    ensures
        joined_of(es).len() == 0 || joined_of(es).last() == '/',
    decreases es.len(),
{
    if es.len() > 0 {
        assert(es.last().is_dir);
        assert(label_of(es.last()).last() == '/');
        assert(joined_of(es).last() == label_of(es.last()).last());
    }
}

/// Round trip: a path of directories with clean names decodes back from its
/// joined form unchanged.
pub proof fn lemma_join_round_trip(p: Seq<EntryModel>)
    requires
        all_dirs(p),
        clean_names(p),
    ensures
        decode_path(joined_of(p)) == p,
    decreases p.len(),
{
    if p.len() == 0 {
    } else {
        let front = p.drop_last();
        let e = p.last();
        assert(all_dirs(front) && clean_names(front)) by {
            assert(forall|i: int| 0 <= i < front.len() ==> front[i] == p[i]);
        }
        lemma_join_round_trip(front);
        lemma_joined_ends_with_sep(front);
        let lab = label_of(e);
        assert(e.is_dir);
        assert(lab =~= e.name.push('/'));
        assert(e.name.len() > 0 && forall|j: int| 0 <= j < e.name.len() ==> e.name[j] != '/');
        assert(forall|i: int| 0 <= i < lab.len() - 1 ==> lab[i] != '/');
        lemma_decode_single(lab);
        assert(lab.last() == '/');
        assert(!(lab.len() == 1 && lab[0] == '/'));
        assert(lab.drop_last() =~= e.name);
        lemma_decode_concat(joined_of(front), lab);
        assert(decode_path(joined_of(p)) =~= front + seq![e]);
        assert(front + seq![e] =~= p);
    }
}

/// For a path of directories, the display width equals the length of the
/// joined prefix: each entry contributes its name plus one separator.
pub proof fn lemma_width_matches_joined(es: Seq<EntryModel>)
    requires
        all_dirs(es),
    ensures
        width_of(es) == joined_of(es).len(),
    decreases es.len(),
{
    if es.len() > 0 {
        let front = es.drop_last();
        assert(all_dirs(front)) by {
            assert(forall|i: int| 0 <= i < front.len() ==> front[i] == es[i]);
        }
        lemma_width_matches_joined(front);
        assert(es.last().is_dir);
        assert(label_of(es.last()).len() == es.last().name.len() + 1);
    }
}

/// A prefix never has more width than the whole path.
proof fn lemma_width_monotone(es: Seq<EntryModel>, i: int)
    requires
        0 <= i <= es.len(),
    ensures
        width_of(es.take(i)) <= width_of(es),
    decreases es.len() - i,
{
    if i < es.len() {
        lemma_width_monotone(es, i + 1);
        assert(es.take(i + 1).drop_last() =~= es.take(i));
        assert(es.take(i + 1).last() == es[i]);
    } else {
        assert(es.take(i) =~= es);
    }
}

impl VaultPath {
    /// The floor is never above the current depth.
    pub open spec fn wf(&self) -> bool {
        self.root_len <= self.entries@.len()
    }

    /// Decode a raw path into its segments; the resulting depth becomes the
    /// session floor.
    pub fn decode(path: &str) -> (p: VaultPath)
        ensures
            p@ == decode_path(path@),
            p.root_len == p.entries@.len(),
            p.wf(),
    {
        let n = path.unicode_len();
        let mut entries: Vec<VaultEntry> = Vec::new();
        let mut seg_start: usize = 0;
        let mut i: usize = 0;
        while i < n
            invariant
                seg_start <= i <= n,
                n == path@.len(),
                entries@.map_values(|e: VaultEntry| e@) == decode_path(
                    path@.take(seg_start as int),
                ),
                forall|j: int| seg_start <= j < i ==> path@[j] != '/',
                seg_start == 0 || path@[seg_start - 1] == '/',
            decreases n - i,
        {
            if path.get_char(i) == '/' {
                let ghost pre = path@.take(seg_start as int);
                let ghost segm = path@.subrange(seg_start as int, i + 1);
                proof {
                    assert(path@.take(i + 1) =~= pre + segm);
                    lemma_decode_concat(pre, segm);
                    lemma_decode_single(segm);
                }
                if i > seg_start {
                    let nm = path.substring_char(seg_start, i).to_owned();
                    let e = VaultEntry { name: nm, is_dir: true };
                    proof {
                        assert(segm.drop_last() =~= path@.subrange(seg_start as int, i as int));
                        assert(e@ == EntryModel { name: segm.drop_last(), is_dir: true });
                    }
                    entries.push(e);
                    proof {
                        assert(entries@.map_values(|e: VaultEntry| e@) =~= decode_path(
                            path@.take(i + 1),
                        ));
                    }
                } else {
                    proof {
                        assert(segm.len() == 1 && segm[0] == '/');
                        assert(entries@.map_values(|e: VaultEntry| e@) =~= decode_path(
                            path@.take(i + 1),
                        ));
                    }
                }
                seg_start = i + 1;
            }
            i = i + 1;
        }
        if seg_start < n {
            let ghost pre = path@.take(seg_start as int);
            let ghost segm = path@.subrange(seg_start as int, n as int);
            proof {
                assert(path@.take(n as int) =~= pre + segm);
                lemma_decode_concat(pre, segm);
                lemma_decode_single(segm);
            }
            let nm = path.substring_char(seg_start, n).to_owned();
            let e = VaultEntry { name: nm, is_dir: false };
            entries.push(e);
            proof {
                assert(path@.take(n as int) =~= path@);
                assert(entries@.map_values(|e: VaultEntry| e@) =~= decode_path(path@));
            }
        } else {
            proof {
                assert(path@.take(seg_start as int) =~= path@);
            }
        }
        let depth = entries.len();
        VaultPath { entries, root_len: depth }
    }

    /// The store path prefix this location denotes.
    pub fn join(&self) -> (r: String)
        ensures
            r@ == joined_of(self@),
    {
        let mut acc = String::new();
        let mut i: usize = 0;
        while i < self.entries.len()
            invariant
                i <= self.entries@.len(),
                acc@ == joined_of(self@.take(i as int)),
            decreases self.entries@.len() - i,
        {
            let lab = self.entries[i].label();
            acc.append(lab.as_str());
            proof {
                assert(self@.take(i + 1).drop_last() =~= self@.take(i as int));
                assert(self@.take(i + 1).last() == self@[i as int]);
            }
            i = i + 1;
        }
        proof {
            assert(self@.take(self@.len() as int) =~= self@);
        }
        acc
    }

    /// The display width: name lengths plus one separator column per entry.
    pub fn len(&self) -> (r: usize)
        requires
            width_of(self@) <= usize::MAX,
        ensures
            r == width_of(self@),
    {
        let mut acc: usize = 0;
        let mut i: usize = 0;
        while i < self.entries.len()
            invariant
                i <= self.entries@.len(),
                acc == width_of(self@.take(i as int)),
                width_of(self@) <= usize::MAX,
            decreases self.entries@.len() - i,
        {
            proof {
                assert(self@.take(i + 1).drop_last() =~= self@.take(i as int));
                assert(self@.take(i + 1).last() == self@[i as int]);
                lemma_width_monotone(self@, i + 1);
            }
            let name_len = self.entries[i].name.as_str().unicode_len();
            acc = acc + name_len + 1;
            i = i + 1;
        }
        proof {
            assert(self@.take(self@.len() as int) =~= self@);
        }
        acc
    }

    /// Append a directory entry, unless the path already sits at the depth
    /// guard; reports whether the entry was taken.
    pub fn push(&mut self, entry: VaultEntry) -> (ok: bool)
        requires
            entry@.is_dir,
        ensures
            ok == (old(self).entries@.len() < MAX_DEPTH),
            ok ==> final(self)@ == old(self)@.push(entry@),
            ok ==> final(self).root_len == old(self).root_len,
            !ok ==> *final(self) == *old(self),
    {
        if self.entries.len() < MAX_DEPTH {
            self.entries.push(entry);
            proof {
                assert(self@ =~= old(self)@.push(entry@));
            }
            true
        } else {
            false
        }
    }

    /// Remove and return the last entry; a no-op returning `None` whenever
    /// the depth is at or below the session floor.
    pub fn pop(&mut self) -> (r: Option<VaultEntry>)
        ensures
            old(self).entries@.len() <= old(self).root_len ==> r is None && *final(self) == *old(
                self,
            ),
            old(self).entries@.len() > old(self).root_len ==> {
                &&& r matches Some(e) && e@ == old(self)@.last()
                &&& final(self)@ == old(self)@.drop_last()
                &&& final(self).root_len == old(self).root_len
            },
    {
        if self.entries.len() <= self.root_len {
            None
        } else {
            let e = self.entries.pop().unwrap();
            proof {
                assert(self@ =~= old(self)@.drop_last());
            }
            Some(e)
        }
    }
}

} // verus!
