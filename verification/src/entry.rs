//! One segment of a store path: a name tagged directory-or-leaf.

use vstd::prelude::*;

verus! {

/// A decoded listing key. `is_dir` records whether the raw key carried a
/// trailing separator; the separator itself is stripped from `name`.
#[derive(Clone)]
pub struct VaultEntry {
    pub name: String,
    pub is_dir: bool,
}

/// Mathematical model of a `VaultEntry`.
pub struct EntryModel {
    pub name: Seq<char>,
    pub is_dir: bool,
}

impl View for VaultEntry {
    type V = EntryModel;

    open spec fn view(&self) -> EntryModel {
        EntryModel { name: self.name@, is_dir: self.is_dir }
    }
}

/// Whether a raw listing key denotes a directory: it ends with the separator.
pub open spec fn raw_is_dir(k: Seq<char>) -> bool {
    k.len() > 0 && k.last() == '/'
}

/// The entry name carried by a raw listing key: the key itself, with a
/// trailing separator stripped when present.
pub open spec fn raw_name(k: Seq<char>) -> Seq<char> {
    if raw_is_dir(k) {
        k.drop_last()
    } else {
        k
    }
}

/// How an entry is written back out: its name, plus the separator when it is
/// a directory.
pub open spec fn label_of(e: EntryModel) -> Seq<char> {
    if e.is_dir {
        e.name.push('/')
    } else {
        e.name
    }
}

impl VaultEntry {
    /// Decode a raw listing key: a trailing separator marks a directory and
    /// is stripped from the stored name.
    pub fn decode(name: &str) -> (e: VaultEntry)
        ensures
            e@.name == raw_name(name@),
            e@.is_dir == raw_is_dir(name@),
    {
        let n = name.unicode_len();
        let is_dir = n > 0 && name.get_char(n - 1) == '/';
        let nm: String = if is_dir {
            name.substring_char(0, n - 1).to_owned()
        } else {
            name.to_owned()
        };
        proof {
            if is_dir {
                assert(nm@ =~= raw_name(name@));
            }
        }
        VaultEntry { name: nm, is_dir }
    }

    /// The entry as it appears in a path or listing: `name`, plus the
    /// separator when the entry is a directory.
    pub fn label(&self) -> (r: String)
        ensures
            r@ == label_of(self@),
    {
        let mut s = self.name.clone();
        if self.is_dir {
            s.append("/");
            proof {
                reveal_strlit("/");
                assert(s@ =~= self@.name.push('/'));
            }
        }
        s
    }

    /// An explicit copy whose relation to the original is known to the
    /// verifier, unlike the derived `clone`.
    pub fn duplicate(&self) -> (r: VaultEntry)
        ensures
            r@ == self@,
    {
        VaultEntry { name: self.name.clone(), is_dir: self.is_dir }
    }
}

/// Decoding never leaves the separator inside an entry name, provided the raw
/// key carries the separator only in final position; and the directory tag is
/// set exactly when the raw key ends with the separator.
pub proof fn lemma_decode_separator_free(k: Seq<char>)
    requires
        forall|i: int| 0 <= i < k.len() - 1 ==> k[i] != '/',
    ensures
        forall|i: int| 0 <= i < raw_name(k).len() ==> raw_name(k)[i] != '/',
        raw_is_dir(k) <==> (k.len() > 0 && k[k.len() - 1] == '/'),
{
    if raw_is_dir(k) {
        assert(raw_name(k) == k.drop_last());
        assert(forall|i: int| 0 <= i < raw_name(k).len() ==> raw_name(k)[i] == k[i]);
    }
}

} // verus!
