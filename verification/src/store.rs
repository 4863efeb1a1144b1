//! The secret-store capability: the four remote operations the engine needs.

use vstd::prelude::*;

use crate::error::Error;

verus! {

/// Response to a listing request: the raw child key names of one directory
/// path, in store order; directory names end with the path separator.
pub struct ListResponse {
    pub keys: Vec<String>,
}

/// One remote operation, as the engine's contracts record it: the path it
/// was issued against, and the outcome that came back — the raw keys of a
/// listing, the value of a read, or whether a write or delete succeeded.
pub enum StoreOp {
    List(Seq<char>, Option<Seq<Seq<char>>>),
    Read(Seq<char>, Option<Seq<char>>),
    Write(Seq<char>, Seq<char>, bool),
    Delete(Seq<char>, bool),
}

/// The remote store capability. The engine owns exactly one implementation
/// per session: a real transport outside this crate, or the in-memory
/// [`MockStore`](crate::mock::MockStore) for deterministic sessions.
///
/// Each operation issues exactly one call against the remote store and
/// appends it, with its outcome, to the abstract history `ops`. The history
/// is how the engine's contracts say which operations ran, against which
/// paths, with which payloads, and in which order — and how the cache's
/// contracts say that a hit contacts the store not at all. An
/// implementation outside this crate is not checked against these
/// contracts; they record what this crate assumes of a transport: one
/// remote call per operation, outcomes reported faithfully, and failures
/// surfaced as store-side [`Error::Vault`] — application errors belong to
/// this crate, not to the transport.
pub trait SecretStore: Sized {
    /// The operations issued so far, oldest first, each with its outcome.
    /// The default stands for implementations outside this crate, which
    /// Verus never checks; a verified implementation overrides it with its
    /// own history.
    open spec fn ops(&self) -> Seq<StoreOp> {
        Seq::empty()
    }

    /// List the immediate children of a directory path.
    fn list(&mut self, path: &str) -> (r: Result<ListResponse, Error>)
        ensures
            final(self).ops() == old(self).ops().push(
                StoreOp::List(
                    path@,
                    match r {
                        Ok(lr) => Some(lr.keys.deep_view()),
                        Err(_) => None,
                    },
                ),
            ),
            r matches Err(e) ==> e is Vault,
    ;

    /// Read the secret value stored at a leaf path.
    fn read(&mut self, path: &str) -> (r: Result<String, Error>)
        ensures
            final(self).ops() == old(self).ops().push(
                StoreOp::Read(
                    path@,
                    match r {
                        Ok(v) => Some(v@),
                        Err(_) => None,
                    },
                ),
            ),
            r matches Err(e) ==> e is Vault,
    ;

    /// Write a secret value at a leaf path, creating or overwriting it.
    fn write(&mut self, path: &str, value: &str) -> (r: Result<(), Error>)
        ensures
            final(self).ops() == old(self).ops().push(
                StoreOp::Write(path@, value@, r is Ok),
            ),
            r matches Err(e) ==> e is Vault,
    ;

    /// Delete the leaf at a path.
    fn delete(&mut self, path: &str) -> (r: Result<(), Error>)
        ensures
            final(self).ops() == old(self).ops().push(StoreOp::Delete(path@, r is Ok)),
            r matches Err(e) ==> e is Vault,
    ;
}

} // verus!
