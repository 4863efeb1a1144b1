//! The caching client: every listing and value read goes through the
//! response cache; writes and deletes go straight to the store.

use vstd::prelude::*;

use crate::cache::{Body, BodyModel, ResponseCache, Verb};
use crate::error::Error;
use crate::store::{ListResponse, SecretStore, StoreOp};
use crate::strutil::copy_strings;
use vstd::pervasive::unreached;

verus! {

/// Whether a read may be answered from the cache. Every call that follows a
/// mutation must pass `No`, so the fresh result overwrites the stale entry.
#[derive(PartialEq, Eq, Structural, Clone, Copy, Debug)]
pub enum FromCache {
    Yes,
    No,
}

/// One session's access to the remote store: the store capability plus the
/// response cache that wraps its reads.
pub struct VaultClient<H: SecretStore> {
    pub store: H,
    pub cache: ResponseCache,
}

impl<H: SecretStore> VaultClient<H> {
    pub open spec fn wf(&self) -> bool {
        self.cache.wf()
    }

    /// Whether a read with this cache policy is answered from the cache.
    pub open spec fn hits(&self, verb: Verb, path: Seq<char>, cache: FromCache) -> bool {
        cache is Yes && self.cache@.contains_key((verb, path))
    }

    /// A fresh client around a store capability, with an empty cache.
    pub fn new(store: H) -> (c: Self)
        ensures
            c.wf(),
            c.store == store,
            c.cache@ == Map::<(Verb, Seq<char>), BodyModel>::empty(),
    {
        VaultClient { store, cache: ResponseCache::new() }
    }

    /// List the children of a directory path. A cache hit is returned
    /// without contacting the store; otherwise the store is contacted
    /// exactly once and a successful listing overwrites the cache entry.
    /// Errors are propagated and never cached.
    pub fn list_secrets(&mut self, path: &str, cache: FromCache) -> (r: Result<
        ListResponse,
        Error,
    >)
        requires
            old(self).wf(),
        ensures
            final(self).wf(),
            old(self).hits(Verb::List, path@, cache) ==> {
                &&& final(self).store == old(self).store
                &&& final(self).cache@ == old(self).cache@
                &&& r matches Ok(lr) && BodyModel::Keys(lr.keys.deep_view())
                    == old(self).cache@[(Verb::List, path@)]
            },
            !old(self).hits(Verb::List, path@, cache) ==> {
                &&& final(self).store.ops() == old(self).store.ops().push(
                    StoreOp::List(
                        path@,
                        match r {
                            Ok(lr) => Some(lr.keys.deep_view()),
                            Err(_) => None,
                        },
                    ),
                )
                &&& (r matches Ok(lr) ==> final(self).cache@ == old(self).cache@.insert(
                    (Verb::List, path@),
                    BodyModel::Keys(lr.keys.deep_view()),
                ))
                &&& (r is Err ==> final(self).cache@ == old(self).cache@)
            },
            r matches Ok(lr) ==> final(self).cache@.contains_key((Verb::List, path@))
                && final(self).cache@[(Verb::List, path@)] == BodyModel::Keys(lr.keys.deep_view()),
            r matches Err(e) ==> e is Vault,
    {
        if cache == FromCache::Yes {
            let cached = self.cache.get(Verb::List, path);
            if let Some(b) = cached {
                proof {
                    self.cache.lemma_kinds(path@);
                }
                match b {
                    Body::Keys(ks) => {
                        let keys = copy_strings(ks);
                        return Ok(ListResponse { keys });
                    },
                    Body::Value(_) => {
                        return unreached();
                    },
                }
            }
        }
        match self.store.list(path) {
            Ok(lr) => {
                let keys_copy = copy_strings(&lr.keys);
                self.cache.put(Verb::List, path, Body::Keys(keys_copy));
                Ok(lr)
            },
            Err(e) => Err(e),
        }
    }

    /// Read the secret value at a leaf path, with the same cache policy as
    /// [`Self::list_secrets`].
    pub fn get_secret(&mut self, path: &str, cache: FromCache) -> (r: Result<String, Error>)
        requires
            old(self).wf(),
        ensures
            final(self).wf(),
            old(self).hits(Verb::Get, path@, cache) ==> {
                &&& final(self).store == old(self).store
                &&& final(self).cache@ == old(self).cache@
                &&& r matches Ok(v) && BodyModel::Value(v@) == old(self).cache@[(Verb::Get, path@)]
            },
            !old(self).hits(Verb::Get, path@, cache) ==> {
                &&& final(self).store.ops() == old(self).store.ops().push(
                    StoreOp::Read(
                        path@,
                        match r {
                            Ok(v) => Some(v@),
                            Err(_) => None,
                        },
                    ),
                )
                &&& (r matches Ok(v) ==> final(self).cache@ == old(self).cache@.insert(
                    (Verb::Get, path@),
                    BodyModel::Value(v@),
                ))
                &&& (r is Err ==> final(self).cache@ == old(self).cache@)
            },
            r matches Ok(v) ==> final(self).cache@.contains_key((Verb::Get, path@))
                && final(self).cache@[(Verb::Get, path@)] == BodyModel::Value(v@),
            r matches Err(e) ==> e is Vault,
    {
        if cache == FromCache::Yes {
            let cached = self.cache.get(Verb::Get, path);
            if let Some(b) = cached {
                proof {
                    self.cache.lemma_kinds(path@);
                }
                match b {
                    Body::Value(v) => {
                        return Ok(v.clone());
                    },
                    Body::Keys(_) => {
                        return unreached();
                    },
                }
            }
        }
        match self.store.read(path) {
            Ok(v) => {
                self.cache.put(Verb::Get, path, Body::Value(v.clone()));
                Ok(v)
            },
            Err(e) => Err(e),
        }
    }

    /// Write a secret value. The store is always contacted; the cache is
    /// left as it is, so callers must re-read affected paths with the cache
    /// bypassed.
    pub fn write_secret(&mut self, path: &str, secret: &str) -> (r: Result<(), Error>)
        requires
            old(self).wf(),
        ensures
            final(self).wf(),
            final(self).cache@ == old(self).cache@,
            final(self).store.ops() == old(self).store.ops().push(
                StoreOp::Write(path@, secret@, r is Ok),
            ),
            r matches Err(e) ==> e is Vault,
    {
        self.store.write(path, secret)
    }

    /// Delete the leaf at a path. The store is always contacted; the cache
    /// is left as it is.
    pub fn delete_secret(&mut self, path: &str) -> (r: Result<(), Error>)
        requires
            old(self).wf(),
        ensures
            final(self).wf(),
            final(self).cache@ == old(self).cache@,
            final(self).store.ops() == old(self).store.ops().push(
                StoreOp::Delete(path@, r is Ok),
            ),
            r matches Err(e) ==> e is Vault,
    {
        self.store.delete(path)
    }

    /// Drop every cache entry: the clear-cache user action.
    pub fn clear_cache(&mut self)
        ensures
            final(self).wf(),
            final(self).cache@ == Map::<(Verb, Seq<char>), BodyModel>::empty(),
            final(self).store == old(self).store,
    {
        self.cache.clear();
    }
}

} // verus!
