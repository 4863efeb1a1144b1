use vaultwalker::client::{FromCache, VaultClient};
use vaultwalker::mock::MockStore;

#[test]
fn cached_read_skips_the_store() {
    let mut c = VaultClient::new(MockStore::new());

    // first listing: a miss, so the store is contacted
    let lr = c.list_secrets("mock/", FromCache::Yes).unwrap();
    assert_eq!(lr.keys.len(), 15);
    assert_eq!(c.store.log.len(), 1);

    // second listing of the same (verb, path): served from the cache
    let lr = c.list_secrets("mock/", FromCache::Yes).unwrap();
    assert_eq!(lr.keys.len(), 15);
    assert_eq!(c.store.log.len(), 1);

    // a bypassed read always contacts the store
    let lr = c.list_secrets("mock/", FromCache::No).unwrap();
    assert_eq!(lr.keys.len(), 15);
    assert_eq!(c.store.log.len(), 2);

    // the same policy holds for value reads
    assert_eq!(c.get_secret("mock/key2", FromCache::Yes).unwrap(), "value");
    assert_eq!(c.store.log.len(), 3);
    assert_eq!(c.get_secret("mock/key2", FromCache::Yes).unwrap(), "value");
    assert_eq!(c.store.log.len(), 3);
    assert_eq!(c.get_secret("mock/key2", FromCache::No).unwrap(), "value");
    assert_eq!(c.store.log.len(), 4);
}

#[test]
fn clear_cache_forces_refetch() {
    let mut c = VaultClient::new(MockStore::new());
    c.list_secrets("mock/", FromCache::Yes).unwrap();
    assert_eq!(c.store.log.len(), 1);

    c.clear_cache();
    c.list_secrets("mock/", FromCache::Yes).unwrap();
    assert_eq!(c.store.log.len(), 2);
}

#[test]
fn listing_and_value_are_distinct_cache_keys() {
    let mut c = VaultClient::new(MockStore::new());
    c.list_secrets("mock/key1/", FromCache::Yes).unwrap();
    assert_eq!(c.store.log.len(), 1);

    // a value read on the same path is a different response: not a hit
    let err = c.get_secret("mock/key1/", FromCache::Yes);
    assert!(err.is_err());
    assert_eq!(c.store.log.len(), 2);
}

#[test]
fn store_errors_are_not_cached() {
    let mut c = VaultClient::new(MockStore::new());
    let err = c.get_secret("mock/missing", FromCache::Yes).unwrap_err();
    assert_eq!(err.message(), "vault error: no secret at mock/missing");
    assert_eq!(c.store.log.len(), 1);

    // the failure was not cached: the next read tries the store again
    let err = c.get_secret("mock/missing", FromCache::Yes).unwrap_err();
    assert_eq!(err.message(), "vault error: no secret at mock/missing");
    assert_eq!(c.store.log.len(), 2);
}
