use bitmaskd::blob::BlobStore;
use bitmaskd::errors::ProtocolError;

#[test]
fn blob_put_then_get_returns_exact_bytes() {
    let mut store = BlobStore::new();
    let pk = b"02deadbeef".to_vec();
    store.put(pk.clone(), b"invoice-1".to_vec(), vec![1, 2, 3, 4]);
    assert_eq!(store.get(&pk, &b"invoice-1".to_vec()).unwrap(), vec![1, 2, 3, 4]);
    assert_eq!(
        store.get(&pk, &b"invoice-2".to_vec()).unwrap_err(),
        ProtocolError::NotFound
    );
    assert_eq!(
        store.get(&b"03cafe".to_vec(), &b"invoice-1".to_vec()).unwrap_err(),
        ProtocolError::NotFound
    );
}

#[test]
fn blob_put_overwrites_last_write_wins() {
    let mut store = BlobStore::new();
    let pk = b"02deadbeef".to_vec();
    store.put(pk.clone(), b"state".to_vec(), vec![1]);
    store.put(pk.clone(), b"other".to_vec(), vec![9, 9]);
    store.put(pk.clone(), b"state".to_vec(), vec![2, 3]);
    assert_eq!(store.get(&pk, &b"state".to_vec()).unwrap(), vec![2, 3]);
    assert_eq!(store.get(&pk, &b"other".to_vec()).unwrap(), vec![9, 9]);
}
