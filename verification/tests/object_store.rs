use mini_ray::error::MiniRayError;
use mini_ray::ids::ObjectId;
use mini_ray::object_store::InMemoryObjectStore;
use mini_ray::refs::ObjectRef;

#[test]
fn put_and_get_round_trip() {
    let mut store = InMemoryObjectStore::new();
    let object_ref = store.put(41u64, "u64").unwrap();
    let value: u64 = store.get(object_ref).unwrap();
    assert_eq!(value, 41);
}

#[test]
fn missing_object_returns_error() {
    let store = InMemoryObjectStore::new();
    let err = store.get_bytes(ObjectId::new()).unwrap_err();
    assert!(matches!(err, MiniRayError::MissingObject(_)));
}

#[test]
fn decode_error_is_explicit() {
    let mut store = InMemoryObjectStore::new();
    let id = ObjectId::new();
    store.put_bytes(id, vec![1, 2, 3]);

    let err = store.get(ObjectRef::<String>::new(id, "String")).unwrap_err();
    assert!(matches!(err, MiniRayError::Decode(_)));
}

#[test]
fn what_was_written_last_is_read() {
    let mut store = InMemoryObjectStore::default();
    let id = ObjectId::new();
    let other = ObjectId::new();
    assert!(!store.contains(id));

    assert_eq!(store.put_bytes(id, vec![1]), id);
    assert_eq!(store.put_bytes(other, vec![2]), other);
    assert_eq!(store.put_bytes(id, vec![3, 4]), id);

    assert!(store.contains(id));
    assert_eq!(store.get_bytes(id).unwrap(), vec![3, 4]);
    assert_eq!(store.get_bytes(other).unwrap(), vec![2]);
}

#[test]
fn a_value_that_cannot_be_encoded_is_not_stored() {
    let mut store = InMemoryObjectStore::new();
    let id = ObjectId::new();
    let err = store
        .put_encoded::<u64>(id, Err(MiniRayError::Encode("no".to_string())), "u64")
        .unwrap_err();

    assert!(matches!(err, MiniRayError::Encode(_)));
    assert!(!store.contains(id));
}

#[test]
fn a_reference_to_nothing_is_a_missing_object() {
    let store = InMemoryObjectStore::new();
    let id = ObjectId::new();
    let err = store.get(ObjectRef::<u64>::new(id, "u64")).unwrap_err();
    assert!(matches!(err, MiniRayError::MissingObject(missing) if missing == id));
}
