//! Objects in memory, by identifier.
use crate::codec::{self, decode, encode};
use crate::error::{ErrorView, MiniRayError};
use crate::ids::ObjectId;
use crate::refs::ObjectRef;
use crate::uuid_text;
use serde::de::DeserializeOwned;
use serde::Serialize;
use std::collections::HashMap;
use vstd::prelude::*;

verus! {

/// The bytes of objects, by identifier.
#[derive(Debug)]
pub struct InMemoryObjectStore {
    objects: HashMap<u128, Vec<u8>>,
}

impl View for InMemoryObjectStore {
    type V = Map<u128, Seq<u8>>;

    closed spec fn view(&self) -> Map<u128, Seq<u8>> {
        self.objects@.map_values(|bytes: Vec<u8>| bytes@)
    }
}

/// What reading an object gives: its bytes, or the error for an object that is not there.
pub open spec fn lookup(objects: Map<u128, Seq<u8>>, id: u128) -> Result<Seq<u8>, ErrorView> {
    if objects.contains_key(id) {
        Ok(objects[id])
    } else {
        Err(ErrorView::MissingObject(id))
    }
}

/// What reading a value may give: what decoding the object's bytes may give, or the error for an
/// object that is not there.
pub open spec fn may_get<T: DeserializeOwned>(
    objects: Map<u128, Seq<u8>>,
    id: u128,
    r: Result<T, MiniRayError>,
) -> bool {
    match lookup(objects, id) {
        Ok(bytes) => codec::may_decode(bytes, r),
        Err(missing) => r matches Err(e) && e@ == missing,
    }
}

/// Whether `after` is what the store may hold once a value has been put under `id`: the value's
/// bytes in addition, and nothing else changed.
pub open spec fn puts<T: Serialize>(
    before: Map<u128, Seq<u8>>,
    id: u128,
    value: T,
    after: Map<u128, Seq<u8>>,
) -> bool {
    exists|bytes: Vec<u8>| #[trigger]
        codec::may_encode(value, Ok(bytes)) && after == before.insert(id, bytes@)
}

impl InMemoryObjectStore {
    /// A store without objects.
    pub fn new() -> (store: Self)
        ensures
            store@ == Map::<u128, Seq<u8>>::empty(),
    {
        let store = InMemoryObjectStore { objects: HashMap::new() };
        assert(store@ =~= Map::<u128, Seq<u8>>::empty());
        store
    }

    /// Stores bytes under an identifier, in place of those that were there.
    pub fn put_bytes(&mut self, id: ObjectId, bytes: Vec<u8>) -> (stored: ObjectId)
        ensures
            stored == id,
            final(self)@ == old(self)@.insert(id@, bytes@),
    {
        self.objects.insert(id.0, bytes);
        assert(self@ =~= old(self)@.insert(id@, bytes@));
        id
    }

    /// Stores a value under a fresh identifier. Where the value cannot be encoded, nothing is
    /// stored.
    pub fn put<T: Serialize + 'static>(&mut self, value: T, type_label: &'static str) -> (r: Result<
        ObjectRef<T>,
        MiniRayError,
    >)
        ensures
            match r {
                Ok(object_ref) => {
                    &&& puts(old(self)@, object_ref.target()@, value, final(self)@)
                    &&& object_ref.label() == type_label@
                    &&& uuid_text::may_draw(object_ref.target()@)
                    &&& object_ref.target()@ & 0xf000_c000_0000_0000_0000
                        == 0x4000_8000_0000_0000_0000
                },
                Err(e) => final(self)@ == old(self)@ && codec::may_encode(value, Err(e)),
            },
    {
        let id = ObjectId::new();
        let encoded = encode(&value);
        self.put_encoded(id, encoded, type_label)
    }

    /// Stores what encoding a value came to, where that are bytes.
    pub fn put_encoded<T: 'static>(
        &mut self,
        id: ObjectId,
        encoded: Result<Vec<u8>, MiniRayError>,
        type_label: &'static str,
    ) -> (r: Result<ObjectRef<T>, MiniRayError>)
        ensures
            match encoded {
                Ok(bytes) => {
                    &&& r matches Ok(object_ref)
                    &&& object_ref.target() == id
                    &&& object_ref.label() == type_label@
                    &&& final(self)@ == old(self)@.insert(id@, bytes@)
                },
                Err(e) => r == Err::<ObjectRef<T>, MiniRayError>(e) && final(self)@ == old(self)@,
            },
    {
        match encoded {
            Ok(bytes) => {
                self.put_bytes(id, bytes);
                Ok(ObjectRef::new(id, type_label))
            },
            Err(e) => Err(e),
        }
    }

    /// The bytes of an object.
    pub fn get_bytes(&self, id: ObjectId) -> (r: Result<Vec<u8>, MiniRayError>)
        ensures
            match r {
                Ok(bytes) => lookup(self@, id@) == Ok::<Seq<u8>, ErrorView>(bytes@),
                Err(e) => lookup(self@, id@) == Err::<Seq<u8>, ErrorView>(e@) && e
                    == MiniRayError::MissingObject(id),
            },
    {
        match self.objects.get(&id.0) {
            Some(bytes) => {
                let copy = bytes.clone();
                assert(copy@ =~= bytes@);
                Ok(copy)
            },
            None => Err(MiniRayError::MissingObject(id)),
        }
    }

    /// The value of an object.
    pub fn get<T: DeserializeOwned + 'static>(&self, object_ref: ObjectRef<T>) -> (r: Result<
        T,
        MiniRayError,
    >)
        ensures
            may_get(self@, object_ref.target()@, r),
            r matches Err(e) ==> if self@.contains_key(object_ref.target()@) {
                e is Decode
            } else {
                e == MiniRayError::MissingObject(object_ref.target())
            },
    {
        match self.get_bytes(object_ref.id()) {
            Ok(bytes) => decode(bytes.as_slice()),
            Err(e) => Err(e),
        }
    }

    /// Whether an object is in the store.
    pub fn contains(&self, id: ObjectId) -> (r: bool)
        ensures
            r == self@.contains_key(id@),
    {
        self.objects.contains_key(&id.0)
    }
}

impl Default for InMemoryObjectStore {
    fn default() -> (store: Self)
        ensures
            store@ == Map::<u128, Seq<u8>>::empty(),
    {
        Self::new()
    }
}

/// What was stored under an identifier is what is read back under it, until something else is
/// stored there; no other object is touched.
pub proof fn read_after_write(objects: Map<u128, Seq<u8>>, id: u128, bytes: Seq<u8>, other: u128)
    ensures
        lookup(objects.insert(id, bytes), id) == Ok::<Seq<u8>, ErrorView>(bytes),
        other != id ==> lookup(objects.insert(id, bytes), other) == lookup(objects, other),
{
}

/// Getting a value after putting it gives the value back, where the serialisation and the
/// deserialisation of its type agree on it.
pub proof fn get_after_put<T: Serialize + DeserializeOwned>(
    before: Map<u128, Seq<u8>>,
    id: u128,
    value: T,
    after: Map<u128, Seq<u8>>,
    r: Result<T, MiniRayError>,
)
    requires
        codec::agrees(value),
        puts(before, id, value, after),
        may_get(after, id, r),
    ensures
        r == Ok::<T, MiniRayError>(value),
{
    let bytes = choose|bytes: Vec<u8>| #[trigger]
        codec::may_encode(value, Ok(bytes)) && after == before.insert(id, bytes@);
    codec::decoding_undoes_encoding(value, bytes, r);
}

/// Where an object cannot be had as a value, it is missing or its bytes cannot be decoded.
pub proof fn objects_are_missing_or_undecodable<T: DeserializeOwned>(
    objects: Map<u128, Seq<u8>>,
    id: u128,
    e: MiniRayError,
)
    requires
        may_get::<T>(objects, id, Err(e)),
    ensures
        objects.contains_key(id) ==> e is Decode,
        !objects.contains_key(id) ==> e@ == ErrorView::MissingObject(id),
{
    if objects.contains_key(id) {
        codec::failures_to_decode_are_decoding_errors::<T>(objects[id], e);
    }
}

/// A value that is put is stored as what it may be encoded as, and no other object is touched.
pub proof fn puts_store_one_encoded_value<T: Serialize>(
    before: Map<u128, Seq<u8>>,
    id: u128,
    value: T,
    after: Map<u128, Seq<u8>>,
    other: u128,
)
    requires
        puts(before, id, value, after),
    ensures
        after.contains_key(id),
        exists|bytes: Vec<u8>| #[trigger]
            codec::may_encode(value, Ok(bytes)) && after[id] == bytes@,
        other != id ==> after.contains_key(other) == before.contains_key(other),
        other != id && before.contains_key(other) ==> after[other] == before[other],
{
    let bytes = choose|bytes: Vec<u8>| #[trigger]
        codec::may_encode(value, Ok(bytes)) && after == before.insert(id, bytes@);
    assert(codec::may_encode(value, Ok(bytes)) && after[id] == bytes@);
}

/// An object that is there is read as it is, and as a value it is what its bytes may be decoded as;
/// one that is not there is missing.
pub proof fn objects_are_read_as_they_are<T: DeserializeOwned>(
    objects: Map<u128, Seq<u8>>,
    id: u128,
    r: Result<T, MiniRayError>,
)
    ensures
        objects.contains_key(id) ==> {
            &&& lookup(objects, id) == Ok::<Seq<u8>, ErrorView>(objects[id])
            &&& may_get(objects, id, r) ==> codec::may_decode(objects[id], r)
        },
        !objects.contains_key(id) ==> {
            &&& lookup(objects, id) == Err::<Seq<u8>, ErrorView>(ErrorView::MissingObject(id))
            &&& may_get(objects, id, r) ==> (r matches Err(e) && e@ == ErrorView::MissingObject(id))
        },
{
}

} // verus!
