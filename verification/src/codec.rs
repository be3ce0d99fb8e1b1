//! Values as bytes.
//!
//! What the bytes of a value are, and which bytes hold a value, is up to the value's own
//! serialisation and to `bincode`; nothing is claimed of either here. What other functions do with
//! bytes is stated relative to what [`encode`] and [`decode`] may return.
use crate::error::MiniRayError;
use serde::de::DeserializeOwned;
use serde::Serialize;
use vstd::prelude::*;

verus! {

/// `bincode::serialize` turns a value into bytes; its error is handed out as text. Nothing is
/// claimed of the result: the bytes depend on how the value's type serialises itself.
#[verifier::external_body]
fn serialize<T: Serialize>(value: &T) -> (r: Result<Vec<u8>, String>) {
    match bincode::serialize(value) {
        Ok(bytes) => Ok(bytes),
        Err(error) => Err(error.to_string()),
    }
}

/// `bincode::deserialize` reads a value from bytes; its error is handed out as text. Nothing is
/// claimed of the result: the value depends on how its type deserialises itself.
#[verifier::external_body]
fn deserialize<T: DeserializeOwned>(bytes: &[u8]) -> (r: Result<T, String>) {
    match bincode::deserialize(bytes) {
        Ok(value) => Ok(value),
        Err(error) => Err(error.to_string()),
    }
}

/// What [`encode`] makes of the outcome of a serialisation.
pub fn encoded(outcome: Result<Vec<u8>, String>) -> (r: Result<Vec<u8>, MiniRayError>)
    ensures
        match outcome {
            Ok(bytes) => r == Ok::<Vec<u8>, MiniRayError>(bytes),
            Err(message) => r == Err::<Vec<u8>, MiniRayError>(MiniRayError::Encode(message)),
        },
{
    match outcome {
        Ok(bytes) => Ok(bytes),
        Err(message) => Err(MiniRayError::Encode(message)),
    }
}

/// What [`decode`] makes of the outcome of a deserialisation.
pub fn decoded<T>(outcome: Result<T, String>) -> (r: Result<T, MiniRayError>)
    ensures
        match outcome {
            Ok(value) => r == Ok::<T, MiniRayError>(value),
            Err(message) => r == Err::<T, MiniRayError>(MiniRayError::Decode(message)),
        },
{
    match outcome {
        Ok(value) => Ok(value),
        Err(message) => Err(MiniRayError::Decode(message)),
    }
}

/// Whether encoding a value may come out this way: as the bytes that serialising it may give, or as
/// an encoding error with the reason why that may fail.
pub closed spec fn may_encode<T: Serialize>(value: T, r: Result<Vec<u8>, MiniRayError>) -> bool {
    match r {
        Ok(bytes) => call_ensures(serialize::<T>, (&value,), Ok(bytes)),
        Err(MiniRayError::Encode(message)) => call_ensures(
            serialize::<T>,
            (&value,),
            Err(message),
        ),
        Err(_) => false,
    }
}

/// Whether deserialising bytes may come out this way.
spec fn may_deserialize<T: DeserializeOwned>(bytes: Seq<u8>, outcome: Result<T, String>) -> bool {
    exists|slice: &[u8]|
        slice@ == bytes && #[trigger] call_ensures(deserialize::<T>, (slice,), outcome)
}

/// Whether decoding bytes may come out this way: as a value that deserialising them may give, or as
/// a decoding error with the reason why that may fail.
pub closed spec fn may_decode<T: DeserializeOwned>(
    bytes: Seq<u8>,
    r: Result<T, MiniRayError>,
) -> bool {
    match r {
        Ok(value) => may_deserialize(bytes, Ok(value)),
        Err(MiniRayError::Decode(message)) => may_deserialize::<T>(bytes, Err(message)),
        Err(_) => false,
    }
}

/// Whether the serialisation and the deserialisation of a type agree on a value: from whatever bytes
/// `bincode` may write the value as, it reads nothing but the value.
pub closed spec fn agrees<T: Serialize + DeserializeOwned>(value: T) -> bool {
    forall|bytes: Vec<u8>, back: Result<T, String>|
        #![trigger call_ensures(serialize::<T>, (&value,), Ok(bytes)), may_deserialize(bytes@, back)]
        call_ensures(serialize::<T>, (&value,), Ok(bytes)) && may_deserialize(bytes@, back)
            ==> back == Ok::<T, String>(value)
}

/// Decoding undoes encoding: where the serialisation and the deserialisation of a type agree on a
/// value, decoding the bytes that the value was encoded as gives the value back.
pub proof fn decoding_undoes_encoding<T: Serialize + DeserializeOwned>(
    value: T,
    bytes: Vec<u8>,
    back: Result<T, MiniRayError>,
)
    requires
        agrees(value),
        may_encode(value, Ok(bytes)),
        may_decode(bytes@, back),
    ensures
        back == Ok::<T, MiniRayError>(value),
{
    match back {
        Ok(v) => {
            assert(may_deserialize(bytes@, Ok::<T, String>(v)));
        },
        Err(e) => {
            if let MiniRayError::Decode(message) = e {
                assert(may_deserialize(bytes@, Err::<T, String>(message)));
            }
        },
    }
}

/// Encoding hands out the bytes that serialising gives, as they are, or the reason why it failed.
proof fn lemma_encoding_is_serialising<T: Serialize>(value: T, r: Result<Vec<u8>, MiniRayError>)
    requires
        may_encode(value, r),
    ensures
        match r {
            Ok(bytes) => call_ensures(serialize::<T>, (&value,), Ok(bytes)),
            Err(e) => e matches MiniRayError::Encode(message) && call_ensures(
                serialize::<T>,
                (&value,),
                Err(message),
            ),
        },
{
}

/// Decoding hands out the value that deserialising these bytes gives, or the reason why it failed.
proof fn lemma_decoding_is_deserialising<T: DeserializeOwned>(
    bytes: Seq<u8>,
    r: Result<T, MiniRayError>,
)
    requires
        may_decode(bytes, r),
    ensures
        match r {
            Ok(value) => exists|slice: &[u8]|
                slice@ == bytes && #[trigger] call_ensures(deserialize::<T>, (slice,), Ok(value)),
            Err(e) => e matches MiniRayError::Decode(message) && exists|slice: &[u8]|
                slice@ == bytes && #[trigger] call_ensures(
                    deserialize::<T>,
                    (slice,),
                    Err(message),
                ),
        },
{
}

/// Where encoding fails, it fails with an encoding error.
pub proof fn failures_to_encode_are_encoding_errors<T: Serialize>(value: T, e: MiniRayError)
    requires
        may_encode(value, Err(e)),
    ensures
        e is Encode,
{
    lemma_encoding_is_serialising(value, Err(e));
}

/// Where decoding fails, it fails with a decoding error.
pub proof fn failures_to_decode_are_decoding_errors<T: DeserializeOwned>(
    bytes: Seq<u8>,
    e: MiniRayError,
)
    requires
        may_decode::<T>(bytes, Err(e)),
    ensures
        e is Decode,
{
    lemma_decoding_is_deserialising::<T>(bytes, Err(e));
}

/// Turns a value into bytes. Where that fails, the error is an encoding error with the reason.
pub fn encode<T: Serialize>(value: &T) -> (r: Result<Vec<u8>, MiniRayError>)
    ensures
        may_encode(*value, r),
        r matches Err(e) ==> e is Encode,
{
    encoded(serialize(value))
}

/// Reads a value from bytes. Where that fails, the error is a decoding error with the reason.
pub fn decode<T: DeserializeOwned>(bytes: &[u8]) -> (r: Result<T, MiniRayError>)
    ensures
        may_decode(bytes@, r),
        r matches Err(e) ==> e is Decode,
{
    decoded(deserialize(bytes))
}

} // verus!
