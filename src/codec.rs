use vstd::prelude::*;
use crate::error::StoreError;

verus! {

#[verifier::external_type_specification]
#[verifier::external_body]
pub struct ExCborValue(serde_cbor::Value);

#[verifier::external_type_specification]
#[verifier::external_body]
pub struct ExCborError(serde_cbor::Error);

/// Whether `bytes` decode as exactly one CBOR value, with nothing after it.
pub uninterp spec fn cbor_decodes(bytes: Seq<u8>) -> bool;

/// The value that `bytes` decode to, where they decode.
pub uninterp spec fn cbor_value_of(bytes: Seq<u8>) -> serde_cbor::Value;

/// The CBOR encoding of a value, or `None` where the value has none.
pub uninterp spec fn cbor_encoding(value: serde_cbor::Value) -> Option<Seq<u8>>;

/// The values one level inside a value, which its encoding takes in turn (an
/// array's items, a map's keys and values, a tag's content), or `None` for
/// the placeholder variant that nothing encodes.
pub uninterp spec fn cbor_parts_of(value: serde_cbor::Value) -> Option<Seq<serde_cbor::Value>>;

/// The deepest nesting of arrays, maps and tags that the decoder reads back.
pub const MAX_NESTING: u64 = 127;

/// Whether `value` is free of the placeholder variant and nests no deeper
/// than `depth` levels.
pub open spec fn encodable_within(value: serde_cbor::Value, depth: nat) -> bool
    decreases depth,
{
    match cbor_parts_of(value) {
        None => false,
        Some(parts) => parts.len() == 0 || (depth > 0 && forall|i: int|
            0 <= i < parts.len() ==> encodable_within(#[trigger] parts[i], (depth - 1) as nat)),
    }
}

/// Relies on serde_cbor::from_slice, read as a dynamic `Value`: whether it
/// succeeds, and the value it gives, depend on the bytes alone, and an empty
/// slice ends early.
#[verifier::external_body]
fn cbor_from_slice(bytes: &[u8]) -> (r: Result<serde_cbor::Value, serde_cbor::Error>)
    ensures
        r is Ok <==> cbor_decodes(bytes@),
        r matches Ok(v) ==> v == cbor_value_of(bytes@),
        bytes@.len() == 0 ==> r is Err,
{
    serde_cbor::from_slice(bytes)
}

/// Relies on serde_cbor::to_vec: the CBOR encoding of a dynamic `Value`, or
/// an error for a value that CBOR cannot hold. Its serialisation panics on
/// the placeholder variant and recurses once per level of nesting, so both
/// are ruled out first.
#[verifier::external_body]
fn cbor_to_vec(value: &serde_cbor::Value) -> (r: Result<Vec<u8>, serde_cbor::Error>)
    requires
        encodable_within(*value, MAX_NESTING as nat),
    ensures
        r is Ok <==> cbor_encoding(*value) is Some,
        r matches Ok(b) ==> cbor_encoding(*value) == Some(b@),
{
    serde_cbor::to_vec(value)
}

/// Relies on the variants of serde_cbor::Value and on what its `Serialize`
/// impl encodes inside each: an array's items, a map's keys and values, a
/// tag's content; `None` for the hidden placeholder variant.
#[verifier::external_body]
fn value_parts(value: &serde_cbor::Value) -> (r: Option<Vec<serde_cbor::Value>>)
    ensures
        match r {
            None => cbor_parts_of(*value) is None,
            Some(p) => cbor_parts_of(*value) == Some(p@),
        },
{
    match value {
        serde_cbor::Value::__Hidden => None,
        serde_cbor::Value::Array(items) => Some(items.clone()),
        serde_cbor::Value::Map(m) => Some(m.iter().flat_map(|(k, x)| [k.clone(), x.clone()]).collect()),
        serde_cbor::Value::Tag(_, inner) => Some(vec![(**inner).clone()]),
        _ => Some(Vec::new()),
    }
}

/// Whether `value` is free of the placeholder variant and nests no deeper
/// than `depth` levels.
pub fn fits_nesting(value: &serde_cbor::Value, depth: u64) -> (r: bool)
    ensures
        r == encodable_within(*value, depth as nat),
    decreases depth,
{
    match value_parts(value) {
        None => false,
        Some(parts) => {
            if parts.len() == 0 {
                return true;
            }
            if depth == 0 {
                return false;
            }
            let mut i: usize = 0;
            while i < parts.len()
                invariant
                    depth > 0,
                    cbor_parts_of(*value) == Some(parts@),
                    i <= parts@.len(),
                    forall|j: int|
                        0 <= j < i ==> encodable_within(#[trigger] parts@[j], (depth - 1) as nat),
                decreases parts@.len() - i,
            {
                if !fits_nesting(&parts[i], depth - 1) {
                    return false;
                }
                i = i + 1;
            }
            true
        },
    }
}

/// What the decoder's outcome means to the store: its value, or a corrupt
/// record.
pub fn decoded_record(outcome: Result<serde_cbor::Value, serde_cbor::Error>) -> (r: Result<
    serde_cbor::Value,
    StoreError,
>)
    ensures
        match outcome {
            Ok(v) => r == Ok::<serde_cbor::Value, StoreError>(v),
            Err(_) => r == Err::<serde_cbor::Value, StoreError>(StoreError::Corrupt),
        },
{
    match outcome {
        Ok(v) => Ok(v),
        Err(_) => Err(StoreError::Corrupt),
    }
}

/// Decodes the content of a record file into a record value.
pub fn decode_record(bytes: &[u8]) -> (r: Result<serde_cbor::Value, StoreError>)
    ensures
        r is Ok <==> cbor_decodes(bytes@),
        r matches Ok(v) ==> v == cbor_value_of(bytes@),
        r is Err ==> r == Err::<serde_cbor::Value, StoreError>(StoreError::Corrupt),
        bytes@.len() == 0 ==> r is Err,
{
    decoded_record(cbor_from_slice(bytes))
}

/// What the encoder's outcome means to the store: the bytes to write, or a
/// value that cannot be stored.
pub fn encoded_record(outcome: Result<Vec<u8>, serde_cbor::Error>) -> (r: Result<
    Vec<u8>,
    StoreError,
>)
    ensures
        match outcome {
            Ok(b) => r matches Ok(c) && c@ == b@,
            Err(_) => r == Err::<Vec<u8>, StoreError>(StoreError::Unencodable),
        },
{
    match outcome {
        Ok(b) => Ok(b),
        Err(_) => Err(StoreError::Unencodable),
    }
}

/// Encodes a record value as the content of its record file. A value that
/// nests deeper than the decoder reads back, or holds the placeholder
/// variant, is refused.
pub fn encode_record(value: &serde_cbor::Value) -> (r: Result<Vec<u8>, StoreError>)
    ensures
        r is Ok <==> encodable_within(*value, MAX_NESTING as nat) && cbor_encoding(*value) is Some,
        r matches Ok(b) ==> cbor_encoding(*value) == Some(b@),
        r is Err ==> r == Err::<Vec<u8>, StoreError>(StoreError::Unencodable),
{
    if !fits_nesting(value, MAX_NESTING) {
        return Err(StoreError::Unencodable);
    }
    encoded_record(cbor_to_vec(value))
}

} // verus!
