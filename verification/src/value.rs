//! Guest values and the host/guest value marshaller.
//!
//! A guest value is a tagged union owned by the guest runtime; the host
//! must check the tag before any narrowing access, since reading the wrong
//! variant is undefined behavior at the engine boundary. The marshaller
//! here makes that check total: every narrowing accessor either demands the
//! right tag or reports `TypeMismatch`.

use vstd::prelude::*;

use crate::errors::BridgeError;

verus! {

/// A guest-runtime value as the host observes it across the boundary.
///
/// Guest numbers are double-precision floats; the bridge never computes
/// with them, so it carries them opaquely as their raw bit pattern. String
/// and object values are guest-managed: the host sees only a reference
/// (an index into the runtime's heap), never the storage itself.
#[derive(Clone, Copy, Debug, PartialEq, Eq, Structural)]
pub enum GuestValue {
    Undefined,
    Boolean(bool),
    /// The bit pattern of a guest double-precision number.
    Number(u64),
    /// A reference to a guest-heap string.
    StringRef(usize),
    /// A reference to a guest-heap object.
    ObjectRef(usize),
}

/// The tag of a guest value, as reported by `classify`.
#[derive(Clone, Copy, Debug, PartialEq, Eq, Structural)]
pub enum ValueTag {
    Undefined,
    Boolean,
    Number,
    String,
    Object,
}

/// The tag that `classify` must report for a value.
pub open spec fn tag_of(v: GuestValue) -> ValueTag {
    match v {
        GuestValue::Undefined => ValueTag::Undefined,
        GuestValue::Boolean(_) => ValueTag::Boolean,
        GuestValue::Number(_) => ValueTag::Number,
        GuestValue::StringRef(_) => ValueTag::String,
        GuestValue::ObjectRef(_) => ValueTag::Object,
    }
}

/// Inspect a value's tag; never mutates.
pub fn classify(v: &GuestValue) -> (t: ValueTag)
    ensures
        t == tag_of(*v),
{
    match v {
        GuestValue::Undefined => ValueTag::Undefined,
        GuestValue::Boolean(_) => ValueTag::Boolean,
        GuestValue::Number(_) => ValueTag::Number,
        GuestValue::StringRef(_) => ValueTag::String,
        GuestValue::ObjectRef(_) => ValueTag::Object,
    }
}

/// Narrow a value to its number payload (the bit pattern of the guest
/// double). Succeeds exactly on values classified as numbers; anything
/// else is a `TypeMismatch`.
pub fn to_number(v: &GuestValue) -> (r: Result<u64, BridgeError>)
    ensures
        r is Ok <==> tag_of(*v) == ValueTag::Number,
        r matches Ok(bits) ==> *v == GuestValue::Number(bits),
        r matches Err(e) ==> e == BridgeError::TypeMismatch,
{
    match v {
        GuestValue::Number(bits) => Ok(*bits),
        _ => Err(BridgeError::TypeMismatch),
    }
}

/// Produce the guest `undefined` value, the canonical "no result".
pub fn encode_undefined() -> (r: GuestValue)
    ensures
        r == GuestValue::Undefined,
{
    GuestValue::Undefined
}

/// Encode a host number (given as its double bit pattern) as a guest value.
pub fn encode_number(bits: u64) -> (r: GuestValue)
    ensures
        r == GuestValue::Number(bits),
{
    GuestValue::Number(bits)
}

/// Encode a host boolean as a guest value.
pub fn encode_boolean(b: bool) -> (r: GuestValue)
    ensures
        r == GuestValue::Boolean(b),
{
    GuestValue::Boolean(b)
}

} // verus!
