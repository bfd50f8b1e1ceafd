//! The structured-document model: a closed, recursive sum type of
//! null, booleans, numbers, strings, arrays and objects.
use vstd::prelude::*;

verus! {

/// A number: a binary64 floating-point value, kept as its IEEE-754 bit
/// pattern.
#[derive(Debug, Clone, Copy)]
pub struct JsonNumber {
    pub bits: u64,
}

/// A structured-document value. An object keeps its entries in insertion
/// order; a document built by this library never repeats a key within one
/// object.
#[derive(Debug)]
pub enum JsonValue {
    Null,
    Bool(bool),
    Number(JsonNumber),
    String(String),
    Array(Vec<JsonValue>),
    Object(Vec<(String, JsonValue)>),
}

/// The bit pattern is a NaN: all exponent bits set and a non-zero fraction.
pub open spec fn float_is_nan(bits: u64) -> bool {
    (bits >> 52u64) & 0x7ffu64 == 0x7ffu64 && bits & 0xf_ffff_ffff_ffffu64 != 0
}

/// The bit pattern is positive or negative zero.
pub open spec fn float_is_zero(bits: u64) -> bool {
    bits & 0x7fff_ffff_ffff_ffffu64 == 0
}

/// IEEE-754 equality of two binary64 values given by their bit patterns:
/// a NaN equals nothing, the two zeros are equal, anything else is equal
/// only to itself.
pub open spec fn float_eq(a: u64, b: u64) -> bool {
    !float_is_nan(a) && !float_is_nan(b) && (a == b || (float_is_zero(a) && float_is_zero(b)))
}

/// Equality of numbers: float equality of their values.
pub open spec fn number_eq(a: JsonNumber, b: JsonNumber) -> bool {
    float_eq(a.bits, b.bits)
}

pub open spec fn is_scalar(v: JsonValue) -> bool {
    !(v is Array) && !(v is Object)
}

pub open spec fn is_container(v: JsonValue) -> bool {
    v is Array || v is Object
}

/// A scalar node equals the target: same variant and same value. A
/// container never counts as equal here.
pub open spec fn scalar_eq(v: JsonValue, t: JsonValue) -> bool {
    match (v, t) {
        (JsonValue::Null, JsonValue::Null) => true,
        (JsonValue::Bool(a), JsonValue::Bool(b)) => a == b,
        (JsonValue::Number(a), JsonValue::Number(b)) => number_eq(a, b),
        (JsonValue::String(a), JsonValue::String(b)) => a@ == b@,
        _ => false,
    }
}

/// An object key, read as a string value, equals the target.
pub open spec fn key_matches(k: Seq<char>, t: JsonValue) -> bool {
    match t {
        JsonValue::String(s) => s@ == k,
        _ => false,
    }
}

/// The target occurs in the document: as the value of a scalar node, or as
/// a key of some object.
pub open spec fn occurs(v: JsonValue, t: JsonValue) -> bool
    decreases v,
{
    match v {
        JsonValue::Array(items) => exists|i: int|
            0 <= i < items.len() && occurs(#[trigger] items[i], t),
        JsonValue::Object(entries) => exists|i: int|
            0 <= i < entries.len() && (key_matches((#[trigger] entries[i]).0@, t) || occurs(
                entries[i].1,
                t,
            )),
        _ => scalar_eq(v, t),
    }
}

impl JsonNumber {
    /// The number whose binary64 bit pattern is `bits`.
    pub fn from_bits(bits: u64) -> (r: JsonNumber)
        ensures
            r.bits == bits,
    {
        JsonNumber { bits }
    }

    /// Equality of numbers as float equality: a NaN equals nothing, the
    /// two zeros are equal, any other value equals only itself.
    pub fn equals(&self, other: &JsonNumber) -> (r: bool)
        ensures
            r == number_eq(*self, *other),
    {
        let x = self.bits;
        let y = other.bits;
        let x_nan = (x >> 52u64) & 0x7ffu64 == 0x7ffu64 && x & 0xf_ffff_ffff_ffffu64 != 0;
        let y_nan = (y >> 52u64) & 0x7ffu64 == 0x7ffu64 && y & 0xf_ffff_ffff_ffffu64 != 0;
        let both_zero = x & 0x7fff_ffff_ffff_ffffu64 == 0 && y & 0x7fff_ffff_ffff_ffffu64 == 0;
        !x_nan && !y_nan && (x == y || both_zero)
    }
}

/// Compares a node with the target by structural equality; only a scalar
/// node can be equal.
pub fn scalar_equals(v: &JsonValue, t: &JsonValue) -> (r: bool)
    ensures
        r == scalar_eq(*v, *t),
{
    match (v, t) {
        (JsonValue::Null, JsonValue::Null) => true,
        (JsonValue::Bool(a), JsonValue::Bool(b)) => *a == *b,
        (JsonValue::Number(a), JsonValue::Number(b)) => a.equals(b),
        (JsonValue::String(a), JsonValue::String(b)) => (*a).eq(b),
        _ => false,
    }
}

/// Compares an object key, read as a string value, with the target.
pub fn key_equals(k: &String, t: &JsonValue) -> (r: bool)
    ensures
        r == key_matches(k@, *t),
{
    match t {
        JsonValue::String(s) => (*s).eq(k),
        _ => false,
    }
}

} // verus!
