//! The value model: a tagged scalar value and name-to-value bindings, the
//! result of interpreting a layout against real data.
//!
//! The interpreter itself is an external collaborator; this module only
//! shapes its output.

use crate::prim::Name;
use vstd::prelude::*;

verus! {

/// A decoded scalar value.
///
/// The float variants carry the raw IEEE-754 bit pattern of the decoded
/// word; interpreting it as a number is the decode engine's concern, and
/// the layout model never reads it.  `Enum` carries a constant's name and
/// its underlying 64-bit signed representation.
#[derive(PartialEq, Eq, Hash, Debug)]
pub enum Value {
    U8(u8),
    U16(u16),
    U32(u32),
    U64(u64),
    I8(i8),
    I16(i16),
    I32(i32),
    I64(i64),
    F32(u32),
    F64(u64),
    Enum(Name, i64),
}

/// The kind of a decoded scalar value.
#[derive(Clone, Copy, PartialEq, Eq, Hash, Debug, Structural)]
pub enum ValueKind {
    U8,
    U16,
    U32,
    U64,
    I8,
    I16,
    I32,
    I64,
    F32,
    F64,
    Enum,
}

/// An integer was asked of a value that holds none.
#[derive(Clone, Copy, PartialEq, Eq, Hash, Debug, Structural)]
pub struct TypeMismatch {
    /// The kind the value actually holds.
    pub actual: ValueKind,
}

/// The kind of a value.
pub open spec fn value_kind(v: Value) -> ValueKind {
    match v {
        Value::U8(_) => ValueKind::U8,
        Value::U16(_) => ValueKind::U16,
        Value::U32(_) => ValueKind::U32,
        Value::U64(_) => ValueKind::U64,
        Value::I8(_) => ValueKind::I8,
        Value::I16(_) => ValueKind::I16,
        Value::I32(_) => ValueKind::I32,
        Value::I64(_) => ValueKind::I64,
        Value::F32(_) => ValueKind::F32,
        Value::F64(_) => ValueKind::F64,
        Value::Enum(_, _) => ValueKind::Enum,
    }
}

/// Whether a value holds an integer.
pub open spec fn value_is_int(v: Value) -> bool {
    match v {
        Value::U8(_) | Value::U16(_) | Value::U32(_) | Value::U64(_) => true,
        Value::I8(_) | Value::I16(_) | Value::I32(_) | Value::I64(_) => true,
        Value::F32(_) | Value::F64(_) | Value::Enum(_, _) => false,
    }
}

/// The 64-bit signed representation of an integer value; unsigned 64-bit
/// values wrap, as a plain cast does.
pub open spec fn spec_int_value(v: Value) -> i64 {
    match v {
        Value::U8(x) => x as i64,
        Value::U16(x) => x as i64,
        Value::U32(x) => x as i64,
        Value::U64(x) => x as i64,
        Value::I8(x) => x as i64,
        Value::I16(x) => x as i64,
        Value::I32(x) => x as i64,
        Value::I64(x) => x,
        Value::F32(_) => 0,
        Value::F64(_) => 0,
        Value::Enum(_, _) => 0,
    }
}

impl Value {
    /// The value as a 64-bit signed integer.
    ///
    /// Succeeds exactly on the integer variants; a float or enum value is
    /// reported as a type mismatch naming its kind.
    pub fn value(&self) -> (r: Result<i64, TypeMismatch>)
        ensures
            match r {
                Ok(i) => value_is_int(*self) && i == spec_int_value(*self),
                Err(e) => !value_is_int(*self) && e == (TypeMismatch { actual: value_kind(*self) }),
            },
    {
        match self {
            Value::U8(x) => Ok(*x as i64),
            Value::U16(x) => Ok(*x as i64),
            Value::U32(x) => Ok(*x as i64),
            Value::U64(x) => Ok(*x as i64),
            Value::I8(x) => Ok(*x as i64),
            Value::I16(x) => Ok(*x as i64),
            Value::I32(x) => Ok(*x as i64),
            Value::I64(x) => Ok(*x),
            Value::F32(_) => Err(TypeMismatch { actual: ValueKind::F32 }),
            Value::F64(_) => Err(TypeMismatch { actual: ValueKind::F64 }),
            Value::Enum(_, _) => Err(TypeMismatch { actual: ValueKind::Enum }),
        }
    }
}

/// A decoded value bound to a field name.
#[derive(PartialEq, Debug)]
pub struct Point {
    pub name: Name,
    pub val: Value,
}

impl Point {
    pub fn new(name: Name, val: Value) -> (r: Point)
        ensures
            r.name == name,
            r.val == val,
    {
        Point { name, val }
    }
}

/// Decoded output as a map from field name to value; keys are unique and
/// carry no ordering guarantee.
pub type ValueMap = std::collections::HashMap<Name, Value>;

} // verus!
