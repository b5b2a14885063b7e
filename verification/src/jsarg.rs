//! The types of the values passed between easyjs and its JavaScript runtime.
use vstd::prelude::*;

verus! {

/// The type of a value passed to or from the runtime.
#[derive(Debug, Clone, Copy, PartialEq, Eq, Structural)]
pub enum JSArgType {
    Int,
    Double,
    String,
    Float,
    Bool,
    Int64,
    Uint32,
    CArray,
    Null,
    Undefined,
    UInt8Array,
    Int32Array,
    UInt32Array,
    Int64Array,
    Int8Array,
    UInt16Array,
    Int16Array,
    UInt64Array,
    FloatArray,
}

/// The number of each type in the runtime's C interface: the types are numbered from 0
/// (`Int`) to 18 (`FloatArray`) in the order in which they are declared.
pub open spec fn spec_c_val(t: JSArgType) -> u32 {
    match t {
        JSArgType::Int => 0,
        JSArgType::Double => 1,
        JSArgType::String => 2,
        JSArgType::Float => 3,
        JSArgType::Bool => 4,
        JSArgType::Int64 => 5,
        JSArgType::Uint32 => 6,
        JSArgType::CArray => 7,
        JSArgType::Null => 8,
        JSArgType::Undefined => 9,
        JSArgType::UInt8Array => 10,
        JSArgType::Int32Array => 11,
        JSArgType::UInt32Array => 12,
        JSArgType::Int64Array => 13,
        JSArgType::Int8Array => 14,
        JSArgType::UInt16Array => 15,
        JSArgType::Int16Array => 16,
        JSArgType::UInt64Array => 17,
        JSArgType::FloatArray => 18,
    }
}

impl JSArgType {
    /// The runtime's number for this type.
    pub fn c_val(&self) -> (r: u32)
        ensures
            r == spec_c_val(*self),
    {
        match self {
            JSArgType::Int => 0,
            JSArgType::Double => 1,
            JSArgType::String => 2,
            JSArgType::Float => 3,
            JSArgType::Bool => 4,
            JSArgType::Int64 => 5,
            JSArgType::Uint32 => 6,
            JSArgType::CArray => 7,
            JSArgType::Null => 8,
            JSArgType::Undefined => 9,
            JSArgType::UInt8Array => 10,
            JSArgType::Int32Array => 11,
            JSArgType::UInt32Array => 12,
            JSArgType::Int64Array => 13,
            JSArgType::Int8Array => 14,
            JSArgType::UInt16Array => 15,
            JSArgType::Int16Array => 16,
            JSArgType::UInt64Array => 17,
            JSArgType::FloatArray => 18,
        }
    }
}

/// Each type has a number of its own, and the numbers run from 0 to 18: two types with one
/// number are the same type.
pub proof fn lemma_c_val_distinct(a: JSArgType, b: JSArgType)
    ensures
        spec_c_val(a) <= 18,
        spec_c_val(a) == spec_c_val(b) ==> a == b,
{
}

} // verus!
