//! The explicit cast table: which scalar casts the language allows and at
//! what cost.
//!
//! A cast is allowed between identical types for free, between the two
//! numeric types at cost 1, from a numeric or boolean type into `String`
//! at cost 2, and from `String` back at cost 3. Converting the literal
//! values themselves is left to the surrounding tooling, which owns the
//! floating-point arithmetic this crate does not model.

use vstd::prelude::*;

use crate::type_system::type_eq_exec;
use crate::type_system::Type;
use crate::type_system::TypeV;

verus! {

/// Whether a value of type `from` may be cast to type `to`.
pub open spec fn cast_allowed(from: TypeV, to: TypeV) -> bool {
    ||| (from is Int && to is Float)
    ||| (from is Float && to is Int)
    ||| (from is Int && to is String)
    ||| (from is Float && to is String)
    ||| (from is Bool && to is String)
    ||| (from is String && to is Int)
    ||| (from is String && to is Float)
    ||| (from is String && to is Bool)
    ||| from == to
}

/// The cost of a cast: 0 for identity, 1 between the numeric types, 2
/// into `String`, 3 out of `String`; `None` where no cast is allowed.
pub open spec fn cast_cost(from: TypeV, to: TypeV) -> Option<u32> {
    if from is Int && to is Float {
        Some(1u32)
    } else if from is Float && to is Int {
        Some(1u32)
    } else if from is Int && to is String {
        Some(2u32)
    } else if from is Float && to is String {
        Some(2u32)
    } else if from is Bool && to is String {
        Some(2u32)
    } else if from is String && to is Int {
        Some(3u32)
    } else if from is String && to is Float {
        Some(3u32)
    } else if from is String && to is Bool {
        Some(3u32)
    } else if from == to {
        Some(0u32)
    } else {
        None
    }
}

/// The cast table.
#[derive(Debug, Clone)]
pub struct TypeCast;

impl TypeCast {
    /// A cast table.
    pub fn new() -> TypeCast {
        TypeCast
    }

    /// Whether a value of type `from_type` may be cast to `to_type`, per
    /// [`cast_allowed`].
    pub fn is_cast_allowed(&self, from_type: &Type, to_type: &Type) -> (r: bool)
        ensures
            r == cast_allowed(from_type@, to_type@),
    {
        match (from_type, to_type) {
            (Type::Int, Type::Float) => true,
            (Type::Float, Type::Int) => true,
            (Type::Int, Type::String) => true,
            (Type::Float, Type::String) => true,
            (Type::Bool, Type::String) => true,
            (Type::String, Type::Int) => true,
            (Type::String, Type::Float) => true,
            (Type::String, Type::Bool) => true,
            _ => type_eq_exec(from_type, to_type),
        }
    }

    /// The cost of the cast, per [`cast_cost`].
    pub fn get_cast_cost(&self, from_type: &Type, to_type: &Type) -> (r: Option<u32>)
        ensures
            r == cast_cost(from_type@, to_type@),
    {
        match (from_type, to_type) {
            (Type::Int, Type::Float) => Some(1),
            (Type::Float, Type::Int) => Some(1),
            (Type::Int, Type::String) => Some(2),
            (Type::Float, Type::String) => Some(2),
            (Type::Bool, Type::String) => Some(2),
            (Type::String, Type::Int) => Some(3),
            (Type::String, Type::Float) => Some(3),
            (Type::String, Type::Bool) => Some(3),
            _ => {
                if type_eq_exec(from_type, to_type) {
                    Some(0)
                } else {
                    None
                }
            },
        }
    }
}

} // verus!
