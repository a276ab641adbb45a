//! Tests of the explicit cast table.

use slang_core::type_system::Type;
use slang_core::type_system::TypeCast;

#[test]
fn cast_allowed_table() {
    let type_cast = TypeCast::new();

    assert!(type_cast.is_cast_allowed(&Type::Int, &Type::Float));
    assert!(type_cast.is_cast_allowed(&Type::Float, &Type::Int));
    assert!(type_cast.is_cast_allowed(&Type::Int, &Type::String));
    assert!(type_cast.is_cast_allowed(&Type::Float, &Type::String));
    assert!(type_cast.is_cast_allowed(&Type::Bool, &Type::String));
    assert!(type_cast.is_cast_allowed(&Type::String, &Type::Int));
    assert!(type_cast.is_cast_allowed(&Type::String, &Type::Float));
    assert!(type_cast.is_cast_allowed(&Type::String, &Type::Bool));
    assert!(type_cast.is_cast_allowed(&Type::Char, &Type::Char));
    assert!(!type_cast.is_cast_allowed(&Type::Char, &Type::Int));
    assert!(!type_cast.is_cast_allowed(&Type::Bool, &Type::Int));
}

#[test]
fn cast_cost_table() {
    let type_cast = TypeCast::new();

    assert_eq!(type_cast.get_cast_cost(&Type::Int, &Type::Float), Some(1));
    assert_eq!(type_cast.get_cast_cost(&Type::Float, &Type::Int), Some(1));
    assert_eq!(type_cast.get_cast_cost(&Type::Int, &Type::String), Some(2));
    assert_eq!(type_cast.get_cast_cost(&Type::Bool, &Type::String), Some(2));
    assert_eq!(type_cast.get_cast_cost(&Type::String, &Type::Int), Some(3));
    assert_eq!(type_cast.get_cast_cost(&Type::String, &Type::Bool), Some(3));
    assert_eq!(type_cast.get_cast_cost(&Type::Int, &Type::Int), Some(0));
    assert_eq!(
        type_cast.get_cast_cost(&Type::Array(Box::new(Type::Int)), &Type::Array(Box::new(Type::Int))),
        Some(0)
    );
    assert_eq!(type_cast.get_cast_cost(&Type::Char, &Type::Int), None);
    assert_eq!(
        type_cast.get_cast_cost(&Type::Array(Box::new(Type::Int)), &Type::Array(Box::new(Type::Float))),
        None
    );
}
