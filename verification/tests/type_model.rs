//! Tests of the type term language: compatibility, ownership precedence,
//! accessors and rendering.

use slang_core::type_system::Type;

#[test]
fn it_works() {
    assert_eq!(2 + 2, 4);
}

#[test]
fn test_type_compatibility() {
    assert!(Type::Int.is_compatible_with(&Type::Float));
    assert!(Type::Float.is_compatible_with(&Type::Int));
    assert!(Type::Int.is_compatible_with(&Type::String));
    assert!(Type::String.is_compatible_with(&Type::Int));

    let array1 = Type::Array(Box::new(Type::Int));
    let array2 = Type::Array(Box::new(Type::Float));
    assert!(array1.is_compatible_with(&array2));

    let tuple1 = Type::Tuple(vec![Type::Int, Type::String]);
    let tuple2 = Type::Tuple(vec![Type::Float, Type::String]);
    assert!(tuple1.is_compatible_with(&tuple2));

    let vec1 = Type::Vector(3, Box::new(Type::Int));
    let vec2 = Type::Vector(3, Box::new(Type::Float));
    assert!(vec1.is_compatible_with(&vec2));

    let mat1 = Type::Matrix(2, 2, Box::new(Type::Int));
    let mat2 = Type::Matrix(2, 2, Box::new(Type::Float));
    assert!(mat1.is_compatible_with(&mat2));

    let tensor1 = Type::Tensor(vec![2, 3, 4], Box::new(Type::Int));
    let tensor2 = Type::Tensor(vec![2, 3, 4], Box::new(Type::Float));
    assert!(tensor1.is_compatible_with(&tensor2));

    let quat1 = Type::Quaternion(Box::new(Type::Int));
    let quat2 = Type::Quaternion(Box::new(Type::Float));
    assert!(quat1.is_compatible_with(&quat2));

    let complex1 = Type::Complex(Box::new(Type::Int));
    let complex2 = Type::Complex(Box::new(Type::Float));
    assert!(complex1.is_compatible_with(&complex2));

    let func1 = Type::Function {
        params: vec![Type::Int],
        return_type: Box::new(Type::Int),
        priority: Some(1),
    };
    let func2 = Type::Function {
        params: vec![Type::Float],
        return_type: Box::new(Type::Float),
        priority: Some(1),
    };
    assert!(func1.is_compatible_with(&func2));

    let ptr1 = Type::Pointer(Box::new(Type::Int));
    let ptr2 = Type::Pointer(Box::new(Type::Float));
    assert!(ptr1.is_compatible_with(&ptr2));
}

#[test]
fn mod_test_priority_ownership() {
    let high_priority = Type::Function {
        params: vec![Type::Int],
        return_type: Box::new(Type::Int),
        priority: Some(2),
    };
    let low_priority = Type::Function {
        params: vec![Type::Int],
        return_type: Box::new(Type::Int),
        priority: Some(1),
    };

    assert!(high_priority.can_own(&low_priority));
    assert!(!low_priority.can_own(&high_priority));
}

#[test]
fn test_type_display() {
    assert_eq!(Type::Int.display_string(), "int");
    assert_eq!(Type::Float.display_string(), "float");
    assert_eq!(Type::Bool.display_string(), "bool");
    assert_eq!(Type::String.display_string(), "string");
    assert_eq!(Type::Char.display_string(), "char");
    assert_eq!(Type::Void.display_string(), "void");
    assert_eq!(Type::Unit.display_string(), "()");

    let array = Type::Array(Box::new(Type::Int));
    assert_eq!(array.display_string(), "[int]");

    let tuple = Type::Tuple(vec![Type::Int, Type::String]);
    assert_eq!(tuple.display_string(), "(int, string)");

    let vec = Type::Vector(3, Box::new(Type::Float));
    assert_eq!(vec.display_string(), "vec3<float>");

    let mat = Type::Matrix(2, 2, Box::new(Type::Float));
    assert_eq!(mat.display_string(), "mat2x2<float>");

    let tensor = Type::Tensor(vec![2, 3, 4], Box::new(Type::Float));
    assert_eq!(tensor.display_string(), "tensor<2x3x4, float>");

    let quat = Type::Quaternion(Box::new(Type::Float));
    assert_eq!(quat.display_string(), "quat<float>");

    let complex = Type::Complex(Box::new(Type::Float));
    assert_eq!(complex.display_string(), "complex<float>");

    let func = Type::Function {
        params: vec![Type::Int, Type::String],
        return_type: Box::new(Type::Bool),
        priority: Some(1),
    };
    assert_eq!(func.display_string(), "fn(int, string) -> bool @1");

    let ptr = Type::Pointer(Box::new(Type::Int));
    assert_eq!(ptr.display_string(), "*int");

    let named = Type::Named("MyType".to_string());
    assert_eq!(named.display_string(), "MyType");
}

#[test]
fn primitive_compatibility_table() {
    let prims = [
        Type::Unit,
        Type::Int,
        Type::Float,
        Type::Bool,
        Type::String,
        Type::Char,
        Type::Void,
    ];
    let coercible = |a: &Type, b: &Type| -> bool {
        matches!(
            (a, b),
            (Type::Int, Type::Float)
                | (Type::Float, Type::Int)
                | (Type::Int, Type::String)
                | (Type::Float, Type::String)
                | (Type::Bool, Type::String)
                | (Type::String, Type::Int)
                | (Type::String, Type::Float)
                | (Type::String, Type::Bool)
        )
    };
    for a in prims.iter() {
        for b in prims.iter() {
            let expected = a == b || coercible(a, b);
            assert_eq!(a.is_compatible_with(b), expected);
        }
    }
}

#[test]
fn incompatible_aggregates() {
    let v3 = Type::Vector(3, Box::new(Type::Int));
    let v4 = Type::Vector(4, Box::new(Type::Int));
    assert!(!v3.is_compatible_with(&v4));

    let t2 = Type::Tuple(vec![Type::Int, Type::Int]);
    let t3 = Type::Tuple(vec![Type::Int, Type::Int, Type::Int]);
    assert!(!t2.is_compatible_with(&t3));

    let f1 = Type::Function {
        params: vec![Type::Int],
        return_type: Box::new(Type::Int),
        priority: Some(1),
    };
    let f2 = Type::Function {
        params: vec![Type::Int],
        return_type: Box::new(Type::Int),
        priority: Some(2),
    };
    assert!(!f1.is_compatible_with(&f2));

    let arr = Type::Array(Box::new(Type::Bool));
    assert!(!arr.is_compatible_with(&Type::Bool));
    assert!(!Type::Char.is_compatible_with(&Type::String));
    assert!(!Type::Unit.is_compatible_with(&Type::Void));
}

#[test]
fn accessors_and_set_priority() {
    let v = Type::Vector(3, Box::new(Type::Float));
    assert!(v.is_vector());
    assert!(!v.is_matrix());
    assert_eq!(v.get_vector_dimension(), Some(3));
    assert_eq!(Type::Int.get_vector_dimension(), None);

    let m = Type::Matrix(2, 4, Box::new(Type::Float));
    assert!(m.is_matrix());
    assert_eq!(m.get_matrix_dimensions(), Some((2, 4)));

    let t = Type::Tensor(vec![2, 3], Box::new(Type::Int));
    assert!(t.is_tensor());
    assert_eq!(t.get_tensor_dimensions(), Some(&[2usize, 3usize][..]));

    let q = Type::Quaternion(Box::new(Type::Float));
    assert!(q.is_quaternion());
    let c = Type::Complex(Box::new(Type::Float));
    assert!(c.is_complex());

    let p = Type::Pointer(Box::new(Type::Int));
    assert!(p.is_pointer());
    assert_eq!(p.get_pointer_type(), Some(&Type::Int));

    assert!(Type::Int.is_numeric());
    assert!(Type::Float.is_numeric());
    assert!(!Type::Bool.is_numeric());

    let mut f = Type::Function {
        params: vec![Type::Int],
        return_type: Box::new(Type::Bool),
        priority: None,
    };
    assert!(f.is_function());
    assert_eq!(f.get_priority(), None);
    assert!(f.set_priority(7).is_ok());
    assert_eq!(f.get_priority(), Some(7));
    let (params, ret) = f.get_function_signature().unwrap();
    assert_eq!(params, &[Type::Int][..]);
    assert_eq!(ret, &Type::Bool);

    let mut not_a_fn = Type::Int;
    assert!(not_a_fn.set_priority(1).is_err());
    assert_eq!(not_a_fn, Type::Int);

    // ownership precedence needs a numeric tag on both sides
    let tagged = Type::Function {
        params: vec![],
        return_type: Box::new(Type::Unit),
        priority: Some(0),
    };
    let untagged = Type::Function {
        params: vec![],
        return_type: Box::new(Type::Unit),
        priority: None,
    };
    assert!(!tagged.can_own(&untagged));
    assert!(!untagged.can_own(&tagged));
    assert!(!Type::Int.can_own(&Type::Int));
}
