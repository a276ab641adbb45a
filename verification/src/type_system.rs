//! The type term language and its structural relations.
//!
//! [`Type`] is a finite recursive term; its mathematical model is the ghost
//! term [`TypeV`], reached through the view operator `@`. Two relations over
//! the model drive the analyses: plain structural equality (`==` on
//! [`TypeV`]) and the looser, coercion-aware compatibility relation
//! ([`compatible`]) used wherever two types must agree (assignment,
//! comparison, argument passing, return). Compatibility is re-derived per
//! pair and is deliberately not closed under transitivity.

pub mod cast;
pub mod checker;
pub mod inference;

use vstd::prelude::*;

use crate::error::SlangError;
use vstd::string::StringExecFns;

pub use cast::TypeCast;
pub use checker::TypeChecker;
pub use inference::TypeConstraint;
pub use inference::TypeInference;

verus! {

/// The mathematical model of a type term.
#[verifier::ext_equal]
pub enum TypeV {
    Unit,
    Int,
    Float,
    Bool,
    String,
    Char,
    Void,
    Array(Box<TypeV>),
    Tuple(Seq<TypeV>),
    Vector(usize, Box<TypeV>),
    Matrix(usize, usize, Box<TypeV>),
    Tensor(Seq<usize>, Box<TypeV>),
    Quaternion(Box<TypeV>),
    Complex(Box<TypeV>),
    Function { params: Seq<TypeV>, return_type: Box<TypeV>, priority: Option<u32> },
    Pointer(Box<TypeV>),
    Named(Seq<char>),
}

/// A type term of the language.
///
/// A `Function` type optionally carries a numeric priority-ownership level;
/// two function types agree only if parameter list, return type and priority
/// all agree. `Named` refers to a declared record type by name.
#[derive(Debug, PartialEq)]
pub enum Type {
    Unit,
    Int,
    Float,
    Bool,
    String,
    Char,
    Void,
    Array(Box<Type>),
    Tuple(Vec<Type>),
    Vector(usize, Box<Type>),
    Matrix(usize, usize, Box<Type>),
    Tensor(Vec<usize>, Box<Type>),
    Quaternion(Box<Type>),
    Complex(Box<Type>),
    Function { params: Vec<Type>, return_type: Box<Type>, priority: Option<u32> },
    Pointer(Box<Type>),
    Named(String),
}

/// The model of a type term.
pub open spec fn type_view(t: Type) -> TypeV
    decreases t,
{
    match t {
        Type::Unit => TypeV::Unit,
        Type::Int => TypeV::Int,
        Type::Float => TypeV::Float,
        Type::Bool => TypeV::Bool,
        Type::String => TypeV::String,
        Type::Char => TypeV::Char,
        Type::Void => TypeV::Void,
        Type::Array(e) => TypeV::Array(Box::new(type_view(*e))),
        Type::Tuple(ts) => TypeV::Tuple(type_view_seq(ts@)),
        Type::Vector(d, e) => TypeV::Vector(d, Box::new(type_view(*e))),
        Type::Matrix(r, c, e) => TypeV::Matrix(r, c, Box::new(type_view(*e))),
        Type::Tensor(ds, e) => TypeV::Tensor(ds@, Box::new(type_view(*e))),
        Type::Quaternion(e) => TypeV::Quaternion(Box::new(type_view(*e))),
        Type::Complex(e) => TypeV::Complex(Box::new(type_view(*e))),
        Type::Function { params, return_type, priority } => TypeV::Function {
            params: type_view_seq(params@),
            return_type: Box::new(type_view(*return_type)),
            priority: priority,
        },
        Type::Pointer(e) => TypeV::Pointer(Box::new(type_view(*e))),
        Type::Named(n) => TypeV::Named(n@),
    }
}

/// The models of a list of type terms, in order.
pub open spec fn type_view_seq(s: Seq<Type>) -> Seq<TypeV>
    decreases s,
{
    if s.len() == 0 {
        Seq::empty()
    } else {
        type_view_seq(s.drop_last()).push(type_view(s.last()))
    }
}

/// [`type_view_seq`] maps [`type_view`] over the list.
pub proof fn lemma_type_view_seq(s: Seq<Type>)
    ensures
        type_view_seq(s).len() == s.len(),
        forall|i: int| 0 <= i < s.len() ==> type_view_seq(s)[i] == type_view(#[trigger] s[i]),
    decreases s.len(),
{
    if s.len() > 0 {
        lemma_type_view_seq(s.drop_last());
        assert forall|i: int| 0 <= i < s.len() implies type_view_seq(s)[i] == type_view(
            #[trigger] s[i],
        ) by {
            if i < s.len() - 1 {
                assert(s.drop_last()[i] == s[i]);
            }
        }
    }
}

impl View for Type {
    type V = TypeV;

    open spec fn view(&self) -> TypeV {
        type_view(*self)
    }
}

/// Copies a dimension list.
fn clone_dims(src: &Vec<usize>) -> (out: Vec<usize>)
    ensures
        out@ == src@,
{
    let n: usize = src.len();
    let mut out: Vec<usize> = Vec::new();
    let mut i: usize = 0;
    while i < n
        invariant
            n == src@.len(),
            0 <= i <= n,
            out@ == src@.subrange(0, i as int),
        decreases n - i,
    {
        out.push(src[i]);
        proof {
            assert(out@ =~= src@.subrange(0, i + 1 as int));
        }
        i = i + 1;
    }
    proof {
        assert(out@ =~= src@);
    }
    out
}

impl Clone for Type {
    /// A copy with the same model.
    fn clone(&self) -> (res: Self)
        ensures
            res@ == self@,
        decreases *self,
    {
        match self {
            Type::Unit => Type::Unit,
            Type::Int => Type::Int,
            Type::Float => Type::Float,
            Type::Bool => Type::Bool,
            Type::String => Type::String,
            Type::Char => Type::Char,
            Type::Void => Type::Void,
            Type::Array(e) => Type::Array(Box::new((**e).clone())),
            Type::Tuple(ts) => {
                proof {
                    assert(decreases_to!(*self => self->Tuple_0));
                    assert(decreases_to!(self->Tuple_0 => self->Tuple_0@));
                }
                Type::Tuple(clone_types(ts))
            },
            Type::Vector(d, e) => Type::Vector(*d, Box::new((**e).clone())),
            Type::Matrix(r, c, e) => Type::Matrix(*r, *c, Box::new((**e).clone())),
            Type::Tensor(ds, e) => Type::Tensor(clone_dims(ds), Box::new((**e).clone())),
            Type::Quaternion(e) => Type::Quaternion(Box::new((**e).clone())),
            Type::Complex(e) => Type::Complex(Box::new((**e).clone())),
            Type::Function { params, return_type, priority } => {
                proof {
                    assert(decreases_to!(*self => self->params));
                    assert(decreases_to!(self->params => self->params@));
                }
                Type::Function {
                    params: clone_types(params),
                    return_type: Box::new((**return_type).clone()),
                    priority: *priority,
                }
            },
            Type::Pointer(e) => Type::Pointer(Box::new((**e).clone())),
            Type::Named(n) => Type::Named(n.clone()),
        }
    }
}

/// Copies a list of type terms, preserving each term's model.
pub(crate) fn clone_types(src: &Vec<Type>) -> (out: Vec<Type>)
    ensures
        type_view_seq(out@) == type_view_seq(src@),
        out@.len() == src@.len(),
    decreases src@,
{
    let n: usize = src.len();
    let mut out: Vec<Type> = Vec::new();
    let mut i: usize = 0;
    while i < n
        invariant
            n == src@.len(),
            0 <= i <= n,
            out@.len() == i,
            forall|j: int| 0 <= j < i ==> type_view(#[trigger] out@[j]) == type_view(src@[j]),
        decreases n - i,
    {
        proof {
            assert(decreases_to!(src@ => src@[i as int]));
        }
        let c = src[i].clone();
        out.push(c);
        i = i + 1;
    }
    proof {
        lemma_type_view_seq(out@);
        lemma_type_view_seq(src@);
        assert forall|j: int|
            0 <= j < n implies type_view_seq(out@)[j] == type_view_seq(src@)[j] by {
            assert(type_view_seq(out@)[j] == type_view(out@[j]));
            assert(type_view_seq(src@)[j] == type_view(src@[j]));
        }
        assert(type_view_seq(out@) =~= type_view_seq(src@));
    }
    out
}

/// The compatibility (coercion) relation over type models.
///
/// Identical types are compatible; `Int` and `Float` coerce into each other;
/// `Int`, `Float` and `Bool` coerce into and out of `String`; an aggregate
/// is compatible with an aggregate of the same shape whose type arguments
/// are pairwise compatible and whose dimensions agree. Two function types
/// additionally need equal priority tags.
pub open spec fn compatible(a: TypeV, b: TypeV) -> bool
    decreases a,
{
    match (a, b) {
        (TypeV::Int, TypeV::Float) | (TypeV::Float, TypeV::Int) => true,
        (TypeV::Int, TypeV::String) | (TypeV::Float, TypeV::String) | (TypeV::Bool, TypeV::String) => true,
        (TypeV::String, TypeV::Int) | (TypeV::String, TypeV::Float) | (TypeV::String, TypeV::Bool) => true,
        (TypeV::Array(t1), TypeV::Array(t2)) => compatible(*t1, *t2),
        (TypeV::Tuple(ts1), TypeV::Tuple(ts2)) => compatible_seq(ts1, ts2),
        (TypeV::Vector(d1, t1), TypeV::Vector(d2, t2)) => d1 == d2 && compatible(*t1, *t2),
        (TypeV::Matrix(r1, c1, t1), TypeV::Matrix(r2, c2, t2)) => r1 == r2 && c1 == c2
            && compatible(*t1, *t2),
        (TypeV::Tensor(ds1, t1), TypeV::Tensor(ds2, t2)) => ds1 == ds2 && compatible(*t1, *t2),
        (TypeV::Quaternion(t1), TypeV::Quaternion(t2)) => compatible(*t1, *t2),
        (TypeV::Complex(t1), TypeV::Complex(t2)) => compatible(*t1, *t2),
        (
            TypeV::Function { params: p1, return_type: r1, priority: pr1 },
            TypeV::Function { params: p2, return_type: r2, priority: pr2 },
        ) => compatible_seq(p1, p2) && compatible(*r1, *r2) && pr1 == pr2,
        (TypeV::Pointer(t1), TypeV::Pointer(t2)) => compatible(*t1, *t2),
        (TypeV::Named(n1), TypeV::Named(n2)) => n1 == n2,
        (x, y) => x == y,
    }
}

/// Pairwise compatibility of two type lists of equal length.
pub open spec fn compatible_seq(s1: Seq<TypeV>, s2: Seq<TypeV>) -> bool
    decreases s1,
{
    if s1.len() != s2.len() {
        false
    } else if s1.len() == 0 {
        true
    } else {
        compatible(s1[0], s2[0]) && compatible_seq(s1.drop_first(), s2.drop_first())
    }
}

/// The scalar types of the language.
pub open spec fn is_primitive(t: TypeV) -> bool {
    ||| t is Unit
    ||| t is Int
    ||| t is Float
    ||| t is Bool
    ||| t is String
    ||| t is Char
    ||| t is Void
}

/// Pairwise compatibility of a type list, stated pointwise.
pub proof fn lemma_compatible_seq_pointwise(s1: Seq<TypeV>, s2: Seq<TypeV>)
    ensures
        compatible_seq(s1, s2) <==> (s1.len() == s2.len() && forall|i: int|
            0 <= i < s1.len() ==> compatible(#[trigger] s1[i], s2[i])),
    decreases s1.len(),
{
    if s1.len() == s2.len() && s1.len() > 0 {
        lemma_compatible_seq_pointwise(s1.drop_first(), s2.drop_first());
        assert forall|i: int| 0 <= i < s1.len() && compatible_seq(s1, s2) implies compatible(
            #[trigger] s1[i],
            s2[i],
        ) by {
            if i > 0 {
                assert(s1.drop_first()[i - 1] == s1[i]);
                assert(s2.drop_first()[i - 1] == s2[i]);
            }
        }
        if s1.len() == s2.len() && forall|i: int| 0 <= i < s1.len() ==> compatible(
            #[trigger] s1[i],
            s2[i],
        ) {
            assert forall|i: int| 0 <= i < s1.drop_first().len() implies compatible(
                #[trigger] s1.drop_first()[i],
                s2.drop_first()[i],
            ) by {
                assert(s1.drop_first()[i] == s1[i + 1]);
                assert(s2.drop_first()[i] == s2[i + 1]);
            }
        }
    }
}

/// Among the scalar types, compatibility is exactly equality plus the
/// numeric coercion `Int`↔`Float` and the textual coercions
/// `Int`/`Float`/`Bool`↔`String`, in both directions.
pub proof fn lemma_primitive_compatibility(a: TypeV, b: TypeV)
    requires
        is_primitive(a),
        is_primitive(b),
    ensures
        compatible(a, b) <==> (a == b || (a is Int && b is Float) || (a is Float && b is Int) || (
        a is Int && b is String) || (a is Float && b is String) || (a is Bool && b is String) || (
        a is String && b is Int) || (a is String && b is Float) || (a is String && b is Bool)),
{
}

/// Compatibility of two aggregates of the same shape reduces to the
/// compatibility of their type arguments, with equal dimensions where the
/// shape carries any. This is the recursive character of the relation.
pub proof fn lemma_compatible_recursive(a: TypeV, b: TypeV)
    ensures
        a matches TypeV::Array(t1) ==> b matches TypeV::Array(t2) ==> (compatible(a, b)
            <==> compatible(*t1, *t2)),
        a matches TypeV::Tuple(ts1) ==> b matches TypeV::Tuple(ts2) ==> (compatible(a, b) <==> (
        ts1.len() == ts2.len() && forall|i: int|
            0 <= i < ts1.len() ==> compatible(#[trigger] ts1[i], ts2[i]))),
        a matches TypeV::Vector(d1, t1) ==> b matches TypeV::Vector(d2, t2) ==> (compatible(a, b)
            <==> (d1 == d2 && compatible(*t1, *t2))),
        a matches TypeV::Matrix(r1, c1, t1) ==> b matches TypeV::Matrix(r2, c2, t2) ==> (
        compatible(a, b) <==> (r1 == r2 && c1 == c2 && compatible(*t1, *t2))),
        a matches TypeV::Tensor(ds1, t1) ==> b matches TypeV::Tensor(ds2, t2) ==> (compatible(a, b)
            <==> (ds1 == ds2 && compatible(*t1, *t2))),
        a matches TypeV::Quaternion(t1) ==> b matches TypeV::Quaternion(t2) ==> (compatible(a, b)
            <==> compatible(*t1, *t2)),
        a matches TypeV::Complex(t1) ==> b matches TypeV::Complex(t2) ==> (compatible(a, b)
            <==> compatible(*t1, *t2)),
        a matches TypeV::Pointer(t1) ==> b matches TypeV::Pointer(t2) ==> (compatible(a, b)
            <==> compatible(*t1, *t2)),
{
    if a is Tuple && b is Tuple {
        lemma_compatible_seq_pointwise(a->Tuple_0, b->Tuple_0);
    }
}

/// Equality of two dimension lists, executably.
fn dims_eq(s1: &Vec<usize>, s2: &Vec<usize>) -> (r: bool)
    ensures
        r == (s1@ == s2@),
{
    if s1.len() != s2.len() {
        return false;
    }
    let n: usize = s1.len();
    let mut i: usize = 0;
    while i < n
        invariant
            n == s1@.len() == s2@.len(),
            0 <= i <= n,
            forall|j: int| 0 <= j < i ==> s1@[j] == s2@[j],
        decreases n - i,
    {
        if s1[i] != s2[i] {
            return false;
        }
        i = i + 1;
    }
    assert(s1@ =~= s2@);
    true
}

/// Equality of two optional priority tags, executably.
pub(crate) fn priority_eq(p1: &Option<u32>, p2: &Option<u32>) -> (r: bool)
    ensures
        r == (p1 == p2),
{
    match (p1, p2) {
        (Some(a), Some(b)) => *a == *b,
        (None, None) => true,
        _ => false,
    }
}

/// Structural equality of two type lists, executably.
fn type_eq_vec(s1: &Vec<Type>, s2: &Vec<Type>) -> (r: bool)
    ensures
        r == (type_view_seq(s1@) == type_view_seq(s2@)),
    decreases s1@,
{
    proof {
        lemma_type_view_seq(s1@);
        lemma_type_view_seq(s2@);
    }
    if s1.len() != s2.len() {
        return false;
    }
    let n: usize = s1.len();
    let mut i: usize = 0;
    while i < n
        invariant
            n == s1@.len() == s2@.len(),
            0 <= i <= n,
            forall|j: int| 0 <= j < i ==> type_view(#[trigger] s1@[j]) == type_view(s2@[j]),
        decreases n - i,
    {
        proof {
            assert(decreases_to!(s1@ => s1@[i as int]));
        }
        if !type_eq_exec(&s1[i], &s2[i]) {
            proof {
                lemma_type_view_seq(s1@);
                lemma_type_view_seq(s2@);
                assert(type_view_seq(s1@)[i as int] != type_view_seq(s2@)[i as int]);
            }
            return false;
        }
        i = i + 1;
    }
    proof {
        assert forall|j: int|
            0 <= j < n implies type_view_seq(s1@)[j] == type_view_seq(s2@)[j] by {
            assert(type_view_seq(s1@)[j] == type_view(s1@[j]));
            assert(type_view_seq(s2@)[j] == type_view(s2@[j]));
        }
        assert(type_view_seq(s1@) =~= type_view_seq(s2@));
    }
    true
}

/// Structural equality of two type terms, executably.
pub fn type_eq_exec(a: &Type, b: &Type) -> (r: bool)
    ensures
        r == (a@ == b@),
    decreases *a,
{
    match (a, b) {
        (Type::Unit, Type::Unit) => true,
        (Type::Int, Type::Int) => true,
        (Type::Float, Type::Float) => true,
        (Type::Bool, Type::Bool) => true,
        (Type::String, Type::String) => true,
        (Type::Char, Type::Char) => true,
        (Type::Void, Type::Void) => true,
        (Type::Array(t1), Type::Array(t2)) => type_eq_exec(t1, t2),
        (Type::Tuple(ts1), Type::Tuple(ts2)) => {
            proof {
                assert(decreases_to!(*a => a->Tuple_0));
                assert(decreases_to!(a->Tuple_0 => a->Tuple_0@));
            }
            type_eq_vec(ts1, ts2)
        },
        (Type::Vector(d1, t1), Type::Vector(d2, t2)) => *d1 == *d2 && type_eq_exec(t1, t2),
        (Type::Matrix(r1, c1, t1), Type::Matrix(r2, c2, t2)) => *r1 == *r2 && *c1 == *c2
            && type_eq_exec(t1, t2),
        (Type::Tensor(ds1, t1), Type::Tensor(ds2, t2)) => dims_eq(ds1, ds2) && type_eq_exec(
            t1,
            t2,
        ),
        (Type::Quaternion(t1), Type::Quaternion(t2)) => type_eq_exec(t1, t2),
        (Type::Complex(t1), Type::Complex(t2)) => type_eq_exec(t1, t2),
        (
            Type::Function { params: p1, return_type: r1, priority: pr1 },
            Type::Function { params: p2, return_type: r2, priority: pr2 },
        ) => {
            proof {
                assert(decreases_to!(*a => a->params));
                assert(decreases_to!(a->params => a->params@));
            }
            type_eq_vec(p1, p2) && type_eq_exec(r1, r2) && priority_eq(pr1, pr2)
        },
        (Type::Pointer(t1), Type::Pointer(t2)) => type_eq_exec(t1, t2),
        (Type::Named(n1), Type::Named(n2)) => n1.eq(n2),
        _ => false,
    }
}

/// Pairwise compatibility of two type lists, executably.
fn compatible_vec(s1: &Vec<Type>, s2: &Vec<Type>) -> (r: bool)
    ensures
        r == compatible_seq(type_view_seq(s1@), type_view_seq(s2@)),
    decreases s1@,
{
    proof {
        lemma_type_view_seq(s1@);
        lemma_type_view_seq(s2@);
        lemma_compatible_seq_pointwise(type_view_seq(s1@), type_view_seq(s2@));
    }
    if s1.len() != s2.len() {
        return false;
    }
    let n: usize = s1.len();
    let mut i: usize = 0;
    while i < n
        invariant
            n == s1@.len() == s2@.len(),
            0 <= i <= n,
            forall|j: int| 0 <= j < i ==> compatible(
                type_view(#[trigger] s1@[j]),
                type_view(s2@[j]),
            ),
        decreases n - i,
    {
        proof {
            assert(decreases_to!(s1@ => s1@[i as int]));
        }
        if !s1[i].is_compatible_with(&s2[i]) {
            proof {
                lemma_type_view_seq(s1@);
                lemma_type_view_seq(s2@);
                lemma_compatible_seq_pointwise(type_view_seq(s1@), type_view_seq(s2@));
                assert(!compatible(type_view_seq(s1@)[i as int], type_view_seq(s2@)[i as int]));
            }
            return false;
        }
        i = i + 1;
    }
    proof {
        lemma_compatible_seq_pointwise(type_view_seq(s1@), type_view_seq(s2@));
        assert forall|j: int|
            0 <= j < n implies compatible(type_view_seq(s1@)[j], type_view_seq(s2@)[j]) by {
            assert(type_view_seq(s1@)[j] == type_view(s1@[j]));
            assert(type_view_seq(s2@)[j] == type_view(s2@[j]));
        }
    }
    true
}

impl Type {
    /// Whether this is a `Vector` type.
    pub fn is_vector(&self) -> (r: bool)
        ensures
            r == (self@ is Vector),
    {
        matches!(self, Type::Vector(_, _))
    }

    /// Whether this is a `Matrix` type.
    pub fn is_matrix(&self) -> (r: bool)
        ensures
            r == (self@ is Matrix),
    {
        matches!(self, Type::Matrix(_, _, _))
    }

    /// Whether this is a `Tensor` type.
    pub fn is_tensor(&self) -> (r: bool)
        ensures
            r == (self@ is Tensor),
    {
        matches!(self, Type::Tensor(_, _))
    }

    /// Whether this is a `Quaternion` type.
    pub fn is_quaternion(&self) -> (r: bool)
        ensures
            r == (self@ is Quaternion),
    {
        matches!(self, Type::Quaternion(_))
    }

    /// Whether this is a `Complex` type.
    pub fn is_complex(&self) -> (r: bool)
        ensures
            r == (self@ is Complex),
    {
        matches!(self, Type::Complex(_))
    }

    /// Whether this is a `Function` type.
    pub fn is_function(&self) -> (r: bool)
        ensures
            r == (self@ is Function),
    {
        matches!(self, Type::Function { .. })
    }

    /// Whether this is a `Pointer` type.
    pub fn is_pointer(&self) -> (r: bool)
        ensures
            r == (self@ is Pointer),
    {
        matches!(self, Type::Pointer(_))
    }

    /// Whether this is one of the two numeric types, `Int` or `Float`.
    pub fn is_numeric(&self) -> (r: bool)
        ensures
            r == (self@ is Int || self@ is Float),
    {
        matches!(self, Type::Int | Type::Float)
    }

    /// The dimension of a `Vector` type, if this is one.
    pub fn get_vector_dimension(&self) -> (r: Option<usize>)
        ensures
            match self@ {
                TypeV::Vector(dim, _) => r == Some::<usize>(dim),
                _ => r is None,
            },
    {
        match self {
            Type::Vector(dim, _) => Some(*dim),
            _ => None,
        }
    }

    /// The row and column counts of a `Matrix` type, if this is one.
    pub fn get_matrix_dimensions(&self) -> (r: Option<(usize, usize)>)
        ensures
            match self@ {
                TypeV::Matrix(rows, cols, _) => r == Some::<(usize, usize)>((rows, cols)),
                _ => r is None,
            },
    {
        match self {
            Type::Matrix(rows, cols, _) => Some((*rows, *cols)),
            _ => None,
        }
    }

    /// The dimension list of a `Tensor` type, if this is one.
    pub fn get_tensor_dimensions(&self) -> (r: Option<&[usize]>)
        ensures
            match self@ {
                TypeV::Tensor(dims, _) => r matches Some(s) && s@ == dims,
                _ => r is None,
            },
    {
        match self {
            Type::Tensor(dims, _) => Some(dims.as_slice()),
            _ => None,
        }
    }

    /// The parameter list and return type of a `Function` type, if this is
    /// one.
    pub fn get_function_signature(&self) -> (r: Option<(&[Type], &Type)>)
        ensures
            match self@ {
                TypeV::Function { params, return_type, .. } => r matches Some((ps, rt))
                    && type_view_seq(ps@) == params && rt@ == *return_type,
                _ => r is None,
            },
    {
        match self {
            Type::Function { params, return_type, .. } => Some((params.as_slice(), return_type)),
            _ => None,
        }
    }

    /// The pointee of a `Pointer` type, if this is one.
    pub fn get_pointer_type(&self) -> (r: Option<&Type>)
        ensures
            match self@ {
                TypeV::Pointer(inner) => r matches Some(t) && t@ == *inner,
                _ => r is None,
            },
    {
        match self {
            Type::Pointer(inner) => Some(inner),
            _ => None,
        }
    }

    /// The priority tag of a `Function` type; `None` for an untagged
    /// function and for every other type.
    pub fn get_priority(&self) -> (r: Option<u32>)
        ensures
            match self@ {
                TypeV::Function { priority, .. } => r == priority,
                _ => r is None,
            },
    {
        match self {
            Type::Function { priority, .. } => *priority,
            _ => None,
        }
    }

    /// Replaces the priority tag of a `Function` type; any other type is
    /// rejected with a type error and left unchanged.
    pub fn set_priority(&mut self, priority: u32) -> (r: Result<(), SlangError>)
        ensures
            match old(self)@ {
                TypeV::Function { params, return_type, .. } => r is Ok && final(self)@ == (
                TypeV::Function {
                    params: params,
                    return_type: return_type,
                    priority: Some(priority),
                }),
                _ => r matches Err(e) && e is Type && final(self)@ == old(self)@,
            },
    {
        let mut taken = Type::Unit;
        core::mem::swap(self, &mut taken);
        match taken {
            Type::Function { params, return_type, priority: _ } => {
                *self = Type::Function { params, return_type, priority: Some(priority) };
                Ok(())
            },
            other => {
                *self = other;
                Err(SlangError::Type(String::from_str("Cannot set priority for non-function type")))
            },
        }
    }

    /// Whether this type may stand in for `other`: the [`compatible`]
    /// relation, decided executably.
    pub fn is_compatible_with(&self, other: &Type) -> (r: bool)
        ensures
            r == compatible(self@, other@),
        decreases *self,
    {
        match (self, other) {
            (Type::Int, Type::Float) | (Type::Float, Type::Int) => true,
            (Type::Int, Type::String) | (Type::Float, Type::String) | (Type::Bool, Type::String) => true,
            (Type::String, Type::Int) | (Type::String, Type::Float) | (Type::String, Type::Bool) => true,
            (Type::Array(t1), Type::Array(t2)) => t1.is_compatible_with(t2),
            (Type::Tuple(ts1), Type::Tuple(ts2)) => {
                proof {
                    assert(decreases_to!(*self => self->Tuple_0));
                    assert(decreases_to!(self->Tuple_0 => self->Tuple_0@));
                }
                compatible_vec(ts1, ts2)
            },
            (Type::Vector(d1, t1), Type::Vector(d2, t2)) => *d1 == *d2 && t1.is_compatible_with(
                t2,
            ),
            (Type::Matrix(r1, c1, t1), Type::Matrix(r2, c2, t2)) => *r1 == *r2 && *c1 == *c2
                && t1.is_compatible_with(t2),
            (Type::Tensor(ds1, t1), Type::Tensor(ds2, t2)) => dims_eq(ds1, ds2)
                && t1.is_compatible_with(t2),
            (Type::Quaternion(t1), Type::Quaternion(t2)) => t1.is_compatible_with(t2),
            (Type::Complex(t1), Type::Complex(t2)) => t1.is_compatible_with(t2),
            (
                Type::Function { params: p1, return_type: r1, priority: pr1 },
                Type::Function { params: p2, return_type: r2, priority: pr2 },
            ) => {
                proof {
                    assert(decreases_to!(*self => self->params));
                    assert(decreases_to!(self->params => self->params@));
                }
                compatible_vec(p1, p2) && r1.is_compatible_with(r2) && priority_eq(pr1, pr2)
            },
            (Type::Pointer(t1), Type::Pointer(t2)) => t1.is_compatible_with(t2),
            (Type::Named(n1), Type::Named(n2)) => n1.eq(n2),
            _ => type_eq_exec(self, other),
        }
    }

    /// Priority-ownership precedence: defined only between two `Function`
    /// types that both carry a numeric priority tag, and holds exactly when
    /// the left-hand tag is strictly greater. A pair in which either side
    /// is not a function, or lacks a tag, is unrelated.
    pub fn can_own(&self, other: &Type) -> (r: bool)
        ensures
            r == can_own_spec(self@, other@),
    {
        match (self, other) {
            (Type::Function { priority: p1, .. }, Type::Function { priority: p2, .. }) => match (
                p1,
                p2,
            ) {
                (Some(a), Some(b)) => *a > *b,
                _ => false,
            },
            _ => false,
        }
    }
}

/// Ownership precedence: defined only between two `Function` types that
/// both carry a numeric priority tag, by comparing the tags; a missing tag
/// on either side leaves the pair unrelated.
pub open spec fn can_own_spec(a: TypeV, b: TypeV) -> bool {
    match (a, b) {
        (TypeV::Function { priority: p1, .. }, TypeV::Function { priority: p2, .. }) => match (
            p1,
            p2,
        ) {
            (Some(x), Some(y)) => x > y,
            _ => false,
        },
        _ => false,
    }
}

} // verus!

verus! {

/// One decimal digit as text.
fn digit_str(d: u64) -> (r: &'static str)
    requires
        d < 10,
{
    match d {
        0u64 => "0",
        1u64 => "1",
        2u64 => "2",
        3u64 => "3",
        4u64 => "4",
        5u64 => "5",
        6u64 => "6",
        7u64 => "7",
        8u64 => "8",
        _ => "9",
    }
}

/// A number rendered in decimal.
fn dec_string(n: u64) -> (r: String)
    decreases n,
{
    if n < 10 {
        String::from_str(digit_str(n))
    } else {
        dec_string(n / 10).concat(digit_str(n % 10))
    }
}

/// A list of types rendered with the given separator between entries.
fn display_types(ts: &Vec<Type>, sep: &str) -> (r: String)
    decreases ts@,
{
    let mut out = String::new();
    let n: usize = ts.len();
    let mut i: usize = 0;
    while i < n
        invariant
            n == ts@.len(),
            0 <= i <= n,
        decreases n - i,
    {
        if i > 0 {
            out.append(sep);
        }
        proof {
            assert(decreases_to!(ts@ => ts@[i as int]));
        }
        let piece = ts[i].display_string();
        out.append(piece.as_str());
        i = i + 1;
    }
    out
}

/// A dimension list rendered with the given separator between entries.
fn display_dims(ds: &Vec<usize>, sep: &str) -> (r: String) {
    let mut out = String::new();
    let n: usize = ds.len();
    let mut i: usize = 0;
    while i < n
        invariant
            n == ds@.len(),
            0 <= i <= n,
        decreases n - i,
    {
        if i > 0 {
            out.append(sep);
        }
        let piece = dec_string(ds[i] as u64);
        out.append(piece.as_str());
        i = i + 1;
    }
    out
}

impl Type {
    /// The source-level rendering of the type. Rendering is a pure
    /// presentation concern and carries no contract beyond termination.
    pub fn display_string(&self) -> (r: String)
        decreases *self,
    {
        match self {
            Type::Unit => String::from_str("()"),
            Type::Int => String::from_str("int"),
            Type::Float => String::from_str("float"),
            Type::Bool => String::from_str("bool"),
            Type::String => String::from_str("string"),
            Type::Char => String::from_str("char"),
            Type::Void => String::from_str("void"),
            Type::Array(t) => {
                let inner = t.display_string();
                String::from_str("[").concat(inner.as_str()).concat("]")
            },
            Type::Tuple(ts) => {
                proof {
                    assert(decreases_to!(*self => self->Tuple_0));
                    assert(decreases_to!(self->Tuple_0 => self->Tuple_0@));
                }
                let inner = display_types(ts, ", ");
                String::from_str("(").concat(inner.as_str()).concat(")")
            },
            Type::Vector(dim, t) => {
                let d = dec_string(*dim as u64);
                let inner = t.display_string();
                String::from_str("vec").concat(d.as_str()).concat("<").concat(
                    inner.as_str(),
                ).concat(">")
            },
            Type::Matrix(rows, cols, t) => {
                let rs = dec_string(*rows as u64);
                let cs = dec_string(*cols as u64);
                let inner = t.display_string();
                String::from_str("mat").concat(rs.as_str()).concat("x").concat(
                    cs.as_str(),
                ).concat("<").concat(inner.as_str()).concat(">")
            },
            Type::Tensor(dims, t) => {
                let ds = display_dims(dims, "x");
                let inner = t.display_string();
                String::from_str("tensor<").concat(ds.as_str()).concat(", ").concat(
                    inner.as_str(),
                ).concat(">")
            },
            Type::Quaternion(t) => {
                let inner = t.display_string();
                String::from_str("quat<").concat(inner.as_str()).concat(">")
            },
            Type::Complex(t) => {
                let inner = t.display_string();
                String::from_str("complex<").concat(inner.as_str()).concat(">")
            },
            Type::Function { params, return_type, priority } => {
                proof {
                    assert(decreases_to!(*self => self->params));
                    assert(decreases_to!(self->params => self->params@));
                }
                let ps = display_types(params, ", ");
                let rs = return_type.display_string();
                let mut out = String::from_str("fn(").concat(ps.as_str()).concat(
                    ") -> ",
                ).concat(rs.as_str());
                if let Some(p) = priority {
                    let pd = dec_string(*p as u64);
                    out = out.concat(" @").concat(pd.as_str());
                }
                out
            },
            Type::Pointer(t) => {
                let inner = t.display_string();
                String::from_str("*").concat(inner.as_str())
            },
            Type::Named(name) => name.clone(),
        }
    }
}

} // verus!
