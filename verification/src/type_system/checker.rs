//! The single-pass type checker.
//!
//! [`TypeChecker::check_ast`] walks a parsed program and rejects it with a
//! type error at the first inconsistency, or accepts it silently. Its
//! verdict is specified by the judgment functions in this module, which map
//! a type environment (a ghost map from binding name to type model) and a
//! piece of syntax to the environment left behind — or to nothing, when the
//! piece is ill-typed.
//!
//! The checker keeps one flat environment per run: a binding introduced
//! inside a branch persists after it, and redeclaration overwrites rather
//! than shadows.

use vstd::prelude::*;

use vstd::hash_map::StringHashMap;
use vstd::string::StringExecFns;

use crate::ast::Block;
use crate::ast::Expression;
use crate::ast::FieldPattern;
use crate::ast::FieldV;
use crate::ast::Function;
use crate::ast::Literal;
use crate::ast::MatchArm;
use crate::ast::Parameter;
use crate::ast::Pattern;
use crate::ast::Statement;
use crate::ast::TypeDefV;
use crate::ast::TypeDefinition;
use crate::ast::AST;
use crate::ast::BinaryOperator;
use crate::ast::UnaryOperator;
use crate::error::SlangError;
use crate::type_system::compatible;
use crate::type_system::lemma_type_view_seq;
use crate::type_system::type_view_seq;
use crate::type_system::Type;
use crate::type_system::TypeV;

verus! {

/// The model of a type environment held in a [`StringHashMap`]: the same
/// map with every stored type term replaced by its model.
pub open spec fn env_view(m: Map<Seq<char>, Type>) -> Map<Seq<char>, TypeV> {
    m.map_values(|t: Type| t@)
}

/// The model of a type-definition table held in a [`StringHashMap`].
pub open spec fn defs_view(m: Map<Seq<char>, TypeDefinition>) -> Map<Seq<char>, TypeDefV> {
    m.map_values(|td: TypeDefinition| td@)
}

/// Inserting into the environment commutes with taking its model.
pub proof fn lemma_env_view_insert(m: Map<Seq<char>, Type>, k: Seq<char>, v: Type)
    ensures
        env_view(m.insert(k, v)) == env_view(m).insert(k, v@),
{
    assert(env_view(m.insert(k, v)) =~= env_view(m).insert(k, v@));
}

/// Inserting into the definition table commutes with taking its model.
pub proof fn lemma_defs_view_insert(m: Map<Seq<char>, TypeDefinition>, k: Seq<char>, v: TypeDefinition)
    ensures
        defs_view(m.insert(k, v)) == defs_view(m).insert(k, v@),
{
    assert(defs_view(m.insert(k, v)) =~= defs_view(m).insert(k, v@));
}

/// The type of a literal.
pub open spec fn literal_type(l: Literal) -> TypeV {
    match l {
        Literal::Int(_) => TypeV::Int,
        Literal::Float(_) => TypeV::Float,
        Literal::Bool(_) => TypeV::Bool,
        Literal::String(_) => TypeV::String,
        Literal::Null => TypeV::Unit,
    }
}

/// Whether a type model is numeric.
pub open spec fn numeric(t: TypeV) -> bool {
    t is Int || t is Float
}

/// The result type of a binary operation on operands of the given types,
/// or `None` when the operation is ill-typed.
///
/// Arithmetic needs numeric operands and widens to `Float` when either side
/// is `Float` (except the modulo spelled `Mod`, which yields `Int`);
/// equality needs compatible operands; ordering needs numeric operands;
/// logic needs boolean operands.
pub open spec fn binop_type(op: BinaryOperator, l: TypeV, r: TypeV) -> Option<TypeV> {
    match op {
        BinaryOperator::Add | BinaryOperator::Sub | BinaryOperator::Mul | BinaryOperator::Div
            | BinaryOperator::Divide => if numeric(l) && numeric(r) {
            if l is Float || r is Float {
                Some(TypeV::Float)
            } else {
                Some(TypeV::Int)
            }
        } else {
            None
        },
        BinaryOperator::Mod => if numeric(l) && numeric(r) {
            Some(TypeV::Int)
        } else {
            None
        },
        BinaryOperator::Modulo => if numeric(l) && numeric(r) {
            if l is Float || r is Float {
                Some(TypeV::Float)
            } else {
                Some(TypeV::Int)
            }
        } else {
            None
        },
        BinaryOperator::Eq | BinaryOperator::Neq | BinaryOperator::Equals
            | BinaryOperator::NotEquals => if compatible(l, r) {
            Some(TypeV::Bool)
        } else {
            None
        },
        BinaryOperator::Lt | BinaryOperator::Lte | BinaryOperator::Gt | BinaryOperator::Gte
            | BinaryOperator::LessThan | BinaryOperator::LessThanEquals
            | BinaryOperator::GreaterThan | BinaryOperator::GreaterThanEquals => if numeric(l)
            && numeric(r) {
            Some(TypeV::Bool)
        } else {
            None
        },
        BinaryOperator::And | BinaryOperator::Or => if l is Bool && r is Bool {
            Some(TypeV::Bool)
        } else {
            None
        },
    }
}

/// The result type of a unary operation, or `None` when ill-typed:
/// negation echoes a numeric operand back, logical not needs `Bool`.
pub open spec fn unop_type(op: UnaryOperator, t: TypeV) -> Option<TypeV> {
    match op {
        UnaryOperator::Neg | UnaryOperator::Negate => if numeric(t) {
            Some(t)
        } else {
            None
        },
        UnaryOperator::Not => if t is Bool {
            Some(TypeV::Bool)
        } else {
            None
        },
    }
}

/// The result type of calling a value of type `ft` on arguments of the
/// given types: `ft` must be a function type of matching arity whose
/// parameters accept the arguments, and the declared return type comes
/// back.
pub open spec fn call_type(ft: TypeV, args: Seq<TypeV>) -> Option<TypeV> {
    match ft {
        TypeV::Function { params, return_type, .. } => if params.len() == args.len() && forall|
            i: int,
        |
            0 <= i < args.len() ==> compatible(#[trigger] args[i], params[i]) {
            Some(*return_type)
        } else {
            None
        },
        _ => None,
    }
}


/// The type of an expression under an environment, or `None` when the
/// expression is ill-typed: literals type themselves, identifiers look up
/// the environment, operators and calls follow [`binop_type`],
/// [`unop_type`] and [`call_type`], and an assignment to a bound,
/// compatible target has type `Unit`.
pub open spec fn expr_type(env: Map<Seq<char>, TypeV>, e: Expression) -> Option<TypeV>
    decreases e,
{
    match e {
        Expression::Literal(l) => Some(literal_type(l)),
        Expression::Identifier(n) => if env.contains_key(n@) {
            Some(env[n@])
        } else {
            None
        },
        Expression::BinaryOp(b) => match (expr_type(env, *b.left), expr_type(env, *b.right)) {
            (Some(lt), Some(rt)) => binop_type(b.op, lt, rt),
            _ => None,
        },
        Expression::UnaryOp(u) => match expr_type(env, *u.right) {
            Some(t) => unop_type(u.op, t),
            None => None,
        },
        Expression::Call(c) => if env.contains_key(c.function@) {
            match expr_types(env, c.arguments@) {
                Some(ats) => call_type(env[c.function@], ats),
                None => None,
            }
        } else {
            None
        },
        Expression::Assignment(a) => match expr_type(env, *a.value) {
            Some(vt) => if env.contains_key(a.target@) && compatible(vt, env[a.target@]) {
                Some(TypeV::Unit)
            } else {
                None
            },
            None => None,
        },
    }
}

/// The types of a list of argument expressions, or `None` when any of them
/// is ill-typed.
pub open spec fn expr_types(env: Map<Seq<char>, TypeV>, args: Seq<Box<Expression>>) -> Option<
    Seq<TypeV>,
>
    decreases args,
{
    if args.len() == 0 {
        Some(Seq::empty())
    } else {
        match (expr_type(env, *args[0]), expr_types(env, args.drop_first())) {
            (Some(t), Some(rest)) => Some(seq![t] + rest),
            _ => None,
        }
    }
}

/// A list of argument expressions has exactly the types it has pointwise.
pub proof fn lemma_expr_types_some(
    env: Map<Seq<char>, TypeV>,
    args: Seq<Box<Expression>>,
    ts: Seq<TypeV>,
)
    requires
        ts.len() == args.len(),
        forall|j: int| 0 <= j < args.len() ==> expr_type(env, *#[trigger] args[j]) == Some(ts[j]),
    ensures
        expr_types(env, args) == Some(ts),
    decreases args.len(),
{
    if args.len() > 0 {
        assert forall|j: int|
            0 <= j < args.drop_first().len() implies expr_type(
            env,
            *#[trigger] args.drop_first()[j],
        ) == Some(ts.drop_first()[j]) by {
            assert(args.drop_first()[j] == args[j + 1]);
            assert(ts.drop_first()[j] == ts[j + 1]);
        }
        lemma_expr_types_some(env, args.drop_first(), ts.drop_first());
        assert(seq![ts[0]] + ts.drop_first() =~= ts);
    }
}

/// A list of argument expressions has no type list when one of them is
/// ill-typed.
pub proof fn lemma_expr_types_none(env: Map<Seq<char>, TypeV>, args: Seq<Box<Expression>>, i: int)
    requires
        0 <= i < args.len(),
        expr_type(env, *args[i]) is None,
    ensures
        expr_types(env, args) is None,
    decreases args.len(),
{
    if i > 0 {
        assert(args.drop_first()[i - 1] == args[i]);
        lemma_expr_types_none(env, args.drop_first(), i - 1);
    }
}


/// The type of the first field with the given name in a record's field
/// list, if any.
pub open spec fn find_field(fields: Seq<FieldV>, n: Seq<char>) -> Option<TypeV>
    decreases fields,
{
    if fields.len() == 0 {
        None
    } else if fields[0].name == n {
        Some(fields[0].ty)
    } else {
        find_field(fields.drop_first(), n)
    }
}

/// The environment left by checking a pattern against a scrutinee type, or
/// `None` when the pattern is ill-formed for it: identifiers bind, literal
/// patterns must be compatible with the scrutinee, tuple patterns must
/// match a tuple type of the same arity position by position, and a struct
/// pattern must name a defined record whose fields cover every field name
/// the pattern mentions.
pub open spec fn pattern_env(
    env: Map<Seq<char>, TypeV>,
    defs: Map<Seq<char>, TypeDefV>,
    p: Pattern,
    t: TypeV,
) -> Option<Map<Seq<char>, TypeV>>
    decreases p,
{
    match p {
        Pattern::Identifier(n) => Some(env.insert(n@, t)),
        Pattern::Literal(l) => if compatible(literal_type(l), t) {
            Some(env)
        } else {
            None
        },
        Pattern::Wildcard => Some(env),
        Pattern::Tuple(ps) => match t {
            TypeV::Tuple(ts) => if ps@.len() == ts.len() {
                patterns_env(env, defs, ps@, ts)
            } else {
                None
            },
            _ => None,
        },
        Pattern::Struct { name, fields } => if defs.contains_key(name@) {
            field_patterns_env(env, defs, fields@, defs[name@].fields)
        } else {
            None
        },
    }
}

/// Checks a list of patterns against a list of types of the same length,
/// threading the environment left to right.
pub open spec fn patterns_env(
    env: Map<Seq<char>, TypeV>,
    defs: Map<Seq<char>, TypeDefV>,
    ps: Seq<Pattern>,
    ts: Seq<TypeV>,
) -> Option<Map<Seq<char>, TypeV>>
    decreases ps,
{
    if ps.len() == 0 {
        Some(env)
    } else {
        match pattern_env(env, defs, ps[0], ts[0]) {
            Some(e1) => patterns_env(e1, defs, ps.drop_first(), ts.drop_first()),
            None => None,
        }
    }
}

/// Checks the named fields of a struct pattern against a record's field
/// list, threading the environment; an unknown field name fails.
pub open spec fn field_patterns_env(
    env: Map<Seq<char>, TypeV>,
    defs: Map<Seq<char>, TypeDefV>,
    fps: Seq<FieldPattern>,
    fields: Seq<FieldV>,
) -> Option<Map<Seq<char>, TypeV>>
    decreases fps,
{
    if fps.len() == 0 {
        Some(env)
    } else {
        match find_field(fields, fps[0].name@) {
            Some(ft) => match pattern_env(env, defs, *fps[0].pattern, ft) {
                Some(e1) => field_patterns_env(e1, defs, fps.drop_first(), fields),
                None => None,
            },
            None => None,
        }
    }
}

/// The environment left by checking one statement, or `None` when it is
/// ill-typed. `cur` is the type of the enclosing function, against whose
/// return type `return` statements are checked.
///
/// A `let` requires the initializer be compatible with its annotation and
/// binds the annotated type when one is present, the inferred type
/// otherwise. Conditions of `if` and `while` must be compatible with
/// `Bool`. A `for` requires an `Array` iterator and binds the element
/// type. Branch and arm bodies run against the same flat environment, so
/// their bindings persist.
pub open spec fn stmt_env(
    env: Map<Seq<char>, TypeV>,
    cur: Option<TypeV>,
    defs: Map<Seq<char>, TypeDefV>,
    s: Statement,
) -> Option<Map<Seq<char>, TypeV>>
    decreases s,
{
    match s {
        Statement::Let(ls) => match expr_type(env, *ls.value) {
            Some(vt) => match ls.type_annotation {
                Some(ann) => if compatible(vt, ann@) {
                    Some(env.insert(ls.name@, ann@))
                } else {
                    None
                },
                None => Some(env.insert(ls.name@, vt)),
            },
            None => None,
        },
        Statement::Return(rs) => match rs.value {
            None => Some(env),
            Some(v) => match expr_type(env, *v) {
                Some(vt) => match cur {
                    Some(TypeV::Function { return_type, .. }) => if compatible(vt, *return_type) {
                        Some(env)
                    } else {
                        None
                    },
                    _ => Some(env),
                },
                None => None,
            },
        },
        Statement::If(is) => match expr_type(env, *is.condition) {
            Some(ct) => if !compatible(ct, TypeV::Bool) {
                None
            } else {
                match block_env(env, cur, defs, is.then_block.statements@) {
                    Some(e1) => match is.else_block {
                        Some(eb) => block_env(e1, cur, defs, eb.statements@),
                        None => Some(e1),
                    },
                    None => None,
                }
            },
            None => None,
        },
        Statement::While(ws) => match expr_type(env, *ws.condition) {
            Some(ct) => if !compatible(ct, TypeV::Bool) {
                None
            } else {
                block_env(env, cur, defs, ws.body.statements@)
            },
            None => None,
        },
        Statement::For(fs) => match expr_type(env, *fs.iterator) {
            Some(TypeV::Array(elem)) => block_env(
                env.insert(fs.variable@, *elem),
                cur,
                defs,
                fs.body.statements@,
            ),
            _ => None,
        },
        Statement::Match(ms) => match expr_type(env, *ms.expression) {
            Some(vt) => arms_env(env, cur, defs, vt, ms.arms@),
            None => None,
        },
        Statement::Expression(e) => match expr_type(env, *e) {
            Some(_) => Some(env),
            None => None,
        },
    }
}

/// Checks the arms of a `match` in order: each arm's pattern against the
/// scrutinee type, then its body, threading the environment.
pub open spec fn arms_env(
    env: Map<Seq<char>, TypeV>,
    cur: Option<TypeV>,
    defs: Map<Seq<char>, TypeDefV>,
    vt: TypeV,
    arms: Seq<MatchArm>,
) -> Option<Map<Seq<char>, TypeV>>
    decreases arms,
{
    if arms.len() == 0 {
        Some(env)
    } else {
        match pattern_env(env, defs, arms[0].pattern, vt) {
            Some(e1) => match block_env(e1, cur, defs, arms[0].body.statements@) {
                Some(e2) => arms_env(e2, cur, defs, vt, arms.drop_first()),
                None => None,
            },
            None => None,
        }
    }
}

/// Checks a statement list in order, threading the environment.
pub open spec fn block_env(
    env: Map<Seq<char>, TypeV>,
    cur: Option<TypeV>,
    defs: Map<Seq<char>, TypeDefV>,
    stmts: Seq<Statement>,
) -> Option<Map<Seq<char>, TypeV>>
    decreases stmts,
{
    if stmts.len() == 0 {
        Some(env)
    } else {
        match stmt_env(env, cur, defs, stmts[0]) {
            Some(e1) => block_env(e1, cur, defs, stmts.drop_first()),
            None => None,
        }
    }
}

/// The declared parameter types of a function, in order.
pub open spec fn params_view(ps: Seq<Parameter>) -> Seq<TypeV> {
    Seq::new(ps.len(), |i: int| ps[i].type_annotation@)
}

/// The type of a declared function: its parameter types, return type and
/// priority level (the declared level reinterpreted as an unsigned tag).
pub open spec fn fn_type_of(f: Function) -> TypeV {
    TypeV::Function {
        params: params_view(f.parameters@),
        return_type: Box::new(f.return_type@),
        priority: Some(f.priority as u32),
    }
}

/// Binds every parameter name to its declared type, in order.
pub open spec fn bind_params(env: Map<Seq<char>, TypeV>, ps: Seq<Parameter>) -> Map<
    Seq<char>,
    TypeV,
>
    decreases ps,
{
    if ps.len() == 0 {
        env
    } else {
        bind_params(env.insert(ps[0].name@, ps[0].type_annotation@), ps.drop_first())
    }
}

/// The environment left by checking one function declaration: its
/// parameters are bound and its body is checked against its own type.
pub open spec fn fun_env(
    env: Map<Seq<char>, TypeV>,
    defs: Map<Seq<char>, TypeDefV>,
    f: Function,
) -> Option<Map<Seq<char>, TypeV>> {
    block_env(bind_params(env, f.parameters@), Some(fn_type_of(f)), defs, f.body.statements@)
}

/// Checks a list of function declarations in order, threading the (flat,
/// shared) environment.
pub open spec fn funs_env(
    env: Map<Seq<char>, TypeV>,
    defs: Map<Seq<char>, TypeDefV>,
    fs: Seq<Function>,
) -> Option<Map<Seq<char>, TypeV>>
    decreases fs,
{
    if fs.len() == 0 {
        Some(env)
    } else {
        match fun_env(env, defs, fs[0]) {
            Some(e1) => funs_env(e1, defs, fs.drop_first()),
            None => None,
        }
    }
}

/// Registers a list of record-type definitions, later ones overwriting
/// earlier ones of the same name.
pub open spec fn add_defs(defs: Map<Seq<char>, TypeDefV>, tds: Seq<TypeDefinition>) -> Map<
    Seq<char>,
    TypeDefV,
>
    decreases tds,
{
    if tds.len() == 0 {
        defs
    } else {
        add_defs(defs.insert(tds[0].name@, tds[0]@), tds.drop_first())
    }
}


/// Looks up the first field with the given name in a record-type
/// definition and returns a copy of its declared type.
fn find_field_type(td: &TypeDefinition, fname: &String) -> (r: Option<Type>)
    ensures
        match r {
            Some(t) => find_field(td@.fields, fname@) == Some(t@),
            None => find_field(td@.fields, fname@) is None,
        },
{
    let n: usize = td.fields.len();
    let mut k: usize = 0;
    proof {
        assert(td@.fields.skip(0) =~= td@.fields);
    }
    while k < n
        invariant
            n == td.fields@.len(),
            0 <= k <= n,
            td@.fields.len() == n,
            find_field(td@.fields, fname@) == find_field(td@.fields.skip(k as int), fname@),
        decreases n - k,
    {
        proof {
            assert(td@.fields.skip(k as int)[0] == td@.fields[k as int]);
            assert(td@.fields.skip(k as int).drop_first() =~= td@.fields.skip(k + 1 as int));
        }
        if td.fields[k].name.eq(fname) {
            return Some(td.fields[k].type_annotation.clone());
        }
        k = k + 1;
    }
    proof {
        assert(td@.fields.skip(n as int).len() == 0);
    }
    None
}

/// The single-pass type checker: a type environment, the type of the
/// function currently being checked, and the table of record-type
/// definitions.
pub struct TypeChecker {
    type_vars: StringHashMap<Type>,
    current_function: Option<Type>,
    type_definitions: StringHashMap<TypeDefinition>,
}

impl TypeChecker {
    /// The model of the checker's type environment.
    pub closed spec fn env(self) -> Map<Seq<char>, TypeV> {
        env_view(self.type_vars@)
    }

    /// The model of the checker's definition table.
    pub closed spec fn defs(self) -> Map<Seq<char>, TypeDefV> {
        defs_view(self.type_definitions@)
    }

    /// The model of the current function type, if one is being checked.
    pub closed spec fn cur(self) -> Option<TypeV> {
        match self.current_function {
            Some(t) => Some(t@),
            None => None,
        }
    }

    /// A checker with an empty environment and no definitions.
    pub fn new() -> (r: TypeChecker)
        ensures
            r.env() == Map::<Seq<char>, TypeV>::empty(),
            r.defs() == Map::<Seq<char>, TypeDefV>::empty(),
            r.cur() is None,
    {
        let r = TypeChecker {
            type_vars: StringHashMap::new(),
            current_function: None,
            type_definitions: StringHashMap::new(),
        };
        proof {
            assert(r.env() =~= Map::<Seq<char>, TypeV>::empty());
            assert(r.defs() =~= Map::<Seq<char>, TypeDefV>::empty());
        }
        r
    }

    /// The type of a literal.
    fn get_literal_type(&self, literal: &Literal) -> (r: Type)
        ensures
            r@ == literal_type(*literal),
    {
        match literal {
            Literal::Int(_) => Type::Int,
            Literal::Float(_) => Type::Float,
            Literal::Bool(_) => Type::Bool,
            Literal::String(_) => Type::String,
            Literal::Null => Type::Unit,
        }
    }


    /// Infers the type of an expression against the current environment,
    /// per [`expr_type`]; fails with a type error exactly when the
    /// judgment has no result.
    #[verifier::loop_isolation(false)]
    fn check_expression(&mut self, expression: &Expression) -> (r: Result<Type, SlangError>)
        ensures
            *final(self) == *old(self),
            match r {
                Ok(t) => expr_type(old(self).env(), *expression) == Some(t@),
                Err(e) => expr_type(old(self).env(), *expression) is None && e is Type,
            },
        decreases *expression,
    {
        match expression {
            Expression::Literal(lit) => Ok(self.get_literal_type(lit)),
            Expression::Identifier(name) => match self.type_vars.get(name.as_str()) {
                Some(t) => Ok(t.clone()),
                None => Err(SlangError::Type(String::from_str("Undefined variable"))),
            },
            Expression::BinaryOp(op) => {
                let left_type = self.check_expression(&op.left)?;
                let right_type = self.check_expression(&op.right)?;
                self.check_binary_operation(&op.op, left_type, right_type)
            },
            Expression::UnaryOp(op) => {
                let expr_t = self.check_expression(&op.right)?;
                self.check_unary_operation(&op.op, expr_t)
            },
            Expression::Call(call) => {
                let function_type = match self.type_vars.get(call.function.as_str()) {
                    Some(t) => t.clone(),
                    None => {
                        return Err(SlangError::Type(String::from_str("Undefined variable")));
                    },
                };
                let n: usize = call.arguments.len();
                let mut arg_types: Vec<Type> = Vec::new();
                let mut i: usize = 0;
                while i < n
                    invariant
                        n == call.arguments@.len(),
                        0 <= i <= n,
                        arg_types@.len() == i,
                        forall|j: int|
                            0 <= j < i ==> expr_type(
                                old(self).env(),
                                *#[trigger] call.arguments@[j],
                            ) == Some(arg_types@[j]@),
                        *self == *old(self),
                    decreases n - i,
                {
                    proof {
                        assert(decreases_to!(*expression => call.arguments@[i as int]));
                    }
                    let at = self.check_expression(&call.arguments[i]);
                    match at {
                        Ok(t) => {
                            arg_types.push(t);
                        },
                        Err(e) => {
                            proof {
                                lemma_expr_types_none(old(self).env(), call.arguments@, i as int);
                            }
                            return Err(e);
                        },
                    }
                    i = i + 1;
                }
                proof {
                    lemma_type_view_seq(arg_types@);
                    assert forall|j: int|
                        0 <= j < n implies expr_type(
                        old(self).env(),
                        *#[trigger] call.arguments@[j],
                    ) == Some(type_view_seq(arg_types@)[j]) by {
                        assert(type_view_seq(arg_types@)[j] == arg_types@[j]@);
                    }
                    lemma_expr_types_some(
                        old(self).env(),
                        call.arguments@,
                        type_view_seq(arg_types@),
                    );
                }
                self.check_function_call(function_type, arg_types)
            },
            Expression::Assignment(assign) => {
                let value_type = self.check_expression(&assign.value)?;
                let target_type = match self.type_vars.get(assign.target.as_str()) {
                    Some(t) => t.clone(),
                    None => {
                        return Err(SlangError::Type(String::from_str("Undefined variable")));
                    },
                };
                if !value_type.is_compatible_with(&target_type) {
                    let msg = String::from_str("Assignment type mismatch: expected ").concat(
                        target_type.display_string().as_str(),
                    ).concat(", got ").concat(value_type.display_string().as_str());
                    return Err(SlangError::Type(msg));
                }
                Ok(Type::Unit)
            },
        }
    }


    /// Checks a pattern against a scrutinee type, binding the names the
    /// pattern introduces, per [`pattern_env`].
    #[verifier::loop_isolation(false)]
    fn check_pattern(&mut self, pattern: &Pattern, value_type: &Type) -> (r: Result<
        (),
        SlangError,
    >)
        ensures
            final(self).defs() == old(self).defs(),
            final(self).cur() == old(self).cur(),
            match r {
                Ok(_) => pattern_env(old(self).env(), old(self).defs(), *pattern, value_type@)
                    == Some(final(self).env()),
                Err(e) => pattern_env(old(self).env(), old(self).defs(), *pattern, value_type@)
                    is None && e is Type,
            },
        decreases *pattern,
    {
        match pattern {
            Pattern::Identifier(name) => {
                self.type_vars.insert(name.clone(), value_type.clone());
                proof {
                    lemma_env_view_insert(old(self).type_vars@, name@, *value_type);
                }
                Ok(())
            },
            Pattern::Literal(lit) => {
                let lit_type = self.get_literal_type(lit);
                if lit_type.is_compatible_with(value_type) {
                    Ok(())
                } else {
                    let msg = String::from_str("Pattern type mismatch: expected ").concat(
                        value_type.display_string().as_str(),
                    ).concat(", got ").concat(lit_type.display_string().as_str());
                    Err(SlangError::Type(msg))
                }
            },
            Pattern::Wildcard => Ok(()),
            Pattern::Tuple(patterns) => {
                if let Type::Tuple(types) = value_type {
                    proof {
                        lemma_type_view_seq(types@);
                    }
                    if patterns.len() != types.len() {
                        return Err(
                            SlangError::Type(String::from_str("Tuple pattern length mismatch")),
                        );
                    }
                    let ghost tsv = type_view_seq(types@);
                    let ghost env0 = self.env();
                    let n: usize = patterns.len();
                    let mut i: usize = 0;
                    proof {
                        assert(patterns@.skip(0) =~= patterns@);
                        assert(tsv.skip(0) =~= tsv);
                    }
                    while i < n
                        invariant
                            n == patterns@.len() == types@.len(),
                            0 <= i <= n,
                            self.defs() == old(self).defs(),
                            self.cur() == old(self).cur(),
                            patterns_env(env0, old(self).defs(), patterns@, tsv) == patterns_env(
                                self.env(),
                                old(self).defs(),
                                patterns@.skip(i as int),
                                tsv.skip(i as int),
                            ),
                        decreases n - i,
                    {
                        proof {
                            assert(decreases_to!(*pattern => pattern->Tuple_0));
                            assert(decreases_to!(pattern->Tuple_0 => pattern->Tuple_0@));
                            assert(decreases_to!(patterns@ => patterns@[i as int]));
                            assert(patterns@.skip(i as int)[0] == patterns@[i as int]);
                            assert(tsv.skip(i as int)[0] == tsv[i as int]);
                            assert(tsv[i as int] == types@[i as int]@);
                            assert(patterns@.skip(i as int).drop_first() =~= patterns@.skip(
                                i + 1 as int,
                            ));
                            assert(tsv.skip(i as int).drop_first() =~= tsv.skip(i + 1 as int));
                        }
                        let rr = self.check_pattern(&patterns[i], &types[i]);
                        if let Err(e) = rr {
                            return Err(e);
                        }
                        i = i + 1;
                    }
                    proof {
                        assert(patterns@.skip(n as int).len() == 0);
                    }
                    Ok(())
                } else {
                    Err(SlangError::Type(String::from_str("Expected tuple type")))
                }
            },
            Pattern::Struct { name, fields } => {
                let td = match self.type_definitions.get(name.as_str()) {
                    Some(td) => td.clone(),
                    None => {
                        return Err(SlangError::Type(String::from_str("Unknown type")));
                    },
                };
                proof {
                    assert(td@ == old(self).defs()[name@]);
                }
                let ghost env0 = self.env();
                let n: usize = fields.len();
                let mut i: usize = 0;
                proof {
                    assert(fields@.skip(0) =~= fields@);
                }
                while i < n
                    invariant
                        n == fields@.len(),
                        0 <= i <= n,
                        self.defs() == old(self).defs(),
                        self.cur() == old(self).cur(),
                        field_patterns_env(env0, old(self).defs(), fields@, td@.fields)
                            == field_patterns_env(
                            self.env(),
                            old(self).defs(),
                            fields@.skip(i as int),
                            td@.fields,
                        ),
                    decreases n - i,
                {
                    proof {
                        assert(fields@.skip(i as int)[0] == fields@[i as int]);
                        assert(fields@.skip(i as int).drop_first() =~= fields@.skip(i + 1 as int));
                    }
                    let ft = match find_field_type(&td, &fields[i].name) {
                        Some(ft) => ft,
                        None => {
                            return Err(SlangError::Type(String::from_str("Unknown field")));
                        },
                    };
                    proof {
                        assert(decreases_to!(*pattern => pattern->fields));
                        assert(decreases_to!(pattern->fields => pattern->fields@));
                        assert(decreases_to!(pattern->fields@ => pattern->fields@[i as int]));
                    }
                    let rr = self.check_pattern(&fields[i].pattern, &ft);
                    if let Err(e) = rr {
                        return Err(e);
                    }
                    i = i + 1;
                }
                proof {
                    assert(fields@.skip(n as int).len() == 0);
                }
                Ok(())
            },
        }
    }


    /// Checks one statement, updating the environment with the bindings it
    /// introduces, per [`stmt_env`].
    #[verifier::loop_isolation(false)]
    fn check_statement(&mut self, statement: &Statement) -> (r: Result<(), SlangError>)
        ensures
            final(self).defs() == old(self).defs(),
            final(self).cur() == old(self).cur(),
            match r {
                Ok(_) => stmt_env(old(self).env(), old(self).cur(), old(self).defs(), *statement)
                    == Some(final(self).env()),
                Err(e) => stmt_env(old(self).env(), old(self).cur(), old(self).defs(), *statement)
                    is None && e is Type,
            },
        decreases *statement,
    {
        match statement {
            Statement::Let(stmt) => {
                let value_type = self.check_expression(&stmt.value)?;
                match &stmt.type_annotation {
                    Some(annotated_type) => {
                        if !value_type.is_compatible_with(annotated_type) {
                            let msg = String::from_str(
                                "Type mismatch in let statement: expected ",
                            ).concat(annotated_type.display_string().as_str()).concat(
                                ", got ",
                            ).concat(value_type.display_string().as_str());
                            return Err(SlangError::Type(msg));
                        }
                        self.type_vars.insert(stmt.name.clone(), annotated_type.clone());
                        proof {
                            lemma_env_view_insert(
                                old(self).type_vars@,
                                stmt.name@,
                                *annotated_type,
                            );
                        }
                    },
                    None => {
                        let ghost vtg = value_type;
                        self.type_vars.insert(stmt.name.clone(), value_type);
                        proof {
                            lemma_env_view_insert(old(self).type_vars@, stmt.name@, vtg);
                        }
                    },
                }
                Ok(())
            },
            Statement::Return(stmt) => {
                match &stmt.value {
                    Some(value) => {
                        let value_type = self.check_expression(value)?;
                        match &self.current_function {
                            Some(function_type) => match function_type {
                                Type::Function { return_type, .. } => {
                                    if !value_type.is_compatible_with(return_type) {
                                        let msg = String::from_str(
                                            "Return type mismatch: expected ",
                                        ).concat(return_type.display_string().as_str()).concat(
                                            ", got ",
                                        ).concat(value_type.display_string().as_str());
                                        return Err(SlangError::Type(msg));
                                    }
                                    Ok(())
                                },
                                _ => Ok(()),
                            },
                            None => Ok(()),
                        }
                    },
                    None => Ok(()),
                }
            },
            Statement::If(stmt) => {
                let condition_type = self.check_expression(&stmt.condition)?;
                if !condition_type.is_compatible_with(&Type::Bool) {
                    return Err(SlangError::Type(String::from_str("If condition must be boolean")));
                }
                proof {
                    assert(decreases_to!(*statement => statement->If_0));
                }
                self.check_block(&stmt.then_block)?;
                if let Some(else_block) = &stmt.else_block {
                    self.check_block(else_block)?;
                }
                Ok(())
            },
            Statement::While(stmt) => {
                let condition_type = self.check_expression(&stmt.condition)?;
                if !condition_type.is_compatible_with(&Type::Bool) {
                    return Err(
                        SlangError::Type(String::from_str("While condition must be boolean")),
                    );
                }
                proof {
                    assert(decreases_to!(*statement => statement->While_0));
                }
                self.check_block(&stmt.body)?;
                Ok(())
            },
            Statement::For(stmt) => {
                let iterator_type = self.check_expression(&stmt.iterator)?;
                if let Type::Array(element_type) = iterator_type {
                    let ghost evg = *element_type;
                    self.type_vars.insert(stmt.variable.clone(), *element_type);
                    proof {
                        lemma_env_view_insert(old(self).type_vars@, stmt.variable@, evg);
                        assert(decreases_to!(*statement => statement->For_0));
                    }
                    self.check_block(&stmt.body)?;
                    Ok(())
                } else {
                    Err(SlangError::Type(String::from_str("For iterator must be an array")))
                }
            },
            Statement::Match(stmt) => {
                let value_type = self.check_expression(&stmt.expression)?;
                let ghost vt = value_type@;
                let ghost env0 = self.env();
                let n: usize = stmt.arms.len();
                let mut i: usize = 0;
                proof {
                    assert(stmt.arms@.skip(0) =~= stmt.arms@);
                }
                while i < n
                    invariant
                        n == stmt.arms@.len(),
                        0 <= i <= n,
                        self.defs() == old(self).defs(),
                        self.cur() == old(self).cur(),
                        arms_env(env0, old(self).cur(), old(self).defs(), vt, stmt.arms@)
                            == arms_env(
                            self.env(),
                            old(self).cur(),
                            old(self).defs(),
                            vt,
                            stmt.arms@.skip(i as int),
                        ),
                    decreases n - i,
                {
                    proof {
                        assert(stmt.arms@.skip(i as int)[0] == stmt.arms@[i as int]);
                        assert(stmt.arms@.skip(i as int).drop_first() =~= stmt.arms@.skip(
                            i + 1 as int,
                        ));
                    }
                    let rr = self.check_pattern(&stmt.arms[i].pattern, &value_type);
                    if let Err(e) = rr {
                        return Err(e);
                    }
                    proof {
                        assert(decreases_to!(*statement => statement->Match_0));
                        assert(decreases_to!(statement->Match_0 => statement->Match_0.arms));
                        assert(decreases_to!(statement->Match_0.arms => statement->Match_0.arms@));
                        assert(decreases_to!(statement->Match_0.arms@ => statement->Match_0.arms@[i as int]));
                    }
                    let rb = self.check_block(&stmt.arms[i].body);
                    if let Err(e) = rb {
                        return Err(e);
                    }
                    i = i + 1;
                }
                proof {
                    assert(stmt.arms@.skip(n as int).len() == 0);
                }
                Ok(())
            },
            Statement::Expression(expr) => {
                self.check_expression(expr)?;
                Ok(())
            },
        }
    }

    /// Checks the statements of a block in order, per [`block_env`].
    #[verifier::loop_isolation(false)]
    fn check_block(&mut self, block: &Block) -> (r: Result<(), SlangError>)
        ensures
            final(self).defs() == old(self).defs(),
            final(self).cur() == old(self).cur(),
            match r {
                Ok(_) => block_env(
                    old(self).env(),
                    old(self).cur(),
                    old(self).defs(),
                    block.statements@,
                ) == Some(final(self).env()),
                Err(e) => block_env(
                    old(self).env(),
                    old(self).cur(),
                    old(self).defs(),
                    block.statements@,
                ) is None && e is Type,
            },
        decreases *block,
    {
        let ghost env0 = self.env();
        let n: usize = block.statements.len();
        let mut i: usize = 0;
        proof {
            assert(block.statements@.skip(0) =~= block.statements@);
        }
        while i < n
            invariant
                n == block.statements@.len(),
                0 <= i <= n,
                self.defs() == old(self).defs(),
                self.cur() == old(self).cur(),
                block_env(env0, old(self).cur(), old(self).defs(), block.statements@)
                    == block_env(
                    self.env(),
                    old(self).cur(),
                    old(self).defs(),
                    block.statements@.skip(i as int),
                ),
            decreases n - i,
        {
            proof {
                assert(block.statements@.skip(i as int)[0] == block.statements@[i as int]);
                assert(block.statements@.skip(i as int).drop_first() =~= block.statements@.skip(
                    i + 1 as int,
                ));
                assert(decreases_to!(*block => block.statements));
                assert(decreases_to!(block.statements => block.statements@));
                assert(decreases_to!(block.statements@ => block.statements@[i as int]));
            }
            let rr = self.check_statement(&block.statements[i]);
            if let Err(e) = rr {
                return Err(e);
            }
            i = i + 1;
        }
        proof {
            assert(block.statements@.skip(n as int).len() == 0);
        }
        Ok(())
    }

    /// Checks one function declaration: registers its own type as the
    /// current function, binds its parameters, and checks its body, per
    /// [`fun_env`].
    #[verifier::loop_isolation(false)]
    fn check_function(&mut self, function: &Function) -> (r: Result<(), SlangError>)
        ensures
            final(self).defs() == old(self).defs(),
            match r {
                Ok(_) => fun_env(old(self).env(), old(self).defs(), *function) == Some(
                    final(self).env(),
                ) && final(self).cur() is None,
                Err(e) => fun_env(old(self).env(), old(self).defs(), *function) is None
                    && e is Type,
            },
    {
        let np: usize = function.parameters.len();
        let mut params: Vec<Type> = Vec::new();
        let mut i: usize = 0;
        while i < np
            invariant
                np == function.parameters@.len(),
                0 <= i <= np,
                params@.len() == i,
                forall|j: int|
                    0 <= j < i ==> #[trigger] params@[j]@
                        == function.parameters@[j].type_annotation@,
                *self == *old(self),
            decreases np - i,
        {
            let c = function.parameters[i].type_annotation.clone();
            params.push(c);
            i = i + 1;
        }
        proof {
            lemma_type_view_seq(params@);
            assert forall|j: int|
                0 <= j < np implies type_view_seq(params@)[j] == params_view(
                function.parameters@,
            )[j] by {
                assert(type_view_seq(params@)[j] == params@[j]@);
            }
            assert(type_view_seq(params@) =~= params_view(function.parameters@));
        }
        let function_type = Type::Function {
            params,
            return_type: Box::new(function.return_type.clone()),
            priority: Some(function.priority as u32),
        };
        proof {
            assert(function_type@ == fn_type_of(*function));
        }
        self.current_function = Some(function_type);

        let ghost env0 = self.env();
        let mut k: usize = 0;
        proof {
            assert(function.parameters@.skip(0) =~= function.parameters@);
        }
        while k < np
            invariant
                np == function.parameters@.len(),
                0 <= k <= np,
                self.defs() == old(self).defs(),
                self.cur() == Some(fn_type_of(*function)),
                bind_params(env0, function.parameters@) == bind_params(
                    self.env(),
                    function.parameters@.skip(k as int),
                ),
            decreases np - k,
        {
            proof {
                assert(function.parameters@.skip(k as int)[0] == function.parameters@[k as int]);
                assert(function.parameters@.skip(k as int).drop_first()
                    =~= function.parameters@.skip(k + 1 as int));
            }
            let nm = function.parameters[k].name.clone();
            let tv = function.parameters[k].type_annotation.clone();
            let ghost prem = self.type_vars@;
            let ghost pree = self.env();
            let ghost tvg = tv;
            self.type_vars.insert(nm, tv);
            proof {
                lemma_env_view_insert(prem, function.parameters@[k as int].name@, tvg);
                assert(self.env() == pree.insert(
                    function.parameters@[k as int].name@,
                    function.parameters@[k as int].type_annotation@,
                ));
            }
            k = k + 1;
        }
        proof {
            assert(function.parameters@.skip(np as int).len() == 0);
        }

        let rb = self.check_block(&function.body);
        if let Err(e) = rb {
            return Err(e);
        }
        self.current_function = None;
        Ok(())
    }

    /// Checks a whole compilation unit: registers every record-type
    /// definition, then checks every function in order against the shared
    /// flat environment. Accepts silently or fails with a type error at
    /// the first inconsistency.
    #[verifier::loop_isolation(false)]
    pub fn check_ast(&mut self, ast: &AST) -> (r: Result<(), SlangError>)
        ensures
            final(self).defs() == add_defs(old(self).defs(), ast.type_definitions@),
            (r is Ok) <==> funs_env(
                old(self).env(),
                add_defs(old(self).defs(), ast.type_definitions@),
                ast.functions@,
            ) is Some,
            r is Ok ==> Some(final(self).env()) == funs_env(
                old(self).env(),
                add_defs(old(self).defs(), ast.type_definitions@),
                ast.functions@,
            ),
            r is Ok ==> final(self).cur() == (if ast.functions@.len() > 0 {
                None::<TypeV>
            } else {
                old(self).cur()
            }),
            r matches Err(e) ==> e is Type,
    {
        let nd: usize = ast.type_definitions.len();
        let mut i: usize = 0;
        proof {
            assert(ast.type_definitions@.skip(0) =~= ast.type_definitions@);
        }
        while i < nd
            invariant
                nd == ast.type_definitions@.len(),
                0 <= i <= nd,
                self.env() == old(self).env(),
                self.cur() == old(self).cur(),
                add_defs(old(self).defs(), ast.type_definitions@) == add_defs(
                    self.defs(),
                    ast.type_definitions@.skip(i as int),
                ),
            decreases nd - i,
        {
            proof {
                assert(ast.type_definitions@.skip(i as int)[0] == ast.type_definitions@[i as int]);
                assert(ast.type_definitions@.skip(i as int).drop_first()
                    =~= ast.type_definitions@.skip(i + 1 as int));
            }
            let td = ast.type_definitions[i].clone();
            let nm = td.name.clone();
            let ghost prem = self.type_definitions@;
            let ghost tdg = td;
            self.type_definitions.insert(nm, td);
            proof {
                lemma_defs_view_insert(prem, ast.type_definitions@[i as int].name@, tdg);
                assert(defs_view(self.type_definitions@) =~= defs_view(prem).insert(
                    ast.type_definitions@[i as int].name@,
                    ast.type_definitions@[i as int]@,
                ));
            }
            i = i + 1;
        }
        proof {
            assert(ast.type_definitions@.skip(nd as int).len() == 0);
        }

        let ghost defs1 = self.defs();
        let ghost env0 = self.env();
        let nf: usize = ast.functions.len();
        let mut k: usize = 0;
        proof {
            assert(ast.functions@.skip(0) =~= ast.functions@);
        }
        while k < nf
            invariant
                nf == ast.functions@.len(),
                0 <= k <= nf,
                self.defs() == defs1,
                funs_env(env0, defs1, ast.functions@) == funs_env(
                    self.env(),
                    defs1,
                    ast.functions@.skip(k as int),
                ),
                k > 0 ==> self.cur() is None,
                k == 0 ==> self.cur() == old(self).cur(),
            decreases nf - k,
        {
            proof {
                assert(ast.functions@.skip(k as int)[0] == ast.functions@[k as int]);
                assert(ast.functions@.skip(k as int).drop_first() =~= ast.functions@.skip(
                    k + 1 as int,
                ));
            }
            let rr = self.check_function(&ast.functions[k]);
            if let Err(e) = rr {
                return Err(e);
            }
            k = k + 1;
        }
        proof {
            assert(ast.functions@.skip(nf as int).len() == 0);
        }
        Ok(())
    }

    /// Checks a binary operation over already-checked operand types,
    /// returning the result type given by [`binop_type`].
    fn check_binary_operation(&mut self, op: &BinaryOperator, left: Type, right: Type) -> (r:
        Result<Type, SlangError>)
        ensures
            *final(self) == *old(self),
            match r {
                Ok(t) => binop_type(*op, left@, right@) == Some(t@),
                Err(e) => binop_type(*op, left@, right@) is None && e is Type,
            },
    {
        match op {
            BinaryOperator::Add | BinaryOperator::Sub | BinaryOperator::Mul | BinaryOperator::Div
                | BinaryOperator::Divide => {
                if left.is_numeric() && right.is_numeric() {
                    if matches!(left, Type::Float) || matches!(right, Type::Float) {
                        Ok(Type::Float)
                    } else {
                        Ok(Type::Int)
                    }
                } else {
                    Err(
                        SlangError::Type(
                            String::from_str("Numeric operation requires numeric operands"),
                        ),
                    )
                }
            },
            BinaryOperator::Mod => {
                if left.is_numeric() && right.is_numeric() {
                    Ok(Type::Int)
                } else {
                    Err(
                        SlangError::Type(
                            String::from_str("Modulo operation requires numeric operands"),
                        ),
                    )
                }
            },
            BinaryOperator::Modulo => {
                if left.is_numeric() && right.is_numeric() {
                    if matches!(left, Type::Float) || matches!(right, Type::Float) {
                        Ok(Type::Float)
                    } else {
                        Ok(Type::Int)
                    }
                } else {
                    Err(
                        SlangError::Type(
                            String::from_str("Numeric operation requires numeric operands"),
                        ),
                    )
                }
            },
            BinaryOperator::Eq | BinaryOperator::Neq | BinaryOperator::Equals
                | BinaryOperator::NotEquals => {
                if left.is_compatible_with(&right) {
                    Ok(Type::Bool)
                } else {
                    Err(SlangError::Type(String::from_str("Cannot compare incompatible types")))
                }
            },
            BinaryOperator::Lt | BinaryOperator::Lte | BinaryOperator::Gt | BinaryOperator::Gte
                | BinaryOperator::LessThan | BinaryOperator::LessThanEquals
                | BinaryOperator::GreaterThan | BinaryOperator::GreaterThanEquals => {
                if left.is_numeric() && right.is_numeric() {
                    Ok(Type::Bool)
                } else {
                    Err(SlangError::Type(String::from_str("Comparison requires numeric operands")))
                }
            },
            BinaryOperator::And | BinaryOperator::Or => {
                if matches!(left, Type::Bool) && matches!(right, Type::Bool) {
                    Ok(Type::Bool)
                } else {
                    Err(
                        SlangError::Type(
                            String::from_str("Logical operation requires boolean operands"),
                        ),
                    )
                }
            },
        }
    }

    /// Checks a unary operation over an already-checked operand type,
    /// returning the result type given by [`unop_type`].
    fn check_unary_operation(&mut self, op: &UnaryOperator, expr: Type) -> (r: Result<
        Type,
        SlangError,
    >)
        ensures
            *final(self) == *old(self),
            match r {
                Ok(t) => unop_type(*op, expr@) == Some(t@),
                Err(e) => unop_type(*op, expr@) is None && e is Type,
            },
    {
        match op {
            UnaryOperator::Neg | UnaryOperator::Negate => {
                if expr.is_numeric() {
                    Ok(expr)
                } else {
                    Err(SlangError::Type(String::from_str("Negation requires numeric operand")))
                }
            },
            UnaryOperator::Not => {
                if matches!(expr, Type::Bool) {
                    Ok(Type::Bool)
                } else {
                    Err(SlangError::Type(String::from_str("Logical not requires boolean operand")))
                }
            },
        }
    }

    /// Checks a call of a value of type `function_type` on arguments of the
    /// given types, returning the result type given by [`call_type`].
    #[verifier::loop_isolation(false)]
    fn check_function_call(&mut self, function_type: Type, arg_types: Vec<Type>) -> (r: Result<
        Type,
        SlangError,
    >)
        ensures
            *final(self) == *old(self),
            match r {
                Ok(t) => call_type(function_type@, type_view_seq(arg_types@)) == Some(t@),
                Err(e) => call_type(function_type@, type_view_seq(arg_types@)) is None
                    && e is Type,
            },
    {
        proof {
            lemma_type_view_seq(arg_types@);
        }
        let ghost ft0 = function_type;
        if let Type::Function { params, return_type, priority: _fp } = function_type {
            proof {
                assert(ft0@ matches TypeV::Function { params: pv, .. } && pv == type_view_seq(
                    params@,
                ));
            }
            proof {
                lemma_type_view_seq(params@);
            }
            if params.len() != arg_types.len() {
                return Err(SlangError::Type(String::from_str("Wrong number of arguments")));
            }
            let n: usize = params.len();
            let mut i: usize = 0;
            while i < n
                invariant
                    n == params@.len() == arg_types@.len(),
                    0 <= i <= n,
                    forall|j: int|
                        0 <= j < i ==> compatible(
                            type_view_seq(arg_types@)[j],
                            type_view_seq(params@)[j],
                        ),
                    type_view_seq(params@).len() == n,
                    type_view_seq(arg_types@).len() == n,
                    forall|j: int|
                        0 <= j < n ==> type_view_seq(arg_types@)[j] == #[trigger] arg_types@[j]@,
                    forall|j: int| 0 <= j < n ==> type_view_seq(params@)[j] == #[trigger] params@[j]@,
                decreases n - i,
            {
                if !arg_types[i].is_compatible_with(&params[i]) {
                    proof {
                        assert(!compatible(
                            type_view_seq(arg_types@)[i as int],
                            type_view_seq(params@)[i as int],
                        ));
                        assert(!(forall|j: int|
                            0 <= j < type_view_seq(arg_types@).len() ==> compatible(
                                #[trigger] type_view_seq(arg_types@)[j],
                                ft0@->params[j],
                            ))) by {
                            assert(ft0@->params[i as int] == type_view_seq(params@)[i as int]);
                            assert(!compatible(
                                type_view_seq(arg_types@)[i as int],
                                ft0@->params[i as int],
                            ));
                        }
                        assert(call_type(ft0@, type_view_seq(arg_types@)) is None);
                    }
                    let msg = String::from_str("Argument type mismatch: expected ").concat(
                        params[i].display_string().as_str(),
                    ).concat(", got ").concat(arg_types[i].display_string().as_str());
                    return Err(SlangError::Type(msg));
                }
                i = i + 1;
            }
            Ok(*return_type)
        } else {
            Err(SlangError::Type(String::from_str("Not a function")))
        }
    }
}

} // verus!
