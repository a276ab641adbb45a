//! The constraint-based type inference engine.
//!
//! [`TypeInference::infer_types`] walks the same program shape as the
//! checker but defers judgement: instead of failing on a mismatch it
//! records an equality [`TypeConstraint`] between the two type terms and
//! continues optimistically. After the traversal the solver repeatedly
//! reduces the queued constraints by unification — discarding identical
//! sides, resolving a named type through the environment, and decomposing
//! aggregates of the same shape into smaller constraints — until every
//! constraint is discharged or one of them is refuted (a structural
//! mismatch) or permanently stuck (an unresolved name), which is reported
//! as a type error.

use vstd::prelude::*;

use vstd::hash_map::StringHashMap;
use vstd::string::StringExecFns;

use crate::ast::BinaryOperator;
use crate::ast::Block;
use crate::ast::Expression;
use crate::ast::Field;
use crate::ast::FieldPattern;
use crate::ast::FieldV;
use crate::ast::Function;
use crate::ast::Literal;
use crate::ast::MatchArm;
use crate::ast::Pattern;
use crate::ast::Statement;
use crate::ast::TypeDefV;
use crate::ast::TypeDefinition;
use crate::ast::UnaryOperator;
use crate::ast::AST;
use crate::error::SlangError;
use crate::type_system::checker::bind_params;
use crate::type_system::checker::defs_view;
use crate::type_system::checker::env_view;
use crate::type_system::checker::literal_type;
use crate::type_system::checker::numeric;
use crate::type_system::priority_eq;
use crate::type_system::type_eq_exec;
use crate::type_system::type_view_seq;
use crate::type_system::Type;
use crate::type_system::TypeV;

verus! {

/// A deferred equality obligation between two type terms.
#[derive(Debug)]
pub struct TypeConstraint {
    pub left: Type,
    pub right: Type,
}

/// The model of a constraint: the models of its two sides.
pub struct ConstraintV {
    pub left: TypeV,
    pub right: TypeV,
}

impl View for TypeConstraint {
    type V = ConstraintV;

    open spec fn view(&self) -> ConstraintV {
        ConstraintV { left: self.left@, right: self.right@ }
    }
}

impl Clone for TypeConstraint {
    /// A copy with the same model.
    fn clone(&self) -> (res: Self)
        ensures
            res@ == self@,
    {
        TypeConstraint { left: self.left.clone(), right: self.right.clone() }
    }
}

/// The models of a constraint list, in order.
pub open spec fn constraints_view(v: Seq<TypeConstraint>) -> Seq<ConstraintV> {
    Seq::new(v.len(), |i: int| v[i]@)
}

/// The number of nodes of a type term; every term has at least one.
pub open spec fn tsize(t: TypeV) -> nat
    decreases t,
{
    match t {
        TypeV::Array(e) => 1 + tsize(*e),
        TypeV::Tuple(ts) => 1 + tsize_seq(ts),
        TypeV::Vector(_, e) => 1 + tsize(*e),
        TypeV::Matrix(_, _, e) => 1 + tsize(*e),
        TypeV::Tensor(_, e) => 1 + tsize(*e),
        TypeV::Quaternion(e) => 1 + tsize(*e),
        TypeV::Complex(e) => 1 + tsize(*e),
        TypeV::Function { params, return_type, .. } => 1 + tsize_seq(params) + tsize(
            *return_type,
        ),
        TypeV::Pointer(e) => 1 + tsize(*e),
        _ => 1,
    }
}

/// The total node count of a list of type terms.
pub open spec fn tsize_seq(s: Seq<TypeV>) -> nat
    decreases s,
{
    if s.len() == 0 {
        0
    } else {
        tsize(s[0]) + tsize_seq(s.drop_first())
    }
}

/// The number of `Named` nodes of a type term.
pub open spec fn ncount(t: TypeV) -> nat
    decreases t,
{
    match t {
        TypeV::Array(e) => ncount(*e),
        TypeV::Tuple(ts) => ncount_seq(ts),
        TypeV::Vector(_, e) => ncount(*e),
        TypeV::Matrix(_, _, e) => ncount(*e),
        TypeV::Tensor(_, e) => ncount(*e),
        TypeV::Quaternion(e) => ncount(*e),
        TypeV::Complex(e) => ncount(*e),
        TypeV::Function { params, return_type, .. } => ncount_seq(params) + ncount(*return_type),
        TypeV::Pointer(e) => ncount(*e),
        TypeV::Named(_) => 1,
        _ => 0,
    }
}

/// The total `Named` count of a list of type terms.
pub open spec fn ncount_seq(s: Seq<TypeV>) -> nat
    decreases s,
{
    if s.len() == 0 {
        0
    } else {
        ncount(s[0]) + ncount_seq(s.drop_first())
    }
}

/// Whether a type term mentions any named type.
pub open spec fn has_named(t: TypeV) -> bool {
    ncount(t) > 0
}

/// The outcome of one unification step on a constraint.
pub enum UnifyStepV {
    /// The constraint is discharged.
    Solved,
    /// The constraint decomposes into smaller derived constraints, every
    /// one of which the solver queue examines on a later iteration.
    Requeue(Seq<ConstraintV>),
    /// The constraint can never make progress (an unresolved name).
    Stuck,
    /// The two sides are structurally incompatible.
    Failed,
}

/// One unification step, following the solver's reduction rules:
/// identical sides are discharged; a `Named` side is replaced by its fully
/// concrete resolution from the environment, or is stuck when the
/// environment has none; an aggregate pair of the same shape decomposes
/// into one derived constraint per position — every position is re-queued,
/// so a later mismatch is never masked by an earlier reducible position —
/// where two function types must further agree on arity and priority tag
/// up front (a mismatch is a hard failure); everything else is a mismatch.
pub open spec fn unify_step(l: TypeV, r: TypeV, env: Map<Seq<char>, TypeV>) -> UnifyStepV {
    if l == r {
        UnifyStepV::Solved
    } else {
        match (l, r) {
            (TypeV::Named(n), other) | (other, TypeV::Named(n)) => if env.contains_key(n)
                && !has_named(env[n]) {
                UnifyStepV::Requeue(seq![ConstraintV { left: env[n], right: other }])
            } else {
                UnifyStepV::Stuck
            },
            (TypeV::Array(t1), TypeV::Array(t2)) => UnifyStepV::Requeue(
                seq![ConstraintV { left: *t1, right: *t2 }],
            ),
            (TypeV::Tuple(ts1), TypeV::Tuple(ts2)) => if ts1.len() != ts2.len() {
                UnifyStepV::Failed
            } else {
                UnifyStepV::Requeue(zip_constraints(ts1, ts2))
            },
            (
                TypeV::Function { params: p1, return_type: r1, priority: pr1 },
                TypeV::Function { params: p2, return_type: r2, priority: pr2 },
            ) => if p1.len() != p2.len() || pr1 != pr2 {
                UnifyStepV::Failed
            } else {
                UnifyStepV::Requeue(
                    zip_constraints(p1, p2).push(ConstraintV { left: *r1, right: *r2 }),
                )
            },
            _ => UnifyStepV::Failed,
        }
    }
}

/// The total `Named` count of a constraint list.
pub open spec fn cs_nc(cs: Seq<ConstraintV>) -> nat
    decreases cs,
{
    if cs.len() == 0 {
        0
    } else {
        ncount(cs[0].left) + ncount(cs[0].right) + cs_nc(cs.drop_first())
    }
}

/// The total node count of a constraint list.
pub open spec fn cs_ts(cs: Seq<ConstraintV>) -> nat
    decreases cs,
{
    if cs.len() == 0 {
        0
    } else {
        tsize(cs[0].left) + tsize(cs[0].right) + cs_ts(cs.drop_first())
    }
}

/// Every type term has at least one node.
pub proof fn lemma_tsize_positive(t: TypeV)
    ensures
        tsize(t) >= 1,
{
}

/// The measures of a constraint list distribute over concatenation.
proof fn lemma_cs_sums_concat(x: Seq<ConstraintV>, y: Seq<ConstraintV>)
    ensures
        cs_nc(x + y) == cs_nc(x) + cs_nc(y),
        cs_ts(x + y) == cs_ts(x) + cs_ts(y),
    decreases x.len(),
{
    if x.len() == 0 {
        assert(x + y =~= y);
    } else {
        assert((x + y)[0] == x[0]);
        assert((x + y).drop_first() =~= x.drop_first() + y);
        lemma_cs_sums_concat(x.drop_first(), y);
    }
}

/// The measures of a position-wise constraint list are the sums of the
/// two sides' measures.
proof fn lemma_zip_sums(a: Seq<TypeV>, b: Seq<TypeV>)
    requires
        a.len() == b.len(),
    ensures
        cs_nc(zip_constraints(a, b)) == ncount_seq(a) + ncount_seq(b),
        cs_ts(zip_constraints(a, b)) == tsize_seq(a) + tsize_seq(b),
    decreases a.len(),
{
    if a.len() > 0 {
        assert(zip_constraints(a, b)[0] == ConstraintV { left: a[0], right: b[0] });
        assert(zip_constraints(a, b).drop_first() =~= zip_constraints(
            a.drop_first(),
            b.drop_first(),
        ));
        lemma_zip_sums(a.drop_first(), b.drop_first());
    }
}

/// The constraints derived from one step are smaller than the constraint
/// they came from, in the lexicographic measure (named-node count, node
/// count).
pub proof fn lemma_unify_step_requeue(l: TypeV, r: TypeV, env: Map<Seq<char>, TypeV>)
    ensures
        unify_step(l, r, env) matches UnifyStepV::Requeue(cs2) ==> {
            &&& cs_nc(cs2) <= ncount(l) + ncount(r)
            &&& (cs_nc(cs2) == ncount(l) + ncount(r) ==> cs_ts(cs2) < tsize(l) + tsize(r))
        },
{
    assert(cs_nc(Seq::<ConstraintV>::empty()) == 0);
    assert(cs_ts(Seq::<ConstraintV>::empty()) == 0);
    if l == r {
    } else {
        match (l, r) {
            (TypeV::Named(n), other) | (other, TypeV::Named(n)) => {
                if env.contains_key(n) && !has_named(env[n]) {
                    let one = seq![ConstraintV { left: env[n], right: other }];
                    assert(one.drop_first() =~= Seq::<ConstraintV>::empty());
                    assert(cs_nc(one) == ncount(env[n]) + ncount(other));
                    assert(cs_ts(one) == tsize(env[n]) + tsize(other));
                }
            },
            (TypeV::Array(t1), TypeV::Array(t2)) => {
                let one = seq![ConstraintV { left: *t1, right: *t2 }];
                assert(one.drop_first() =~= Seq::<ConstraintV>::empty());
                assert(cs_nc(one) == ncount(*t1) + ncount(*t2));
                assert(cs_ts(one) == tsize(*t1) + tsize(*t2));
            },
            (TypeV::Tuple(ts1), TypeV::Tuple(ts2)) => {
                if ts1.len() == ts2.len() {
                    lemma_zip_sums(ts1, ts2);
                }
            },
            (
                TypeV::Function { params: p1, return_type: r1, priority: pr1 },
                TypeV::Function { params: p2, return_type: r2, priority: pr2 },
            ) => {
                if p1.len() == p2.len() && pr1 == pr2 {
                    lemma_zip_sums(p1, p2);
                    let ret = ConstraintV { left: *r1, right: *r2 };
                    lemma_cs_sums_concat(zip_constraints(p1, p2), seq![ret]);
                    assert(zip_constraints(p1, p2).push(ret) =~= zip_constraints(p1, p2) + seq![
                        ret,
                    ]);
                    assert(seq![ret].drop_first() =~= Seq::<ConstraintV>::empty());
                    assert(cs_nc(seq![ret]) == ncount(*r1) + ncount(*r2));
                    assert(cs_ts(seq![ret]) == tsize(*r1) + tsize(*r2));
                }
            },
            _ => {},
        }
    }
}

/// The final verdict of the solver's worklist: every constraint is either
/// discharged, or the first refuted or permanently stuck one decides.
pub enum UnifyEnd {
    /// Every constraint is discharged.
    Solved,
    /// A constraint got permanently stuck on an unresolved name.
    Stuck,
    /// A constraint was refuted.
    Failed,
}

/// Reduces a worklist of constraints to its verdict by applying
/// [`unify_step`] to the head and re-queuing whatever it derives.
pub open spec fn verdict(cs: Seq<ConstraintV>, env: Map<Seq<char>, TypeV>) -> UnifyEnd
    decreases cs_nc(cs), cs_ts(cs),
    via verdict_via
{
    if cs.len() == 0 {
        UnifyEnd::Solved
    } else {
        match unify_step(cs[0].left, cs[0].right, env) {
            UnifyStepV::Solved => verdict(cs.drop_first(), env),
            UnifyStepV::Stuck => UnifyEnd::Stuck,
            UnifyStepV::Failed => UnifyEnd::Failed,
            UnifyStepV::Requeue(newcs) => verdict(newcs + cs.drop_first(), env),
        }
    }
}

#[via_fn]
proof fn verdict_via(cs: Seq<ConstraintV>, env: Map<Seq<char>, TypeV>) {
    if cs.len() > 0 {
        lemma_tsize_positive(cs[0].left);
        lemma_tsize_positive(cs[0].right);
        lemma_unify_step_requeue(cs[0].left, cs[0].right, env);
        match unify_step(cs[0].left, cs[0].right, env) {
            UnifyStepV::Requeue(newcs) => {
                lemma_cs_sums_concat(newcs, cs.drop_first());
            },
            _ => {},
        }
    }
}

/// Whether a worklist of constraints is fully discharged.
pub open spec fn all_solved(cs: Seq<ConstraintV>, env: Map<Seq<char>, TypeV>) -> bool {
    verdict(cs, env) is Solved
}

} // verus!

verus! {

/// Whether a type term mentions any named type, executably.
fn has_named_exec(t: &Type) -> (r: bool)
    ensures
        r == has_named(t@),
    decreases *t,
{
    match t {
        Type::Array(e) => has_named_exec(e),
        Type::Tuple(ts) => {
            proof {
                assert(decreases_to!(*t => t->Tuple_0));
                assert(decreases_to!(t->Tuple_0 => t->Tuple_0@));
            }
            has_named_vec(ts)
        },
        Type::Vector(_, e) => has_named_exec(e),
        Type::Matrix(_, _, e) => has_named_exec(e),
        Type::Tensor(_, e) => has_named_exec(e),
        Type::Quaternion(e) => has_named_exec(e),
        Type::Complex(e) => has_named_exec(e),
        Type::Function { params, return_type, .. } => {
            proof {
                assert(decreases_to!(*t => t->params));
                assert(decreases_to!(t->params => t->params@));
            }
            has_named_vec(params) || has_named_exec(return_type)
        },
        Type::Pointer(e) => has_named_exec(e),
        Type::Named(_) => true,
        _ => false,
    }
}

/// Whether any type term of a list mentions a named type, executably.
#[verifier::loop_isolation(false)]
fn has_named_vec(s: &Vec<Type>) -> (r: bool)
    ensures
        r == (ncount_seq(type_view_seq(s@)) > 0),
    decreases s@,
{
    let ghost tvs = type_view_seq(s@);
    proof {
        crate::type_system::lemma_type_view_seq(s@);
        assert(tvs.skip(0) =~= tvs);
    }
    let n: usize = s.len();
    let mut i: usize = 0;
    while i < n
        invariant
            n == s@.len(),
            0 <= i <= n,
            ncount_seq(tvs) == ncount_seq(tvs.skip(i as int)),
        decreases n - i,
    {
        proof {
            assert(decreases_to!(s@ => s@[i as int]));
            assert(tvs.skip(i as int)[0] == tvs[i as int]);
            assert(tvs[i as int] == s@[i as int]@);
            assert(tvs.skip(i as int).drop_first() =~= tvs.skip(i + 1 as int));
        }
        if has_named_exec(&s[i]) {
            proof {
                lemma_ncount_seq_head(tvs.skip(i as int));
            }
            return true;
        }
        i = i + 1;
    }
    proof {
        assert(tvs.skip(n as int).len() == 0);
    }
    false
}

/// The `Named` count of a list bounds the count of its head.
proof fn lemma_ncount_seq_head(s: Seq<TypeV>)
    requires
        s.len() > 0,
    ensures
        ncount_seq(s) >= ncount(s[0]),
{
}

/// The constraint-based type inference engine: a type environment, the
/// queue of deferred constraints, and the table of record-type
/// definitions.
pub struct TypeInference {
    type_vars: StringHashMap<Type>,
    constraints: Vec<TypeConstraint>,
    type_definitions: StringHashMap<TypeDefinition>,
}

impl TypeInference {
    /// The model of the engine's type environment.
    pub closed spec fn env(self) -> Map<Seq<char>, TypeV> {
        env_view(self.type_vars@)
    }

    /// The model of the engine's definition table.
    pub closed spec fn defs(self) -> Map<Seq<char>, TypeDefV> {
        defs_view(self.type_definitions@)
    }

    /// The models of the queued constraints, in order.
    pub closed spec fn cs(self) -> Seq<ConstraintV> {
        constraints_view(self.constraints@)
    }

    /// An engine with an empty environment, no constraints and no
    /// definitions.
    pub fn new() -> (r: TypeInference)
        ensures
            r.env() == Map::<Seq<char>, TypeV>::empty(),
            r.defs() == Map::<Seq<char>, TypeDefV>::empty(),
            r.cs() == Seq::<ConstraintV>::empty(),
    {
        let r = TypeInference {
            type_vars: StringHashMap::new(),
            constraints: Vec::new(),
            type_definitions: StringHashMap::new(),
        };
        proof {
            assert(r.env() =~= Map::<Seq<char>, TypeV>::empty());
            assert(r.defs() =~= Map::<Seq<char>, TypeDefV>::empty());
            assert(r.cs() =~= Seq::<ConstraintV>::empty());
        }
        r
    }

    /// Queues a deferred equality obligation between two type terms.
    fn add_constraint(&mut self, left: Type, right: Type) -> (r: Result<(), SlangError>)
        ensures
            r is Ok,
            final(self).env() == old(self).env(),
            final(self).defs() == old(self).defs(),
            final(self).cs() == old(self).cs().push(ConstraintV { left: left@, right: right@ }),
    {
        let ghost lv = left@;
        let ghost rv = right@;
        self.constraints.push(TypeConstraint { left, right });
        proof {
            assert(self.cs() =~= old(self).cs().push(ConstraintV { left: lv, right: rv }));
        }
        Ok(())
    }

    /// One unification step on a constraint, per [`unify_step`]: `None`
    /// discharges it, `Some` replaces it by the derived constraints, and
    /// an error reports a refuted or permanently stuck constraint.
    #[verifier::loop_isolation(false)]
    fn unify(&self, left: &Type, right: &Type) -> (r: Result<
        Option<Vec<TypeConstraint>>,
        SlangError,
    >)
        ensures
            match r {
                Ok(Some(cs)) => unify_step(left@, right@, self.env()) == UnifyStepV::Requeue(
                    constraints_view(cs@),
                ),
                Ok(None) => unify_step(left@, right@, self.env()) == UnifyStepV::Solved,
                Err(e) => (unify_step(left@, right@, self.env()) is Stuck || unify_step(
                    left@,
                    right@,
                    self.env(),
                ) is Failed) && e is Type,
            },
    {
        if type_eq_exec(left, right) {
            return Ok(None);
        }
        match (left, right) {
            (Type::Named(name), other) | (other, Type::Named(name)) => {
                match self.type_vars.get(name.as_str()) {
                    Some(resolved) => {
                        if has_named_exec(resolved) {
                            Err(
                                SlangError::Type(
                                    String::from_str("Unresolved type in constraint"),
                                ),
                            )
                        } else {
                            let one = TypeConstraint {
                                left: resolved.clone(),
                                right: other.clone(),
                            };
                            let ghost ov = one@;
                            let mut out: Vec<TypeConstraint> = Vec::new();
                            out.push(one);
                            proof {
                                assert(constraints_view(out@) =~= seq![ov]);
                            }
                            Ok(Some(out))
                        }
                    },
                    None => Err(
                        SlangError::Type(String::from_str("Unresolved type in constraint")),
                    ),
                }
            },
            (Type::Array(t1), Type::Array(t2)) => {
                let one = TypeConstraint { left: (**t1).clone(), right: (**t2).clone() };
                let ghost ov = one@;
                let mut out: Vec<TypeConstraint> = Vec::new();
                out.push(one);
                proof {
                    assert(constraints_view(out@) =~= seq![ov]);
                }
                Ok(Some(out))
            },
            (Type::Tuple(ts1), Type::Tuple(ts2)) => {
                proof {
                    crate::type_system::lemma_type_view_seq(ts1@);
                    crate::type_system::lemma_type_view_seq(ts2@);
                }
                if ts1.len() != ts2.len() {
                    return Err(SlangError::Type(String::from_str("Tuple length mismatch")));
                }
                Ok(Some(pair_constraints(ts1, ts2)))
            },
            (
                Type::Function { params: p1, return_type: r1, priority: pr1 },
                Type::Function { params: p2, return_type: r2, priority: pr2 },
            ) => {
                proof {
                    crate::type_system::lemma_type_view_seq(p1@);
                    crate::type_system::lemma_type_view_seq(p2@);
                }
                if p1.len() != p2.len() {
                    return Err(
                        SlangError::Type(String::from_str("Function parameter count mismatch")),
                    );
                }
                if !priority_eq(pr1, pr2) {
                    return Err(SlangError::Type(String::from_str("Function priority mismatch")));
                }
                let mut out = pair_constraints(p1, p2);
                let ghost outv = constraints_view(out@);
                let ret = TypeConstraint { left: (**r1).clone(), right: (**r2).clone() };
                let ghost rv = ret@;
                out.push(ret);
                proof {
                    assert(constraints_view(out@) =~= outv.push(rv));
                }
                Ok(Some(out))
            },
            _ => {
                let msg = String::from_str("Type mismatch: ").concat(
                    left.display_string().as_str(),
                ).concat(" vs ").concat(right.display_string().as_str());
                Err(SlangError::Type(msg))
            },
        }
    }

    /// Reduces the queued constraints to a verdict, per [`verdict`]: the
    /// worklist pops a constraint, discharges it or re-queues what one
    /// unification step derives from it, and repeats; it succeeds exactly
    /// when every constraint is discharged, and reports a type error for
    /// the first refuted or permanently stuck one. The queue is emptied
    /// either way.
    #[verifier::loop_isolation(false)]
    fn solve_constraints(&mut self) -> (r: Result<(), SlangError>)
        ensures
            final(self).env() == old(self).env(),
            final(self).defs() == old(self).defs(),
            final(self).cs().len() == 0,
            (r is Ok) <==> all_solved(old(self).cs(), old(self).env()),
            r matches Err(e) ==> e is Type,
    {
        let mut worklist: Vec<TypeConstraint> = Vec::new();
        core::mem::swap(&mut self.constraints, &mut worklist);
        proof {
            assert(self.cs() =~= Seq::<ConstraintV>::empty());
        }
        let ghost cs0 = constraints_view(worklist@);
        loop
            invariant
                self.env() == old(self).env(),
                self.defs() == old(self).defs(),
                self.cs().len() == 0,
                verdict(cs0, old(self).env()) == verdict(
                    constraints_view(worklist@),
                    old(self).env(),
                ),
            decreases cs_nc(constraints_view(worklist@)), cs_ts(constraints_view(worklist@)),
        {
            if worklist.is_empty() {
                break;
            }
            let ghost wv = constraints_view(worklist@);
            let ghost wpre = worklist@;
            let c = worklist.remove(0);
            proof {
                assert(constraints_view(worklist@) =~= wv.drop_first());
                assert(c@ == wv[0]);
                lemma_tsize_positive(wv[0].left);
                lemma_tsize_positive(wv[0].right);
                lemma_unify_step_requeue(wv[0].left, wv[0].right, old(self).env());
            }
            let step = self.unify(&c.left, &c.right);
            match step {
                Ok(None) => {},
                Ok(Some(mut derived)) => {
                    let ghost dv = constraints_view(derived@);
                    derived.append(&mut worklist);
                    worklist = derived;
                    proof {
                        assert(constraints_view(worklist@) =~= dv + wv.drop_first());
                        lemma_cs_sums_concat(dv, wv.drop_first());
                    }
                },
                Err(e) => {
                    return Err(e);
                },
            }
        }
        proof {
            assert(constraints_view(worklist@).len() == 0);
        }
        Ok(())
    }
}

/// Builds one owned constraint per position from two equal-length type
/// lists.
#[verifier::loop_isolation(false)]
fn pair_constraints(s1: &Vec<Type>, s2: &Vec<Type>) -> (out: Vec<TypeConstraint>)
    requires
        s1@.len() == s2@.len(),
    ensures
        constraints_view(out@) == zip_constraints(type_view_seq(s1@), type_view_seq(s2@)),
{
    let ghost tv1 = type_view_seq(s1@);
    let ghost tv2 = type_view_seq(s2@);
    proof {
        crate::type_system::lemma_type_view_seq(s1@);
        crate::type_system::lemma_type_view_seq(s2@);
    }
    let n: usize = s1.len();
    let mut out: Vec<TypeConstraint> = Vec::new();
    let mut i: usize = 0;
    while i < n
        invariant
            n == s1@.len() == s2@.len(),
            0 <= i <= n,
            out@.len() == i,
            forall|j: int|
                0 <= j < i ==> #[trigger] out@[j]@ == (ConstraintV {
                    left: tv1[j],
                    right: tv2[j],
                }),
        decreases n - i,
    {
        let c = TypeConstraint { left: s1[i].clone(), right: s2[i].clone() };
        out.push(c);
        i = i + 1;
    }
    proof {
        assert forall|j: int|
            0 <= j < n implies constraints_view(out@)[j] == zip_constraints(tv1, tv2)[j] by {
            assert(constraints_view(out@)[j] == out@[j]@);
        }
        assert(constraints_view(out@) =~= zip_constraints(tv1, tv2));
    }
    out
}

} // verus!

verus! {

/// The tentative type of a binary operation together with the constraints
/// it defers, or `None` when the operation is rejected outright.
///
/// Arithmetic and ordering still demand numeric operands immediately (the
/// result widening to `Float` as in the checker); equality defers an
/// equality constraint between the operand types; logic defers a `Bool`
/// constraint for each operand.
pub open spec fn infer_binop(op: BinaryOperator, l: TypeV, r: TypeV) -> Option<
    (TypeV, Seq<ConstraintV>),
> {
    match op {
        BinaryOperator::Add | BinaryOperator::Sub | BinaryOperator::Mul | BinaryOperator::Div
            | BinaryOperator::Divide | BinaryOperator::Modulo => if numeric(l) && numeric(r) {
            if l is Float || r is Float {
                Some((TypeV::Float, Seq::empty()))
            } else {
                Some((TypeV::Int, Seq::empty()))
            }
        } else {
            None
        },
        BinaryOperator::Mod => if numeric(l) && numeric(r) {
            Some((TypeV::Int, Seq::empty()))
        } else {
            None
        },
        BinaryOperator::Eq | BinaryOperator::Neq | BinaryOperator::Equals
            | BinaryOperator::NotEquals => Some(
            (TypeV::Bool, seq![ConstraintV { left: l, right: r }]),
        ),
        BinaryOperator::Lt | BinaryOperator::Lte | BinaryOperator::Gt | BinaryOperator::Gte
            | BinaryOperator::LessThan | BinaryOperator::LessThanEquals
            | BinaryOperator::GreaterThan | BinaryOperator::GreaterThanEquals => if numeric(l)
            && numeric(r) {
            Some((TypeV::Bool, Seq::empty()))
        } else {
            None
        },
        BinaryOperator::And | BinaryOperator::Or => Some(
            (
                TypeV::Bool,
                seq![
                    ConstraintV { left: l, right: TypeV::Bool },
                    ConstraintV { left: r, right: TypeV::Bool },
                ],
            ),
        ),
    }
}

/// The tentative type of a unary operation together with the constraints
/// it defers: negation demands a numeric operand immediately, logical not
/// defers a `Bool` constraint.
pub open spec fn infer_unop(op: UnaryOperator, t: TypeV) -> Option<(TypeV, Seq<ConstraintV>)> {
    match op {
        UnaryOperator::Neg | UnaryOperator::Negate => if numeric(t) {
            Some((t, Seq::empty()))
        } else {
            None
        },
        UnaryOperator::Not => Some(
            (TypeV::Bool, seq![ConstraintV { left: t, right: TypeV::Bool }]),
        ),
    }
}

/// One constraint per argument position, tying each argument type to its
/// parameter type.
pub open spec fn zip_constraints(args: Seq<TypeV>, params: Seq<TypeV>) -> Seq<ConstraintV> {
    Seq::new(args.len(), |i: int| ConstraintV { left: args[i], right: params[i] })
}

/// The tentative type of a call: the callee must be a function type of
/// matching arity; each argument defers a constraint against its
/// parameter, and the declared return type comes back.
pub open spec fn infer_call(ft: TypeV, args: Seq<TypeV>) -> Option<(TypeV, Seq<ConstraintV>)> {
    match ft {
        TypeV::Function { params, return_type, .. } => if params.len() == args.len() {
            Some((*return_type, zip_constraints(args, params)))
        } else {
            None
        },
        _ => None,
    }
}

/// The tentative type of an expression together with the constraints its
/// traversal defers, in emission order, or `None` when the expression is
/// rejected outright (an unbound name, a non-numeric arithmetic operand, a
/// call arity mismatch).
pub open spec fn infer_expr(env: Map<Seq<char>, TypeV>, e: Expression) -> Option<
    (TypeV, Seq<ConstraintV>),
>
    decreases e,
{
    match e {
        Expression::Literal(l) => Some((literal_type(l), Seq::empty())),
        Expression::Identifier(n) => if env.contains_key(n@) {
            Some((env[n@], Seq::empty()))
        } else {
            None
        },
        Expression::BinaryOp(b) => match (infer_expr(env, *b.left), infer_expr(env, *b.right)) {
            (Some((lt, cs1)), Some((rt, cs2))) => match infer_binop(b.op, lt, rt) {
                Some((t, cs3)) => Some((t, cs1 + cs2 + cs3)),
                None => None,
            },
            _ => None,
        },
        Expression::UnaryOp(u) => match infer_expr(env, *u.right) {
            Some((t, cs1)) => match infer_unop(u.op, t) {
                Some((rt, cs2)) => Some((rt, cs1 + cs2)),
                None => None,
            },
            None => None,
        },
        Expression::Call(c) => if env.contains_key(c.function@) {
            match infer_exprs(env, c.arguments@) {
                Some((ats, cs1)) => match infer_call(env[c.function@], ats) {
                    Some((t, cs2)) => Some((t, cs1 + cs2)),
                    None => None,
                },
                None => None,
            }
        } else {
            None
        },
        Expression::Assignment(a) => match infer_expr(env, *a.value) {
            Some((vt, cs1)) => if env.contains_key(a.target@) {
                Some((TypeV::Unit, cs1 + seq![ConstraintV { left: vt, right: env[a.target@] }]))
            } else {
                None
            },
            None => None,
        },
    }
}

/// The tentative types of a list of argument expressions together with the
/// constraints their traversal defers, in order.
pub open spec fn infer_exprs(env: Map<Seq<char>, TypeV>, args: Seq<Box<Expression>>) -> Option<
    (Seq<TypeV>, Seq<ConstraintV>),
>
    decreases args,
{
    if args.len() == 0 {
        Some((Seq::empty(), Seq::empty()))
    } else {
        match (infer_expr(env, *args[0]), infer_exprs(env, args.drop_first())) {
            (Some((t, cs1)), Some((ts, cs2))) => Some((seq![t] + ts, cs1 + cs2)),
            _ => None,
        }
    }
}

/// A record's fields as a name-to-type map, a later field of the same name
/// overwriting an earlier one.
pub open spec fn fields_map(fields: Seq<FieldV>) -> Map<Seq<char>, TypeV>
    decreases fields,
{
    if fields.len() == 0 {
        Map::empty()
    } else {
        fields_map(fields.drop_last()).insert(fields.last().name, fields.last().ty)
    }
}

/// The environment left by inferring a pattern against a scrutinee type
/// together with the constraints deferred: identifiers bind, a literal
/// pattern defers an equality constraint against the scrutinee, tuple
/// patterns must match a tuple type of the same arity, and a struct
/// pattern demands that the scrutinee be a defined named type carrying
/// every field the pattern mentions.
pub open spec fn infer_pattern_env(
    env: Map<Seq<char>, TypeV>,
    defs: Map<Seq<char>, TypeDefV>,
    p: Pattern,
    t: TypeV,
) -> Option<(Map<Seq<char>, TypeV>, Seq<ConstraintV>)>
    decreases p,
{
    match p {
        Pattern::Identifier(n) => Some((env.insert(n@, t), Seq::empty())),
        Pattern::Literal(l) => Some((env, seq![ConstraintV { left: literal_type(l), right: t }])),
        Pattern::Wildcard => Some((env, Seq::empty())),
        Pattern::Tuple(ps) => match t {
            TypeV::Tuple(ts) => if ps@.len() == ts.len() {
                infer_patterns_env(env, defs, ps@, ts)
            } else {
                None
            },
            _ => None,
        },
        Pattern::Struct { name, fields } => match t {
            TypeV::Named(tn) => if defs.contains_key(tn) {
                infer_field_patterns_env(env, defs, fields@, fields_map(defs[tn].fields))
            } else {
                None
            },
            _ => None,
        },
    }
}

/// Infers a list of patterns against a list of types of the same length,
/// threading the environment and accumulating constraints.
pub open spec fn infer_patterns_env(
    env: Map<Seq<char>, TypeV>,
    defs: Map<Seq<char>, TypeDefV>,
    ps: Seq<Pattern>,
    ts: Seq<TypeV>,
) -> Option<(Map<Seq<char>, TypeV>, Seq<ConstraintV>)>
    decreases ps,
{
    if ps.len() == 0 {
        Some((env, Seq::empty()))
    } else {
        match infer_pattern_env(env, defs, ps[0], ts[0]) {
            Some((e1, cs1)) => match infer_patterns_env(e1, defs, ps.drop_first(), ts.drop_first()) {
                Some((e2, cs2)) => Some((e2, cs1 + cs2)),
                None => None,
            },
            None => None,
        }
    }
}

/// Infers the named fields of a struct pattern against a record's field
/// map, threading the environment; an unknown field name fails.
pub open spec fn infer_field_patterns_env(
    env: Map<Seq<char>, TypeV>,
    defs: Map<Seq<char>, TypeDefV>,
    fps: Seq<FieldPattern>,
    fm: Map<Seq<char>, TypeV>,
) -> Option<(Map<Seq<char>, TypeV>, Seq<ConstraintV>)>
    decreases fps,
{
    if fps.len() == 0 {
        Some((env, Seq::empty()))
    } else if fm.contains_key(fps[0].name@) {
        match infer_pattern_env(env, defs, *fps[0].pattern, fm[fps[0].name@]) {
            Some((e1, cs1)) => match infer_field_patterns_env(e1, defs, fps.drop_first(), fm) {
                Some((e2, cs2)) => Some((e2, cs1 + cs2)),
                None => None,
            },
            None => None,
        }
    } else {
        None
    }
}

/// The environment left by inferring one statement together with the
/// constraints deferred. A `let` binds the inferred type and defers a
/// constraint against its annotation when one is present; `if` and
/// `while` defer a `Bool` constraint for the condition; a `for` still
/// demands an `Array` iterator immediately; `return` defers nothing, as
/// the engine tracks no per-function return context.
pub open spec fn infer_stmt(
    env: Map<Seq<char>, TypeV>,
    defs: Map<Seq<char>, TypeDefV>,
    s: Statement,
) -> Option<(Map<Seq<char>, TypeV>, Seq<ConstraintV>)>
    decreases s,
{
    match s {
        Statement::Let(ls) => match infer_expr(env, *ls.value) {
            Some((vt, cs1)) => match ls.type_annotation {
                Some(ann) => Some(
                    (
                        env.insert(ls.name@, vt),
                        cs1 + seq![ConstraintV { left: vt, right: ann@ }],
                    ),
                ),
                None => Some((env.insert(ls.name@, vt), cs1)),
            },
            None => None,
        },
        Statement::Return(rs) => match rs.value {
            None => Some((env, Seq::empty())),
            Some(v) => match infer_expr(env, *v) {
                Some((_, cs1)) => Some((env, cs1)),
                None => None,
            },
        },
        Statement::If(is) => match infer_expr(env, *is.condition) {
            Some((ct, cs1)) => {
                let cs1b = cs1 + seq![ConstraintV { left: ct, right: TypeV::Bool }];
                match infer_block(env, defs, is.then_block.statements@) {
                    Some((e1, cs2)) => match is.else_block {
                        Some(eb) => match infer_block(e1, defs, eb.statements@) {
                            Some((e2, cs3)) => Some((e2, cs1b + cs2 + cs3)),
                            None => None,
                        },
                        None => Some((e1, cs1b + cs2)),
                    },
                    None => None,
                }
            },
            None => None,
        },
        Statement::While(ws) => match infer_expr(env, *ws.condition) {
            Some((ct, cs1)) => {
                let cs1b = cs1 + seq![ConstraintV { left: ct, right: TypeV::Bool }];
                match infer_block(env, defs, ws.body.statements@) {
                    Some((e1, cs2)) => Some((e1, cs1b + cs2)),
                    None => None,
                }
            },
            None => None,
        },
        Statement::For(fs) => match infer_expr(env, *fs.iterator) {
            Some((TypeV::Array(elem), cs1)) => match infer_block(
                env.insert(fs.variable@, *elem),
                defs,
                fs.body.statements@,
            ) {
                Some((e1, cs2)) => Some((e1, cs1 + cs2)),
                None => None,
            },
            _ => None,
        },
        Statement::Match(ms) => match infer_expr(env, *ms.expression) {
            Some((vt, cs1)) => match infer_arms(env, defs, vt, ms.arms@) {
                Some((e1, cs2)) => Some((e1, cs1 + cs2)),
                None => None,
            },
            None => None,
        },
        Statement::Expression(e) => match infer_expr(env, *e) {
            Some((_, cs1)) => Some((env, cs1)),
            None => None,
        },
    }
}

/// Infers the arms of a `match` in order, threading the environment and
/// accumulating constraints.
pub open spec fn infer_arms(
    env: Map<Seq<char>, TypeV>,
    defs: Map<Seq<char>, TypeDefV>,
    vt: TypeV,
    arms: Seq<MatchArm>,
) -> Option<(Map<Seq<char>, TypeV>, Seq<ConstraintV>)>
    decreases arms,
{
    if arms.len() == 0 {
        Some((env, Seq::empty()))
    } else {
        match infer_pattern_env(env, defs, arms[0].pattern, vt) {
            Some((e1, cs1)) => match infer_block(e1, defs, arms[0].body.statements@) {
                Some((e2, cs2)) => match infer_arms(e2, defs, vt, arms.drop_first()) {
                    Some((e3, cs3)) => Some((e3, cs1 + cs2 + cs3)),
                    None => None,
                },
                None => None,
            },
            None => None,
        }
    }
}

/// Infers a statement list in order, threading the environment and
/// accumulating constraints.
pub open spec fn infer_block(
    env: Map<Seq<char>, TypeV>,
    defs: Map<Seq<char>, TypeDefV>,
    stmts: Seq<Statement>,
) -> Option<(Map<Seq<char>, TypeV>, Seq<ConstraintV>)>
    decreases stmts,
{
    if stmts.len() == 0 {
        Some((env, Seq::empty()))
    } else {
        match infer_stmt(env, defs, stmts[0]) {
            Some((e1, cs1)) => match infer_block(e1, defs, stmts.drop_first()) {
                Some((e2, cs2)) => Some((e2, cs1 + cs2)),
                None => None,
            },
            None => None,
        }
    }
}

/// Infers one function declaration: binds its parameters and walks its
/// body, mirroring the checker's traversal.
pub open spec fn infer_fun(
    env: Map<Seq<char>, TypeV>,
    defs: Map<Seq<char>, TypeDefV>,
    f: Function,
) -> Option<(Map<Seq<char>, TypeV>, Seq<ConstraintV>)> {
    infer_block(bind_params(env, f.parameters@), defs, f.body.statements@)
}

/// Infers a list of function declarations in order, threading the (flat,
/// shared) environment and accumulating constraints.
pub open spec fn infer_funs(
    env: Map<Seq<char>, TypeV>,
    defs: Map<Seq<char>, TypeDefV>,
    fs: Seq<Function>,
) -> Option<(Map<Seq<char>, TypeV>, Seq<ConstraintV>)>
    decreases fs,
{
    if fs.len() == 0 {
        Some((env, Seq::empty()))
    } else {
        match infer_fun(env, defs, fs[0]) {
            Some((e1, cs1)) => match infer_funs(e1, defs, fs.drop_first()) {
                Some((e2, cs2)) => Some((e2, cs1 + cs2)),
                None => None,
            },
            None => None,
        }
    }
}

/// Registers record-type definitions after the traversal: each name is
/// bound in the environment to its own named type, for the solver to
/// resolve against.
pub open spec fn reg_env(env: Map<Seq<char>, TypeV>, tds: Seq<TypeDefinition>) -> Map<
    Seq<char>,
    TypeV,
>
    decreases tds,
{
    if tds.len() == 0 {
        env
    } else {
        reg_env(env.insert(tds[0].name@, TypeV::Named(tds[0].name@)), tds.drop_first())
    }
}

} // verus!

verus! {

impl TypeInference {
    /// The type of a literal.
    fn infer_literal(&self, literal: &Literal) -> (r: Type)
        ensures
            r@ == literal_type(*literal),
    {
        match literal {
            Literal::Int(_) => Type::Int,
            Literal::Float(_) => Type::Float,
            Literal::Bool(_) => Type::Bool,
            Literal::String(_) => Type::String,
            Literal::Null => Type::Unit,
        }
    }

    /// The engine keeps no per-function return context, so `return`
    /// statements contribute no constraint.
    fn get_current_return_type(&self) -> (r: Option<Type>)
        ensures
            r is None,
    {
        None
    }

    /// Infers a binary operation over already-inferred operand types,
    /// deferring constraints per [`infer_binop`].
    fn infer_binary_operation(&mut self, op: &BinaryOperator, left: Type, right: Type) -> (r:
        Result<Type, SlangError>)
        ensures
            final(self).env() == old(self).env(),
            final(self).defs() == old(self).defs(),
            match r {
                Ok(t) => infer_binop(*op, left@, right@) matches Some((tv, cs)) && tv == t@
                    && final(self).cs() == old(self).cs() + cs,
                Err(e) => infer_binop(*op, left@, right@) is None && e is Type,
            },
    {
        let ghost lv = left@;
        let ghost rv = right@;
        match op {
            BinaryOperator::Add | BinaryOperator::Sub | BinaryOperator::Mul | BinaryOperator::Div
                | BinaryOperator::Divide | BinaryOperator::Modulo => {
                if left.is_numeric() && right.is_numeric() {
                    proof {
                        assert(self.cs() =~= self.cs() + Seq::<ConstraintV>::empty());
                    }
                    if matches!(left, Type::Float) || matches!(right, Type::Float) {
                        Ok(Type::Float)
                    } else {
                        Ok(Type::Int)
                    }
                } else {
                    Err(
                        SlangError::Type(
                            String::from_str("Numeric operation requires numeric operands"),
                        ),
                    )
                }
            },
            BinaryOperator::Mod => {
                if left.is_numeric() && right.is_numeric() {
                    proof {
                        assert(self.cs() =~= self.cs() + Seq::<ConstraintV>::empty());
                    }
                    Ok(Type::Int)
                } else {
                    Err(
                        SlangError::Type(
                            String::from_str("Modulo operation requires numeric operands"),
                        ),
                    )
                }
            },
            BinaryOperator::Eq | BinaryOperator::Neq | BinaryOperator::Equals
                | BinaryOperator::NotEquals => {
                let rr = self.add_constraint(left, right);
                if let Err(e) = rr {
                    return Err(e);
                }
                proof {
                    assert(self.cs() =~= old(self).cs() + seq![
                        ConstraintV { left: lv, right: rv },
                    ]);
                }
                Ok(Type::Bool)
            },
            BinaryOperator::Lt | BinaryOperator::Lte | BinaryOperator::Gt | BinaryOperator::Gte
                | BinaryOperator::LessThan | BinaryOperator::LessThanEquals
                | BinaryOperator::GreaterThan | BinaryOperator::GreaterThanEquals => {
                if left.is_numeric() && right.is_numeric() {
                    proof {
                        assert(self.cs() =~= self.cs() + Seq::<ConstraintV>::empty());
                    }
                    Ok(Type::Bool)
                } else {
                    Err(SlangError::Type(String::from_str("Comparison requires numeric operands")))
                }
            },
            BinaryOperator::And | BinaryOperator::Or => {
                let r1 = self.add_constraint(left, Type::Bool);
                if let Err(e) = r1 {
                    return Err(e);
                }
                let r2 = self.add_constraint(right, Type::Bool);
                if let Err(e) = r2 {
                    return Err(e);
                }
                proof {
                    assert(self.cs() =~= old(self).cs() + seq![
                        ConstraintV { left: lv, right: TypeV::Bool },
                        ConstraintV { left: rv, right: TypeV::Bool },
                    ]);
                }
                Ok(Type::Bool)
            },
        }
    }

    /// Infers a unary operation over an already-inferred operand type,
    /// deferring constraints per [`infer_unop`].
    fn infer_unary_operation(&mut self, op: &UnaryOperator, expr: Type) -> (r: Result<
        Type,
        SlangError,
    >)
        ensures
            final(self).env() == old(self).env(),
            final(self).defs() == old(self).defs(),
            match r {
                Ok(t) => infer_unop(*op, expr@) matches Some((tv, cs)) && tv == t@
                    && final(self).cs() == old(self).cs() + cs,
                Err(e) => infer_unop(*op, expr@) is None && e is Type,
            },
    {
        let ghost ev = expr@;
        match op {
            UnaryOperator::Neg | UnaryOperator::Negate => {
                if expr.is_numeric() {
                    proof {
                        assert(self.cs() =~= self.cs() + Seq::<ConstraintV>::empty());
                    }
                    Ok(expr)
                } else {
                    Err(SlangError::Type(String::from_str("Negation requires numeric operand")))
                }
            },
            UnaryOperator::Not => {
                let rr = self.add_constraint(expr, Type::Bool);
                if let Err(e) = rr {
                    return Err(e);
                }
                proof {
                    assert(self.cs() =~= old(self).cs() + seq![
                        ConstraintV { left: ev, right: TypeV::Bool },
                    ]);
                }
                Ok(Type::Bool)
            },
        }
    }

    /// Infers a call of a value of type `function_type`, deferring one
    /// constraint per argument position, per [`infer_call`].
    #[verifier::loop_isolation(false)]
    fn infer_function_call(&mut self, function_type: Type, arg_types: Vec<Type>) -> (r: Result<
        Type,
        SlangError,
    >)
        ensures
            final(self).env() == old(self).env(),
            final(self).defs() == old(self).defs(),
            match r {
                Ok(t) => infer_call(function_type@, type_view_seq(arg_types@)) matches Some(
                    (tv, cs),
                ) && tv == t@ && final(self).cs() == old(self).cs() + cs,
                Err(e) => infer_call(function_type@, type_view_seq(arg_types@)) is None
                    && e is Type,
            },
    {
        proof {
            crate::type_system::lemma_type_view_seq(arg_types@);
        }
        let ghost ft0 = function_type;
        let ghost argv = type_view_seq(arg_types@);
        if let Type::Function { params, return_type, priority: _fp } = function_type {
            proof {
                crate::type_system::lemma_type_view_seq(params@);
                assert(ft0@ matches TypeV::Function { params: pv, .. } && pv == type_view_seq(
                    params@,
                ));
            }
            if params.len() != arg_types.len() {
                return Err(SlangError::Type(String::from_str("Wrong number of arguments")));
            }
            let ghost pv = type_view_seq(params@);
            let n: usize = params.len();
            let mut i: usize = 0;
            while i < n
                invariant
                    n == params@.len() == arg_types@.len(),
                    0 <= i <= n,
                    self.env() == old(self).env(),
                    self.defs() == old(self).defs(),
                    self.cs() == old(self).cs() + zip_constraints(argv, pv).take(i as int),
                decreases n - i,
            {
                let ac = arg_types[i].clone();
                let pc = params[i].clone();
                let rr = self.add_constraint(ac, pc);
                if let Err(e) = rr {
                    return Err(e);
                }
                proof {
                    assert(zip_constraints(argv, pv).take(i + 1 as int) =~= zip_constraints(
                        argv,
                        pv,
                    ).take(i as int).push(ConstraintV { left: argv[i as int], right: pv[i as int] }));
                    assert(old(self).cs() + zip_constraints(argv, pv).take(i as int).push(
                        ConstraintV { left: argv[i as int], right: pv[i as int] },
                    ) =~= (old(self).cs() + zip_constraints(argv, pv).take(i as int)).push(
                        ConstraintV { left: argv[i as int], right: pv[i as int] },
                    ));
                }
                i = i + 1;
            }
            proof {
                assert(zip_constraints(argv, pv).take(n as int) =~= zip_constraints(argv, pv));
            }
            Ok(*return_type)
        } else {
            Err(SlangError::Type(String::from_str("Not a function")))
        }
    }
}

} // verus!

verus! {

/// Extending an argument list extends its inferred types and constraints.
proof fn lemma_infer_exprs_snoc(
    env: Map<Seq<char>, TypeV>,
    args: Seq<Box<Expression>>,
    x: Box<Expression>,
)
    ensures
        infer_exprs(env, args.push(x)) == (match infer_exprs(env, args) {
            Some((ts, cs)) => match infer_expr(env, *x) {
                Some((t, cs2)) => Some((ts.push(t), cs + cs2)),
                None => None,
            },
            None => None,
        }),
    decreases args.len(),
{
    if args.len() == 0 {
        assert(args.push(x)[0] == x);
        assert(args.push(x).drop_first() =~= Seq::<Box<Expression>>::empty());
        match infer_expr(env, *x) {
            Some((t, cs2)) => {
                assert(seq![t] + Seq::<TypeV>::empty() =~= Seq::<TypeV>::empty().push(t));
                assert(cs2 + Seq::<ConstraintV>::empty() =~= cs2);
                assert(Seq::<ConstraintV>::empty() + cs2 =~= cs2);
            },
            None => {},
        }
    } else {
        assert(args.push(x)[0] == args[0]);
        assert(args.push(x).drop_first() =~= args.drop_first().push(x));
        assert(infer_exprs(env, args.push(x).drop_first()) == infer_exprs(
            env,
            args.drop_first().push(x),
        ));
        assert(infer_exprs(env, args.push(x)) == (match (
            infer_expr(env, *args[0]),
            infer_exprs(env, args.push(x).drop_first()),
        ) {
            (Some((t0, cs0)), Some((ts2, cs2))) => Some((seq![t0] + ts2, cs0 + cs2)),
            _ => None,
        }));
        lemma_infer_exprs_snoc(env, args.drop_first(), x);
        match infer_expr(env, *args[0]) {
            Some((t0, cs0)) => {
                match infer_exprs(env, args.drop_first()) {
                    Some((ts1, cs1)) => {
                        match infer_expr(env, *x) {
                            Some((t, cs2)) => {
                                assert(seq![t0] + ts1.push(t) =~= (seq![t0] + ts1).push(t));
                                assert(cs0 + (cs1 + cs2) =~= (cs0 + cs1) + cs2);
                            },
                            None => {},
                        }
                    },
                    None => {},
                }
            },
            None => {},
        }
    }
}

/// An argument list with an ill-typed member has no inferred type list.
proof fn lemma_infer_exprs_none(env: Map<Seq<char>, TypeV>, args: Seq<Box<Expression>>, i: int)
    requires
        0 <= i < args.len(),
        infer_expr(env, *args[i]) is None,
    ensures
        infer_exprs(env, args) is None,
    decreases args.len(),
{
    if i > 0 {
        assert(args.drop_first()[i - 1] == args[i]);
        lemma_infer_exprs_none(env, args.drop_first(), i - 1);
    }
}

impl TypeInference {
    /// Infers the tentative type of an expression, queuing the constraints
    /// its traversal defers, per [`infer_expr`]; fails with a type error
    /// exactly when the judgment rejects the expression outright.
    #[verifier::loop_isolation(false)]
    #[verifier::rlimit(60)]
    fn infer_expression(&mut self, expression: &Expression) -> (r: Result<Type, SlangError>)
        ensures
            final(self).env() == old(self).env(),
            final(self).defs() == old(self).defs(),
            match r {
                Ok(t) => infer_expr(old(self).env(), *expression) matches Some((tv, cs)) && tv
                    == t@ && final(self).cs() == old(self).cs() + cs,
                Err(e) => infer_expr(old(self).env(), *expression) is None && e is Type,
            },
        decreases *expression,
    {
        let ghost env0 = old(self).env();
        match expression {
            Expression::Literal(lit) => {
                proof {
                    assert(self.cs() =~= self.cs() + Seq::<ConstraintV>::empty());
                }
                Ok(self.infer_literal(lit))
            },
            Expression::Identifier(name) => match self.type_vars.get(name.as_str()) {
                Some(t) => {
                    proof {
                        assert(self.cs() =~= self.cs() + Seq::<ConstraintV>::empty());
                    }
                    Ok(t.clone())
                },
                None => Err(SlangError::Type(String::from_str("Undefined variable"))),
            },
            Expression::BinaryOp(op) => {
                let left_type = self.infer_expression(&op.left)?;
                let right_type = self.infer_expression(&op.right)?;
                let ghost p1 = infer_expr(env0, *op.left)->0;
                let ghost p2 = infer_expr(env0, *op.right)->0;
                let rr = self.infer_binary_operation(&op.op, left_type, right_type);
                match rr {
                    Ok(t) => {
                        proof {
                            let p3 = infer_binop(op.op, p1.0, p2.0)->0;
                            assert(self.cs() =~= old(self).cs() + (p1.1 + p2.1 + p3.1));
                        }
                        Ok(t)
                    },
                    Err(e) => Err(e),
                }
            },
            Expression::UnaryOp(op) => {
                let expr_t = self.infer_expression(&op.right)?;
                let ghost p1 = infer_expr(env0, *op.right)->0;
                let rr = self.infer_unary_operation(&op.op, expr_t);
                match rr {
                    Ok(t) => {
                        proof {
                            let p2 = infer_unop(op.op, p1.0)->0;
                            assert(self.cs() =~= old(self).cs() + (p1.1 + p2.1));
                        }
                        Ok(t)
                    },
                    Err(e) => Err(e),
                }
            },
            Expression::Call(call) => {
                let function_type = match self.type_vars.get(call.function.as_str()) {
                    Some(t) => t.clone(),
                    None => {
                        return Err(SlangError::Type(String::from_str("Undefined variable")));
                    },
                };
                let n: usize = call.arguments.len();
                let mut arg_types: Vec<Type> = Vec::new();
                let ghost mut csacc = Seq::<ConstraintV>::empty();
                let mut i: usize = 0;
                proof {
                    assert(call.arguments@.take(0) =~= Seq::<Box<Expression>>::empty());
                    assert(type_view_seq(arg_types@) =~= Seq::<TypeV>::empty());
                    assert(self.cs() =~= old(self).cs() + csacc);
                }
                while i < n
                    invariant
                        n == call.arguments@.len(),
                        0 <= i <= n,
                        arg_types@.len() == i,
                        self.env() == old(self).env(),
                        self.defs() == old(self).defs(),
                        infer_exprs(env0, call.arguments@.take(i as int)) == Some(
                            (type_view_seq(arg_types@), csacc),
                        ),
                        self.cs() == old(self).cs() + csacc,
                    decreases n - i,
                {
                    proof {
                        assert(decreases_to!(*expression => call.arguments@[i as int]));
                    }
                    let at = self.infer_expression(&call.arguments[i]);
                    match at {
                        Ok(t) => {
                            let ghost prevseq = arg_types@;
                            let ghost tvprev = type_view_seq(arg_types@);
                            let ghost tg = t@;
                            let ghost pcs = (infer_expr(env0, *call.arguments@[i as int])->0).1;
                            arg_types.push(t);
                            proof {
                                assert(arg_types@.drop_last() =~= prevseq);
                                assert(type_view_seq(arg_types@) =~= tvprev.push(tg));
                                lemma_infer_exprs_snoc(
                                    env0,
                                    call.arguments@.take(i as int),
                                    call.arguments@[i as int],
                                );
                                assert(call.arguments@.take(i as int).push(
                                    call.arguments@[i as int],
                                ) =~= call.arguments@.take(i + 1 as int));
                                assert(self.cs() =~= old(self).cs() + (csacc + pcs));
                                csacc = csacc + pcs;
                            }
                        },
                        Err(e) => {
                            proof {
                                lemma_infer_exprs_none(env0, call.arguments@, i as int);
                            }
                            return Err(e);
                        },
                    }
                    i = i + 1;
                }
                proof {
                    assert(call.arguments@.take(n as int) =~= call.arguments@);
                }
                let ghost csargs = csacc;
                let ghost argv = type_view_seq(arg_types@);
                let rr = self.infer_function_call(function_type, arg_types);
                match rr {
                    Ok(t) => {
                        proof {
                            let pc = infer_call(env0[call.function@], argv)->0;
                            assert(self.cs() =~= old(self).cs() + (csargs + pc.1));
                        }
                        Ok(t)
                    },
                    Err(e) => Err(e),
                }
            },
            Expression::Assignment(assign) => {
                let value_type = self.infer_expression(&assign.value)?;
                let ghost p1 = infer_expr(env0, *assign.value)->0;
                let target_type = match self.type_vars.get(assign.target.as_str()) {
                    Some(t) => t.clone(),
                    None => {
                        return Err(SlangError::Type(String::from_str("Undefined variable")));
                    },
                };
                let ghost vtg = value_type@;
                let ghost ttg = target_type@;
                let rr = self.add_constraint(value_type, target_type);
                if let Err(e) = rr {
                    return Err(e);
                }
                proof {
                    assert(self.cs() =~= old(self).cs() + (p1.1 + seq![
                        ConstraintV { left: vtg, right: ttg },
                    ]));
                }
                Ok(Type::Unit)
            },
        }
    }
}

} // verus!

verus! {

impl TypeInference {
    /// The field map of a defined record type: field name to declared
    /// type, a later field of the same name overwriting an earlier one.
    #[verifier::loop_isolation(false)]
    fn get_field_types(&self, tname: &str) -> (r: Result<StringHashMap<Type>, SlangError>)
        ensures
            match r {
                Ok(m) => self.defs().contains_key(tname@) && env_view(m@) == fields_map(
                    self.defs()[tname@].fields,
                ),
                Err(e) => !self.defs().contains_key(tname@) && e is Type,
            },
    {
        let td = match self.type_definitions.get(tname) {
            Some(td) => td,
            None => {
                return Err(SlangError::Type(String::from_str("Type not found")));
            },
        };
        let ghost fv = td@.fields;
        let mut m: StringHashMap<Type> = StringHashMap::new();
        proof {
            assert(fv.take(0) =~= Seq::<FieldV>::empty());
            assert(env_view(m@) =~= fields_map(fv.take(0)));
        }
        let n: usize = td.fields.len();
        let mut i: usize = 0;
        while i < n
            invariant
                n == td.fields@.len(),
                0 <= i <= n,
                fv.len() == n,
                env_view(m@) == fields_map(fv.take(i as int)),
            decreases n - i,
        {
            let nm = td.fields[i].name.clone();
            let tv = td.fields[i].type_annotation.clone();
            let ghost prem = m@;
            let ghost tvg = tv;
            m.insert(nm, tv);
            proof {
                crate::type_system::checker::lemma_env_view_insert(
                    prem,
                    fv[i as int].name,
                    tvg,
                );
                assert(fv.take(i + 1 as int).drop_last() =~= fv.take(i as int));
                assert(fv.take(i + 1 as int).last() == fv[i as int]);
            }
            i = i + 1;
        }
        proof {
            assert(fv.take(n as int) =~= fv);
        }
        Ok(m)
    }

    /// Infers a pattern against a scrutinee type, binding the names the
    /// pattern introduces and queuing the constraints it defers, per
    /// [`infer_pattern_env`].
    #[verifier::loop_isolation(false)]
    #[verifier::rlimit(60)]
    fn infer_pattern(&mut self, pattern: &Pattern, value_type: &Type) -> (r: Result<
        (),
        SlangError,
    >)
        ensures
            final(self).defs() == old(self).defs(),
            match r {
                Ok(_) => infer_pattern_env(
                    old(self).env(),
                    old(self).defs(),
                    *pattern,
                    value_type@,
                ) matches Some((e2, cs)) && final(self).env() == e2 && final(self).cs() == old(
                    self,
                ).cs() + cs,
                Err(e) => infer_pattern_env(
                    old(self).env(),
                    old(self).defs(),
                    *pattern,
                    value_type@,
                ) is None && e is Type,
            },
        decreases *pattern,
    {
        let ghost env0 = old(self).env();
        let ghost defs0 = old(self).defs();
        match pattern {
            Pattern::Identifier(name) => {
                let ghost vg = *value_type;
                self.type_vars.insert(name.clone(), value_type.clone());
                proof {
                    crate::type_system::checker::lemma_env_view_insert(
                        old(self).type_vars@,
                        name@,
                        vg,
                    );
                    assert(self.cs() =~= self.cs() + Seq::<ConstraintV>::empty());
                }
                Ok(())
            },
            Pattern::Literal(lit) => {
                let lit_type = self.infer_literal(lit);
                let ghost lg = lit_type@;
                let ghost vg = value_type@;
                let rr = self.add_constraint(lit_type, value_type.clone());
                if let Err(e) = rr {
                    return Err(e);
                }
                proof {
                    assert(self.cs() =~= old(self).cs() + seq![
                        ConstraintV { left: lg, right: vg },
                    ]);
                }
                Ok(())
            },
            Pattern::Wildcard => {
                proof {
                    assert(self.cs() =~= self.cs() + Seq::<ConstraintV>::empty());
                }
                Ok(())
            },
            Pattern::Tuple(patterns) => {
                if let Type::Tuple(types) = value_type {
                    proof {
                        crate::type_system::lemma_type_view_seq(types@);
                    }
                    if patterns.len() != types.len() {
                        return Err(
                            SlangError::Type(String::from_str("Tuple pattern length mismatch")),
                        );
                    }
                    let ghost tsv = type_view_seq(types@);
                    let ghost mut csacc = Seq::<ConstraintV>::empty();
                    let n: usize = patterns.len();
                    let mut i: usize = 0;
                    proof {
                        assert(patterns@.skip(0) =~= patterns@);
                        assert(tsv.skip(0) =~= tsv);
                        assert(self.cs() =~= old(self).cs() + csacc);
                        assert(infer_patterns_env(env0, defs0, patterns@, tsv) == (
                        match infer_patterns_env(
                            self.env(),
                            defs0,
                            patterns@.skip(0),
                            tsv.skip(0),
                        ) {
                            Some((e2, c2)) => Some((e2, csacc + c2)),
                            None => None,
                        })) by {
                            match infer_patterns_env(env0, defs0, patterns@, tsv) {
                                Some((e2, c2)) => {
                                    assert(csacc + c2 =~= c2);
                                },
                                None => {},
                            }
                        }
                    }
                    while i < n
                        invariant
                            n == patterns@.len() == types@.len(),
                            0 <= i <= n,
                            self.defs() == defs0,
                            self.cs() == old(self).cs() + csacc,
                            infer_patterns_env(env0, defs0, patterns@, tsv) == (
                            match infer_patterns_env(
                                self.env(),
                                defs0,
                                patterns@.skip(i as int),
                                tsv.skip(i as int),
                            ) {
                                Some((e2, c2)) => Some((e2, csacc + c2)),
                                None => None,
                            }),
                        decreases n - i,
                    {
                        proof {
                            assert(decreases_to!(*pattern => pattern->Tuple_0));
                            assert(decreases_to!(pattern->Tuple_0 => pattern->Tuple_0@));
                            assert(decreases_to!(patterns@ => patterns@[i as int]));
                            assert(patterns@.skip(i as int)[0] == patterns@[i as int]);
                            assert(tsv.skip(i as int)[0] == tsv[i as int]);
                            assert(tsv[i as int] == types@[i as int]@);
                            assert(patterns@.skip(i as int).drop_first() =~= patterns@.skip(
                                i + 1 as int,
                            ));
                            assert(tsv.skip(i as int).drop_first() =~= tsv.skip(i + 1 as int));
                        }
                        let ghost envpre = self.env();
                        let ghost cspre = self.cs();
                        let rr = self.infer_pattern(&patterns[i], &types[i]);
                        if let Err(e) = rr {
                            return Err(e);
                        }
                        proof {
                            let pp = infer_pattern_env(
                                envpre,
                                defs0,
                                patterns@[i as int],
                                tsv[i as int],
                            )->0;
                            assert forall|c2x: Seq<ConstraintV>|
                                true implies csacc + (pp.1 + c2x) =~= (csacc + pp.1) + c2x by {}
                            csacc = csacc + pp.1;
                        }
                        i = i + 1;
                    }
                    proof {
                        assert(patterns@.skip(n as int).len() == 0);
                    }
                    Ok(())
                } else {
                    Err(SlangError::Type(String::from_str("Expected tuple type")))
                }
            },
            Pattern::Struct { name, fields } => {
                if let Type::Named(tname) = value_type {
                    let field_types = match self.get_field_types(tname.as_str()) {
                        Ok(m) => m,
                        Err(e) => {
                            return Err(e);
                        },
                    };
                    let ghost fm = fields_map(defs0[tname@].fields);
                    let ghost mut csacc = Seq::<ConstraintV>::empty();
                    let n: usize = fields.len();
                    let mut i: usize = 0;
                    proof {
                        assert(fields@.skip(0) =~= fields@);
                        assert(self.cs() =~= old(self).cs() + csacc);
                        assert(infer_field_patterns_env(env0, defs0, fields@, fm) == (
                        match infer_field_patterns_env(self.env(), defs0, fields@.skip(0), fm) {
                            Some((e2, c2)) => Some((e2, csacc + c2)),
                            None => None,
                        })) by {
                            match infer_field_patterns_env(env0, defs0, fields@, fm) {
                                Some((e2, c2)) => {
                                    assert(csacc + c2 =~= c2);
                                },
                                None => {},
                            }
                        }
                    }
                    while i < n
                        invariant
                            n == fields@.len(),
                            0 <= i <= n,
                            self.defs() == defs0,
                            self.cs() == old(self).cs() + csacc,
                            env_view(field_types@) == fm,
                            infer_field_patterns_env(env0, defs0, fields@, fm) == (
                            match infer_field_patterns_env(
                                self.env(),
                                defs0,
                                fields@.skip(i as int),
                                fm,
                            ) {
                                Some((e2, c2)) => Some((e2, csacc + c2)),
                                None => None,
                            }),
                        decreases n - i,
                    {
                        proof {
                            assert(fields@.skip(i as int)[0] == fields@[i as int]);
                            assert(fields@.skip(i as int).drop_first() =~= fields@.skip(
                                i + 1 as int,
                            ));
                        }
                        let ft = match field_types.get(fields[i].name.as_str()) {
                            Some(ft) => ft.clone(),
                            None => {
                                return Err(SlangError::Type(String::from_str("Field not found")));
                            },
                        };
                        proof {
                            assert(decreases_to!(*pattern => pattern->fields));
                            assert(decreases_to!(pattern->fields => pattern->fields@));
                            assert(decreases_to!(pattern->fields@ => pattern->fields@[i as int]));
                        }
                        let ghost envpre = self.env();
                        let rr = self.infer_pattern(&fields[i].pattern, &ft);
                        if let Err(e) = rr {
                            return Err(e);
                        }
                        proof {
                            let pp = infer_pattern_env(
                                envpre,
                                defs0,
                                *fields@[i as int].pattern,
                                fm[fields@[i as int].name@],
                            )->0;
                            assert forall|c2x: Seq<ConstraintV>|
                                true implies csacc + (pp.1 + c2x) =~= (csacc + pp.1) + c2x by {}
                            csacc = csacc + pp.1;
                        }
                        i = i + 1;
                    }
                    proof {
                        assert(fields@.skip(n as int).len() == 0);
                    }
                    Ok(())
                } else {
                    Err(SlangError::Type(String::from_str("Expected struct type")))
                }
            },
        }
    }
}

} // verus!

verus! {

impl TypeInference {
    /// Infers one statement, updating the environment and queuing deferred
    /// constraints, per [`infer_stmt`].
    #[verifier::loop_isolation(false)]
    #[verifier::rlimit(80)]
    fn infer_statement(&mut self, statement: &Statement) -> (r: Result<(), SlangError>)
        ensures
            final(self).defs() == old(self).defs(),
            match r {
                Ok(_) => infer_stmt(old(self).env(), old(self).defs(), *statement) matches Some(
                    (e2, cs),
                ) && final(self).env() == e2 && final(self).cs() == old(self).cs() + cs,
                Err(e) => infer_stmt(old(self).env(), old(self).defs(), *statement) is None
                    && e is Type,
            },
        decreases *statement,
    {
        let ghost env0 = old(self).env();
        let ghost defs0 = old(self).defs();
        match statement {
            Statement::Let(stmt) => {
                let value_type = self.infer_expression(&stmt.value)?;
                let ghost p1 = infer_expr(env0, *stmt.value)->0;
                let ghost vg = value_type;
                match &stmt.type_annotation {
                    Some(annotated_type) => {
                        let ac = annotated_type.clone();
                        let vc = value_type.clone();
                        let rr = self.add_constraint(vc, ac);
                        if let Err(e) = rr {
                            return Err(e);
                        }
                        self.type_vars.insert(stmt.name.clone(), value_type);
                        proof {
                            crate::type_system::checker::lemma_env_view_insert(
                                old(self).type_vars@,
                                stmt.name@,
                                vg,
                            );
                            assert(self.cs() =~= old(self).cs() + (p1.1 + seq![
                                ConstraintV { left: p1.0, right: annotated_type@ },
                            ]));
                        }
                        Ok(())
                    },
                    None => {
                        self.type_vars.insert(stmt.name.clone(), value_type);
                        proof {
                            crate::type_system::checker::lemma_env_view_insert(
                                old(self).type_vars@,
                                stmt.name@,
                                vg,
                            );
                        }
                        Ok(())
                    },
                }
            },
            Statement::Return(stmt) => {
                match &stmt.value {
                    Some(value) => {
                        let value_type = self.infer_expression(value)?;
                        if let Some(return_type) = self.get_current_return_type() {
                            let rr = self.add_constraint(value_type, return_type);
                            if let Err(e) = rr {
                                return Err(e);
                            }
                        }
                        Ok(())
                    },
                    None => {
                        proof {
                            assert(self.cs() =~= self.cs() + Seq::<ConstraintV>::empty());
                        }
                        Ok(())
                    },
                }
            },
            Statement::If(stmt) => {
                let condition_type = self.infer_expression(&stmt.condition)?;
                let ghost p1 = infer_expr(env0, *stmt.condition)->0;
                let rr = self.add_constraint(condition_type, Type::Bool);
                if let Err(e) = rr {
                    return Err(e);
                }
                let ghost cs1b = p1.1 + seq![ConstraintV { left: p1.0, right: TypeV::Bool }];
                proof {
                    assert(self.cs() =~= old(self).cs() + cs1b);
                    assert(decreases_to!(*statement => statement->If_0));
                }
                let ghost envb = self.env();
                self.infer_block(&stmt.then_block)?;
                let ghost p2 = infer_block(envb, defs0, stmt.then_block.statements@)->0;
                proof {
                    assert(self.cs() =~= old(self).cs() + (cs1b + p2.1));
                }
                if let Some(else_block) = &stmt.else_block {
                    let ghost envc = self.env();
                    self.infer_block(else_block)?;
                    proof {
                        let p3 = infer_block(envc, defs0, else_block.statements@)->0;
                        assert(self.cs() =~= old(self).cs() + (cs1b + p2.1 + p3.1));
                    }
                }
                Ok(())
            },
            Statement::While(stmt) => {
                let condition_type = self.infer_expression(&stmt.condition)?;
                let ghost p1 = infer_expr(env0, *stmt.condition)->0;
                let rr = self.add_constraint(condition_type, Type::Bool);
                if let Err(e) = rr {
                    return Err(e);
                }
                let ghost cs1b = p1.1 + seq![ConstraintV { left: p1.0, right: TypeV::Bool }];
                proof {
                    assert(self.cs() =~= old(self).cs() + cs1b);
                    assert(decreases_to!(*statement => statement->While_0));
                }
                let ghost envb = self.env();
                self.infer_block(&stmt.body)?;
                proof {
                    let p2 = infer_block(envb, defs0, stmt.body.statements@)->0;
                    assert(self.cs() =~= old(self).cs() + (cs1b + p2.1));
                }
                Ok(())
            },
            Statement::For(stmt) => {
                let iterator_type = self.infer_expression(&stmt.iterator)?;
                let ghost p1 = infer_expr(env0, *stmt.iterator)->0;
                let ghost itg = iterator_type;
                if let Type::Array(element_type) = iterator_type {
                    let ghost evg = *element_type;
                    proof {
                        assert(itg@ matches TypeV::Array(ev) && *ev == evg@);
                    }
                    self.type_vars.insert(stmt.variable.clone(), *element_type);
                    proof {
                        crate::type_system::checker::lemma_env_view_insert(
                            old(self).type_vars@,
                            stmt.variable@,
                            evg,
                        );
                        assert(decreases_to!(*statement => statement->For_0));
                    }
                    let ghost envb = self.env();
                    let rb = self.infer_block(&stmt.body);
                    if let Err(e) = rb {
                        proof {
                            assert(infer_block(envb, defs0, stmt.body.statements@) is None);
                            assert(envb == env0.insert(stmt.variable@, evg@));
                            assert(p1.0 == TypeV::Array(Box::new(evg@)));
                            assert(infer_stmt(env0, defs0, *statement) is None);
                        }
                        return Err(e);
                    }
                    proof {
                        assert(envb == env0.insert(stmt.variable@, evg@));
                        assert(p1.0 == TypeV::Array(Box::new(evg@)));
                        let p2 = infer_block(envb, defs0, stmt.body.statements@)->0;
                        assert(self.cs() =~= old(self).cs() + (p1.1 + p2.1));
                    }
                    Ok(())
                } else {
                    Err(SlangError::Type(String::from_str("Iterator must be an array")))
                }
            },
            Statement::Match(stmt) => {
                let value_type = self.infer_expression(&stmt.expression)?;
                let ghost p1 = infer_expr(env0, *stmt.expression)->0;
                let ghost vt = value_type@;
                let ghost mut csacc = Seq::<ConstraintV>::empty();
                let n: usize = stmt.arms.len();
                let mut i: usize = 0;
                let ghost env1 = self.env();
                proof {
                    assert(stmt.arms@.skip(0) =~= stmt.arms@);
                    assert(self.cs() =~= (old(self).cs() + p1.1) + csacc);
                    assert(infer_arms(env1, defs0, vt, stmt.arms@) == (match infer_arms(
                        self.env(),
                        defs0,
                        vt,
                        stmt.arms@.skip(0),
                    ) {
                        Some((e2, c2)) => Some((e2, csacc + c2)),
                        None => None,
                    })) by {
                        match infer_arms(env1, defs0, vt, stmt.arms@) {
                            Some((e2, c2)) => {
                                assert(csacc + c2 =~= c2);
                            },
                            None => {},
                        }
                    }
                }
                while i < n
                    invariant
                        n == stmt.arms@.len(),
                        0 <= i <= n,
                        self.defs() == defs0,
                        self.cs() == (old(self).cs() + p1.1) + csacc,
                        infer_arms(env1, defs0, vt, stmt.arms@) == (match infer_arms(
                            self.env(),
                            defs0,
                            vt,
                            stmt.arms@.skip(i as int),
                        ) {
                            Some((e2, c2)) => Some((e2, csacc + c2)),
                            None => None,
                        }),
                    decreases n - i,
                {
                    proof {
                        assert(stmt.arms@.skip(i as int)[0] == stmt.arms@[i as int]);
                        assert(stmt.arms@.skip(i as int).drop_first() =~= stmt.arms@.skip(
                            i + 1 as int,
                        ));
                    }
                    let ghost envpre = self.env();
                    let rr = self.infer_pattern(&stmt.arms[i].pattern, &value_type);
                    if let Err(e) = rr {
                        return Err(e);
                    }
                    let ghost pa = infer_pattern_env(
                        envpre,
                        defs0,
                        stmt.arms@[i as int].pattern,
                        vt,
                    )->0;
                    proof {
                        assert(decreases_to!(*statement => statement->Match_0));
                        assert(decreases_to!(statement->Match_0 => statement->Match_0.arms));
                        assert(decreases_to!(statement->Match_0.arms => statement->Match_0.arms@));
                        assert(decreases_to!(statement->Match_0.arms@ => statement->Match_0.arms@[i as int]));
                    }
                    let ghost envmid = self.env();
                    let rb = self.infer_block(&stmt.arms[i].body);
                    if let Err(e) = rb {
                        return Err(e);
                    }
                    proof {
                        let pb = infer_block(
                            envmid,
                            defs0,
                            stmt.arms@[i as int].body.statements@,
                        )->0;
                        assert(self.cs() =~= (old(self).cs() + p1.1) + (csacc + (pa.1 + pb.1)));
                        assert forall|c3x: Seq<ConstraintV>|
                            true implies csacc + (pa.1 + pb.1 + c3x) =~= (csacc + (pa.1 + pb.1))
                            + c3x by {}
                        csacc = csacc + (pa.1 + pb.1);
                    }
                    i = i + 1;
                }
                proof {
                    assert(stmt.arms@.skip(n as int).len() == 0);
                    assert(csacc + Seq::<ConstraintV>::empty() =~= csacc);
                    assert(infer_arms(env1, defs0, vt, stmt.arms@) == Some((self.env(), csacc)));
                    assert(vt == p1.0);
                    assert(env1 == env0);
                    assert(self.cs() =~= old(self).cs() + (p1.1 + csacc));
                }
                Ok(())
            },
            Statement::Expression(expr) => {
                self.infer_expression(expr)?;
                Ok(())
            },
        }
    }

    /// Infers the statements of a block in order, per [`infer_block`].
    #[verifier::loop_isolation(false)]
    fn infer_block(&mut self, block: &Block) -> (r: Result<(), SlangError>)
        ensures
            final(self).defs() == old(self).defs(),
            match r {
                Ok(_) => infer_block(old(self).env(), old(self).defs(), block.statements@)
                    matches Some((e2, cs)) && final(self).env() == e2 && final(self).cs() == old(
                    self,
                ).cs() + cs,
                Err(e) => infer_block(old(self).env(), old(self).defs(), block.statements@)
                    is None && e is Type,
            },
        decreases *block,
    {
        let ghost env0 = old(self).env();
        let ghost defs0 = old(self).defs();
        let ghost mut csacc = Seq::<ConstraintV>::empty();
        let n: usize = block.statements.len();
        let mut i: usize = 0;
        proof {
            assert(block.statements@.skip(0) =~= block.statements@);
            assert(self.cs() =~= old(self).cs() + csacc);
            assert(infer_block(env0, defs0, block.statements@) == (match infer_block(
                self.env(),
                defs0,
                block.statements@.skip(0),
            ) {
                Some((e2, c2)) => Some((e2, csacc + c2)),
                None => None,
            })) by {
                match infer_block(env0, defs0, block.statements@) {
                    Some((e2, c2)) => {
                        assert(csacc + c2 =~= c2);
                    },
                    None => {},
                }
            }
        }
        while i < n
            invariant
                n == block.statements@.len(),
                0 <= i <= n,
                self.defs() == defs0,
                self.cs() == old(self).cs() + csacc,
                infer_block(env0, defs0, block.statements@) == (match infer_block(
                    self.env(),
                    defs0,
                    block.statements@.skip(i as int),
                ) {
                    Some((e2, c2)) => Some((e2, csacc + c2)),
                    None => None,
                }),
            decreases n - i,
        {
            proof {
                assert(block.statements@.skip(i as int)[0] == block.statements@[i as int]);
                assert(block.statements@.skip(i as int).drop_first() =~= block.statements@.skip(
                    i + 1 as int,
                ));
                assert(decreases_to!(*block => block.statements));
                assert(decreases_to!(block.statements => block.statements@));
                assert(decreases_to!(block.statements@ => block.statements@[i as int]));
            }
            let ghost envpre = self.env();
            let rr = self.infer_statement(&block.statements[i]);
            if let Err(e) = rr {
                return Err(e);
            }
            proof {
                let ps = infer_stmt(envpre, defs0, block.statements@[i as int])->0;
                assert forall|c2x: Seq<ConstraintV>|
                    true implies csacc + (ps.1 + c2x) =~= (csacc + ps.1) + c2x by {}
                csacc = csacc + ps.1;
            }
            i = i + 1;
        }
        proof {
            assert(block.statements@.skip(n as int).len() == 0);
        }
        Ok(())
    }

    /// Infers one function declaration: binds its parameters and walks its
    /// body, per [`infer_fun`].
    #[verifier::loop_isolation(false)]
    fn infer_function(&mut self, function: &Function) -> (r: Result<(), SlangError>)
        ensures
            final(self).defs() == old(self).defs(),
            match r {
                Ok(_) => infer_fun(old(self).env(), old(self).defs(), *function) matches Some(
                    (e2, cs),
                ) && final(self).env() == e2 && final(self).cs() == old(self).cs() + cs,
                Err(e) => infer_fun(old(self).env(), old(self).defs(), *function) is None
                    && e is Type,
            },
    {
        let ghost env0 = old(self).env();
        let np: usize = function.parameters.len();
        let mut k: usize = 0;
        proof {
            assert(function.parameters@.skip(0) =~= function.parameters@);
        }
        while k < np
            invariant
                np == function.parameters@.len(),
                0 <= k <= np,
                self.defs() == old(self).defs(),
                self.cs() == old(self).cs(),
                bind_params(env0, function.parameters@) == bind_params(
                    self.env(),
                    function.parameters@.skip(k as int),
                ),
            decreases np - k,
        {
            proof {
                assert(function.parameters@.skip(k as int)[0] == function.parameters@[k as int]);
                assert(function.parameters@.skip(k as int).drop_first()
                    =~= function.parameters@.skip(k + 1 as int));
            }
            let nm = function.parameters[k].name.clone();
            let tv = function.parameters[k].type_annotation.clone();
            let ghost prem = self.type_vars@;
            let ghost tvg = tv;
            self.type_vars.insert(nm, tv);
            proof {
                crate::type_system::checker::lemma_env_view_insert(
                    prem,
                    function.parameters@[k as int].name@,
                    tvg,
                );
            }
            k = k + 1;
        }
        proof {
            assert(function.parameters@.skip(np as int).len() == 0);
        }
        self.infer_block(&function.body)?;
        Ok(())
    }

    /// Registers one record-type definition: the name is bound in the
    /// environment to its own named type, and the definition is stored for
    /// struct-pattern lookups.
    fn infer_type_definition(&mut self, type_def: &TypeDefinition) -> (r: Result<(), SlangError>)
        ensures
            r is Ok,
            final(self).env() == old(self).env().insert(
                type_def.name@,
                TypeV::Named(type_def.name@),
            ),
            final(self).defs() == old(self).defs().insert(type_def.name@, type_def@),
            final(self).cs() == old(self).cs(),
    {
        let struct_type = Type::Named(type_def.name.clone());
        let ghost sg = struct_type;
        self.type_vars.insert(type_def.name.clone(), struct_type);
        proof {
            crate::type_system::checker::lemma_env_view_insert(
                old(self).type_vars@,
                type_def.name@,
                sg,
            );
        }
        let ghost prem = self.type_definitions@;
        let tdc = type_def.clone();
        self.type_definitions.insert(type_def.name.clone(), tdc);
        proof {
            assert(defs_view(self.type_definitions@) =~= defs_view(prem).insert(
                type_def.name@,
                type_def@,
            ));
            assert(self.cs() =~= old(self).cs());
        }
        Ok(())
    }

    /// Infers a whole compilation unit: registers every record-type
    /// definition first, walks every function against the shared flat
    /// environment, collecting constraints, then solves the accumulated
    /// constraints. Succeeds exactly when the traversal accepts every
    /// function and the solver discharges every constraint.
    #[verifier::loop_isolation(false)]
    pub fn infer_types(&mut self, ast: &AST) -> (r: Result<(), SlangError>)
        ensures
            match infer_funs(
                reg_env(old(self).env(), ast.type_definitions@),
                crate::type_system::checker::add_defs(old(self).defs(), ast.type_definitions@),
                ast.functions@,
            ) {
                Some((env1, cs)) => {
                    &&& (r is Ok <==> all_solved(old(self).cs() + cs, env1))
                    &&& final(self).env() == env1
                    &&& final(self).defs() == crate::type_system::checker::add_defs(
                        old(self).defs(),
                        ast.type_definitions@,
                    )
                    &&& final(self).cs().len() == 0
                },
                None => r is Err,
            },
            r matches Err(e) ==> e is Type,
    {
        let ghost env00 = old(self).env();
        let ghost defs00 = old(self).defs();
        let nd: usize = ast.type_definitions.len();
        let mut k: usize = 0;
        proof {
            assert(ast.type_definitions@.skip(0) =~= ast.type_definitions@);
        }
        while k < nd
            invariant
                nd == ast.type_definitions@.len(),
                0 <= k <= nd,
                self.cs() == old(self).cs(),
                reg_env(env00, ast.type_definitions@) == reg_env(
                    self.env(),
                    ast.type_definitions@.skip(k as int),
                ),
                crate::type_system::checker::add_defs(defs00, ast.type_definitions@)
                    == crate::type_system::checker::add_defs(
                    self.defs(),
                    ast.type_definitions@.skip(k as int),
                ),
            decreases nd - k,
        {
            proof {
                assert(ast.type_definitions@.skip(k as int)[0] == ast.type_definitions@[k as int]);
                assert(ast.type_definitions@.skip(k as int).drop_first()
                    =~= ast.type_definitions@.skip(k + 1 as int));
            }
            let rr = self.infer_type_definition(&ast.type_definitions[k]);
            if let Err(e) = rr {
                return Err(e);
            }
            k = k + 1;
        }
        proof {
            assert(ast.type_definitions@.skip(nd as int).len() == 0);
        }

        let ghost env0 = self.env();
        let ghost defs0 = self.defs();
        let ghost mut csacc = Seq::<ConstraintV>::empty();
        let nf: usize = ast.functions.len();
        let mut i: usize = 0;
        proof {
            assert(ast.functions@.skip(0) =~= ast.functions@);
            assert(self.cs() =~= old(self).cs() + csacc);
            assert(infer_funs(env0, defs0, ast.functions@) == (match infer_funs(
                self.env(),
                defs0,
                ast.functions@.skip(0),
            ) {
                Some((e2, c2)) => Some((e2, csacc + c2)),
                None => None,
            })) by {
                match infer_funs(env0, defs0, ast.functions@) {
                    Some((e2, c2)) => {
                        assert(csacc + c2 =~= c2);
                    },
                    None => {},
                }
            }
        }
        while i < nf
            invariant
                nf == ast.functions@.len(),
                0 <= i <= nf,
                self.defs() == defs0,
                self.cs() == old(self).cs() + csacc,
                infer_funs(env0, defs0, ast.functions@) == (match infer_funs(
                    self.env(),
                    defs0,
                    ast.functions@.skip(i as int),
                ) {
                    Some((e2, c2)) => Some((e2, csacc + c2)),
                    None => None,
                }),
            decreases nf - i,
        {
            proof {
                assert(ast.functions@.skip(i as int)[0] == ast.functions@[i as int]);
                assert(ast.functions@.skip(i as int).drop_first() =~= ast.functions@.skip(
                    i + 1 as int,
                ));
            }
            let ghost envpre = self.env();
            let rr = self.infer_function(&ast.functions[i]);
            if let Err(e) = rr {
                return Err(e);
            }
            proof {
                let pf = infer_fun(envpre, defs0, ast.functions@[i as int])->0;
                assert forall|c2x: Seq<ConstraintV>|
                    true implies csacc + (pf.1 + c2x) =~= (csacc + pf.1) + c2x by {}
                csacc = csacc + pf.1;
            }
            i = i + 1;
        }
        proof {
            assert(ast.functions@.skip(nf as int).len() == 0);
            assert(old(self).cs() + csacc =~= self.cs());
        }
        self.solve_constraints()
    }
}

} // verus!
