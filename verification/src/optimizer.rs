//! The optimizer over the lowered instruction list.
//!
//! Three passes, each specified as a pure transformation over instruction
//! models and proved against it:
//!
//! * **Constant folding** ([`fold_fix`]): a forward walk keeps a map from
//!   variable name to known literal value; an integer `add`/`sub`/`mul`/
//!   `div` whose operands resolve through the map becomes a direct
//!   assignment of the computed literal. The walk repeats to a fixpoint so
//!   chains collapse fully. Division by a literal zero is reported as an
//!   error; an overflowing fold leaves the instruction untouched.
//! * **Dead-code elimination** ([`dce_keep`]): liveness is seeded from the
//!   operands of the function's side-effecting instructions (`return`,
//!   `call`, `store`, conditional branch), wherever in the function they
//!   stand, and propagated function-wide through def-use edges; a pure
//!   definition whose result is never live anywhere in the function is
//!   dropped.
//! * **Priority-redundancy elimination** ([`prio_pass`]): the most recent
//!   priority tag per variable is tracked; a declaration repeating the tag
//!   already on record is dropped, a differing one is kept and updates the
//!   record.

use vstd::prelude::*;

use vstd::hash_map::StringHashMap;
use vstd::hash_set::StringHashSet;
use vstd::string::StringExecFns;

use crate::error::SlangError;
use crate::ir::instrs_view;
use crate::ir::values_view;
use crate::ir::ConstV;
use crate::ir::IRBinaryOperator;
use crate::ir::IRBlock;
use crate::ir::IRConstant;
use crate::ir::IRFunction;
use crate::ir::IRInstruction;
use crate::ir::IRValue;
use crate::ir::InstrV;
use crate::ir::ValueV;

verus! {

/// The model of the folding map held in a [`StringHashMap`].
pub open spec fn cvals_view(m: Map<Seq<char>, IRConstant>) -> Map<Seq<char>, ConstV> {
    m.map_values(|c: IRConstant| c@)
}

/// Resolves an operand to a literal: a constant is itself, a variable
/// resolves through the folding map.
pub open spec fn eval_const(m: Map<Seq<char>, ConstV>, v: ValueV) -> Option<ConstV> {
    match v {
        ValueV::Constant(c) => Some(c),
        ValueV::Variable(n) => if m.contains_key(n) {
            Some(m[n])
        } else {
            None
        },
    }
}

/// Whether the operator is one the folder evaluates.
pub open spec fn foldable_op(op: IRBinaryOperator) -> bool {
    ||| op is Add
    ||| op is Subtract
    ||| op is Multiply
    ||| op is Divide
}

/// Compile-time integer arithmetic; `None` when the exact result does not
/// fit an `i64` (or for an operator the folder does not evaluate).
pub open spec fn fold_arith(op: IRBinaryOperator, a: i64, b: i64) -> Option<i64> {
    match op {
        IRBinaryOperator::Add => a.checked_add(b),
        IRBinaryOperator::Subtract => a.checked_sub(b),
        IRBinaryOperator::Multiply => a.checked_mul(b),
        IRBinaryOperator::Divide => a.checked_div(b),
        _ => None,
    }
}

/// The outcome of folding one instruction: an error (division by a literal
/// zero), or the possibly rewritten instruction with the updated folding
/// map and whether anything changed.
pub enum FoldR {
    Fail,
    Next { inst: InstrV, m: Map<Seq<char>, ConstV>, changed: bool },
}

/// Updates the folding map for a name assigned the given operand.
pub open spec fn record_value(m: Map<Seq<char>, ConstV>, t: Seq<char>, v: ValueV) -> Map<
    Seq<char>,
    ConstV,
> {
    match eval_const(m, v) {
        Some(c) => m.insert(t, c),
        None => m.remove(t),
    }
}

/// Folds one instruction against the folding map.
pub open spec fn fold_inst(m: Map<Seq<char>, ConstV>, inst: InstrV) -> FoldR {
    match inst {
        InstrV::Assign(t, v) => FoldR::Next { inst: inst, m: record_value(m, t, v), changed: false },
        InstrV::Store(t, v) => FoldR::Next { inst: inst, m: record_value(m, t, v), changed: false },
        InstrV::Load(d, _) => FoldR::Next { inst: inst, m: m.remove(d), changed: false },
        InstrV::UnaryOp(d, _, _) => FoldR::Next { inst: inst, m: m.remove(d), changed: false },
        InstrV::Call(d, _, _) => FoldR::Next { inst: inst, m: m.remove(d), changed: false },
        InstrV::Alloca(n, _) => FoldR::Next { inst: inst, m: m.remove(n), changed: false },
        InstrV::BinaryOp(d, op, l, r) => match (eval_const(m, l), eval_const(m, r)) {
            (Some(ConstV::Integer(a)), Some(ConstV::Integer(b))) => if op is Divide && b == 0 {
                FoldR::Fail
            } else if foldable_op(op) {
                match fold_arith(op, a, b) {
                    Some(c) => FoldR::Next {
                        inst: InstrV::Assign(d, ValueV::Constant(ConstV::Integer(c))),
                        m: m.insert(d, ConstV::Integer(c)),
                        changed: true,
                    },
                    None => FoldR::Next { inst: inst, m: m.remove(d), changed: false },
                }
            } else {
                FoldR::Next { inst: inst, m: m.remove(d), changed: false }
            },
            _ => FoldR::Next { inst: inst, m: m.remove(d), changed: false },
        },
        _ => FoldR::Next { inst: inst, m: m, changed: false },
    }
}

/// The outcome of one folding pass over an instruction list.
pub enum PassR {
    Fail,
    Next { insts: Seq<InstrV>, m: Map<Seq<char>, ConstV>, changed: bool },
}

/// One folding pass: folds each instruction in order, threading the map.
pub open spec fn fold_pass(m: Map<Seq<char>, ConstV>, insts: Seq<InstrV>) -> PassR
    decreases insts,
{
    if insts.len() == 0 {
        PassR::Next { insts: Seq::empty(), m: m, changed: false }
    } else {
        match fold_inst(m, insts[0]) {
            FoldR::Fail => PassR::Fail,
            FoldR::Next { inst: i0, m: m1, changed: c0 } => match fold_pass(
                m1,
                insts.drop_first(),
            ) {
                PassR::Fail => PassR::Fail,
                PassR::Next { insts: rest, m: m2, changed: c1 } => PassR::Next {
                    insts: seq![i0] + rest,
                    m: m2,
                    changed: c0 || c1,
                },
            },
        }
    }
}

/// The number of binary-op instructions in a list.
pub open spec fn count_binops(insts: Seq<InstrV>) -> nat
    decreases insts,
{
    if insts.len() == 0 {
        0
    } else {
        (if insts[0] is BinaryOp {
            1nat
        } else {
            0nat
        }) + count_binops(insts.drop_first())
    }
}

/// A folding pass never adds binary ops, and a changed pass removes at
/// least one.
pub proof fn lemma_fold_pass_binops(m: Map<Seq<char>, ConstV>, insts: Seq<InstrV>)
    ensures
        fold_pass(m, insts) matches PassR::Next { insts: i2, changed, .. } ==> {
            &&& count_binops(i2) <= count_binops(insts)
            &&& (changed ==> count_binops(i2) < count_binops(insts))
        },
    decreases insts,
{
    if insts.len() > 0 {
        match fold_inst(m, insts[0]) {
            FoldR::Fail => {},
            FoldR::Next { inst: i0, m: m1, changed: c0 } => {
                lemma_fold_pass_binops(m1, insts.drop_first());
                match fold_pass(m1, insts.drop_first()) {
                    PassR::Fail => {},
                    PassR::Next { insts: rest, m: m2, changed: c1 } => {
                        assert((seq![i0] + rest)[0] == i0);
                        assert((seq![i0] + rest).drop_first() =~= rest);
                    },
                }
            },
        }
    }
}

/// Folds an instruction list to a fixpoint, starting each pass from an
/// empty map; `None` reports a division by a literal zero.
pub open spec fn fold_fix(insts: Seq<InstrV>) -> Option<Seq<InstrV>>
    decreases count_binops(insts),
    via fold_fix_via
{
    match fold_pass(Map::empty(), insts) {
        PassR::Fail => None,
        PassR::Next { insts: i2, changed, .. } => if !changed {
            Some(i2)
        } else {
            fold_fix(i2)
        },
    }
}

#[via_fn]
proof fn fold_fix_via(insts: Seq<InstrV>) {
    lemma_fold_pass_binops(Map::empty(), insts);
}

/// The variable named by an operand, if it names one.
pub open spec fn value_vars(v: ValueV) -> Set<Seq<char>> {
    match v {
        ValueV::Variable(n) => Set::empty().insert(n),
        _ => Set::empty(),
    }
}

/// The variables named by an operand list.
pub open spec fn values_vars(s: Seq<ValueV>) -> Set<Seq<char>>
    decreases s,
{
    if s.len() == 0 {
        Set::empty()
    } else {
        values_vars(s.drop_last()).union(value_vars(s.last()))
    }
}

/// The variables an instruction uses as operands.
pub open spec fn inst_uses(i: InstrV) -> Set<Seq<char>> {
    match i {
        InstrV::Assign(_, v) => value_vars(v),
        InstrV::Store(_, v) => value_vars(v),
        InstrV::Load(_, s) => Set::empty().insert(s),
        InstrV::BinaryOp(_, _, l, r) => value_vars(l).union(value_vars(r)),
        InstrV::UnaryOp(_, _, v) => value_vars(v),
        InstrV::Call(_, _, args) => values_vars(args),
        InstrV::Return(Some(v)) => value_vars(v),
        InstrV::ConditionalBranch(c, _, _) => value_vars(c),
        _ => Set::empty(),
    }
}

/// The result name an instruction defines, if any.
pub open spec fn inst_def(i: InstrV) -> Option<Seq<char>> {
    match i {
        InstrV::Assign(t, _) => Some(t),
        InstrV::Load(d, _) => Some(d),
        InstrV::BinaryOp(d, _, _, _) => Some(d),
        InstrV::UnaryOp(d, _, _) => Some(d),
        InstrV::Call(d, _, _) => Some(d),
        _ => None,
    }
}

/// Whether the instruction is a pure definition that dead-code elimination
/// may drop.
pub open spec fn removable(i: InstrV) -> bool {
    ||| i is Assign
    ||| i is Load
    ||| i is BinaryOp
    ||| i is UnaryOp
}

/// Whether the instruction has an externally visible effect that seeds
/// liveness.
pub open spec fn side_effecting(i: InstrV) -> bool {
    ||| i is Store
    ||| i is Call
    ||| i is Return
    ||| i is ConditionalBranch
}

/// The liveness seed: every operand of a side-effecting instruction.
pub open spec fn root_uses(insts: Seq<InstrV>) -> Set<Seq<char>>
    decreases insts,
{
    if insts.len() == 0 {
        Set::empty()
    } else {
        (if side_effecting(insts[0]) {
            inst_uses(insts[0])
        } else {
            Set::empty()
        }).union(root_uses(insts.drop_first()))
    }
}

/// One liveness propagation pass: walks the list, adding the operands of
/// every definition whose result is already live.
pub open spec fn live_step(insts: Seq<InstrV>, s: Set<Seq<char>>) -> Set<Seq<char>>
    decreases insts,
{
    if insts.len() == 0 {
        s
    } else {
        live_step(
            insts.drop_first(),
            if inst_def(insts[0]) matches Some(d) && s.contains(d) {
                s.union(inst_uses(insts[0]))
            } else {
                s
            },
        )
    }
}

/// The live set after `k` propagation passes over the seed.
pub open spec fn live_upto(insts: Seq<InstrV>, k: nat) -> Set<Seq<char>>
    decreases k,
{
    if k == 0 {
        root_uses(insts)
    } else {
        live_step(insts, live_upto(insts, (k - 1) as nat))
    }
}

/// The liveness seed of a whole function: every operand of a
/// side-effecting instruction in any of its blocks.
pub open spec fn root_uses_blocks(bs: Seq<Seq<InstrV>>) -> Set<Seq<char>>
    decreases bs,
{
    if bs.len() == 0 {
        Set::empty()
    } else {
        root_uses(bs[0]).union(root_uses_blocks(bs.drop_first()))
    }
}

/// One liveness propagation pass over a whole function, walking its blocks
/// in order.
pub open spec fn live_step_blocks(bs: Seq<Seq<InstrV>>, s: Set<Seq<char>>) -> Set<Seq<char>>
    decreases bs,
{
    if bs.len() == 0 {
        s
    } else {
        live_step_blocks(bs.drop_first(), live_step(bs[0], s))
    }
}

/// The live set of a function after `k` propagation passes over the seed.
pub open spec fn live_upto_fun(bs: Seq<Seq<InstrV>>, k: nat) -> Set<Seq<char>>
    decreases k,
{
    if k == 0 {
        root_uses_blocks(bs)
    } else {
        live_step_blocks(bs, live_upto_fun(bs, (k - 1) as nat))
    }
}

/// The total instruction count of a function's blocks.
pub open spec fn flat_len(bs: Seq<Seq<InstrV>>) -> nat
    decreases bs,
{
    if bs.len() == 0 {
        0
    } else {
        flat_len(bs.drop_last()) + bs.last().len()
    }
}

/// The live set of a whole function: as many propagation passes as the
/// function has instructions, which saturates the def-use chains it
/// contains, across blocks.
pub open spec fn live_set_fun(bs: Seq<Seq<InstrV>>) -> Set<Seq<char>> {
    live_upto_fun(bs, flat_len(bs))
}

/// Dead-code elimination against a live set: a pure definition whose
/// result is not live is dropped; everything else is kept in order.
pub open spec fn dce_keep(insts: Seq<InstrV>, live: Set<Seq<char>>) -> Seq<InstrV>
    decreases insts,
{
    if insts.len() == 0 {
        Seq::empty()
    } else {
        let keep = !removable(insts[0]) || (inst_def(insts[0]) matches Some(d) && live.contains(
            d,
        ));
        (if keep {
            seq![insts[0]]
        } else {
            Seq::empty()
        }) + dce_keep(insts.drop_first(), live)
    }
}

/// The outcome of the priority-redundancy pass: the kept instructions and
/// the per-variable record of the most recent declaration.
pub struct PrioR {
    pub insts: Seq<InstrV>,
    pub m: Map<Seq<char>, u32>,
}

/// Priority-redundancy elimination: a declaration repeating the tag
/// already on record for its variable is dropped; a differing one is kept
/// and updates the record; every other instruction is kept.
pub open spec fn prio_pass(m: Map<Seq<char>, u32>, insts: Seq<InstrV>) -> PrioR
    decreases insts,
{
    if insts.len() == 0 {
        PrioR { insts: Seq::empty(), m: m }
    } else {
        match insts[0] {
            InstrV::PriorityOwnership(v, p) => if m.contains_key(v) && m[v] == p {
                prio_pass(m, insts.drop_first())
            } else {
                let rest = prio_pass(m.insert(v, p), insts.drop_first());
                PrioR { insts: seq![insts[0]] + rest.insts, m: rest.m }
            },
            _ => {
                let rest = prio_pass(m, insts.drop_first());
                PrioR { insts: seq![insts[0]] + rest.insts, m: rest.m }
            },
        }
    }
}

/// The models of a function's blocks, in order.
pub open spec fn blocks_view(blocks: Seq<IRBlock>) -> Seq<Seq<InstrV>> {
    Seq::new(blocks.len(), |i: int| instrs_view(blocks[i].instructions@))
}

/// Constant folding over every block of a function; `None` when any block
/// reports a division by zero.
pub open spec fn fold_blocks(bs: Seq<Seq<InstrV>>) -> Option<Seq<Seq<InstrV>>>
    decreases bs,
{
    if bs.len() == 0 {
        Some(Seq::empty())
    } else {
        match (fold_fix(bs[0]), fold_blocks(bs.drop_first())) {
            (Some(b0), Some(rest)) => Some(seq![b0] + rest),
            _ => None,
        }
    }
}

/// Dead-code elimination over every block of a function, each block
/// filtered against the one function-wide live set.
pub open spec fn dce_blocks(bs: Seq<Seq<InstrV>>) -> Seq<Seq<InstrV>> {
    Seq::new(bs.len(), |i: int| dce_keep(bs[i], live_set_fun(bs)))
}

/// Priority-redundancy elimination over every block of a function, the
/// record threading from block to block in order.
pub open spec fn prio_blocks(m: Map<Seq<char>, u32>, bs: Seq<Seq<InstrV>>) -> Seq<Seq<InstrV>>
    decreases bs,
{
    if bs.len() == 0 {
        Seq::empty()
    } else {
        let h = prio_pass(m, bs[0]);
        seq![h.insts] + prio_blocks(h.m, bs.drop_first())
    }
}

/// The whole pipeline over a function's blocks: folding to a fixpoint,
/// then dead-code elimination, then priority-redundancy elimination.
pub open spec fn optimize_fun_spec(bs: Seq<Seq<InstrV>>) -> Option<Seq<Seq<InstrV>>> {
    match fold_blocks(bs) {
        Some(bs2) => Some(prio_blocks(Map::empty(), dce_blocks(bs2))),
        None => None,
    }
}

} // verus!

verus! {

/// Inserting into the folding map commutes with taking its model.
proof fn lemma_cvals_insert(m: Map<Seq<char>, IRConstant>, k: Seq<char>, v: IRConstant)
    ensures
        cvals_view(m.insert(k, v)) == cvals_view(m).insert(k, v@),
{
    assert(cvals_view(m.insert(k, v)) =~= cvals_view(m).insert(k, v@));
}

/// Removing from the folding map commutes with taking its model.
proof fn lemma_cvals_remove(m: Map<Seq<char>, IRConstant>, k: Seq<char>)
    ensures
        cvals_view(m.remove(k)) == cvals_view(m).remove(k),
{
    assert(cvals_view(m.remove(k)) =~= cvals_view(m).remove(k));
}

/// Pointwise block folding assembles into [`fold_blocks`].
proof fn lemma_fold_blocks_pointwise(bs: Seq<Seq<InstrV>>, cs: Seq<Seq<InstrV>>)
    requires
        bs.len() == cs.len(),
        forall|i: int| 0 <= i < bs.len() ==> fold_fix(#[trigger] bs[i]) == Some(cs[i]),
    ensures
        fold_blocks(bs) == Some(cs),
    decreases bs.len(),
{
    if bs.len() > 0 {
        assert forall|i: int| 0 <= i < bs.drop_first().len() implies fold_fix(
            #[trigger] bs.drop_first()[i],
        ) == Some(cs.drop_first()[i]) by {
            assert(bs.drop_first()[i] == bs[i + 1]);
            assert(cs.drop_first()[i] == cs[i + 1]);
        }
        lemma_fold_blocks_pointwise(bs.drop_first(), cs.drop_first());
        assert(seq![cs[0]] + cs.drop_first() =~= cs);
    }
}

/// A block that fails to fold makes the whole function fail to fold.
proof fn lemma_fold_blocks_none(bs: Seq<Seq<InstrV>>, i: int)
    requires
        0 <= i < bs.len(),
        fold_fix(bs[i]) is None,
    ensures
        fold_blocks(bs) is None,
    decreases bs.len(),
{
    if i > 0 {
        assert(bs.drop_first()[i - 1] == bs[i]);
        lemma_fold_blocks_none(bs.drop_first(), i - 1);
    }
}

/// The optimizer: transient bookkeeping for the constant folder's value
/// map and the priority pass's per-variable record.
pub struct Optimizer {
    constant_values: StringHashMap<IRConstant>,
    priority_ownership: StringHashMap<u32>,
}

impl Optimizer {
    /// The model of the folding map.
    pub closed spec fn cvals(self) -> Map<Seq<char>, ConstV> {
        cvals_view(self.constant_values@)
    }

    /// The model of the priority record.
    pub closed spec fn prios(self) -> Map<Seq<char>, u32> {
        self.priority_ownership@
    }

    /// An optimizer with empty bookkeeping.
    pub fn new() -> (r: Optimizer)
        ensures
            r.cvals() == Map::<Seq<char>, ConstV>::empty(),
            r.prios() == Map::<Seq<char>, u32>::empty(),
    {
        let r = Optimizer {
            constant_values: StringHashMap::new(),
            priority_ownership: StringHashMap::new(),
        };
        proof {
            assert(r.cvals() =~= Map::<Seq<char>, ConstV>::empty());
        }
        r
    }

    /// Resolves an operand to a literal through the folding map, per
    /// [`eval_const`].
    fn evaluate_constant(&self, value: &IRValue) -> (r: Option<IRConstant>)
        ensures
            match r {
                Some(c) => eval_const(self.cvals(), value@) == Some(c@),
                None => eval_const(self.cvals(), value@) is None,
            },
    {
        match value {
            IRValue::Constant(c) => Some(c.clone()),
            IRValue::Variable(name) => match self.constant_values.get(name.as_str()) {
                Some(c) => Some(c.clone()),
                None => None,
            },
        }
    }

    /// Folds one instruction against the folding map, per [`fold_inst`]:
    /// `Some` carries the rewritten instruction, `None` leaves the
    /// original in place, and the error reports a division by a literal
    /// zero.
    fn try_fold_instruction(&mut self, inst: &IRInstruction) -> (r: Result<
        Option<IRInstruction>,
        SlangError,
    >)
        ensures
            final(self).prios() == old(self).prios(),
            match r {
                Ok(Some(i2)) => fold_inst(old(self).cvals(), inst@) matches FoldR::Next {
                    inst: iv,
                    m: m2,
                    changed: true,
                } && i2@ == iv && final(self).cvals() == m2,
                Ok(None) => fold_inst(old(self).cvals(), inst@) matches FoldR::Next {
                    inst: iv,
                    m: m2,
                    changed: false,
                } && iv == inst@ && final(self).cvals() == m2,
                Err(e) => fold_inst(old(self).cvals(), inst@) is Fail && e is Type,
            },
    {
        match inst {
            IRInstruction::Assign(t, v) => {
                match self.evaluate_constant(v) {
                    Some(c) => {
                        let ghost cg = c;
                        self.constant_values.insert(t.clone(), c);
                        proof {
                            lemma_cvals_insert(old(self).constant_values@, t@, cg);
                        }
                    },
                    None => {
                        self.constant_values.remove(t.as_str());
                        proof {
                            lemma_cvals_remove(old(self).constant_values@, t@);
                        }
                    },
                }
                Ok(None)
            },
            IRInstruction::Store(t, v) => {
                match self.evaluate_constant(v) {
                    Some(c) => {
                        let ghost cg = c;
                        self.constant_values.insert(t.clone(), c);
                        proof {
                            lemma_cvals_insert(old(self).constant_values@, t@, cg);
                        }
                    },
                    None => {
                        self.constant_values.remove(t.as_str());
                        proof {
                            lemma_cvals_remove(old(self).constant_values@, t@);
                        }
                    },
                }
                Ok(None)
            },
            IRInstruction::Load(d, _) => {
                self.constant_values.remove(d.as_str());
                proof {
                    lemma_cvals_remove(old(self).constant_values@, d@);
                }
                Ok(None)
            },
            IRInstruction::UnaryOp(d, _, _) => {
                self.constant_values.remove(d.as_str());
                proof {
                    lemma_cvals_remove(old(self).constant_values@, d@);
                }
                Ok(None)
            },
            IRInstruction::Call(d, _, _) => {
                self.constant_values.remove(d.as_str());
                proof {
                    lemma_cvals_remove(old(self).constant_values@, d@);
                }
                Ok(None)
            },
            IRInstruction::Alloca(n, _) => {
                self.constant_values.remove(n.as_str());
                proof {
                    lemma_cvals_remove(old(self).constant_values@, n@);
                }
                Ok(None)
            },
            IRInstruction::BinaryOp(d, op, l, r) => {
                let lc = self.evaluate_constant(l);
                let rc = self.evaluate_constant(r);
                match (lc, rc) {
                    (Some(IRConstant::Integer(a)), Some(IRConstant::Integer(b))) => {
                        if matches!(op, IRBinaryOperator::Divide) && b == 0 {
                            return Err(SlangError::Type(String::from_str("Division by zero")));
                        }
                        let folded: Option<i64> = match op {
                            IRBinaryOperator::Add => a.checked_add(b),
                            IRBinaryOperator::Subtract => a.checked_sub(b),
                            IRBinaryOperator::Multiply => a.checked_mul(b),
                            IRBinaryOperator::Divide => a.checked_div(b),
                            _ => None,
                        };
                        match folded {
                            Some(c) => {
                                self.constant_values.insert(d.clone(), IRConstant::Integer(c));
                                proof {
                                    lemma_cvals_insert(
                                        old(self).constant_values@,
                                        d@,
                                        IRConstant::Integer(c),
                                    );
                                }
                                Ok(
                                    Some(
                                        IRInstruction::Assign(
                                            d.clone(),
                                            IRValue::Constant(IRConstant::Integer(c)),
                                        ),
                                    ),
                                )
                            },
                            None => {
                                self.constant_values.remove(d.as_str());
                                proof {
                                    lemma_cvals_remove(old(self).constant_values@, d@);
                                }
                                Ok(None)
                            },
                        }
                    },
                    _ => {
                        self.constant_values.remove(d.as_str());
                        proof {
                            lemma_cvals_remove(old(self).constant_values@, d@);
                        }
                        Ok(None)
                    },
                }
            },
            _ => Ok(None),
        }
    }

    /// One folding pass over a block, per [`fold_pass`], starting from an
    /// empty folding map; reports whether any instruction was rewritten.
    #[verifier::loop_isolation(false)]
    #[verifier::rlimit(60)]
    fn fold_constants_in_block(&mut self, block: &mut IRBlock) -> (r: Result<bool, SlangError>)
        ensures
            final(self).prios() == old(self).prios(),
            final(block).label@ == old(block).label@,
            match r {
                Ok(changed) => fold_pass(
                    Map::empty(),
                    instrs_view(old(block).instructions@),
                ) matches PassR::Next { insts, changed: ch, .. } && instrs_view(
                    final(block).instructions@,
                ) == insts && ch == changed,
                Err(e) => fold_pass(Map::empty(), instrs_view(old(block).instructions@)) is Fail
                    && e is Type,
            },
    {
        self.constant_values.clear();
        proof {
            assert(self.cvals() =~= Map::<Seq<char>, ConstV>::empty());
        }
        let ghost iv = instrs_view(block.instructions@);
        let mut taken: Vec<IRInstruction> = Vec::new();
        core::mem::swap(&mut block.instructions, &mut taken);
        let n: usize = taken.len();
        let mut out: Vec<IRInstruction> = Vec::new();
        let mut changed: bool = false;
        let mut i: usize = 0;
        proof {
            assert(iv.skip(0) =~= iv);
        }
        while i < n
            invariant
                n == taken@.len(),
                0 <= i <= n,
                iv == instrs_view(taken@),
                self.prios() == old(self).prios(),
                block.label@ == old(block).label@,
                fold_pass(Map::empty(), iv) == (match fold_pass(self.cvals(), iv.skip(i as int)) {
                    PassR::Fail => PassR::Fail,
                    PassR::Next { insts: rest, m: m2, changed: c2 } => PassR::Next {
                        insts: instrs_view(out@) + rest,
                        m: m2,
                        changed: changed || c2,
                    },
                }),
            decreases n - i,
        {
            proof {
                assert(iv.skip(i as int)[0] == iv[i as int]);
                assert(iv[i as int] == taken@[i as int]@);
                assert(iv.skip(i as int).drop_first() =~= iv.skip(i + 1 as int));
            }
            let ghost outpre = out@;
            let step = self.try_fold_instruction(&taken[i]);
            match step {
                Ok(Some(i2)) => {
                    out.push(i2);
                    changed = true;
                },
                Ok(None) => {
                    let c = taken[i].clone();
                    out.push(c);
                },
                Err(e) => {
                    return Err(e);
                },
            }
            proof {
                assert(out@.drop_last() =~= outpre);
                assert forall|j: int|
                    0 <= j < out@.len() - 1 implies instrs_view(out@)[j] == instrs_view(outpre)[j]
                    by {
                    assert(out@[j] == outpre[j]);
                }
                assert(instrs_view(out@) =~= instrs_view(outpre).push(out@.last()@));
                assert forall|restx: Seq<InstrV>|
                    true implies instrs_view(outpre) + (seq![out@.last()@] + restx) =~= instrs_view(
                    out@,
                ) + restx by {}
            }
            i = i + 1;
        }
        proof {
            assert(iv.skip(n as int).len() == 0);
            assert(instrs_view(out@) + Seq::<InstrV>::empty() =~= instrs_view(out@));
        }
        block.instructions = out;
        Ok(changed)
    }

    /// Constant folding over every block of a function, each block folded
    /// to a fixpoint, per [`fold_blocks`]; fails on a division by a
    /// literal zero.
    #[verifier::loop_isolation(false)]
    #[verifier::rlimit(60)]
    pub fn constant_folding(&mut self, function: &mut IRFunction) -> (r: Result<(), SlangError>)
        ensures
            final(self).prios() == old(self).prios(),
            final(function).name@ == old(function).name@,
            final(function).parameters@ == old(function).parameters@,
            final(function).return_type == old(function).return_type,
            final(function).priority == old(function).priority,
            match r {
                Ok(_) => fold_blocks(blocks_view(old(function).blocks@)) == Some(
                    blocks_view(final(function).blocks@),
                ) && final(function).blocks@.len() == old(function).blocks@.len() && (forall|
                    i: int,
                |
                    0 <= i < old(function).blocks@.len() ==> final(function).blocks@[i].label@
                        == #[trigger] old(function).blocks@[i].label@),
                Err(e) => fold_blocks(blocks_view(old(function).blocks@)) is None && e is Type,
            },
    {
        let ghost bv0 = blocks_view(old(function).blocks@);
        let mut pending: Vec<IRBlock> = Vec::new();
        core::mem::swap(&mut function.blocks, &mut pending);
        let n: usize = pending.len();
        let mut done: Vec<IRBlock> = Vec::new();
        let mut k: usize = 0;
        while k < n
            invariant
                n == bv0.len(),
                0 <= k <= n,
                pending@.len() == n - k,
                self.prios() == old(self).prios(),
                forall|j: int|
                    0 <= j < n - k ==> instrs_view(#[trigger] pending@[j].instructions@) == bv0[j
                        + k],
                forall|j: int|
                    0 <= j < n - k ==> #[trigger] pending@[j].label@ == old(
                        function,
                    ).blocks@[j + k].label@,
                done@.len() == k,
                forall|j: int|
                    0 <= j < k ==> fold_fix(#[trigger] bv0[j]) == Some(
                        instrs_view(done@[j].instructions@),
                    ) && done@[j].label@ == old(function).blocks@[j].label@,
            decreases n - k,
        {
            let ghost pdpre = pending@;
            let mut b = pending.remove(0);
            proof {
                assert forall|j: int|
                    0 <= j < pending@.len() implies instrs_view(
                    #[trigger] pending@[j].instructions@,
                ) == bv0[j + k + 1] by {
                    assert(pending@[j] == pdpre[j + 1]);
                    assert(instrs_view(pdpre[j + 1].instructions@) == bv0[(j + 1) + k]);
                }
                assert forall|j: int|
                    0 <= j < pending@.len() implies #[trigger] pending@[j].label@ == old(
                    function,
                ).blocks@[j + k + 1].label@ by {
                    assert(pending@[j] == pdpre[j + 1]);
                    assert(pdpre[j + 1].label@ == old(function).blocks@[(j + 1) + k].label@);
                }
            }
            let ghost bvk = instrs_view(b.instructions@);
            loop
                invariant
                    self.prios() == old(self).prios(),
                    b.label@ == old(function).blocks@[k as int].label@,
                    fold_fix(bvk) == fold_fix(instrs_view(b.instructions@)),
                decreases count_binops(instrs_view(b.instructions@)),
            {
                let ghost pre = instrs_view(b.instructions@);
                let step = self.fold_constants_in_block(&mut b);
                match step {
                    Ok(changed) => {
                        proof {
                            lemma_fold_pass_binops(Map::empty(), pre);
                        }
                        if !changed {
                            break;
                        }
                    },
                    Err(e) => {
                        proof {
                            assert(fold_fix(bvk) is None);
                            lemma_fold_blocks_none(bv0, k as int);
                        }
                        return Err(e);
                    },
                }
            }
            done.push(b);
            k = k + 1;
        }
        function.blocks = done;
        proof {
            let bs2 = blocks_view(function.blocks@);
            assert forall|i: int| 0 <= i < n implies fold_fix(#[trigger] bv0[i]) == Some(bs2[i]) by {
                assert(bs2[i] == instrs_view(function.blocks@[i].instructions@));
            }
            lemma_fold_blocks_pointwise(bv0, bs2);
            assert forall|i: int|
                0 <= i < n implies function.blocks@[i].label@ == old(
                function,
            ).blocks@[i].label@ by {
                assert(fold_fix(bv0[i]) == Some(bs2[i]));
            }
        }
        Ok(())
    }
}

} // verus!

verus! {

/// Adds the variable an operand names, if any, to a set.
fn add_value_var(s: &mut StringHashSet, v: &IRValue)
    ensures
        final(s)@ == old(s)@.union(value_vars(v@)),
{
    match v {
        IRValue::Variable(n) => {
            s.insert(n.clone());
            proof {
                assert(s@ =~= old(s)@.union(value_vars(v@)));
            }
        },
        IRValue::Constant(_) => {
            proof {
                assert(s@ =~= old(s)@.union(value_vars(v@)));
            }
        },
    }
}

/// Adds every variable an instruction uses as an operand to a set.
#[verifier::loop_isolation(false)]
fn add_inst_uses(s: &mut StringHashSet, inst: &IRInstruction)
    ensures
        final(s)@ == old(s)@.union(inst_uses(inst@)),
{
    match inst {
        IRInstruction::Assign(_, v) => add_value_var(s, v),
        IRInstruction::Store(_, v) => add_value_var(s, v),
        IRInstruction::Load(_, src) => {
            s.insert(src.clone());
            proof {
                assert(s@ =~= old(s)@.union(inst_uses(inst@)));
            }
        },
        IRInstruction::BinaryOp(_, _, l, r) => {
            add_value_var(s, l);
            add_value_var(s, r);
            proof {
                assert(s@ =~= old(s)@.union(inst_uses(inst@)));
            }
        },
        IRInstruction::UnaryOp(_, _, v) => add_value_var(s, v),
        IRInstruction::Call(_, _, args) => {
            let ghost av = values_view(args@);
            let n: usize = args.len();
            let mut i: usize = 0;
            proof {
                assert(av.take(0).len() == 0);
                assert(s@ =~= old(s)@.union(values_vars(av.take(0))));
            }
            while i < n
                invariant
                    n == args@.len(),
                    0 <= i <= n,
                    s@ == old(s)@.union(values_vars(av.take(i as int))),
                decreases n - i,
            {
                add_value_var(s, &args[i]);
                proof {
                    assert(av.take(i + 1 as int).drop_last() =~= av.take(i as int));
                    assert(av.take(i + 1 as int).last() == av[i as int]);
                    assert(av[i as int] == args@[i as int]@);
                    assert(s@ =~= old(s)@.union(values_vars(av.take(i + 1 as int))));
                }
                i = i + 1;
            }
            proof {
                assert(av.take(n as int) =~= av);
            }
        },
        IRInstruction::Return(v) => {
            match v {
                Some(vv) => add_value_var(s, vv),
                None => {
                    proof {
                        assert(s@ =~= old(s)@.union(inst_uses(inst@)));
                    }
                },
            }
        },
        IRInstruction::ConditionalBranch(c, _, _) => add_value_var(s, c),
        _ => {
            proof {
                assert(s@ =~= old(s)@.union(inst_uses(inst@)));
            }
        },
    }
}

/// Adds the operands of every side-effecting instruction of a block to a
/// set.
#[verifier::loop_isolation(false)]
fn seed_block_roots(live: &mut StringHashSet, block: &IRBlock)
    ensures
        final(live)@ == old(live)@.union(root_uses(instrs_view(block.instructions@))),
{
    let ghost iv = instrs_view(block.instructions@);
    let n: usize = block.instructions.len();
    let mut i: usize = 0;
    proof {
        assert(iv.skip(0) =~= iv);
        assert(old(live)@.union(root_uses(iv)) =~= live@.union(root_uses(iv.skip(0))));
    }
    while i < n
        invariant
            n == block.instructions@.len(),
            0 <= i <= n,
            iv.len() == n,
            old(live)@.union(root_uses(iv)) == live@.union(root_uses(iv.skip(i as int))),
        decreases n - i,
    {
        proof {
            assert(iv.skip(i as int)[0] == iv[i as int]);
            assert(iv[i as int] == block.instructions@[i as int]@);
            assert(iv.skip(i as int).drop_first() =~= iv.skip(i + 1 as int));
        }
        let is_root = match &block.instructions[i] {
            IRInstruction::Store(_, _) => true,
            IRInstruction::Call(_, _, _) => true,
            IRInstruction::Return(_) => true,
            IRInstruction::ConditionalBranch(_, _, _) => true,
            _ => false,
        };
        if is_root {
            add_inst_uses(live, &block.instructions[i]);
        }
        proof {
            assert(old(live)@.union(root_uses(iv)) =~= live@.union(
                root_uses(iv.skip(i + 1 as int)),
            ));
        }
        i = i + 1;
    }
    proof {
        assert(root_uses(iv.skip(n as int)) =~= Set::<Seq<char>>::empty());
        assert(live@ =~= live@.union(root_uses(iv.skip(n as int))));
    }
}

/// One liveness propagation pass over one block, per [`live_step`].
#[verifier::loop_isolation(false)]
fn live_pass_block(live: &mut StringHashSet, block: &IRBlock)
    ensures
        final(live)@ == live_step(instrs_view(block.instructions@), old(live)@),
{
    let ghost iv = instrs_view(block.instructions@);
    let ghost s0 = live@;
    let n: usize = block.instructions.len();
    let mut j: usize = 0;
    proof {
        assert(iv.skip(0) =~= iv);
    }
    while j < n
        invariant
            n == block.instructions@.len(),
            0 <= j <= n,
            iv.len() == n,
            live_step(iv, s0) == live_step(iv.skip(j as int), live@),
        decreases n - j,
    {
        proof {
            assert(iv.skip(j as int)[0] == iv[j as int]);
            assert(iv[j as int] == block.instructions@[j as int]@);
            assert(iv.skip(j as int).drop_first() =~= iv.skip(j + 1 as int));
        }
        let def_name: Option<&String> = match &block.instructions[j] {
            IRInstruction::Assign(t, _) => Some(t),
            IRInstruction::Load(d, _) => Some(d),
            IRInstruction::BinaryOp(d, _, _, _) => Some(d),
            IRInstruction::UnaryOp(d, _, _) => Some(d),
            IRInstruction::Call(d, _, _) => Some(d),
            _ => None,
        };
        let def_live = match def_name {
            Some(d) => live.contains(d.as_str()),
            None => false,
        };
        if def_live {
            add_inst_uses(live, &block.instructions[j]);
        }
        j = j + 1;
    }
    proof {
        assert(iv.skip(n as int).len() == 0);
    }
}

/// One liveness propagation pass over a whole function, walking its blocks
/// in order, per [`live_step_blocks`].
#[verifier::loop_isolation(false)]
fn live_pass(live: &mut StringHashSet, function: &IRFunction)
    ensures
        final(live)@ == live_step_blocks(blocks_view(function.blocks@), old(live)@),
{
    let ghost bv = blocks_view(function.blocks@);
    let ghost s0 = live@;
    let nb: usize = function.blocks.len();
    let mut i: usize = 0;
    proof {
        assert(bv.skip(0) =~= bv);
    }
    while i < nb
        invariant
            nb == function.blocks@.len(),
            0 <= i <= nb,
            bv.len() == nb,
            live_step_blocks(bv, s0) == live_step_blocks(bv.skip(i as int), live@),
        decreases nb - i,
    {
        proof {
            assert(bv.skip(i as int)[0] == bv[i as int]);
            assert(bv[i as int] == instrs_view(function.blocks@[i as int].instructions@));
            assert(bv.skip(i as int).drop_first() =~= bv.skip(i + 1 as int));
        }
        live_pass_block(live, &function.blocks[i]);
        i = i + 1;
    }
    proof {
        assert(bv.skip(nb as int).len() == 0);
    }
}

impl Optimizer {
    /// Computes a function's live set, per [`live_set_fun`]: the seed
    /// from the side-effecting instructions of every block, then as many
    /// propagation passes as the function has instructions.
    #[verifier::loop_isolation(false)]
    fn mark_live_variables(&self, function: &IRFunction) -> (r: StringHashSet)
        ensures
            r@ == live_set_fun(blocks_view(function.blocks@)),
    {
        let ghost bv = blocks_view(function.blocks@);
        let nb: usize = function.blocks.len();
        let mut live = StringHashSet::new();
        let mut i: usize = 0;
        proof {
            assert(bv.skip(0) =~= bv);
            assert(root_uses_blocks(bv) =~= live@.union(root_uses_blocks(bv.skip(0))));
        }
        while i < nb
            invariant
                nb == function.blocks@.len(),
                0 <= i <= nb,
                bv.len() == nb,
                root_uses_blocks(bv) == live@.union(root_uses_blocks(bv.skip(i as int))),
            decreases nb - i,
        {
            proof {
                assert(bv.skip(i as int)[0] == bv[i as int]);
                assert(bv[i as int] == instrs_view(function.blocks@[i as int].instructions@));
                assert(bv.skip(i as int).drop_first() =~= bv.skip(i + 1 as int));
            }
            seed_block_roots(&mut live, &function.blocks[i]);
            proof {
                assert(root_uses_blocks(bv) =~= live@.union(
                    root_uses_blocks(bv.skip(i + 1 as int)),
                ));
            }
            i = i + 1;
        }
        proof {
            assert(root_uses_blocks(bv.skip(nb as int)) =~= Set::<Seq<char>>::empty());
            assert(live@ =~= live@.union(root_uses_blocks(bv.skip(nb as int))));
            assert(live@ == live_upto_fun(bv, 0));
        }

        let mut bi: usize = 0;
        proof {
            assert(bv.take(0).len() == 0);
        }
        while bi < nb
            invariant
                nb == function.blocks@.len(),
                0 <= bi <= nb,
                bv.len() == nb,
                live@ == live_upto_fun(bv, flat_len(bv.take(bi as int))),
            decreases nb - bi,
        {
            let leni: usize = function.blocks[bi].instructions.len();
            let mut j: usize = 0;
            proof {
                assert(bv[bi as int] == instrs_view(function.blocks@[bi as int].instructions@));
            }
            while j < leni
                invariant
                    nb == function.blocks@.len(),
                    0 <= bi < nb,
                    bv.len() == nb,
                    leni == bv[bi as int].len(),
                    0 <= j <= leni,
                    live@ == live_upto_fun(bv, (flat_len(bv.take(bi as int)) + j) as nat),
                decreases leni - j,
            {
                live_pass(&mut live, function);
                j = j + 1;
            }
            proof {
                assert(bv.take(bi + 1 as int).drop_last() =~= bv.take(bi as int));
                assert(bv.take(bi + 1 as int).last() == bv[bi as int]);
                assert(flat_len(bv.take(bi + 1 as int)) == flat_len(bv.take(bi as int)) + leni);
            }
            bi = bi + 1;
        }
        proof {
            assert(bv.take(nb as int) =~= bv);
        }
        live
    }

    /// Drops every pure definition whose result is not in the live set,
    /// per [`dce_keep`].
    #[verifier::loop_isolation(false)]
    fn remove_dead_code(&self, block: &mut IRBlock, live_vars: &StringHashSet)
        ensures
            final(block).label@ == old(block).label@,
            instrs_view(final(block).instructions@) == dce_keep(
                instrs_view(old(block).instructions@),
                live_vars@,
            ),
    {
        let ghost iv = instrs_view(block.instructions@);
        let mut taken: Vec<IRInstruction> = Vec::new();
        core::mem::swap(&mut block.instructions, &mut taken);
        let n: usize = taken.len();
        let mut out: Vec<IRInstruction> = Vec::new();
        let mut i: usize = 0;
        proof {
            assert(iv.skip(0) =~= iv);
            assert(dce_keep(iv, live_vars@) =~= instrs_view(out@) + dce_keep(
                iv.skip(0),
                live_vars@,
            ));
        }
        while i < n
            invariant
                n == taken@.len(),
                0 <= i <= n,
                iv == instrs_view(taken@),
                block.label@ == old(block).label@,
                dce_keep(iv, live_vars@) == instrs_view(out@) + dce_keep(
                    iv.skip(i as int),
                    live_vars@,
                ),
            decreases n - i,
        {
            proof {
                assert(iv.skip(i as int)[0] == iv[i as int]);
                assert(iv[i as int] == taken@[i as int]@);
                assert(iv.skip(i as int).drop_first() =~= iv.skip(i + 1 as int));
            }
            let keep = match &taken[i] {
                IRInstruction::Assign(t, _) => live_vars.contains(t.as_str()),
                IRInstruction::Load(d, _) => live_vars.contains(d.as_str()),
                IRInstruction::BinaryOp(d, _, _, _) => live_vars.contains(d.as_str()),
                IRInstruction::UnaryOp(d, _, _) => live_vars.contains(d.as_str()),
                _ => true,
            };
            let ghost outpre = out@;
            if keep {
                let c = taken[i].clone();
                out.push(c);
                proof {
                    assert(out@.drop_last() =~= outpre);
                    assert forall|j: int|
                        0 <= j < out@.len() - 1 implies instrs_view(out@)[j] == instrs_view(
                        outpre,
                    )[j] by {
                        assert(out@[j] == outpre[j]);
                    }
                    assert(instrs_view(out@) =~= instrs_view(outpre).push(out@.last()@));
                    assert forall|restx: Seq<InstrV>|
                        true implies instrs_view(outpre) + (seq![out@.last()@] + restx)
                        =~= instrs_view(out@) + restx by {}
                }
            }
            i = i + 1;
        }
        proof {
            assert(iv.skip(n as int).len() == 0);
            assert(instrs_view(out@) + Seq::<InstrV>::empty() =~= instrs_view(out@));
        }
        block.instructions = out;
    }

    /// Dead-code elimination over every block of a function: one live set
    /// is computed for the whole function, and every block is filtered
    /// against it, per [`dce_blocks`].
    #[verifier::loop_isolation(false)]
    #[verifier::rlimit(60)]
    pub fn dead_code_elimination(&mut self, function: &mut IRFunction)
        ensures
            *final(self) == *old(self),
            final(function).name@ == old(function).name@,
            final(function).parameters@ == old(function).parameters@,
            final(function).return_type == old(function).return_type,
            final(function).priority == old(function).priority,
            final(function).blocks@.len() == old(function).blocks@.len(),
            blocks_view(final(function).blocks@) == dce_blocks(blocks_view(old(function).blocks@)),
            forall|i: int|
                0 <= i < old(function).blocks@.len() ==> final(function).blocks@[i].label@
                    == #[trigger] old(function).blocks@[i].label@,
    {
        let ghost bv0 = blocks_view(old(function).blocks@);
        let live = self.mark_live_variables(function);
        let mut pending: Vec<IRBlock> = Vec::new();
        core::mem::swap(&mut function.blocks, &mut pending);
        let n: usize = pending.len();
        let mut done: Vec<IRBlock> = Vec::new();
        let mut k: usize = 0;
        while k < n
            invariant
                n == bv0.len(),
                0 <= k <= n,
                pending@.len() == n - k,
                *self == *old(self),
                live@ == live_set_fun(bv0),
                forall|j: int|
                    0 <= j < n - k ==> instrs_view(#[trigger] pending@[j].instructions@) == bv0[j
                        + k],
                forall|j: int|
                    0 <= j < n - k ==> #[trigger] pending@[j].label@ == old(
                        function,
                    ).blocks@[j + k].label@,
                done@.len() == k,
                forall|j: int|
                    0 <= j < k ==> instrs_view(#[trigger] done@[j].instructions@) == dce_keep(
                        bv0[j],
                        live_set_fun(bv0),
                    ) && done@[j].label@ == old(function).blocks@[j].label@,
            decreases n - k,
        {
            let ghost pdpre = pending@;
            let mut b = pending.remove(0);
            proof {
                assert forall|j: int|
                    0 <= j < pending@.len() implies instrs_view(
                    #[trigger] pending@[j].instructions@,
                ) == bv0[j + k + 1] by {
                    assert(pending@[j] == pdpre[j + 1]);
                    assert(instrs_view(pdpre[j + 1].instructions@) == bv0[(j + 1) + k]);
                }
                assert forall|j: int|
                    0 <= j < pending@.len() implies #[trigger] pending@[j].label@ == old(
                    function,
                ).blocks@[j + k + 1].label@ by {
                    assert(pending@[j] == pdpre[j + 1]);
                    assert(pdpre[j + 1].label@ == old(function).blocks@[(j + 1) + k].label@);
                }
            }
            self.remove_dead_code(&mut b, &live);
            done.push(b);
            k = k + 1;
        }
        function.blocks = done;
        proof {
            assert forall|i: int|
                0 <= i < n implies blocks_view(function.blocks@)[i] == dce_blocks(bv0)[i] by {
                assert(instrs_view(function.blocks@[i].instructions@) == dce_keep(
                    bv0[i],
                    live_set_fun(bv0),
                ));
            }
            assert(blocks_view(function.blocks@) =~= dce_blocks(bv0));
            assert forall|i: int|
                0 <= i < n implies function.blocks@[i].label@ == old(
                function,
            ).blocks@[i].label@ by {
                assert(instrs_view(function.blocks@[i].instructions@) == dce_keep(
                    bv0[i],
                    live_set_fun(bv0),
                ));
            }
        }
    }

    /// Priority-redundancy elimination over every block of a function, the
    /// per-variable record threading from block to block, per
    /// [`prio_blocks`].
    #[verifier::loop_isolation(false)]
    #[verifier::rlimit(60)]
    pub fn optimize_priority_ownership(&mut self, function: &mut IRFunction)
        ensures
            final(self).cvals() == old(self).cvals(),
            final(function).name@ == old(function).name@,
            final(function).parameters@ == old(function).parameters@,
            final(function).return_type == old(function).return_type,
            final(function).priority == old(function).priority,
            final(function).blocks@.len() == old(function).blocks@.len(),
            blocks_view(final(function).blocks@) == prio_blocks(
                Map::empty(),
                blocks_view(old(function).blocks@),
            ),
            forall|i: int|
                0 <= i < old(function).blocks@.len() ==> final(function).blocks@[i].label@
                    == #[trigger] old(function).blocks@[i].label@,
    {
        self.priority_ownership.clear();
        proof {
            assert(self.prios() =~= Map::<Seq<char>, u32>::empty());
        }
        let ghost bv0 = blocks_view(old(function).blocks@);
        let mut pending: Vec<IRBlock> = Vec::new();
        core::mem::swap(&mut function.blocks, &mut pending);
        let n: usize = pending.len();
        let mut done: Vec<IRBlock> = Vec::new();
        let mut k: usize = 0;
        proof {
            assert(bv0.skip(0) =~= bv0);
            assert(self.prios() == Map::<Seq<char>, u32>::empty());
            assert(blocks_view(done@) + prio_blocks(self.prios(), bv0.skip(0)) =~= prio_blocks(
                Map::empty(),
                bv0,
            ));
        }
        while k < n
            invariant
                n == bv0.len(),
                0 <= k <= n,
                pending@.len() == n - k,
                self.cvals() == old(self).cvals(),
                forall|j: int|
                    0 <= j < n - k ==> instrs_view(#[trigger] pending@[j].instructions@) == bv0[j
                        + k],
                forall|j: int|
                    0 <= j < n - k ==> #[trigger] pending@[j].label@ == old(
                        function,
                    ).blocks@[j + k].label@,
                done@.len() == k,
                forall|j: int|
                    0 <= j < k ==> #[trigger] done@[j].label@ == old(function).blocks@[j].label@,
                prio_blocks(Map::empty(), bv0) == blocks_view(done@) + prio_blocks(
                    self.prios(),
                    bv0.skip(k as int),
                ),
            decreases n - k,
        {
            proof {
                assert(bv0.skip(k as int)[0] == bv0[k as int]);
                assert(bv0.skip(k as int).drop_first() =~= bv0.skip(k + 1 as int));
            }
            let ghost pdpre = pending@;
            let mut b = pending.remove(0);
            proof {
                assert forall|j: int|
                    0 <= j < pending@.len() implies instrs_view(
                    #[trigger] pending@[j].instructions@,
                ) == bv0[j + k + 1] by {
                    assert(pending@[j] == pdpre[j + 1]);
                    assert(instrs_view(pdpre[j + 1].instructions@) == bv0[(j + 1) + k]);
                }
                assert forall|j: int|
                    0 <= j < pending@.len() implies #[trigger] pending@[j].label@ == old(
                    function,
                ).blocks@[j + k + 1].label@ by {
                    assert(pending@[j] == pdpre[j + 1]);
                    assert(pdpre[j + 1].label@ == old(function).blocks@[(j + 1) + k].label@);
                }
            }
            let ghost donepre = done@;
            let ghost mpre = self.prios();
            self.prio_block(&mut b);
            done.push(b);
            proof {
                assert(done@.drop_last() =~= donepre);
                assert forall|j: int|
                    0 <= j < done@.len() - 1 implies blocks_view(done@)[j] == blocks_view(
                    donepre,
                )[j] by {
                    assert(done@[j] == donepre[j]);
                }
                assert(blocks_view(done@) =~= blocks_view(donepre).push(
                    instrs_view(done@.last().instructions@),
                ));
                assert forall|restx: Seq<Seq<InstrV>>|
                    true implies blocks_view(donepre) + (seq![
                    instrs_view(done@.last().instructions@),
                ] + restx) =~= blocks_view(done@) + restx by {}
            }
            k = k + 1;
        }
        function.blocks = done;
        proof {
            assert(bv0.skip(n as int).len() == 0);
            assert(blocks_view(function.blocks@) + Seq::<Seq<InstrV>>::empty() =~= blocks_view(
                function.blocks@,
            ));
        }
    }

    /// One priority-redundancy pass over a block, per [`prio_pass`],
    /// continuing from the current record.
    #[verifier::loop_isolation(false)]
    fn prio_block(&mut self, block: &mut IRBlock)
        ensures
            final(self).cvals() == old(self).cvals(),
            final(block).label@ == old(block).label@,
            instrs_view(final(block).instructions@) == prio_pass(
                old(self).prios(),
                instrs_view(old(block).instructions@),
            ).insts,
            final(self).prios() == prio_pass(
                old(self).prios(),
                instrs_view(old(block).instructions@),
            ).m,
    {
        let ghost iv = instrs_view(block.instructions@);
        let ghost m0 = self.prios();
        let mut taken: Vec<IRInstruction> = Vec::new();
        core::mem::swap(&mut block.instructions, &mut taken);
        let n: usize = taken.len();
        let mut out: Vec<IRInstruction> = Vec::new();
        let mut i: usize = 0;
        proof {
            assert(iv.skip(0) =~= iv);
            assert(prio_pass(m0, iv).insts =~= instrs_view(out@) + prio_pass(
                self.prios(),
                iv.skip(0),
            ).insts);
        }
        while i < n
            invariant
                n == taken@.len(),
                0 <= i <= n,
                iv == instrs_view(taken@),
                block.label@ == old(block).label@,
                self.cvals() == old(self).cvals(),
                prio_pass(m0, iv).insts == instrs_view(out@) + prio_pass(
                    self.prios(),
                    iv.skip(i as int),
                ).insts,
                prio_pass(m0, iv).m == prio_pass(self.prios(), iv.skip(i as int)).m,
            decreases n - i,
        {
            proof {
                assert(iv.skip(i as int)[0] == iv[i as int]);
                assert(iv[i as int] == taken@[i as int]@);
                assert(iv.skip(i as int).drop_first() =~= iv.skip(i + 1 as int));
            }
            let mut drop_it: bool = false;
            if let IRInstruction::PriorityOwnership(variable, priority) = &taken[i] {
                match self.priority_ownership.get(variable.as_str()) {
                    Some(q) => {
                        if *q == *priority {
                            drop_it = true;
                        } else {
                            self.priority_ownership.insert(variable.clone(), *priority);
                        }
                    },
                    None => {
                        self.priority_ownership.insert(variable.clone(), *priority);
                    },
                }
            }
            let ghost outpre = out@;
            if !drop_it {
                let c = taken[i].clone();
                out.push(c);
                proof {
                    assert(out@.drop_last() =~= outpre);
                    assert forall|j: int|
                        0 <= j < out@.len() - 1 implies instrs_view(out@)[j] == instrs_view(
                        outpre,
                    )[j] by {
                        assert(out@[j] == outpre[j]);
                    }
                    assert(instrs_view(out@) =~= instrs_view(outpre).push(out@.last()@));
                    assert forall|restx: Seq<InstrV>|
                        true implies instrs_view(outpre) + (seq![out@.last()@] + restx)
                        =~= instrs_view(out@) + restx by {}
                }
            }
            i = i + 1;
        }
        proof {
            assert(iv.skip(n as int).len() == 0);
            assert(instrs_view(out@) + Seq::<InstrV>::empty() =~= instrs_view(out@));
        }
        block.instructions = out;
    }

    /// Runs the whole pipeline on a function: constant folding to a
    /// fixpoint, dead-code elimination, then priority-redundancy
    /// elimination, per [`optimize_fun_spec`]. Fails exactly when folding
    /// meets a division by a literal zero.
    #[verifier::loop_isolation(false)]
    pub fn optimize(&mut self, function: &mut IRFunction) -> (r: Result<(), SlangError>)
        ensures
            final(function).name@ == old(function).name@,
            final(function).parameters@ == old(function).parameters@,
            final(function).return_type == old(function).return_type,
            final(function).priority == old(function).priority,
            match r {
                Ok(_) => optimize_fun_spec(blocks_view(old(function).blocks@)) == Some(
                    blocks_view(final(function).blocks@),
                ) && final(function).blocks@.len() == old(function).blocks@.len() && (forall|
                    i: int,
                |
                    0 <= i < old(function).blocks@.len() ==> final(function).blocks@[i].label@
                        == #[trigger] old(function).blocks@[i].label@),
                Err(e) => fold_blocks(blocks_view(old(function).blocks@)) is None && e is Type,
            },
    {
        let rr = self.constant_folding(function);
        if let Err(e) = rr {
            return Err(e);
        }
        self.dead_code_elimination(function);
        self.optimize_priority_ownership(function);
        Ok(())
    }
}

} // verus!

verus! {

/// Two consecutive identical priority declarations for the same variable
/// collapse to one: the pass produces the same result whether the
/// duplicate is present or not, whatever record precedes them.
pub proof fn lemma_priority_collapse(
    m: Map<Seq<char>, u32>,
    v: Seq<char>,
    p: u32,
    rest: Seq<InstrV>,
)
    ensures
        prio_pass(
            m,
            seq![InstrV::PriorityOwnership(v, p), InstrV::PriorityOwnership(v, p)] + rest,
        ) == prio_pass(m, seq![InstrV::PriorityOwnership(v, p)] + rest),
{
    reveal_with_fuel(prio_pass, 4);
    let two = seq![InstrV::PriorityOwnership(v, p), InstrV::PriorityOwnership(v, p)] + rest;
    let one = seq![InstrV::PriorityOwnership(v, p)] + rest;
    assert(two[0] == InstrV::PriorityOwnership(v, p));
    assert(one[0] == InstrV::PriorityOwnership(v, p));
    assert(two.drop_first() =~= one);
    assert(one.drop_first() =~= rest);
    if m.contains_key(v) && m[v] == p {
    } else {
        let m1 = m.insert(v, p);
        assert(m1.contains_key(v) && m1[v] == p);
    }
}

/// Two consecutive declarations with differing tags are both retained, in
/// order, provided the first is not itself redundant against the record
/// that precedes it.
pub proof fn lemma_priority_retention(
    m: Map<Seq<char>, u32>,
    v: Seq<char>,
    p1: u32,
    p2: u32,
    rest: Seq<InstrV>,
)
    requires
        p1 != p2,
        !(m.contains_key(v) && m[v] == p1),
    ensures
        prio_pass(
            m,
            seq![InstrV::PriorityOwnership(v, p1), InstrV::PriorityOwnership(v, p2)] + rest,
        ).insts == seq![InstrV::PriorityOwnership(v, p1), InstrV::PriorityOwnership(v, p2)]
            + prio_pass(m.insert(v, p1).insert(v, p2), rest).insts,
{
    reveal_with_fuel(prio_pass, 4);
    let two = seq![InstrV::PriorityOwnership(v, p1), InstrV::PriorityOwnership(v, p2)] + rest;
    assert(two[0] == InstrV::PriorityOwnership(v, p1));
    assert(two.drop_first() =~= seq![InstrV::PriorityOwnership(v, p2)] + rest);
    let m1 = m.insert(v, p1);
    let snd = seq![InstrV::PriorityOwnership(v, p2)] + rest;
    assert(snd[0] == InstrV::PriorityOwnership(v, p2));
    assert(snd.drop_first() =~= rest);
    assert(m1.contains_key(v) && m1[v] == p1 && p1 != p2);
    let m2 = m1.insert(v, p2);
    assert(prio_pass(m, two).insts =~= seq![
        InstrV::PriorityOwnership(v, p1),
        InstrV::PriorityOwnership(v, p2),
    ] + prio_pass(m2, rest).insts);
}

} // verus!
