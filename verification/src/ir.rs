//! The lowered instruction-list representation consumed and produced by
//! the optimizer.
//!
//! A function is a list of labelled blocks; a block is a list of tagged
//! instructions, each of which may define one result name and use operand
//! values. The ghost views ([`InstrV`], [`ValueV`], [`ConstV`]) model the
//! same shapes over sequences and character strings for the optimizer's
//! contracts.

use vstd::prelude::*;

use crate::type_system::Type;
use crate::type_system::TypeV;

verus! {

/// A lowered compilation unit: functions and globals.
#[derive(Debug)]
pub struct IR {
    pub functions: Vec<IRFunction>,
    pub globals: Vec<IRGlobal>,
}

impl IR {
    /// An empty unit.
    pub fn new() -> (r: IR)
        ensures
            r.functions@ == Seq::<IRFunction>::empty(),
            r.globals@ == Seq::<IRGlobal>::empty(),
    {
        IR { functions: Vec::new(), globals: Vec::new() }
    }

    /// Appends a function.
    pub fn add_function(&mut self, function: IRFunction)
        ensures
            final(self).functions@ == old(self).functions@.push(function),
            final(self).globals@ == old(self).globals@,
    {
        self.functions.push(function);
    }

    /// Appends a global.
    pub fn add_global(&mut self, global: IRGlobal)
        ensures
            final(self).globals@ == old(self).globals@.push(global),
            final(self).functions@ == old(self).functions@,
    {
        self.globals.push(global);
    }
}

/// A lowered function: name, typed parameters, return type, a
/// priority-ownership level, and its blocks.
#[derive(Debug)]
pub struct IRFunction {
    pub name: String,
    pub parameters: Vec<IRParameter>,
    pub return_type: Type,
    pub priority: i32,
    pub blocks: Vec<IRBlock>,
}

/// A named, typed parameter of a lowered function.
#[derive(Debug)]
pub struct IRParameter {
    pub name: String,
    pub type_annotation: Type,
}

/// A global variable with its initial value.
#[derive(Debug)]
pub struct IRGlobal {
    pub name: String,
    pub type_annotation: Type,
    pub value: IRValue,
}

/// A labelled list of instructions.
#[derive(Debug)]
pub struct IRBlock {
    pub label: String,
    pub instructions: Vec<IRInstruction>,
}

/// A lowered instruction. Each variant that produces a value names its
/// result first; a priority-declaration attaches an ownership level to a
/// variable.
#[derive(Debug, PartialEq)]
pub enum IRInstruction {
    Alloca(String, Type),
    Assign(String, IRValue),
    Store(String, IRValue),
    Load(String, String),
    BinaryOp(String, IRBinaryOperator, IRValue, IRValue),
    UnaryOp(String, IRUnaryOperator, IRValue),
    Call(String, String, Vec<IRValue>),
    Return(Option<IRValue>),
    Branch(String),
    ConditionalBranch(IRValue, String, String),
    PriorityOwnership(String, u32),
}

/// The binary operators of the lowered form.
#[derive(Debug, Clone, Copy, PartialEq, Eq)]
pub enum IRBinaryOperator {
    Add,
    Subtract,
    Multiply,
    Divide,
    Modulo,
    Equals,
    NotEquals,
    LessThan,
    GreaterThan,
    LessThanEquals,
    GreaterThanEquals,
    And,
    Or,
}

/// The unary operators of the lowered form.
#[derive(Debug, Clone, Copy, PartialEq, Eq)]
pub enum IRUnaryOperator {
    Negate,
    Not,
}

/// An operand: a literal constant or a variable reference.
#[derive(Debug, PartialEq)]
pub enum IRValue {
    Constant(IRConstant),
    Variable(String),
}

/// A literal constant. As in the syntax tree, a floating constant is
/// carried as the raw bit pattern of its IEEE-754 double-precision
/// encoding; the optimizer folds integer arithmetic only and never
/// interprets the bits.
#[derive(Debug, PartialEq)]
pub enum IRConstant {
    Integer(i64),
    Float(u64),
    String(String),
    Boolean(bool),
    Null,
}

/// The model of a constant.
pub enum ConstV {
    Integer(i64),
    Float(u64),
    String(Seq<char>),
    Boolean(bool),
    Null,
}

/// The model of an operand.
pub enum ValueV {
    Constant(ConstV),
    Variable(Seq<char>),
}

/// The model of an instruction.
pub enum InstrV {
    Alloca(Seq<char>, TypeV),
    Assign(Seq<char>, ValueV),
    Store(Seq<char>, ValueV),
    Load(Seq<char>, Seq<char>),
    BinaryOp(Seq<char>, IRBinaryOperator, ValueV, ValueV),
    UnaryOp(Seq<char>, IRUnaryOperator, ValueV),
    Call(Seq<char>, Seq<char>, Seq<ValueV>),
    Return(Option<ValueV>),
    Branch(Seq<char>),
    ConditionalBranch(ValueV, Seq<char>, Seq<char>),
    PriorityOwnership(Seq<char>, u32),
}

impl View for IRConstant {
    type V = ConstV;

    open spec fn view(&self) -> ConstV {
        match *self {
            IRConstant::Integer(i) => ConstV::Integer(i),
            IRConstant::Float(bits) => ConstV::Float(bits),
            IRConstant::String(ref s) => ConstV::String(s@),
            IRConstant::Boolean(b) => ConstV::Boolean(b),
            IRConstant::Null => ConstV::Null,
        }
    }
}

impl View for IRValue {
    type V = ValueV;

    open spec fn view(&self) -> ValueV {
        match *self {
            IRValue::Constant(ref c) => ValueV::Constant(c@),
            IRValue::Variable(ref n) => ValueV::Variable(n@),
        }
    }
}

/// The models of an operand list, in order.
pub open spec fn values_view(s: Seq<IRValue>) -> Seq<ValueV> {
    Seq::new(s.len(), |i: int| s[i]@)
}

impl View for IRInstruction {
    type V = InstrV;

    open spec fn view(&self) -> InstrV {
        match *self {
            IRInstruction::Alloca(ref n, ref t) => InstrV::Alloca(n@, t@),
            IRInstruction::Assign(ref n, ref v) => InstrV::Assign(n@, v@),
            IRInstruction::Store(ref n, ref v) => InstrV::Store(n@, v@),
            IRInstruction::Load(ref d, ref s) => InstrV::Load(d@, s@),
            IRInstruction::BinaryOp(ref d, op, ref l, ref r) => InstrV::BinaryOp(d@, op, l@, r@),
            IRInstruction::UnaryOp(ref d, op, ref v) => InstrV::UnaryOp(d@, op, v@),
            IRInstruction::Call(ref d, ref f, ref args) => InstrV::Call(d@, f@, values_view(args@)),
            IRInstruction::Return(ref v) => InstrV::Return(
                match *v {
                    Some(ref vv) => Some(vv@),
                    None => None,
                },
            ),
            IRInstruction::Branch(ref l) => InstrV::Branch(l@),
            IRInstruction::ConditionalBranch(ref c, ref l1, ref l2) => InstrV::ConditionalBranch(
                c@,
                l1@,
                l2@,
            ),
            IRInstruction::PriorityOwnership(ref n, p) => InstrV::PriorityOwnership(n@, p),
        }
    }
}

/// The models of an instruction list, in order.
pub open spec fn instrs_view(s: Seq<IRInstruction>) -> Seq<InstrV> {
    Seq::new(s.len(), |i: int| s[i]@)
}

impl Clone for IRConstant {
    /// An equal copy.
    fn clone(&self) -> (res: Self)
        ensures
            res == *self,
    {
        match self {
            IRConstant::Integer(i) => IRConstant::Integer(*i),
            IRConstant::Float(bits) => IRConstant::Float(*bits),
            IRConstant::String(s) => IRConstant::String(s.clone()),
            IRConstant::Boolean(b) => IRConstant::Boolean(*b),
            IRConstant::Null => IRConstant::Null,
        }
    }
}

impl Clone for IRValue {
    /// An equal copy.
    fn clone(&self) -> (res: Self)
        ensures
            res == *self,
    {
        match self {
            IRValue::Constant(c) => IRValue::Constant(c.clone()),
            IRValue::Variable(n) => IRValue::Variable(n.clone()),
        }
    }
}

impl Clone for IRInstruction {
    /// A copy with the same model.
    fn clone(&self) -> (res: Self)
        ensures
            res@ == self@,
    {
        match self {
            IRInstruction::Alloca(n, t) => IRInstruction::Alloca(n.clone(), t.clone()),
            IRInstruction::Assign(n, v) => IRInstruction::Assign(n.clone(), v.clone()),
            IRInstruction::Store(n, v) => IRInstruction::Store(n.clone(), v.clone()),
            IRInstruction::Load(d, s) => IRInstruction::Load(d.clone(), s.clone()),
            IRInstruction::BinaryOp(d, op, l, r) => IRInstruction::BinaryOp(
                d.clone(),
                *op,
                l.clone(),
                r.clone(),
            ),
            IRInstruction::UnaryOp(d, op, v) => IRInstruction::UnaryOp(d.clone(), *op, v.clone()),
            IRInstruction::Call(d, f, args) => {
                let n: usize = args.len();
                let mut out: Vec<IRValue> = Vec::new();
                let mut i: usize = 0;
                while i < n
                    invariant
                        n == args@.len(),
                        0 <= i <= n,
                        out@.len() == i,
                        forall|j: int| 0 <= j < i ==> out@[j] == args@[j],
                    decreases n - i,
                {
                    let c = args[i].clone();
                    out.push(c);
                    i = i + 1;
                }
                let res = IRInstruction::Call(d.clone(), f.clone(), out);
                proof {
                    assert(values_view(res->Call_2@) =~= values_view(args@));
                }
                res
            },
            IRInstruction::Return(v) => IRInstruction::Return(
                match v {
                    Some(vv) => Some(vv.clone()),
                    None => None,
                },
            ),
            IRInstruction::Branch(l) => IRInstruction::Branch(l.clone()),
            IRInstruction::ConditionalBranch(c, l1, l2) => IRInstruction::ConditionalBranch(
                c.clone(),
                l1.clone(),
                l2.clone(),
            ),
            IRInstruction::PriorityOwnership(n, p) => IRInstruction::PriorityOwnership(
                n.clone(),
                *p,
            ),
        }
    }
}

} // verus!
