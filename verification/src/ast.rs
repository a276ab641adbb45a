//! The abstract syntax produced by the parser and consumed by the type
//! checker and the type inference engine.
//!
//! A program arrives as an [`AST`]: an ordered list of function declarations
//! and an ordered list of record-type definitions. Statements and
//! expressions are plain recursive data; the analyses in this crate walk
//! them without modifying them.

use vstd::prelude::*;

use crate::type_system::Type;
use crate::type_system::TypeV;

verus! {

/// A parsed compilation unit: functions and record-type definitions, in
/// source order.
#[derive(Debug, PartialEq)]
pub struct AST {
    pub functions: Vec<Function>,
    pub type_definitions: Vec<TypeDefinition>,
}

impl AST {
    /// An empty compilation unit.
    pub fn new() -> (r: AST)
        ensures
            r.functions@ == Seq::<Function>::empty(),
            r.type_definitions@ == Seq::<TypeDefinition>::empty(),
    {
        AST { functions: Vec::new(), type_definitions: Vec::new() }
    }

    /// Appends a function declaration.
    pub fn add_function(&mut self, func: Function)
        ensures
            final(self).functions@ == old(self).functions@.push(func),
            final(self).type_definitions@ == old(self).type_definitions@,
    {
        self.functions.push(func);
    }

    /// Appends a record-type definition.
    pub fn add_type_definition(&mut self, def: TypeDefinition)
        ensures
            final(self).type_definitions@ == old(self).type_definitions@.push(def),
            final(self).functions@ == old(self).functions@,
    {
        self.type_definitions.push(def);
    }
}

/// A function declaration: name, typed parameters, declared return type, a
/// priority-ownership level, and the body.
#[derive(Debug, PartialEq)]
pub struct Function {
    pub name: String,
    pub parameters: Vec<Parameter>,
    pub return_type: Type,
    pub priority: i32,
    pub body: Block,
}

/// A named, annotated function parameter.
#[derive(Debug, PartialEq)]
pub struct Parameter {
    pub name: String,
    pub type_annotation: Type,
}

/// A record-type definition: a name and its ordered field list.
#[derive(Debug, PartialEq)]
pub struct TypeDefinition {
    pub name: String,
    pub fields: Vec<Field>,
}

/// One field of a record-type definition.
#[derive(Debug, PartialEq)]
pub struct Field {
    pub name: String,
    pub type_annotation: Type,
}

/// The model of a record-type field: its name and its type's model.
pub struct FieldV {
    pub name: Seq<char>,
    pub ty: TypeV,
}

impl View for Field {
    type V = FieldV;

    open spec fn view(&self) -> FieldV {
        FieldV { name: self.name@, ty: self.type_annotation@ }
    }
}

impl Clone for Field {
    /// A copy with the same model.
    fn clone(&self) -> (res: Self)
        ensures
            res@ == self@,
    {
        Field { name: self.name.clone(), type_annotation: self.type_annotation.clone() }
    }
}

/// The model of a record-type definition: its name and its ordered fields.
pub struct TypeDefV {
    pub name: Seq<char>,
    pub fields: Seq<FieldV>,
}

/// The models of a field list, in order.
pub open spec fn fields_view(s: Seq<Field>) -> Seq<FieldV> {
    Seq::new(s.len(), |i: int| s[i]@)
}

impl View for TypeDefinition {
    type V = TypeDefV;

    open spec fn view(&self) -> TypeDefV {
        TypeDefV { name: self.name@, fields: fields_view(self.fields@) }
    }
}

impl Clone for TypeDefinition {
    /// A copy with the same model.
    fn clone(&self) -> (res: Self)
        ensures
            res@ == self@,
    {
        let n: usize = self.fields.len();
        let mut out: Vec<Field> = Vec::new();
        let mut i: usize = 0;
        while i < n
            invariant
                n == self.fields@.len(),
                0 <= i <= n,
                out@.len() == i,
                forall|j: int| 0 <= j < i ==> #[trigger] out@[j]@ == self.fields@[j]@,
            decreases n - i,
        {
            let c = self.fields[i].clone();
            out.push(c);
            i = i + 1;
        }
        let res = TypeDefinition { name: self.name.clone(), fields: out };
        proof {
            assert(fields_view(res.fields@) =~= fields_view(self.fields@));
        }
        res
    }
}

/// A statement list.
#[derive(Debug, PartialEq)]
pub struct Block {
    pub statements: Vec<Statement>,
}

/// A statement.
#[derive(Debug, PartialEq)]
pub enum Statement {
    Let(LetStatement),
    Return(ReturnStatement),
    If(IfStatement),
    While(WhileStatement),
    For(ForStatement),
    Match(MatchStatement),
    Expression(Box<Expression>),
}

/// `let name [: T] = value;`
#[derive(Debug, PartialEq)]
pub struct LetStatement {
    pub name: String,
    pub type_annotation: Option<Type>,
    pub value: Box<Expression>,
}

/// `return [value];`
#[derive(Debug, PartialEq)]
pub struct ReturnStatement {
    pub value: Option<Box<Expression>>,
}

/// `if condition { then_block } [else { else_block }]`
#[derive(Debug, PartialEq)]
pub struct IfStatement {
    pub condition: Box<Expression>,
    pub then_block: Block,
    pub else_block: Option<Block>,
}

/// `while condition { body }`
#[derive(Debug, PartialEq)]
pub struct WhileStatement {
    pub condition: Box<Expression>,
    pub body: Block,
}

/// `for variable in iterator { body }`
#[derive(Debug, PartialEq)]
pub struct ForStatement {
    pub variable: String,
    pub iterator: Box<Expression>,
    pub body: Block,
}

/// `match expression { pattern => { body }, ... }`
#[derive(Debug, PartialEq)]
pub struct MatchStatement {
    pub expression: Box<Expression>,
    pub arms: Vec<MatchArm>,
}

/// One arm of a `match` statement.
#[derive(Debug, PartialEq)]
pub struct MatchArm {
    pub pattern: Pattern,
    pub body: Block,
}

/// A pattern of a `match` arm.
#[derive(Debug, PartialEq)]
pub enum Pattern {
    Identifier(String),
    Literal(Literal),
    Wildcard,
    Tuple(Vec<Pattern>),
    Struct { name: String, fields: Vec<FieldPattern> },
}

/// A named field inside a struct pattern.
#[derive(Debug, PartialEq)]
pub struct FieldPattern {
    pub name: String,
    pub pattern: Box<Pattern>,
}

/// An expression.
#[derive(Debug, PartialEq)]
pub enum Expression {
    Literal(Literal),
    Identifier(String),
    BinaryOp(Box<BinaryOpExpression>),
    UnaryOp(Box<UnaryOpExpression>),
    Call(Box<CallExpression>),
    Assignment(Box<AssignmentExpression>),
}

/// A literal value.
///
/// A floating literal is carried as the raw bit pattern of its IEEE-754
/// double-precision encoding. The analyses in this crate classify a
/// floating literal by its tag alone and never interpret the bits; the
/// numeric value matters only to the surrounding tooling, which converts
/// with `f64::to_bits` and `f64::from_bits`.
#[derive(Debug, PartialEq)]
pub enum Literal {
    Int(i64),
    Float(u64),
    Bool(bool),
    String(String),
    Null,
}

impl Clone for Literal {
    /// An equal copy.
    fn clone(&self) -> (res: Self)
        ensures
            res == *self,
    {
        match self {
            Literal::Int(i) => Literal::Int(*i),
            Literal::Float(bits) => Literal::Float(*bits),
            Literal::Bool(b) => Literal::Bool(*b),
            Literal::String(s) => Literal::String(s.clone()),
            Literal::Null => Literal::Null,
        }
    }
}

/// A binary operation `left op right`.
#[derive(Debug, PartialEq)]
pub struct BinaryOpExpression {
    pub left: Box<Expression>,
    pub op: BinaryOperator,
    pub right: Box<Expression>,
}

/// The binary operators.
///
/// The grammar grew twice, so several operators exist under two names
/// (`Eq`/`Equals`, `Lt`/`LessThan`, `Div`/`Divide`, `Mod`/`Modulo`, ...);
/// the analyses treat each such pair identically.
#[derive(Debug, Clone, PartialEq)]
pub enum BinaryOperator {
    Add,
    Sub,
    Mul,
    Div,
    Mod,
    Eq,
    Neq,
    Lt,
    Lte,
    Gt,
    Gte,
    And,
    Or,
    Equals,
    NotEquals,
    LessThan,
    GreaterThan,
    LessThanEquals,
    GreaterThanEquals,
    Divide,
    Modulo,
}

/// A unary operation `op right`.
#[derive(Debug, PartialEq)]
pub struct UnaryOpExpression {
    pub op: UnaryOperator,
    pub right: Box<Expression>,
}

/// The unary operators; `Neg` and `Negate` are two names for arithmetic
/// negation.
#[derive(Debug, Clone, PartialEq)]
pub enum UnaryOperator {
    Neg,
    Not,
    Negate,
}

/// A call of a named function.
#[derive(Debug, PartialEq)]
pub struct CallExpression {
    pub function: String,
    pub arguments: Vec<Box<Expression>>,
}

/// An assignment `target = value` to an already-bound variable.
#[derive(Debug, PartialEq)]
pub struct AssignmentExpression {
    pub target: String,
    pub value: Box<Expression>,
}

/// A struct item as the parser delivers it.
#[derive(Debug, PartialEq)]
pub struct Struct {
    pub name: String,
    pub fields: Vec<StructField>,
}

/// A field of a struct item, optionally carrying a memory-priority tag.
#[derive(Debug, PartialEq)]
pub struct StructField {
    pub name: String,
    pub type_: Type,
    pub priority: Option<MemoryPriority>,
}

/// A trait item as the parser delivers it.
#[derive(Debug, PartialEq)]
pub struct Trait {
    pub name: String,
    pub methods: Vec<TraitMethod>,
}

/// A method signature inside a trait item.
#[derive(Debug, PartialEq)]
pub struct TraitMethod {
    pub name: String,
    pub params: Vec<Parameter>,
    pub return_type: Type,
}

/// The three families of priority tags attachable to declarations.
#[derive(Debug, Clone, PartialEq)]
pub enum PriorityType {
    Log(LogPriority),
    Function(FunctionPriority),
    Memory(MemoryPriority),
}

/// Informational logging severities; these carry no ownership meaning.
#[derive(Debug, Clone, PartialEq)]
pub enum LogPriority {
    Log,
    Info,
    Debug,
    Warn,
    Alert,
    Error,
}

/// A priority tag on a function declaration: a numeric level or one of the
/// two sentinel extremes.
#[derive(Debug, Clone, PartialEq)]
pub enum FunctionPriority {
    Level(i32),
    MostLow,
    MostHigh,
}

/// A priority tag on a storage declaration: one level, an ordered list of
/// levels, or one of the two sentinel extremes.
#[derive(Debug, Clone, PartialEq)]
pub enum MemoryPriority {
    Level(i32),
    MultiLevel(Vec<i32>),
    MostLow,
    MostHigh,
}

} // verus!
