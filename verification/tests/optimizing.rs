//! Tests of the optimizer: constant folding, dead-code elimination and
//! priority-redundancy elimination.

use slang_core::ir::IRBinaryOperator;
use slang_core::ir::IRBlock;
use slang_core::ir::IRConstant;
use slang_core::ir::IRFunction;
use slang_core::ir::IRInstruction;
use slang_core::ir::IRValue;
use slang_core::optimizer::Optimizer;
use slang_core::type_system::Type;

fn intc(i: i64) -> IRValue {
    IRValue::Constant(IRConstant::Integer(i))
}

fn var(n: &str) -> IRValue {
    IRValue::Variable(n.to_string())
}

fn fun_of(instructions: Vec<IRInstruction>) -> IRFunction {
    IRFunction {
        name: "f".to_string(),
        parameters: vec![],
        return_type: Type::Void,
        priority: 0,
        blocks: vec![IRBlock { label: "entry".to_string(), instructions }],
    }
}

#[test]
fn folding_collapses_chains() {
    // a = 2 + 3; b = a * 4  folds, after the fixpoint, to  a = 5; b = 20.
    let mut f = fun_of(vec![
        IRInstruction::BinaryOp("a".to_string(), IRBinaryOperator::Add, intc(2), intc(3)),
        IRInstruction::BinaryOp("b".to_string(), IRBinaryOperator::Multiply, var("a"), intc(4)),
    ]);
    assert!(Optimizer::new().constant_folding(&mut f).is_ok());
    assert_eq!(
        f.blocks[0].instructions,
        vec![
            IRInstruction::Assign("a".to_string(), intc(5)),
            IRInstruction::Assign("b".to_string(), intc(20)),
        ]
    );
}

#[test]
fn folding_reports_division_by_zero() {
    // a = 10 / 0 is a compile-time error, not a folded value.
    let mut f = fun_of(vec![IRInstruction::BinaryOp(
        "a".to_string(),
        IRBinaryOperator::Divide,
        intc(10),
        intc(0),
    )]);
    assert!(Optimizer::new().constant_folding(&mut f).is_err());
}

#[test]
fn folding_leaves_overflow_untouched() {
    // An exact result that does not fit an i64 is left unfolded.
    let mut f = fun_of(vec![IRInstruction::BinaryOp(
        "a".to_string(),
        IRBinaryOperator::Add,
        intc(i64::MAX),
        intc(1),
    )]);
    assert!(Optimizer::new().constant_folding(&mut f).is_ok());
    assert_eq!(
        f.blocks[0].instructions,
        vec![IRInstruction::BinaryOp(
            "a".to_string(),
            IRBinaryOperator::Add,
            intc(i64::MAX),
            intc(1),
        )]
    );
}

#[test]
fn folding_division_truncates() {
    let mut f = fun_of(vec![
        IRInstruction::BinaryOp("a".to_string(), IRBinaryOperator::Divide, intc(-7), intc(2)),
        IRInstruction::BinaryOp("b".to_string(), IRBinaryOperator::Subtract, intc(3), intc(9)),
    ]);
    assert!(Optimizer::new().constant_folding(&mut f).is_ok());
    assert_eq!(
        f.blocks[0].instructions,
        vec![
            IRInstruction::Assign("a".to_string(), intc(-3)),
            IRInstruction::Assign("b".to_string(), intc(-6)),
        ]
    );
}

#[test]
fn dead_code_is_removed() {
    // x = 1; y = 2; return y  drops the definition of x and keeps y.
    let mut f = fun_of(vec![
        IRInstruction::Assign("x".to_string(), intc(1)),
        IRInstruction::Assign("y".to_string(), intc(2)),
        IRInstruction::Return(Some(var("y"))),
    ]);
    Optimizer::new().dead_code_elimination(&mut f);
    assert_eq!(
        f.blocks[0].instructions,
        vec![
            IRInstruction::Assign("y".to_string(), intc(2)),
            IRInstruction::Return(Some(var("y"))),
        ]
    );
}

#[test]
fn liveness_propagates_through_chains() {
    // t = 1; u = t + 1; return u  keeps both definitions.
    let mut f = fun_of(vec![
        IRInstruction::Assign("t".to_string(), intc(1)),
        IRInstruction::BinaryOp("u".to_string(), IRBinaryOperator::Add, var("t"), intc(1)),
        IRInstruction::Return(Some(var("u"))),
    ]);
    Optimizer::new().dead_code_elimination(&mut f);
    assert_eq!(f.blocks[0].instructions.len(), 3);
}

#[test]
fn priority_redundancy_collapses() {
    // Two consecutive identical declarations collapse to one; two
    // differing ones are both retained, in order.
    let mut f = fun_of(vec![
        IRInstruction::PriorityOwnership("v".to_string(), 3),
        IRInstruction::PriorityOwnership("v".to_string(), 3),
    ]);
    Optimizer::new().optimize_priority_ownership(&mut f);
    assert_eq!(
        f.blocks[0].instructions,
        vec![IRInstruction::PriorityOwnership("v".to_string(), 3)]
    );

    let mut g = fun_of(vec![
        IRInstruction::PriorityOwnership("v".to_string(), 3),
        IRInstruction::PriorityOwnership("v".to_string(), 5),
        IRInstruction::PriorityOwnership("w".to_string(), 5),
    ]);
    Optimizer::new().optimize_priority_ownership(&mut g);
    assert_eq!(
        g.blocks[0].instructions,
        vec![
            IRInstruction::PriorityOwnership("v".to_string(), 3),
            IRInstruction::PriorityOwnership("v".to_string(), 5),
            IRInstruction::PriorityOwnership("w".to_string(), 5),
        ]
    );
}

#[test]
fn pipeline_preserves_effects() {
    // The full pipeline folds, drops the dead definition, collapses the
    // duplicated declaration, and keeps the side-effecting instructions.
    let mut f = fun_of(vec![
        IRInstruction::BinaryOp("a".to_string(), IRBinaryOperator::Add, intc(2), intc(3)),
        IRInstruction::Assign("dead".to_string(), intc(1)),
        IRInstruction::PriorityOwnership("a".to_string(), 2),
        IRInstruction::PriorityOwnership("a".to_string(), 2),
        IRInstruction::Return(Some(var("a"))),
    ]);
    assert!(Optimizer::new().optimize(&mut f).is_ok());
    assert_eq!(
        f.blocks[0].instructions,
        vec![
            IRInstruction::Assign("a".to_string(), intc(5)),
            IRInstruction::PriorityOwnership("a".to_string(), 2),
            IRInstruction::Return(Some(var("a"))),
        ]
    );
}

#[test]
fn pipeline_reports_division_by_zero() {
    let mut f = fun_of(vec![IRInstruction::BinaryOp(
        "a".to_string(),
        IRBinaryOperator::Divide,
        intc(10),
        intc(0),
    )]);
    assert!(Optimizer::new().optimize(&mut f).is_err());
}

#[test]
fn store_seeds_liveness() {
    // A store is externally visible: its operand stays live, and the
    // stored-through definition chain is kept.
    let mut f = fun_of(vec![
        IRInstruction::Assign("x".to_string(), intc(7)),
        IRInstruction::Store("cell".to_string(), var("x")),
    ]);
    Optimizer::new().dead_code_elimination(&mut f);
    assert_eq!(f.blocks[0].instructions.len(), 2);
}

#[test]
fn liveness_crosses_blocks() {
    // Liveness is computed for the whole function: a definition in one
    // block stays when a later block returns it, and goes when nothing
    // anywhere uses it.
    let two_blocks = |ret: IRInstruction| IRFunction {
        name: "f".to_string(),
        parameters: vec![],
        return_type: Type::Void,
        priority: 0,
        blocks: vec![
            IRBlock {
                label: "entry".to_string(),
                instructions: vec![IRInstruction::Assign("x".to_string(), intc(1))],
            },
            IRBlock { label: "exit".to_string(), instructions: vec![ret] },
        ],
    };

    let mut used = two_blocks(IRInstruction::Return(Some(var("x"))));
    Optimizer::new().dead_code_elimination(&mut used);
    assert_eq!(
        used.blocks[0].instructions,
        vec![IRInstruction::Assign("x".to_string(), intc(1))]
    );
    assert_eq!(
        used.blocks[1].instructions,
        vec![IRInstruction::Return(Some(var("x")))]
    );

    let mut unused = two_blocks(IRInstruction::Return(None));
    Optimizer::new().dead_code_elimination(&mut unused);
    assert_eq!(unused.blocks[0].instructions, vec![]);
    assert_eq!(unused.blocks[1].instructions, vec![IRInstruction::Return(None)]);
}
