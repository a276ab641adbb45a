//! Tests of the constraint-based type inference engine.

use slang_core::ast::Block;
use slang_core::ast::Expression;
use slang_core::ast::Function;
use slang_core::ast::LetStatement;
use slang_core::ast::Literal;
use slang_core::ast::Parameter;
use slang_core::ast::ReturnStatement;
use slang_core::ast::Statement;
use slang_core::ast::Field;
use slang_core::ast::FieldPattern;
use slang_core::ast::MatchArm;
use slang_core::ast::MatchStatement;
use slang_core::ast::Pattern;
use slang_core::ast::TypeDefinition;
use slang_core::ast::AST;
use slang_core::ast::BinaryOpExpression;
use slang_core::ast::BinaryOperator;
use slang_core::type_system::inference::TypeInference;
use slang_core::type_system::Type;

fn unannotated(return_type: Type, statements: Vec<Statement>) -> AST {
    AST {
        functions: vec![Function {
            name: "main".to_string(),
            parameters: vec![],
            return_type,
            priority: 0,
            body: Block { statements },
        }],
        type_definitions: vec![],
    }
}

#[test]
fn test_type_inference() {
    let mut inference = TypeInference::new();
    let ast = AST {
        functions: vec![Function {
            name: "test_type_inference".to_string(),
            parameters: vec![],
            return_type: Type::Int,
            priority: 0,
            body: Block {
                statements: vec![
                    Statement::Let(LetStatement {
                        name: "x".to_string(),
                        type_annotation: None,
                        value: Box::new(Expression::Literal(Literal::Int(42))),
                    }),
                    Statement::Let(LetStatement {
                        name: "y".to_string(),
                        type_annotation: None,
                        value: Box::new(Expression::BinaryOp(Box::new(BinaryOpExpression {
                            left: Box::new(Expression::Identifier("x".to_string())),
                            op: BinaryOperator::Add,
                            right: Box::new(Expression::Literal(Literal::Int(1))),
                        }))),
                    }),
                    Statement::Return(ReturnStatement {
                        value: Some(Box::new(Expression::Identifier("y".to_string()))),
                    }),
                ],
            },
        }],
        type_definitions: vec![],
    };
    assert!(inference.infer_types(&ast).is_ok());
}

#[test]
fn unannotated_chain_resolves() {
    // `let x = 1; let y = x + 1; return y;` infers Int for both bindings
    // and emits no failing constraint.
    let ast = unannotated(
        Type::Int,
        vec![
            Statement::Let(LetStatement {
                name: "x".to_string(),
                type_annotation: None,
                value: Box::new(Expression::Literal(Literal::Int(1))),
            }),
            Statement::Let(LetStatement {
                name: "y".to_string(),
                type_annotation: None,
                value: Box::new(Expression::BinaryOp(Box::new(BinaryOpExpression {
                    left: Box::new(Expression::Identifier("x".to_string())),
                    op: BinaryOperator::Add,
                    right: Box::new(Expression::Literal(Literal::Int(1))),
                }))),
            }),
            Statement::Return(ReturnStatement {
                value: Some(Box::new(Expression::Identifier("y".to_string()))),
            }),
        ],
    );
    assert!(TypeInference::new().infer_types(&ast).is_ok());
}

#[test]
fn deferred_annotation_mismatch_fails_in_solving() {
    // An annotation that cannot unify is not rejected during traversal but
    // refuted by the solver.
    let ast = unannotated(
        Type::Void,
        vec![Statement::Let(LetStatement {
            name: "x".to_string(),
            type_annotation: Some(Type::Array(Box::new(Type::Int))),
            value: Box::new(Expression::Literal(Literal::Int(1))),
        })],
    );
    assert!(TypeInference::new().infer_types(&ast).is_err());
}

#[test]
fn equality_defers_and_solves() {
    // `1 == 2` defers an Int/Int constraint, which the solver discharges.
    let ast = unannotated(
        Type::Void,
        vec![Statement::Expression(Box::new(Expression::BinaryOp(Box::new(
            BinaryOpExpression {
                left: Box::new(Expression::Literal(Literal::Int(1))),
                op: BinaryOperator::Eq,
                right: Box::new(Expression::Literal(Literal::Int(2))),
            },
        ))))],
    );
    assert!(TypeInference::new().infer_types(&ast).is_ok());

    // `1 == "a"` defers an Int/String constraint, which the solver refutes.
    let bad = unannotated(
        Type::Void,
        vec![Statement::Expression(Box::new(Expression::BinaryOp(Box::new(
            BinaryOpExpression {
                left: Box::new(Expression::Literal(Literal::Int(1))),
                op: BinaryOperator::Eq,
                right: Box::new(Expression::Literal(Literal::String("a".to_string()))),
            },
        ))))],
    );
    assert!(TypeInference::new().infer_types(&bad).is_err());
}

#[test]
fn aggregate_constraints_decompose() {
    // Equality of two tuple-typed parameters decomposes position by
    // position and solves; a length mismatch is refuted.
    let with_params = |t1: Type, t2: Type| {
        AST {
            functions: vec![Function {
                name: "main".to_string(),
                parameters: vec![
                    Parameter { name: "a".to_string(), type_annotation: t1 },
                    Parameter { name: "b".to_string(), type_annotation: t2 },
                ],
                return_type: Type::Void,
                priority: 0,
                body: Block {
                    statements: vec![Statement::Expression(Box::new(Expression::BinaryOp(
                        Box::new(BinaryOpExpression {
                            left: Box::new(Expression::Identifier("a".to_string())),
                            op: BinaryOperator::Eq,
                            right: Box::new(Expression::Identifier("b".to_string())),
                        }),
                    )))],
                },
            }],
            type_definitions: vec![],
        }
    };

    let pair = Type::Tuple(vec![Type::Int, Type::Bool]);
    assert!(TypeInference::new().infer_types(&with_params(pair.clone(), pair)).is_ok());

    let two = Type::Tuple(vec![Type::Int, Type::Bool]);
    let three = Type::Tuple(vec![Type::Int, Type::Bool, Type::Int]);
    assert!(TypeInference::new().infer_types(&with_params(two, three)).is_err());
}

#[test]
fn unresolved_name_is_reported() {
    // A constraint against an undeclared named type can never make
    // progress and is reported instead of looping.
    let ast = unannotated(
        Type::Void,
        vec![Statement::Let(LetStatement {
            name: "x".to_string(),
            type_annotation: Some(Type::Named("Mystery".to_string())),
            value: Box::new(Expression::Literal(Literal::Int(1))),
        })],
    );
    assert!(TypeInference::new().infer_types(&ast).is_err());
}

#[test]
fn struct_patterns_infer_against_registered_records() {
    let matching = |field: &str| {
        AST {
            functions: vec![Function {
                name: "m".to_string(),
                parameters: vec![Parameter {
                    name: "p".to_string(),
                    type_annotation: Type::Named("Person".to_string()),
                }],
                return_type: Type::Void,
                priority: 0,
                body: Block {
                    statements: vec![Statement::Match(MatchStatement {
                        expression: Box::new(Expression::Identifier("p".to_string())),
                        arms: vec![MatchArm {
                            pattern: Pattern::Struct {
                                name: "Person".to_string(),
                                fields: vec![FieldPattern {
                                    name: field.to_string(),
                                    pattern: Box::new(Pattern::Identifier("a".to_string())),
                                }],
                            },
                            body: Block { statements: vec![] },
                        }],
                    })],
                },
            }],
            type_definitions: vec![TypeDefinition {
                name: "Person".to_string(),
                fields: vec![
                    Field { name: "name".to_string(), type_annotation: Type::String },
                    Field { name: "age".to_string(), type_annotation: Type::Int },
                ],
            }],
        }
    };

    // the record table is populated before function bodies are walked
    assert!(TypeInference::new().infer_types(&matching("age")).is_ok());
    assert!(TypeInference::new().infer_types(&matching("height")).is_err());
}

#[test]
fn decomposition_preserves_later_positions() {
    // Decomposing an aggregate constraint re-queues every position, so a
    // resolvable named term in an earlier position cannot mask a later
    // mismatch, nor a differing priority tag on two function types.
    let with_params = |t1: Type, t2: Type| {
        AST {
            functions: vec![Function {
                name: "main".to_string(),
                parameters: vec![
                    Parameter { name: "n".to_string(), type_annotation: Type::Int },
                    Parameter { name: "a".to_string(), type_annotation: t1 },
                    Parameter { name: "b".to_string(), type_annotation: t2 },
                ],
                return_type: Type::Void,
                priority: 0,
                body: Block {
                    statements: vec![Statement::Expression(Box::new(Expression::BinaryOp(
                        Box::new(BinaryOpExpression {
                            left: Box::new(Expression::Identifier("a".to_string())),
                            op: BinaryOperator::Eq,
                            right: Box::new(Expression::Identifier("b".to_string())),
                        }),
                    )))],
                },
            }],
            type_definitions: vec![],
        }
    };

    // the first position resolves (n is bound to Int), the second mismatches
    let masked = with_params(
        Type::Tuple(vec![Type::Named("n".to_string()), Type::Int]),
        Type::Tuple(vec![Type::Int, Type::Bool]),
    );
    assert!(TypeInference::new().infer_types(&masked).is_err());

    // the same shape with an agreeing second position solves
    let fine = with_params(
        Type::Tuple(vec![Type::Named("n".to_string()), Type::Int]),
        Type::Tuple(vec![Type::Int, Type::Int]),
    );
    assert!(TypeInference::new().infer_types(&fine).is_ok());

    // differing priority tags are a hard failure even when a parameter
    // position would first derive a sub-constraint
    let tagged = with_params(
        Type::Function {
            params: vec![Type::Named("n".to_string())],
            return_type: Box::new(Type::Int),
            priority: Some(1),
        },
        Type::Function {
            params: vec![Type::Int],
            return_type: Box::new(Type::Int),
            priority: Some(2),
        },
    );
    assert!(TypeInference::new().infer_types(&tagged).is_err());
}
