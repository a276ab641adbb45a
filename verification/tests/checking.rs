//! Tests of the single-pass type checker.

use slang_core::ast::Block;
use slang_core::ast::Expression;
use slang_core::ast::Field;
use slang_core::ast::FieldPattern;
use slang_core::ast::Function;
use slang_core::ast::LetStatement;
use slang_core::ast::Literal;
use slang_core::ast::MatchArm;
use slang_core::ast::MatchStatement;
use slang_core::ast::Parameter;
use slang_core::ast::Pattern;
use slang_core::ast::ReturnStatement;
use slang_core::ast::Statement;
use slang_core::ast::TypeDefinition;
use slang_core::ast::AST;
use slang_core::ast::BinaryOpExpression;
use slang_core::ast::BinaryOperator;
use slang_core::ast::CallExpression;
use slang_core::type_system::Type;
use slang_core::type_system::TypeChecker;

fn int_lit(i: i64) -> Expression {
    Expression::Literal(Literal::Int(i))
}

fn single_fn_ast(return_type: Type, priority: i32, statements: Vec<Statement>) -> AST {
    AST {
        functions: vec![Function {
            name: "main".to_string(),
            parameters: vec![],
            return_type,
            priority,
            body: Block { statements },
        }],
        type_definitions: vec![],
    }
}

#[test]
fn test_basic_types() {
    let mut checker = TypeChecker::new();
    let ast = AST {
        functions: vec![Function {
            name: "test_basic_types".to_string(),
            parameters: vec![
                Parameter { name: "x".to_string(), type_annotation: Type::Int },
                Parameter { name: "y".to_string(), type_annotation: Type::Float },
            ],
            return_type: Type::Bool,
            priority: 0,
            body: Block {
                statements: vec![
                    Statement::Let(LetStatement {
                        name: "a".to_string(),
                        type_annotation: Some(Type::Int),
                        value: Box::new(Expression::Literal(Literal::Int(42))),
                    }),
                    Statement::Let(LetStatement {
                        name: "b".to_string(),
                        type_annotation: Some(Type::Float),
                        value: Box::new(Expression::Literal(Literal::Float(3.14f64.to_bits()))),
                    }),
                    Statement::Let(LetStatement {
                        name: "c".to_string(),
                        type_annotation: Some(Type::Bool),
                        value: Box::new(Expression::Literal(Literal::Bool(true))),
                    }),
                    Statement::Return(ReturnStatement {
                        value: Some(Box::new(Expression::Literal(Literal::Bool(true)))),
                    }),
                ],
            },
        }],
        type_definitions: vec![],
    };
    assert!(checker.check_ast(&ast).is_ok());
    let mut inference = slang_core::type_system::inference::TypeInference::new();
    assert!(inference.infer_types(&ast).is_ok());
}

#[test]
fn test_function_types() {
    let mut checker = TypeChecker::new();
    let ast = AST {
        functions: vec![Function {
            name: "test_function_types".to_string(),
            parameters: vec![Parameter {
                name: "f".to_string(),
                type_annotation: Type::Function {
                    params: vec![Type::Int],
                    return_type: Box::new(Type::Int),
                    priority: Some(1),
                },
            }],
            return_type: Type::Int,
            priority: 2,
            body: Block {
                statements: vec![Statement::Return(ReturnStatement {
                    value: Some(Box::new(Expression::Call(Box::new(CallExpression {
                        function: "f".to_string(),
                        arguments: vec![Box::new(int_lit(42))],
                    })))),
                })],
            },
        }],
        type_definitions: vec![],
    };
    assert!(checker.check_ast(&ast).is_ok());
    let mut inference = slang_core::type_system::inference::TypeInference::new();
    assert!(inference.infer_types(&ast).is_ok());
}

#[test]
fn test_type_checker() {
    let mut checker = TypeChecker::new();
    let ast = AST {
        functions: vec![Function {
            name: "test_type_checker".to_string(),
            parameters: vec![Parameter { name: "x".to_string(), type_annotation: Type::Int }],
            return_type: Type::Int,
            priority: 0,
            body: Block {
                statements: vec![
                    Statement::Let(LetStatement {
                        name: "y".to_string(),
                        type_annotation: Some(Type::Int),
                        value: Box::new(Expression::BinaryOp(Box::new(BinaryOpExpression {
                            left: Box::new(Expression::Identifier("x".to_string())),
                            op: BinaryOperator::Add,
                            right: Box::new(int_lit(1)),
                        }))),
                    }),
                    Statement::Return(ReturnStatement {
                        value: Some(Box::new(Expression::Identifier("y".to_string()))),
                    }),
                ],
            },
        }],
        type_definitions: vec![],
    };
    assert!(checker.check_ast(&ast).is_ok());
}

#[test]
fn annotated_let_binds_annotation() {
    // `let x: Int = 3 + 4;` succeeds; `let x: Bool = 3 + 4;` fails.
    let sum = |l: i64, r: i64| {
        Box::new(Expression::BinaryOp(Box::new(BinaryOpExpression {
            left: Box::new(int_lit(l)),
            op: BinaryOperator::Add,
            right: Box::new(int_lit(r)),
        })))
    };

    let good = single_fn_ast(
        Type::Void,
        0,
        vec![Statement::Let(LetStatement {
            name: "x".to_string(),
            type_annotation: Some(Type::Int),
            value: sum(3, 4),
        })],
    );
    assert!(TypeChecker::new().check_ast(&good).is_ok());

    let bad = single_fn_ast(
        Type::Void,
        0,
        vec![Statement::Let(LetStatement {
            name: "x".to_string(),
            type_annotation: Some(Type::Bool),
            value: sum(3, 4),
        })],
    );
    assert!(TypeChecker::new().check_ast(&bad).is_err());
}

#[test]
fn return_coerces_string_to_int() {
    // Int and String are mutually compatible, so a function declared to
    // return Int accepts `return "hello";` through the coercion rule.
    let ast = single_fn_ast(
        Type::Int,
        0,
        vec![Statement::Return(ReturnStatement {
            value: Some(Box::new(Expression::Literal(Literal::String("hello".to_string())))),
        })],
    );
    assert!(TypeChecker::new().check_ast(&ast).is_ok());

    // A bool return against Int has no coercion and is rejected.
    let bad = single_fn_ast(
        Type::Int,
        0,
        vec![Statement::Return(ReturnStatement {
            value: Some(Box::new(Expression::Literal(Literal::Bool(true)))),
        })],
    );
    assert!(TypeChecker::new().check_ast(&bad).is_err());
}

#[test]
fn undefined_variable_is_rejected() {
    let ast = single_fn_ast(
        Type::Void,
        0,
        vec![Statement::Expression(Box::new(Expression::Identifier("nope".to_string())))],
    );
    assert!(TypeChecker::new().check_ast(&ast).is_err());
}

#[test]
fn operator_typing_is_enforced() {
    // `true + 1` is rejected; `1 < 2` is Bool and fine as a condition.
    let bad_sum = single_fn_ast(
        Type::Void,
        0,
        vec![Statement::Expression(Box::new(Expression::BinaryOp(Box::new(
            BinaryOpExpression {
                left: Box::new(Expression::Literal(Literal::Bool(true))),
                op: BinaryOperator::Add,
                right: Box::new(int_lit(1)),
            },
        ))))],
    );
    assert!(TypeChecker::new().check_ast(&bad_sum).is_err());

    let good_cmp = single_fn_ast(
        Type::Void,
        0,
        vec![Statement::If(slang_core::ast::IfStatement {
            condition: Box::new(Expression::BinaryOp(Box::new(BinaryOpExpression {
                left: Box::new(int_lit(1)),
                op: BinaryOperator::Lt,
                right: Box::new(int_lit(2)),
            }))),
            then_block: Block { statements: vec![] },
            else_block: None,
        })],
    );
    assert!(TypeChecker::new().check_ast(&good_cmp).is_ok());

    // an Int condition still checks: Int coerces with Bool? It does not.
    let bad_cond = single_fn_ast(
        Type::Void,
        0,
        vec![Statement::While(slang_core::ast::WhileStatement {
            condition: Box::new(int_lit(1)),
            body: Block { statements: vec![] },
        })],
    );
    assert!(TypeChecker::new().check_ast(&bad_cond).is_err());
}

#[test]
fn call_arity_and_argument_types() {
    let with_call = |args: Vec<Box<Expression>>| {
        AST {
            functions: vec![Function {
                name: "g".to_string(),
                parameters: vec![Parameter {
                    name: "f".to_string(),
                    type_annotation: Type::Function {
                        params: vec![Type::Int],
                        return_type: Box::new(Type::Int),
                        priority: None,
                    },
                }],
                return_type: Type::Int,
                priority: 0,
                body: Block {
                    statements: vec![Statement::Return(ReturnStatement {
                        value: Some(Box::new(Expression::Call(Box::new(CallExpression {
                            function: "f".to_string(),
                            arguments: args,
                        })))),
                    })],
                },
            }],
            type_definitions: vec![],
        }
    };

    assert!(TypeChecker::new().check_ast(&with_call(vec![Box::new(int_lit(1))])).is_ok());
    // wrong arity
    assert!(TypeChecker::new()
        .check_ast(&with_call(vec![Box::new(int_lit(1)), Box::new(int_lit(2))]))
        .is_err());
    // incompatible argument
    assert!(TypeChecker::new()
        .check_ast(&with_call(vec![Box::new(Expression::Literal(Literal::Bool(true)))]))
        .is_err());
}

#[test]
fn for_requires_array_iterator() {
    let over = |iterator: Expression, body: Vec<Statement>| {
        single_fn_ast(
            Type::Void,
            0,
            vec![Statement::For(slang_core::ast::ForStatement {
                variable: "e".to_string(),
                iterator: Box::new(iterator),
                body: Block { statements: body },
            })],
        )
    };

    // iterating an Int fails
    assert!(TypeChecker::new().check_ast(&over(int_lit(3), vec![])).is_err());

    // iterating an Array binds the element type in the body
    let ast = AST {
        functions: vec![Function {
            name: "h".to_string(),
            parameters: vec![Parameter {
                name: "xs".to_string(),
                type_annotation: Type::Array(Box::new(Type::Int)),
            }],
            return_type: Type::Void,
            priority: 0,
            body: Block {
                statements: vec![Statement::For(slang_core::ast::ForStatement {
                    variable: "e".to_string(),
                    iterator: Box::new(Expression::Identifier("xs".to_string())),
                    body: Block {
                        statements: vec![Statement::Expression(Box::new(Expression::BinaryOp(
                            Box::new(BinaryOpExpression {
                                left: Box::new(Expression::Identifier("e".to_string())),
                                op: BinaryOperator::Mul,
                                right: Box::new(int_lit(2)),
                            }),
                        )))],
                    },
                })],
            },
        }],
        type_definitions: vec![],
    };
    assert!(TypeChecker::new().check_ast(&ast).is_ok());
}

#[test]
fn match_patterns_against_records() {
    let person = TypeDefinition {
        name: "Person".to_string(),
        fields: vec![
            Field { name: "name".to_string(), type_annotation: Type::String },
            Field { name: "age".to_string(), type_annotation: Type::Int },
        ],
    };
    let matching = |field: &str| {
        AST {
            functions: vec![Function {
                name: "m".to_string(),
                parameters: vec![Parameter {
                    name: "p".to_string(),
                    type_annotation: Type::Named("Person".to_string()),
                }],
                return_type: Type::Void,
                priority: 0,
                body: Block {
                    statements: vec![Statement::Match(MatchStatement {
                        expression: Box::new(Expression::Identifier("p".to_string())),
                        arms: vec![MatchArm {
                            pattern: Pattern::Struct {
                                name: "Person".to_string(),
                                fields: vec![FieldPattern {
                                    name: field.to_string(),
                                    pattern: Box::new(Pattern::Identifier("a".to_string())),
                                }],
                            },
                            body: Block { statements: vec![] },
                        }],
                    })],
                },
            }],
            type_definitions: vec![person.clone()],
        }
    };

    assert!(TypeChecker::new().check_ast(&matching("age")).is_ok());
    // an unknown field name is rejected
    assert!(TypeChecker::new().check_ast(&matching("height")).is_err());
}

#[test]
fn tests_test_priority_ownership() {
    let mut checker = TypeChecker::new();
    let ast = AST {
        functions: vec![
            Function {
                name: "high_priority_function".to_string(),
                parameters: vec![Parameter { name: "x".to_string(), type_annotation: Type::Int }],
                return_type: Type::Int,
                priority: 2,
                body: Block {
                    statements: vec![Statement::Return(ReturnStatement {
                        value: Some(Box::new(Expression::Identifier("x".to_string()))),
                    })],
                },
            },
            Function {
                name: "low_priority_function".to_string(),
                parameters: vec![Parameter { name: "x".to_string(), type_annotation: Type::Int }],
                return_type: Type::Int,
                priority: 0,
                body: Block {
                    statements: vec![Statement::Return(ReturnStatement {
                        value: Some(Box::new(Expression::Identifier("x".to_string()))),
                    })],
                },
            },
        ],
        type_definitions: vec![TypeDefinition {
            name: "PriorityData".to_string(),
            fields: vec![
                Field { name: "value".to_string(), type_annotation: Type::Int },
                Field { name: "priority".to_string(), type_annotation: Type::Int },
            ],
        }],
    };
    assert!(checker.check_ast(&ast).is_ok());

    let mut inference = slang_core::type_system::inference::TypeInference::new();
    assert!(inference.infer_types(&ast).is_ok());
}

#[test]
fn empty_program_checks() {
    let ast = AST { functions: vec![], type_definitions: vec![] };
    assert!(TypeChecker::new().check_ast(&ast).is_ok());
}

#[test]
fn flat_environment_persists_across_branches() {
    // The checker keeps one flat environment per run: a binding introduced
    // inside a branch is still visible after it.
    let ast = single_fn_ast(
        Type::Void,
        0,
        vec![
            Statement::If(slang_core::ast::IfStatement {
                condition: Box::new(Expression::Literal(Literal::Bool(true))),
                then_block: Block {
                    statements: vec![Statement::Let(LetStatement {
                        name: "z".to_string(),
                        type_annotation: None,
                        value: Box::new(int_lit(1)),
                    })],
                },
                else_block: None,
            }),
            Statement::Expression(Box::new(Expression::Identifier("z".to_string()))),
        ],
    );
    assert!(TypeChecker::new().check_ast(&ast).is_ok());
}

#[test]
fn assignment_requires_bound_compatible_target() {
    let assign = |value: Expression| {
        single_fn_ast(
            Type::Void,
            0,
            vec![
                Statement::Let(LetStatement {
                    name: "x".to_string(),
                    type_annotation: Some(Type::Int),
                    value: Box::new(int_lit(0)),
                }),
                Statement::Expression(Box::new(Expression::Assignment(Box::new(
                    slang_core::ast::AssignmentExpression {
                        target: "x".to_string(),
                        value: Box::new(value),
                    },
                )))),
            ],
        )
    };

    assert!(TypeChecker::new().check_ast(&assign(int_lit(5))).is_ok());
    // Int <- Bool has no coercion
    assert!(TypeChecker::new()
        .check_ast(&assign(Expression::Literal(Literal::Bool(true))))
        .is_err());

    // assigning an unbound name fails
    let unbound = single_fn_ast(
        Type::Void,
        0,
        vec![Statement::Expression(Box::new(Expression::Assignment(Box::new(
            slang_core::ast::AssignmentExpression {
                target: "ghostly".to_string(),
                value: Box::new(int_lit(5)),
            },
        ))))],
    );
    assert!(TypeChecker::new().check_ast(&unbound).is_err());
}

#[test]
fn literal_tuple_and_wildcard_patterns() {
    let match_on = |param_type: Type, pattern: Pattern| {
        AST {
            functions: vec![Function {
                name: "m".to_string(),
                parameters: vec![Parameter { name: "v".to_string(), type_annotation: param_type }],
                return_type: Type::Void,
                priority: 0,
                body: Block {
                    statements: vec![Statement::Match(MatchStatement {
                        expression: Box::new(Expression::Identifier("v".to_string())),
                        arms: vec![MatchArm { pattern, body: Block { statements: vec![] } }],
                    })],
                },
            }],
            type_definitions: vec![],
        }
    };

    // a literal pattern must be compatible with the scrutinee
    assert!(TypeChecker::new()
        .check_ast(&match_on(Type::Int, Pattern::Literal(Literal::Int(1))))
        .is_ok());
    assert!(TypeChecker::new()
        .check_ast(&match_on(Type::Bool, Pattern::Literal(Literal::Int(1))))
        .is_err());

    // a wildcard always fits
    assert!(TypeChecker::new().check_ast(&match_on(Type::Char, Pattern::Wildcard)).is_ok());

    // a tuple pattern needs a tuple scrutinee of the same arity
    let pair = || Type::Tuple(vec![Type::Int, Type::Bool]);
    let two = || {
        Pattern::Tuple(vec![
            Pattern::Identifier("a".to_string()),
            Pattern::Identifier("b".to_string()),
        ])
    };
    assert!(TypeChecker::new().check_ast(&match_on(pair(), two())).is_ok());
    assert!(TypeChecker::new().check_ast(&match_on(Type::Int, two())).is_err());
    let three = Pattern::Tuple(vec![
        Pattern::Identifier("a".to_string()),
        Pattern::Identifier("b".to_string()),
        Pattern::Wildcard,
    ]);
    assert!(TypeChecker::new().check_ast(&match_on(pair(), three)).is_err());
}

#[test]
fn error_rendering_names_the_category() {
    let err = TypeChecker::new()
        .check_ast(&single_fn_ast(
            Type::Void,
            0,
            vec![Statement::Expression(Box::new(Expression::Identifier("nope".to_string())))],
        ))
        .unwrap_err();
    assert!(err.display_string().starts_with("Type error: "));
}

#[test]
fn annotation_governs_later_uses() {
    // `let x: String = 5;` is accepted through the Int↔String coercion and
    // binds x at the annotated type, so arithmetic on x is then rejected.
    let ast = single_fn_ast(
        Type::Void,
        0,
        vec![
            Statement::Let(LetStatement {
                name: "x".to_string(),
                type_annotation: Some(Type::String),
                value: Box::new(int_lit(5)),
            }),
            Statement::Expression(Box::new(Expression::BinaryOp(Box::new(BinaryOpExpression {
                left: Box::new(Expression::Identifier("x".to_string())),
                op: BinaryOperator::Add,
                right: Box::new(int_lit(1)),
            })))),
        ],
    );
    assert!(TypeChecker::new().check_ast(&ast).is_err());
}

#[test]
fn test_composite_types() {
    // `let arr: [int] = 42;` and `let tuple: (int, string) = 42;` put an
    // Int where only an aggregate of the annotated shape is compatible,
    // so both the checker and the inference engine reject the unit.
    let mut checker = TypeChecker::new();
    let ast = AST {
        functions: vec![Function {
            name: "test_composite_types".to_string(),
            parameters: vec![],
            return_type: Type::Unit,
            priority: 0,
            body: Block {
                statements: vec![
                    Statement::Let(LetStatement {
                        name: "arr".to_string(),
                        type_annotation: Some(Type::Array(Box::new(Type::Int))),
                        value: Box::new(Expression::Literal(Literal::Int(42))),
                    }),
                    Statement::Let(LetStatement {
                        name: "tuple".to_string(),
                        type_annotation: Some(Type::Tuple(vec![Type::Int, Type::String])),
                        value: Box::new(Expression::Literal(Literal::Int(42))),
                    }),
                ],
            },
        }],
        type_definitions: vec![TypeDefinition {
            name: "Person".to_string(),
            fields: vec![
                Field { name: "name".to_string(), type_annotation: Type::String },
                Field { name: "age".to_string(), type_annotation: Type::Int },
            ],
        }],
    };
    assert!(checker.check_ast(&ast).is_err());
    let mut inference = slang_core::type_system::inference::TypeInference::new();
    assert!(inference.infer_types(&ast).is_err());
}

#[test]
fn test_mathematical_types() {
    // A bare Float literal is not compatible with a vector, matrix or
    // tensor annotation, so both analyses reject the unit.
    let mut checker = TypeChecker::new();
    let ast = AST {
        functions: vec![Function {
            name: "test_mathematical_types".to_string(),
            parameters: vec![],
            return_type: Type::Unit,
            priority: 0,
            body: Block {
                statements: vec![
                    Statement::Let(LetStatement {
                        name: "vec".to_string(),
                        type_annotation: Some(Type::Vector(3, Box::new(Type::Float))),
                        value: Box::new(Expression::Literal(Literal::Float(1.0f64.to_bits()))),
                    }),
                    Statement::Let(LetStatement {
                        name: "mat".to_string(),
                        type_annotation: Some(Type::Matrix(2, 2, Box::new(Type::Float))),
                        value: Box::new(Expression::Literal(Literal::Float(1.0f64.to_bits()))),
                    }),
                    Statement::Let(LetStatement {
                        name: "tensor".to_string(),
                        type_annotation: Some(Type::Tensor(vec![2, 3, 4], Box::new(Type::Float))),
                        value: Box::new(Expression::Literal(Literal::Float(1.0f64.to_bits()))),
                    }),
                ],
            },
        }],
        type_definitions: vec![],
    };
    assert!(checker.check_ast(&ast).is_err());
    let mut inference = slang_core::type_system::inference::TypeInference::new();
    assert!(inference.infer_types(&ast).is_err());
}
