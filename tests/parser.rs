use simple_db::ast::{
    Alias, BinaryExpression, BinaryOperator, Decimal, Expression, FromItem, Function, Identifier,
    Literal, Location, Select, SelectItem, SingleIdentifier, Statement, Statements, Value,
};
use simple_db::parser::Parser;
use simple_db::token::ParsedTokens;
use simple_db::tokenizer::Tokenizer;

/// The value of a decimal literal, read the way a float literal is read.
fn float_of(d: &Decimal) -> f64 {
    let fraction = if d.fraction == 0 {
        "0".to_string()
    } else {
        format!("{}{}", "0".repeat(d.fraction_zeros as usize), d.fraction)
    };
    format!("{}.{}", d.integer, fraction).parse().unwrap()
}

/// The decimals among the select items of the first statement, as floats.
fn float_items(statements: &Statements) -> Vec<f64> {
    let mut out = Vec::new();
    if let Statement::Select(select) = &statements.statements[0] {
        for item in &select.items {
            if let SelectItem::Expression(Expression::Literal(Literal { value: Value::Float(d), .. })) = item {
                out.push(float_of(d));
            }
        }
    }
    out
}


/// test empty statement
#[test]
fn test_empty_statement() {
    let tokens: ParsedTokens = Tokenizer::new(";").tokenize().unwrap();
    let mut parser: Parser<'_> = Parser::new(&tokens);
    let statements: Statements = parser.parse().unwrap();
    assert_eq!(statements.statements.len(), 1);
    assert_eq!(
        statements.statements[0],
        Statement::Empty(Location::new(&tokens.tokens[0].location))
    );
}

#[test]
fn select_a() {
    let tokens: ParsedTokens = Tokenizer::new("SELECT a;").tokenize().unwrap();
    let mut parser: Parser<'_> = Parser::new(&tokens);
    let statements: Statements = parser.parse().unwrap();
    // println!("{:?}", statements);
    assert_eq!(statements.statements.len(), 1);
    assert_eq!(
        statements.statements[0],
        Statement::Select(Select {
            items: vec![SelectItem::Expression(Expression::Identifier(
                Identifier::Single(SingleIdentifier {
                    value: "a".into(),
                    leaf: Location::new(&tokens.tokens[1].location),
                })
            ))],
            from: vec![],
            wheres: None,
            order_by: vec![],
            group_by: vec![],
            limit: None,
            offset: None,
            having: None,
        })
    )
}

#[test]
fn select_abc_abc_def() {
    let tokens: ParsedTokens = Tokenizer::new("SELECT abcABCdef;").tokenize().unwrap();
    let mut parser: Parser<'_> = Parser::new(&tokens);
    let statements: Statements = parser.parse().unwrap();
    // println!("{:?}", statements);
    assert_eq!(statements.statements.len(), 1);
    assert_eq!(
        statements.statements[0],
        Statement::Select(Select {
            items: vec![SelectItem::Expression(Expression::Identifier(
                Identifier::Single(SingleIdentifier {
                    value: "abcABCdef".into(),
                    leaf: Location::new(&tokens.tokens[1].location),
                })
            ))],
            from: vec![],
            wheres: None,
            order_by: vec![],
            group_by: vec![],
            limit: None,
            offset: None,
            having: None,
        })
    )
}

#[test]
fn select_wildcard() {
    let tokens: ParsedTokens = Tokenizer::new("SELECT *").tokenize().unwrap();
    let mut parser: Parser<'_> = Parser::new(&tokens);
    let statements: Statements = parser.parse().unwrap();
    // println!("{:?}", statements);
    assert_eq!(statements.statements.len(), 1);
    assert_eq!(
        statements.statements[0],
        Statement::Select(Select {
            items: vec![SelectItem::Expression(Expression::Identifier(
                Identifier::Wildcard(Location::new(&tokens.tokens[1].location))
            ))],
            from: vec![],
            wheres: None,
            order_by: vec![],
            group_by: vec![],
            limit: None,
            offset: None,
            having: None,
        })
    )
}

#[test]
fn select_abc_abc_def_dot() {
    let tokens: ParsedTokens = Tokenizer::new("SELECT abc.ABC.def;").tokenize().unwrap();
    let mut parser: Parser<'_> = Parser::new(&tokens);
    let statements: Statements = parser.parse().unwrap();
    // println!("{:?}", statements);
    assert_eq!(statements.statements.len(), 1);
    assert_eq!(
        statements.statements[0],
        Statement::Select(Select {
            items: vec![SelectItem::Expression(Expression::Identifier(
                Identifier::Combined(
                    vec![
                        SingleIdentifier {
                            value: "abc".into(),
                            leaf: Location::new(&tokens.tokens[1].location),
                        },
                        SingleIdentifier {
                            value: "ABC".into(),
                            leaf: Location::new(&tokens.tokens[3].location),
                        },
                        SingleIdentifier {
                            value: "def".into(),
                            leaf: Location::new(&tokens.tokens[5].location),
                        },
                    ]
                    
                )
            ))],
            from: vec![],
            wheres: None,
            order_by: vec![],
            group_by: vec![],
            limit: None,
            offset: None,
            having: None,
        })
    )
}

#[test]
fn select_many() {
    let tokens: ParsedTokens = Tokenizer::new(" SELECT    a, * ,  b.c ;  ")
        .tokenize()
        .unwrap();
    println!("{:#?}", tokens);
    let mut parser: Parser<'_> = Parser::new(&tokens);
    let statements: Statements = parser.parse().unwrap();
    // println!("{:?}", statements);
    assert_eq!(statements.statements.len(), 1);
    assert_eq!(
        statements.statements[0],
        Statement::Select(Select {
            items: vec![
                SelectItem::Expression(Expression::Identifier(Identifier::Single(
                    SingleIdentifier {
                        value: "a".into(),
                        leaf: Location::new(&tokens.tokens[1].location),
                    }
                ))),
                SelectItem::Expression(Expression::Identifier(Identifier::Wildcard(
                    Location::new(&tokens.tokens[3].location)
                ))),
                SelectItem::Expression(Expression::Identifier(Identifier::Combined(
                    vec![
                        SingleIdentifier {
                            value: "b".into(),
                            leaf: Location::new(&tokens.tokens[5].location),
                        },
                        SingleIdentifier {
                            value: "c".into(),
                            leaf: Location::new(&tokens.tokens[7].location),
                        },
                    ]
                    
                )))
            ],
            from: vec![],
            wheres: None,
            order_by: vec![],
            group_by: vec![],
            limit: None,
            offset: None,
            having: None,
        })
    )
}

#[test]
fn select_str() {
    let tokens: ParsedTokens = Tokenizer::new("SELECT 'hello'").tokenize().unwrap();
    let mut parser: Parser<'_> = Parser::new(&tokens);
    let statements: Statements = parser.parse().unwrap();
    // println!("{:?}", statements);
    assert_eq!(statements.statements.len(), 1);
    assert_eq!(
        statements.statements[0],
        Statement::Select(Select {
            items: vec![SelectItem::Expression(Expression::Literal(Literal {
                value: Value::String("hello".into()),
                leaf: Location::new(&tokens.tokens[1].location)
            }))],
            from: vec![],
            wheres: None,
            order_by: vec![],
            group_by: vec![],
            limit: None,
            offset: None,
            having: None,
        })
    )
}

#[test]
fn select_str2() {
    let tokens: ParsedTokens = Tokenizer::new("SELECT 'hello', 'world!\\n';")
        .tokenize()
        .unwrap();
    let mut parser: Parser<'_> = Parser::new(&tokens);
    let statements: Statements = parser.parse().unwrap();
    // println!("{:?}", statements);
    assert_eq!(statements.statements.len(), 1);
    assert_eq!(
        statements.statements[0],
        Statement::Select(Select {
            items: vec![
                SelectItem::Expression(Expression::Literal(Literal {
                    value: Value::String("hello".into()),
                    leaf: Location::new(&tokens.tokens[1].location)
                })),
                SelectItem::Expression(Expression::Literal(Literal {
                    value: Value::String("world!\n".into()),
                    leaf: Location::new(&tokens.tokens[3].location)
                })),
            ],
            from: vec![],
            wheres: None,
            order_by: vec![],
            group_by: vec![],
            limit: None,
            offset: None,
            having: None,
        })
    )
}

#[test]
fn select_int() {
    let tokens: ParsedTokens = Tokenizer::new("SELECT 0, 00, 123, 001100;")
        .tokenize()
        .unwrap();
    let mut parser: Parser<'_> = Parser::new(&tokens);
    let statements: Statements = parser.parse().unwrap();
    // println!("{:?}", statements);
    assert_eq!(statements.statements.len(), 1);
    assert_eq!(
        statements.statements[0],
        Statement::Select(Select {
            items: vec![
                SelectItem::Expression(Expression::Literal(Literal {
                    value: Value::Integer(0),
                    leaf: Location::new(&tokens.tokens[1].location)
                })),
                SelectItem::Expression(Expression::Literal(Literal {
                    value: Value::Integer(0),
                    leaf: Location::new(&tokens.tokens[3].location)
                })),
                SelectItem::Expression(Expression::Literal(Literal {
                    value: Value::Integer(123),
                    leaf: Location::new(&tokens.tokens[5].location)
                })),
                SelectItem::Expression(Expression::Literal(Literal {
                    value: Value::Integer(1100),
                    leaf: Location::new(&tokens.tokens[7].location)
                })),
            ],
            from: vec![],
            wheres: None,
            order_by: vec![],
            group_by: vec![],
            limit: None,
            offset: None,
            having: None,
        })
    )
}

#[test]
fn select_float() {
    let tokens: ParsedTokens = Tokenizer::new("SELECT 1.0, 1.25, 0.625, 3.0625")
        .tokenize()
        .unwrap();
    let mut parser: Parser<'_> = Parser::new(&tokens);
    let statements: Statements = parser.parse().unwrap();
    assert_eq!(float_items(&statements), vec![1.0, 1.25, 0.625, 3.0625]);
    // println!("{:?}", statements);
    assert_eq!(statements.statements.len(), 1);
    assert_eq!(
        statements.statements[0],
        Statement::Select(Select {
            items: vec![
                SelectItem::Expression(Expression::Literal(Literal {
                    value: Value::Float(Decimal { integer: 1, fraction_zeros: 0, fraction: 0 }),
                    leaf: Location::new(&tokens.tokens[1].location)
                })),
                SelectItem::Expression(Expression::Literal(Literal {
                    value: Value::Float(Decimal { integer: 1, fraction_zeros: 0, fraction: 25 }),
                    leaf: Location::new(&tokens.tokens[5].location)
                })),
                SelectItem::Expression(Expression::Literal(Literal {
                    value: Value::Float(Decimal { integer: 0, fraction_zeros: 0, fraction: 625 }),
                    leaf: Location::new(&tokens.tokens[9].location)
                })),
                SelectItem::Expression(Expression::Literal(Literal {
                    value: Value::Float(Decimal { integer: 3, fraction_zeros: 1, fraction: 625 }),
                    leaf: Location::new(&tokens.tokens[13].location)
                })),
            ],
            from: vec![],
            wheres: None,
            order_by: vec![],
            group_by: vec![],
            limit: None,
            offset: None,
            having: None,
        })
    )
}

#[test]
fn select_int_int_float() {
    let tokens: ParsedTokens = Tokenizer::new("SELECT 1.0, 1.25, 0.625, 3.0625, 123")
        .tokenize()
        .unwrap();
    let mut parser: Parser<'_> = Parser::new(&tokens);
    let statements: Statements = parser.parse().unwrap();
    assert_eq!(float_items(&statements), vec![1.0, 1.25, 0.625, 3.0625]);
    // println!("{:?}", statements);
    assert_eq!(statements.statements.len(), 1);
    assert_eq!(
        statements.statements[0],
        Statement::Select(Select {
            items: vec![
                SelectItem::Expression(Expression::Literal(Literal {
                    value: Value::Float(Decimal { integer: 1, fraction_zeros: 0, fraction: 0 }),
                    leaf: Location::new(&tokens.tokens[1].location)
                })),
                SelectItem::Expression(Expression::Literal(Literal {
                    value: Value::Float(Decimal { integer: 1, fraction_zeros: 0, fraction: 25 }),
                    leaf: Location::new(&tokens.tokens[5].location)
                })),
                SelectItem::Expression(Expression::Literal(Literal {
                    value: Value::Float(Decimal { integer: 0, fraction_zeros: 0, fraction: 625 }),
                    leaf: Location::new(&tokens.tokens[9].location)
                })),
                SelectItem::Expression(Expression::Literal(Literal {
                    value: Value::Float(Decimal { integer: 3, fraction_zeros: 1, fraction: 625 }),
                    leaf: Location::new(&tokens.tokens[13].location)
                })),
                SelectItem::Expression(Expression::Literal(Literal {
                    value: Value::Integer(123),
                    leaf: Location::new(&tokens.tokens[17].location)
                })),
            ],
            from: vec![],
            wheres: None,
            order_by: vec![],
            group_by: vec![],
            limit: None,
            offset: None,
            having: None,
        })
    )
}

#[test]
fn test_one_add_two() {
    let tokens: ParsedTokens = Tokenizer::new("SELECT 1+2;").tokenize().unwrap();
    let mut parser: Parser<'_> = Parser::new(&tokens);
    let statements: Statements = parser.parse().unwrap();
    assert_eq!(statements.statements.len(), 1);
    assert_eq!(
        statements.statements[0],
        Statement::Select(Select {
            items: vec![SelectItem::Expression(Expression::BinaryExpression(
                BinaryExpression {
                    left: Box::new(Expression::Literal(Literal {
                        value: Value::Integer(1),
                        leaf: Location::new(&tokens.tokens[1].location)
                    })),
                    right: Box::new(Expression::Literal(Literal {
                        value: Value::Integer(2),
                        leaf: Location::new(&tokens.tokens[3].location)
                    })),
                    operator: BinaryOperator::Plus(Location::new(&tokens.tokens[2].location)),
                }
            ))],
            from: vec![],
            wheres: None,
            order_by: vec![],
            group_by: vec![],
            limit: None,
            offset: None,
            having: None,
        })
    );
}

#[test]
fn test_one_add_two_minus_three() {
    let tokens: ParsedTokens = Tokenizer::new("SELECT 1+2-3;").tokenize().unwrap();
    let mut parser: Parser<'_> = Parser::new(&tokens);
    let statements: Statements = parser.parse().unwrap();
    assert_eq!(statements.statements.len(), 1);
    assert_eq!(
        statements.statements[0],
        Statement::Select(Select {
            items: vec![SelectItem::Expression(Expression::BinaryExpression(
                BinaryExpression {
                    left: Box::new(Expression::BinaryExpression(BinaryExpression {
                        left: Box::new(Expression::Literal(Literal {
                            value: Value::Integer(1),
                            leaf: Location::new(&tokens.tokens[1].location)
                        })),
                        right: Box::new(Expression::Literal(Literal {
                            value: Value::Integer(2),
                            leaf: Location::new(&tokens.tokens[3].location)
                        })),
                        operator: BinaryOperator::Plus(Location::new(&tokens.tokens[2].location)),
                    })),
                    right: Box::new(Expression::Literal(Literal {
                        value: Value::Integer(3),
                        leaf: Location::new(&tokens.tokens[5].location),
                    })),
                    operator: BinaryOperator::Minus(Location::new(&tokens.tokens[4].location)),
                }
            ))],
            from: vec![],
            wheres: None,
            order_by: vec![],
            group_by: vec![],
            limit: None,
            offset: None,
            having: None,
        })
    );
}

#[test]
fn test_one_add_two_mul_three() {
    let tokens: ParsedTokens = Tokenizer::new("SELECT 1+2*3;").tokenize().unwrap();
    let mut parser: Parser<'_> = Parser::new(&tokens);
    let statements: Statements = parser.parse().unwrap();
    assert_eq!(statements.statements.len(), 1);
    assert_eq!(
        statements.statements[0],
        Statement::Select(Select {
            items: vec![SelectItem::Expression(Expression::BinaryExpression(
                BinaryExpression {
                    left: Box::new(Expression::Literal(Literal {
                        value: Value::Integer(1),
                        leaf: Location::new(&tokens.tokens[1].location)
                    })),
                    right: Box::new(Expression::BinaryExpression(BinaryExpression {
                        left: Box::new(Expression::Literal(Literal {
                            value: Value::Integer(2),
                            leaf: Location::new(&tokens.tokens[3].location)
                        })),
                        right: Box::new(Expression::Literal(Literal {
                            value: Value::Integer(3),
                            leaf: Location::new(&tokens.tokens[5].location)
                        })),
                        operator: BinaryOperator::Multiply(Location::new(
                            &tokens.tokens[4].location
                        )),
                    })),
                    operator: BinaryOperator::Plus(Location::new(&tokens.tokens[2].location)),
                }
            ))],
            from: vec![],
            wheres: None,
            order_by: vec![],
            group_by: vec![],
            limit: None,
            offset: None,
            having: None,
        })
    );
}

#[test]
fn test_paren_1() {
    let tokens: ParsedTokens = Tokenizer::new("SELECT (1);").tokenize().unwrap();
    let mut parser: Parser<'_> = Parser::new(&tokens);
    let statements: Statements = parser.parse().unwrap();
    assert_eq!(statements.statements.len(), 1);
    assert_eq!(
        statements.statements[0],
        Statement::Select(Select {
            items: vec![SelectItem::Expression(Expression::Literal(Literal {
                value: Value::Integer(1),
                leaf: Location::new(&tokens.tokens[2].location)
            }))],
            from: vec![],
            wheres: None,
            order_by: vec![],
            group_by: vec![],
            limit: None,
            offset: None,
            having: None,
        })
    );
}

#[test]
fn test_paren_paren_1() {
    let tokens: ParsedTokens = Tokenizer::new("SELECT ((1));").tokenize().unwrap();
    let mut parser: Parser<'_> = Parser::new(&tokens);
    let statements: Statements = parser.parse().unwrap();
    assert_eq!(statements.statements.len(), 1);
    assert_eq!(
        statements.statements[0],
        Statement::Select(Select {
            items: vec![SelectItem::Expression(Expression::Literal(Literal {
                value: Value::Integer(1),
                leaf: Location::new(&tokens.tokens[3].location)
            }))],
            from: vec![],
            wheres: None,
            order_by: vec![],
            group_by: vec![],
            limit: None,
            offset: None,
            having: None,
        })
    );
}

#[test]
fn test_2_mul_sum_of_3_and_4() {
    let tokens: ParsedTokens = Tokenizer::new("SELECT 2*(3+4);").tokenize().unwrap();
    let mut parser: Parser<'_> = Parser::new(&tokens);
    let statements: Statements = parser.parse().unwrap();
    assert_eq!(statements.statements.len(), 1);
    assert_eq!(
        statements.statements[0],
        Statement::Select(Select {
            items: vec![SelectItem::Expression(Expression::BinaryExpression(
                BinaryExpression {
                    left: Box::new(Expression::Literal(Literal {
                        value: Value::Integer(2),
                        leaf: Location::new(&tokens.tokens[1].location)
                    })),
                    right: Box::new(Expression::BinaryExpression(BinaryExpression {
                        left: Box::new(Expression::Literal(Literal {
                            value: Value::Integer(3),
                            leaf: Location::new(&tokens.tokens[4].location)
                        })),
                        right: Box::new(Expression::Literal(Literal {
                            value: Value::Integer(4),
                            leaf: Location::new(&tokens.tokens[6].location)
                        })),
                        operator: BinaryOperator::Plus(Location::new(&tokens.tokens[5].location)),
                    })),
                    operator: BinaryOperator::Multiply(Location::new(&tokens.tokens[2].location)),
                }
            ))],
            from: vec![],
            wheres: None,
            order_by: vec![],
            group_by: vec![],
            limit: None,
            offset: None,
            having: None,
        })
    );
}

#[test]
fn test_function_call() {
    let tokens: ParsedTokens = Tokenizer::new("SELECT foo();").tokenize().unwrap();
    let mut parser: Parser<'_> = Parser::new(&tokens);
    let statements: Statements = parser.parse().unwrap();
    assert_eq!(statements.statements.len(), 1);
    assert_eq!(
        statements.statements[0],
        Statement::Select(Select {
            items: vec![SelectItem::Expression(Expression::Function(Function {
                name: Identifier::Single(SingleIdentifier {
                    value: "foo".into(),
                    leaf: Location::new(&tokens.tokens[1].location)
                }),
                args: vec![],
            }))],
            from: vec![],
            wheres: None,
            order_by: vec![],
            group_by: vec![],
            limit: None,
            offset: None,
            having: None,
        })
    );
}

#[test]
fn test_function_call_1() {
    let tokens: ParsedTokens = Tokenizer::new("SELECT foo(1);").tokenize().unwrap();
    let mut parser: Parser<'_> = Parser::new(&tokens);
    let statements: Statements = parser.parse().unwrap();
    assert_eq!(statements.statements.len(), 1);
    assert_eq!(
        statements.statements[0],
        Statement::Select(Select {
            items: vec![SelectItem::Expression(Expression::Function(Function {
                name: Identifier::Single(SingleIdentifier {
                    value: "foo".into(),
                    leaf: Location::new(&tokens.tokens[1].location)
                }),
                args: vec![Expression::Literal(Literal {
                    value: Value::Integer(1),
                    leaf: Location::new(&tokens.tokens[3].location)
                })],
            }))],
            from: vec![],
            wheres: None,
            order_by: vec![],
            group_by: vec![],
            limit: None,
            offset: None,
            having: None,
        })
    );
}

#[test]
fn test_function_call_1_a_b() {
    let tokens: ParsedTokens = Tokenizer::new("SELECT foo(1, a.b);").tokenize().unwrap();
    let mut parser: Parser<'_> = Parser::new(&tokens);
    let statements: Statements = parser.parse().unwrap();
    assert_eq!(statements.statements.len(), 1);
    assert_eq!(
        statements.statements[0],
        Statement::Select(Select {
            items: vec![SelectItem::Expression(Expression::Function(Function {
                name: Identifier::Single(SingleIdentifier {
                    value: "foo".into(),
                    leaf: Location::new(&tokens.tokens[1].location)
                }),
                args: vec![
                    Expression::Literal(Literal {
                        value: Value::Integer(1),
                        leaf: Location::new(&tokens.tokens[3].location)
                    }),
                    Expression::Identifier(Identifier::Combined(
                        vec![
                            SingleIdentifier {
                                value: "a".into(),
                                leaf: Location::new(&tokens.tokens[5].location)
                            },
                            SingleIdentifier {
                                value: "b".into(),
                                leaf: Location::new(&tokens.tokens[7].location)
                            },
                        ]
                        
                    ))
                ],
            }))],
            from: vec![],
            wheres: None,
            order_by: vec![],
            group_by: vec![],
            limit: None,
            offset: None,
            having: None,
        })
    );
}

#[test]
fn test_function_call_1_a_add_b() {
    let tokens: ParsedTokens = Tokenizer::new("SELECT foo(1, a+b);").tokenize().unwrap();
    let mut parser: Parser<'_> = Parser::new(&tokens);
    let statements: Statements = parser.parse().unwrap();
    assert_eq!(statements.statements.len(), 1);
    assert_eq!(
        statements.statements[0],
        Statement::Select(Select {
            items: vec![SelectItem::Expression(Expression::Function(Function {
                name: Identifier::Single(SingleIdentifier {
                    value: "foo".into(),
                    leaf: Location::new(&tokens.tokens[1].location)
                }),
                args: vec![
                    Expression::Literal(Literal {
                        value: Value::Integer(1),
                        leaf: Location::new(&tokens.tokens[3].location)
                    }),
                    Expression::BinaryExpression(BinaryExpression {
                        left: Box::new(Expression::Identifier(Identifier::Single(
                            SingleIdentifier {
                                value: "a".into(),
                                leaf: Location::new(&tokens.tokens[5].location)
                            }
                        ))),
                        right: Box::new(Expression::Identifier(Identifier::Single(
                            SingleIdentifier {
                                value: "b".into(),
                                leaf: Location::new(&tokens.tokens[7].location)
                            }
                        ))),
                        operator: BinaryOperator::Plus(Location::new(&tokens.tokens[6].location)),
                    })
                ],
            }))],
            from: vec![],
            wheres: None,
            order_by: vec![],
            group_by: vec![],
            limit: None,
            offset: None,
            having: None,
        })
    );
}

#[test]
fn test_select_a_from_b() {
    let tokens: ParsedTokens = Tokenizer::new("SELECT a FROM b;").tokenize().unwrap();
    let mut parser: Parser<'_> = Parser::new(&tokens);
    let statements: Statements = parser.parse().unwrap();
    assert_eq!(statements.statements.len(), 1);
    assert_eq!(
        statements.statements[0],
        Statement::Select(Select {
            items: vec![SelectItem::Expression(Expression::Identifier(
                Identifier::Single(SingleIdentifier {
                    value: "a".into(),
                    leaf: Location::new(&tokens.tokens[1].location)
                })
            ))],
            from: vec![FromItem {
                expression: Expression::Identifier(Identifier::Single(SingleIdentifier {
                    value: "b".into(),
                    leaf: Location::new(&tokens.tokens[3].location)
                })),
                alias: None
            }],
            wheres: None,
            order_by: vec![],
            group_by: vec![],
            limit: None,
            offset: None,
            having: None,
        })
    );
}

#[test]
fn test_select_a_from_c_d_as_e() {
    let tokens: ParsedTokens = Tokenizer::new("SELECT a FROM c, d AS e;")
        .tokenize()
        .unwrap();
    let mut parser: Parser<'_> = Parser::new(&tokens);
    let statements: Statements = parser.parse().unwrap();
    assert_eq!(statements.statements.len(), 1);
    assert_eq!(
        statements.statements[0],
        Statement::Select(Select {
            items: vec![SelectItem::Expression(Expression::Identifier(
                Identifier::Single(SingleIdentifier {
                    value: "a".into(),
                    leaf: Location::new(&tokens.tokens[1].location)
                })
            ))],
            from: vec![
                FromItem {
                    expression: Expression::Identifier(Identifier::Single(SingleIdentifier {
                        value: "c".into(),
                        leaf: Location::new(&tokens.tokens[3].location)
                    })),
                    alias: None
                },
                FromItem {
                    expression: Expression::Identifier(Identifier::Single(SingleIdentifier {
                        value: "d".into(),
                        leaf: Location::new(&tokens.tokens[5].location)
                    })),
                    alias: Some(Identifier::Single(SingleIdentifier {
                        value: "e".into(),
                        leaf: Location::new(&tokens.tokens[7].location)
                    }))
                }
            ],
            wheres: None,
            order_by: vec![],
            group_by: vec![],
            limit: None,
            offset: None,
            having: None,
        })
    );
}

#[test]
fn test_select_a_from_b_where_c() {
    let tokens: ParsedTokens = Tokenizer::new("SELECT a FROM b WHERE c>1;")
        .tokenize()
        .unwrap();
    let mut parser: Parser<'_> = Parser::new(&tokens);
    let statements: Statements = parser.parse().unwrap();
    assert_eq!(statements.statements.len(), 1);
    assert_eq!(
        statements.statements[0],
        Statement::Select(Select {
            items: vec![SelectItem::Expression(Expression::Identifier(
                Identifier::Single(SingleIdentifier {
                    value: "a".into(),
                    leaf: Location::new(&tokens.tokens[1].location)
                })
            ))],
            from: vec![FromItem {
                expression: Expression::Identifier(Identifier::Single(SingleIdentifier {
                    value: "b".into(),
                    leaf: Location::new(&tokens.tokens[3].location)
                })),
                alias: None,
            }],
            wheres: Some(Expression::BinaryExpression(BinaryExpression {
                left: Box::new(Expression::Identifier(Identifier::Single(
                    SingleIdentifier {
                        value: "c".into(),
                        leaf: Location::new(&tokens.tokens[5].location)
                    }
                ))),
                right: Box::new(Expression::Literal(Literal {
                    value: Value::Integer(1),
                    leaf: Location::new(&tokens.tokens[7].location)
                })),
                operator: BinaryOperator::GreaterThan(Location::new(&tokens.tokens[6].location)),
            })),
            order_by: vec![],
            group_by: vec![],
            limit: None,
            offset: None,
            having: None,
        })
    );
}

#[test]
fn test_select_a_from_b_where_c_group_by_e() {
    let tokens: ParsedTokens = Tokenizer::new("SELECT a FROM b WHERE c>1 GROUP BY e;")
        .tokenize()
        .unwrap();
    let mut parser: Parser<'_> = Parser::new(&tokens);
    let statements: Statements = parser.parse().unwrap();
    assert_eq!(statements.statements.len(), 1);
    assert_eq!(
        statements.statements[0],
        Statement::Select(Select {
            items: vec![SelectItem::Expression(Expression::Identifier(
                Identifier::Single(SingleIdentifier {
                    value: "a".into(),
                    leaf: Location::new(&tokens.tokens[1].location)
                })
            ))],
            from: vec![FromItem {
                expression: Expression::Identifier(Identifier::Single(SingleIdentifier {
                    value: "b".into(),
                    leaf: Location::new(&tokens.tokens[3].location)
                })),
                alias: None,
            }],
            wheres: Some(Expression::BinaryExpression(BinaryExpression {
                left: Box::new(Expression::Identifier(Identifier::Single(
                    SingleIdentifier {
                        value: "c".into(),
                        leaf: Location::new(&tokens.tokens[5].location)
                    }
                ))),
                right: Box::new(Expression::Literal(Literal {
                    value: Value::Integer(1),
                    leaf: Location::new(&tokens.tokens[7].location)
                })),
                operator: BinaryOperator::GreaterThan(Location::new(&tokens.tokens[6].location)),
            })),
            order_by: vec![],
            group_by: vec![Identifier::Single(SingleIdentifier {
                value: "e".into(),
                leaf: Location::new(&tokens.tokens[10].location)
            })],
            limit: None,
            offset: None,
            having: None,
        })
    );
}

#[test]
fn test_having() {
    let tokens: ParsedTokens = Tokenizer::new("SELECT count(*) a HAVING a>1;")
        .tokenize()
        .unwrap();
    let mut parser: Parser<'_> = Parser::new(&tokens);
    let statements: Statements = parser.parse().unwrap();
    assert_eq!(statements.statements.len(), 1);
    assert_eq!(
        statements.statements[0],
        Statement::Select(Select {
            items: vec![SelectItem::Alias(Alias {
                expression: Expression::Function(Function {
                    name: Identifier::Single(SingleIdentifier {
                        value: "count".into(),
                        leaf: Location::new(&tokens.tokens[1].location)
                    }),
                    args: vec![Expression::Identifier(Identifier::Wildcard(Location::new(
                        &tokens.tokens[3].location
                    )))],
                }),
                alias: Identifier::Single(SingleIdentifier {
                    value: "a".into(),
                    leaf: Location::new(&tokens.tokens[5].location)
                })
            })],
            from: vec![],
            wheres: None,
            order_by: vec![],
            group_by: vec![],
            limit: None,
            offset: None,
            having: Some(Expression::BinaryExpression(BinaryExpression {
                left: Box::new(Expression::Identifier(Identifier::Single(
                    SingleIdentifier {
                        value: "a".into(),
                        leaf: Location::new(&tokens.tokens[7].location)
                    }
                ))),
                right: Box::new(Expression::Literal(Literal {
                    value: Value::Integer(1),
                    leaf: Location::new(&tokens.tokens[9].location)
                })),
                operator: BinaryOperator::GreaterThan(Location::new(&tokens.tokens[8].location)),
            })),
        })
    );
}

#[test]
fn test_sub_query() {
    let tokens: ParsedTokens = Tokenizer::new("SELECT t.a FROM (SELECT b from c) as t;")
        .tokenize()
        .unwrap();
    let mut parser: Parser<'_> = Parser::new(&tokens);
    let statements: Statements = parser.parse().unwrap();
    assert_eq!(statements.statements.len(), 1);
    assert_eq!(
        statements.statements[0],
        Statement::Select(Select {
            items: vec![SelectItem::Expression(Expression::Identifier(
                Identifier::Combined(
                    vec![
                        SingleIdentifier {
                            value: "t".into(),
                            leaf: Location::new(&tokens.tokens[1].location)
                        },
                        SingleIdentifier {
                            value: "a".into(),
                            leaf: Location::new(&tokens.tokens[3].location)
                        },
                    ]
                    
                )
            ))],
            from: vec![FromItem {
                expression: Expression::SubQuery(Box::new(Select {
                    items: vec![SelectItem::Expression(Expression::Identifier(
                        Identifier::Single(SingleIdentifier {
                            value: "b".into(),
                            leaf: Location::new(&tokens.tokens[7].location)
                        })
                    ))],
                    from: vec![FromItem {
                        expression: Expression::Identifier(Identifier::Single(
                            SingleIdentifier {
                                value: "c".into(),
                                leaf: Location::new(&tokens.tokens[9].location)
                            }
                        )),
                        alias: None,
                    }],
                    wheres: None,
                    order_by: vec![],
                    group_by: vec![],
                    limit: None,
                    offset: None,
                    having: None,
                })),
                alias: Some(Identifier::Single(SingleIdentifier {
                    value: "t".into(),
                    leaf: Location::new(&tokens.tokens[12].location)
                }))
            }],
            wheres: None,
            order_by: vec![],
            group_by: vec![],
            limit: None,
            offset: None,
            having: None,
        })
    );
}

#[test]
fn access_query() {
    let _s = Statement::Select(Select {
        items: vec![],
        from: vec![],
        wheres: None,
        order_by: vec![],
        group_by: vec![],
        having: None,
        limit: None,
        offset: None,
    });
}
