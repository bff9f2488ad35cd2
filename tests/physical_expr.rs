use common_grpc::codec::{parse_df_physical_expr, parse_grpc_physical_expr};
use common_grpc::error::Error;
use common_grpc::expr::PhysicalExpr;
use common_grpc::operator::{from_proto_binary_op, to_proto_binary_op, Operator};
use common_grpc::wire::{
    ExprType, PhysicalBinaryExprNode, PhysicalCaseNode, PhysicalColumn, PhysicalExprNode,
    PhysicalIsNotNull, PhysicalIsNull, PhysicalNot, PhysicalWhenThen,
};

fn column(name: &str, index: usize) -> PhysicalExpr {
    PhysicalExpr::Column { name: name.to_string(), index }
}

fn wire_column(name: &str, index: u64) -> PhysicalExprNode {
    PhysicalExprNode {
        expr_type: Some(ExprType::Column(PhysicalColumn { name: name.to_string(), index })),
    }
}

fn empty_node() -> PhysicalExprNode {
    PhysicalExprNode { expr_type: None }
}

fn roundtrip(expr: &PhysicalExpr) -> PhysicalExpr {
    let grpc = parse_df_physical_expr(expr).unwrap();
    parse_grpc_physical_expr(&grpc).unwrap()
}

fn assert_eq_column(x: &PhysicalExpr, y: &PhysicalExpr) {
    assert!(matches!(x, PhysicalExpr::Column { .. }));
    assert_eq!(x, y);
}

fn binary_node(l: Option<PhysicalExprNode>, r: Option<PhysicalExprNode>, op: &str) -> PhysicalExprNode {
    PhysicalExprNode {
        expr_type: Some(ExprType::BinaryExpr(Box::new(PhysicalBinaryExprNode {
            l: l.map(Box::new),
            r: r.map(Box::new),
            op: op.to_string(),
        }))),
    }
}

#[test]
fn test_case_expr() {
    let mock_expr = column("name", 11);
    let df_expr = PhysicalExpr::try_new_case(
        Some(Box::new(column("name", 11))),
        vec![(column("name", 11), column("name", 11))],
        None,
    )
    .unwrap();
    let back = roundtrip(&df_expr);
    match (&df_expr, &back) {
        (
            PhysicalExpr::Case { expr: x_base, when_then_expr: x_wt, else_expr: x_else },
            PhysicalExpr::Case { expr: y_base, when_then_expr: y_wt, else_expr: y_else },
        ) => {
            assert_eq_column(x_base.as_ref().unwrap(), y_base.as_ref().unwrap());
            assert!(x_else.is_none());
            assert!(y_else.is_none());
            assert_eq!(x_wt.len(), y_wt.len());
            for (x, y) in x_wt.iter().zip(y_wt.iter()) {
                assert_eq_column(&x.0, &y.0);
                assert_eq_column(&x.1, &y.1);
            }
            assert_eq_column(&x_wt[0].0, &mock_expr);
        }
        _ => panic!("expected two conditionals"),
    }
}

#[test]
fn test_column_expr() {
    let df_expr = column("name", 11);
    let back = roundtrip(&df_expr);
    assert_eq_column(&df_expr, &back);
}

#[test]
fn test_binary_expr() {
    let binary_expr = PhysicalExpr::Binary {
        left: Box::new(column("name", 11)),
        op: Operator::Eq,
        right: Box::new(column("name", 11)),
    };
    let back = roundtrip(&binary_expr);
    match (&binary_expr, &back) {
        (
            PhysicalExpr::Binary { left: xl, op: xo, right: xr },
            PhysicalExpr::Binary { left: yl, op: yo, right: yr },
        ) => {
            assert_eq_column(xl, yl);
            assert_eq_column(xr, yr);
            assert_eq!(xo, yo);
        }
        _ => panic!("expected two binary expressions"),
    }
}

#[test]
fn test_is_null_expr() {
    let df_expr = PhysicalExpr::IsNull { arg: Box::new(column("name", 11)) };
    match (&df_expr, &roundtrip(&df_expr)) {
        (PhysicalExpr::IsNull { arg: x }, PhysicalExpr::IsNull { arg: y }) => assert_eq_column(x, y),
        _ => panic!("expected two null tests"),
    }
}

#[test]
fn test_is_not_null_expr() {
    let df_expr = PhysicalExpr::IsNotNull { arg: Box::new(column("name", 11)) };
    match (&df_expr, &roundtrip(&df_expr)) {
        (PhysicalExpr::IsNotNull { arg: x }, PhysicalExpr::IsNotNull { arg: y }) => {
            assert_eq_column(x, y)
        }
        _ => panic!("expected two not-null tests"),
    }
}

#[test]
fn test_not_expr() {
    let df_expr = PhysicalExpr::Not { arg: Box::new(column("name", 11)) };
    match (&df_expr, &roundtrip(&df_expr)) {
        (PhysicalExpr::Not { arg: x }, PhysicalExpr::Not { arg: y }) => assert_eq_column(x, y),
        _ => panic!("expected two negations"),
    }
}

#[test]
fn nested_tree_round_trips_exactly() {
    let tree = PhysicalExpr::Not {
        arg: Box::new(PhysicalExpr::Binary {
            left: Box::new(PhysicalExpr::IsNull { arg: Box::new(column("a", 0)) }),
            op: Operator::Or,
            right: Box::new(PhysicalExpr::IsNotNull { arg: Box::new(column("b", 3)) }),
        }),
    };
    assert_eq!(roundtrip(&tree), tree);
}

#[test]
fn every_operator_token_survives_decode_and_encode() {
    let tokens = [
        "And", "Or", "Eq", "NotEq", "LtEq", "Lt", "Gt", "GtEq", "Plus", "Minus", "Multiply",
        "Divide", "Modulo", "Like", "NotLike",
    ];
    for token in tokens {
        let op = from_proto_binary_op(token).unwrap();
        assert_eq!(to_proto_binary_op(op), token);
    }
}

#[test]
fn operator_tokens_are_canonical() {
    assert_eq!(to_proto_binary_op(Operator::NotEq), "NotEq");
    assert_eq!(to_proto_binary_op(Operator::Multiply), "Multiply");
    assert_eq!(from_proto_binary_op("GtEq").unwrap(), Operator::GtEq);
    assert_eq!(from_proto_binary_op("NotLike").unwrap(), Operator::NotLike);
}

#[test]
fn binary_with_operator_token_on_wire() {
    let expr = PhysicalExpr::Binary {
        left: Box::new(column("x", 1)),
        op: Operator::Modulo,
        right: Box::new(column("y", 2)),
    };
    let grpc = parse_df_physical_expr(&expr).unwrap();
    match grpc.expr_type {
        Some(ExprType::BinaryExpr(b)) => assert_eq!(b.op, "Modulo"),
        _ => panic!("expected a binary node"),
    }
}

#[test]
fn missing_child_of_is_null_fails() {
    let node = PhysicalExprNode {
        expr_type: Some(ExprType::IsNullExpr(Box::new(PhysicalIsNull { expr: None }))),
    };
    assert_eq!(
        parse_grpc_physical_expr(&node),
        Err(Error::MissingField { field: "expr".to_string() })
    );
}

#[test]
fn missing_child_of_is_not_null_fails() {
    let node = PhysicalExprNode {
        expr_type: Some(ExprType::IsNotNullExpr(Box::new(PhysicalIsNotNull { expr: None }))),
    };
    assert_eq!(
        parse_grpc_physical_expr(&node),
        Err(Error::MissingField { field: "expr".to_string() })
    );
}

#[test]
fn missing_child_of_not_fails() {
    let node = PhysicalExprNode {
        expr_type: Some(ExprType::NotExpr(Box::new(PhysicalNot { expr: None }))),
    };
    assert_eq!(
        parse_grpc_physical_expr(&node),
        Err(Error::MissingField { field: "expr".to_string() })
    );
}

#[test]
fn missing_children_of_binary_fail() {
    let no_left = binary_node(None, Some(wire_column("a", 0)), "Eq");
    assert_eq!(
        parse_grpc_physical_expr(&no_left),
        Err(Error::MissingField { field: "l".to_string() })
    );
    let no_right = binary_node(Some(wire_column("a", 0)), None, "Eq");
    assert_eq!(
        parse_grpc_physical_expr(&no_right),
        Err(Error::MissingField { field: "r".to_string() })
    );
}

#[test]
fn unknown_operator_is_rejected() {
    let node = binary_node(Some(wire_column("a", 0)), Some(wire_column("b", 1)), "Xor");
    assert_eq!(
        parse_grpc_physical_expr(&node),
        Err(Error::UnsupportedOperator { op: "Xor".to_string() })
    );
    assert_eq!(
        from_proto_binary_op("and"),
        Err(Error::UnsupportedOperator { op: "and".to_string() })
    );
}

#[test]
fn empty_node_is_rejected() {
    assert_eq!(
        parse_grpc_physical_expr(&empty_node()),
        Err(Error::EmptyExpression { name: "PhysicalExprNode { expr_type: None }".to_string() })
    );
}

#[test]
fn first_failure_wins() {
    let node = binary_node(Some(empty_node()), None, "Xor");
    assert!(matches!(parse_grpc_physical_expr(&node), Err(Error::EmptyExpression { .. })));
}

#[test]
fn case_keeps_branch_order_and_else() {
    let a = column("a", 0);
    let b = column("b", 1);
    let c = column("c", 2);
    let d = column("d", 3);
    let e = column("e", 4);
    let tree = PhysicalExpr::try_new_case(
        None,
        vec![(a, b), (c, d)],
        Some(Box::new(e)),
    )
    .unwrap();
    let back = roundtrip(&tree);
    match &back {
        PhysicalExpr::Case { expr, when_then_expr, else_expr } => {
            assert!(expr.is_none());
            assert_eq!(when_then_expr.len(), 2);
            assert_eq!(when_then_expr[0], (column("a", 0), column("b", 1)));
            assert_eq!(when_then_expr[1], (column("c", 2), column("d", 3)));
            assert_eq!(else_expr.as_deref(), Some(&column("e", 4)));
        }
        _ => panic!("expected a conditional"),
    }
    assert_eq!(back, tree);
}

#[test]
fn case_without_branches_is_refused() {
    let built = PhysicalExpr::try_new_case(None, vec![], None);
    assert!(matches!(built, Err(Error::VariantConstruction { .. })));
    let node = PhysicalExprNode {
        expr_type: Some(ExprType::Case(Box::new(PhysicalCaseNode {
            expr: None,
            when_then_expr: vec![],
            else_expr: Some(Box::new(wire_column("e", 4))),
        }))),
    };
    assert_eq!(
        parse_grpc_physical_expr(&node),
        Err(Error::VariantConstruction {
            reason: "There must be at least one WHEN clause".to_string()
        })
    );
}

#[test]
fn case_branch_missing_parts_fail() {
    let missing_when = PhysicalExprNode {
        expr_type: Some(ExprType::Case(Box::new(PhysicalCaseNode {
            expr: None,
            when_then_expr: vec![PhysicalWhenThen { when_expr: None, then_expr: Some(wire_column("b", 1)) }],
            else_expr: None,
        }))),
    };
    assert_eq!(
        parse_grpc_physical_expr(&missing_when),
        Err(Error::MissingField { field: "when_expr".to_string() })
    );
    let missing_then = PhysicalExprNode {
        expr_type: Some(ExprType::Case(Box::new(PhysicalCaseNode {
            expr: None,
            when_then_expr: vec![
                PhysicalWhenThen { when_expr: Some(wire_column("a", 0)), then_expr: Some(wire_column("b", 1)) },
                PhysicalWhenThen { when_expr: Some(wire_column("c", 2)), then_expr: None },
            ],
            else_expr: None,
        }))),
    };
    assert_eq!(
        parse_grpc_physical_expr(&missing_then),
        Err(Error::MissingField { field: "then_expr".to_string() })
    );
}

#[test]
fn column_fidelity() {
    let grpc = parse_df_physical_expr(&column("name", 11)).unwrap();
    assert_eq!(grpc, wire_column("name", 11));
    let back = parse_grpc_physical_expr(&grpc).unwrap();
    assert_eq!(back, PhysicalExpr::Column { name: "name".to_string(), index: 11 });
}

#[test]
fn large_column_index_is_kept() {
    let index = u32::MAX as usize + 7;
    let back = roundtrip(&column("wide", index));
    assert_eq!(back, column("wide", index));
}

#[test]
fn unsupported_expression_is_named() {
    let other = PhysicalExpr::Other { name: "CAST(a AS Int64)".to_string() };
    assert_eq!(
        parse_df_physical_expr(&other),
        Err(Error::UnsupportedExpression { name: "CAST(a AS Int64)".to_string() })
    );
    let nested = PhysicalExpr::try_new_case(
        None,
        vec![(column("a", 0), PhysicalExpr::Other { name: "1 + 2".to_string() })],
        None,
    )
    .unwrap();
    assert_eq!(
        parse_df_physical_expr(&nested),
        Err(Error::UnsupportedExpression { name: "1 + 2".to_string() })
    );
}
