use const_fold::ast::{BinOp, Block, Expr, Lit, LitIntType, Sign, StrStyle};
use const_fold::{constant, Constant, ConstantVariant, Order};

fn float_order(a: &str, b: &str) -> Option<Order> {
    match (a.parse::<f64>(), b.parse::<f64>()) {
        (Ok(x), Ok(y)) => x.partial_cmp(&y).map(|o| match o {
            std::cmp::Ordering::Less => Order::Less,
            std::cmp::Ordering::Equal => Order::Equal,
            std::cmp::Ordering::Greater => Order::Greater,
        }),
        _ => None,
    }
}

fn operands() -> Vec<fn() -> Expr> {
    vec![
        || Expr::ExprLit(Lit::LitInt(1, LitIntType::UnsuffixedIntLit(Sign::Plus))),
        || Expr::ExprLit(Lit::LitInt(2, LitIntType::UnsuffixedIntLit(Sign::Minus))),
        || Expr::ExprLit(Lit::LitFloatUnsuffixed("0.5".to_string())),
        || Expr::ExprLit(Lit::LitStr("q".to_string(), StrStyle::CookedStr)),
        || Expr::ExprLit(Lit::LitChar('z')),
        || Expr::ExprVec(vec![Expr::ExprLit(Lit::LitBool(true))]),
        || Expr::ExprPath(Some(Box::new(Expr::ExprLit(Lit::LitByte(3))))),
        || Expr::ExprOther,
    ]
}

fn fold(op: BinOp, l: Expr, r: Expr) -> Option<Constant> {
    constant(&Expr::ExprBinary(op, Box::new(l), Box::new(r)), &float_order)
}

fn bool_of(c: &Option<Constant>) -> Option<(bool, bool)> {
    match c {
        Some(Constant { constant: ConstantVariant::ConstantBool(b), needed_resolution }) => Some((*b, *needed_resolution)),
        Some(_) => panic!("comparisons fold to bools"),
        None => None,
    }
}

#[test]
fn law_ne_negates_eq_on_examples() {
    for l in operands() {
        for r in operands() {
            let eq = bool_of(&fold(BinOp::BiEq, l(), r()));
            let ne = bool_of(&fold(BinOp::BiNe, l(), r()));
            assert_eq!(ne, eq.map(|(b, res)| (!b, res)));
        }
    }
}

#[test]
fn law_comparison_swaps_on_examples() {
    for l in operands() {
        for r in operands() {
            assert_eq!(bool_of(&fold(BinOp::BiLt, l(), r())), bool_of(&fold(BinOp::BiGt, r(), l())));
            assert_eq!(bool_of(&fold(BinOp::BiLe, l(), r())), bool_of(&fold(BinOp::BiGe, r(), l())));
            assert_eq!(bool_of(&fold(BinOp::BiEq, l(), r())), bool_of(&fold(BinOp::BiEq, r(), l())));
        }
        let e = l();
        let folds = constant(&e, &float_order).is_some();
        let same = bool_of(&fold(BinOp::BiEq, l(), l()));
        assert_eq!(same.map(|(b, _)| b), if folds { Some(true) } else { None });
    }
}

#[test]
fn law_path_free_expressions_need_no_resolution() {
    let e = Expr::ExprTup(vec![
        Expr::ExprBinary(
            BinOp::BiAdd,
            Box::new(Expr::ExprLit(Lit::LitInt(1, LitIntType::UnsuffixedIntLit(Sign::Plus)))),
            Box::new(Expr::ExprLit(Lit::LitInt(2, LitIntType::UnsuffixedIntLit(Sign::Plus)))),
        ),
        Expr::ExprBlock(Block { stmts: 0, expr: Some(Box::new(Expr::ExprLit(Lit::LitBool(true)))) }),
    ]);
    let c = constant(&e, &float_order).expect("a constant tuple");
    assert!(!c.needed_resolution);
    match c.constant {
        ConstantVariant::ConstantTuple(parts) => assert!(parts.iter().all(|p| !p.needed_resolution)),
        _ => panic!("a tuple"),
    }
}
