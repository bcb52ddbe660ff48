use std::rc::Rc;

use const_fold::ast::{
    BinOp, Block, Expr, FloatTy, IntTy, Lit, LitIntType, Sign, StrStyle, UintTy, UnOp,
};
use const_fold::{constant, fold_constant, Constant, ConstantVariant, FloatWidth, Folding, Order};

fn float_order(a: &str, b: &str) -> Option<Order> {
    match (a.parse::<f64>(), b.parse::<f64>()) {
        (Ok(x), Ok(y)) => x.partial_cmp(&y).map(|o| match o {
            std::cmp::Ordering::Less => Order::Less,
            std::cmp::Ordering::Equal => Order::Equal,
            std::cmp::Ordering::Greater => Order::Greater,
        }),
        _ => None,
    }
}

fn fold(e: &Expr) -> Option<Constant> {
    constant(e, &float_order)
}

fn b(e: Expr) -> Box<Expr> {
    Box::new(e)
}

fn lit(l: Lit) -> Expr {
    Expr::ExprLit(l)
}

fn num(v: u64) -> Expr {
    lit(Lit::LitInt(v, LitIntType::UnsuffixedIntLit(Sign::Plus)))
}

fn typed(v: u64, ty: LitIntType) -> Expr {
    lit(Lit::LitInt(v, ty))
}

fn i32_ty(s: Sign) -> LitIntType {
    LitIntType::SignedIntLit(IntTy::TyI32, s)
}

fn u8_ty() -> LitIntType {
    LitIntType::UnsignedIntLit(UintTy::TyU8)
}

fn neg(e: Expr) -> Expr {
    Expr::ExprUnary(UnOp::UnNeg, b(e))
}

fn not(e: Expr) -> Expr {
    Expr::ExprUnary(UnOp::UnNot, b(e))
}

fn bin(op: BinOp, l: Expr, r: Expr) -> Expr {
    Expr::ExprBinary(op, b(l), b(r))
}

fn boolean(v: bool) -> Expr {
    lit(Lit::LitBool(v))
}

fn float(s: &str) -> Expr {
    lit(Lit::LitFloatUnsuffixed(s.to_string()))
}

fn path(body: Expr) -> Expr {
    Expr::ExprPath(Some(b(body)))
}

fn block(stmts: usize, e: Option<Expr>) -> Block {
    Block { stmts, expr: e.map(Box::new) }
}

fn as_int(c: &Option<Constant>) -> Option<(u64, LitIntType)> {
    match c {
        Some(Constant { constant: ConstantVariant::ConstantInt(v, t), .. }) => Some((*v, *t)),
        _ => None,
    }
}

fn as_bool(c: &Option<Constant>) -> Option<bool> {
    match c {
        Some(Constant { constant: ConstantVariant::ConstantBool(v), .. }) => Some(*v),
        _ => None,
    }
}

fn resolution(c: &Option<Constant>) -> Option<bool> {
    c.as_ref().map(|c| c.needed_resolution)
}

#[test]
fn is_negative_unsuffixed_minus() {
    assert!(const_fold::is_negative(LitIntType::UnsuffixedIntLit(Sign::Minus)));
    assert!(!const_fold::is_negative(LitIntType::UnsuffixedIntLit(Sign::Plus)));
    assert!(const_fold::is_negative(i32_ty(Sign::Minus)));
    assert!(!const_fold::is_negative(u8_ty()));
}

#[test]
fn literals_fold_to_themselves() {
    let s = fold(&lit(Lit::LitStr("abc".to_string(), StrStyle::CookedStr)));
    match s {
        Some(Constant { constant: ConstantVariant::ConstantStr(ref t, StrStyle::CookedStr), needed_resolution: false }) => {
            assert_eq!(t, "abc")
        }
        _ => panic!("string literal"),
    }
    let bytes = Rc::new(vec![1u8, 2, 3]);
    match fold(&lit(Lit::LitBinary(bytes.clone()))) {
        Some(Constant { constant: ConstantVariant::ConstantBinary(ref r), .. }) => {
            assert_eq!(**r, vec![1u8, 2, 3]);
            assert!(Rc::ptr_eq(r, &bytes));
        }
        _ => panic!("binary literal"),
    }
    assert!(matches!(fold(&lit(Lit::LitByte(7))), Some(Constant { constant: ConstantVariant::ConstantByte(7), .. })));
    assert!(matches!(fold(&lit(Lit::LitChar('x'))), Some(Constant { constant: ConstantVariant::ConstantChar('x'), .. })));
    assert_eq!(as_int(&fold(&num(42))), Some((42, LitIntType::UnsuffixedIntLit(Sign::Plus))));
    match fold(&lit(Lit::LitFloat("1.5".to_string(), FloatTy::TyF32))) {
        Some(Constant { constant: ConstantVariant::ConstantFloat(ref t, FloatWidth::Fw32), .. }) => assert_eq!(t, "1.5"),
        _ => panic!("float literal"),
    }
    match fold(&float("2.5")) {
        Some(Constant { constant: ConstantVariant::ConstantFloat(ref t, FloatWidth::FwAny), .. }) => assert_eq!(t, "2.5"),
        _ => panic!("unsuffixed float literal"),
    }
    assert_eq!(as_bool(&fold(&boolean(true))), Some(true));
    assert_eq!(resolution(&fold(&boolean(true))), Some(false));
}

#[test]
fn float_width_from_float_type() {
    assert_eq!(FloatWidth::from(FloatTy::TyF32), FloatWidth::Fw32);
    assert_eq!(FloatWidth::from(FloatTy::TyF64), FloatWidth::Fw64);
}

#[test]
fn parens_and_paths() {
    assert_eq!(as_int(&fold(&Expr::ExprParen(b(num(3))))), Some((3, LitIntType::UnsuffixedIntLit(Sign::Plus))));
    let through_path = fold(&path(num(3)));
    assert_eq!(as_int(&through_path), Some((3, LitIntType::UnsuffixedIntLit(Sign::Plus))));
    assert_eq!(resolution(&through_path), Some(true));
    assert!(fold(&Expr::ExprPath(None)).is_none());
    assert!(fold(&path(Expr::ExprOther)).is_none());
}

#[test]
fn blocks() {
    assert_eq!(as_int(&fold(&Expr::ExprBlock(block(0, Some(num(5)))))), Some((5, LitIntType::UnsuffixedIntLit(Sign::Plus))));
    assert!(fold(&Expr::ExprBlock(block(1, Some(num(5))))).is_none());
    assert!(fold(&Expr::ExprBlock(block(0, None))).is_none());
}

#[test]
fn conditionals() {
    let take_then = Expr::ExprIf(b(boolean(true)), block(0, Some(num(1))), Some(b(Expr::ExprOther)));
    assert_eq!(as_int(&fold(&take_then)), Some((1, LitIntType::UnsuffixedIntLit(Sign::Plus))));
    let take_else = Expr::ExprIf(b(boolean(false)), block(0, Some(Expr::ExprOther)), Some(b(num(2))));
    assert_eq!(as_int(&fold(&take_else)), Some((2, LitIntType::UnsuffixedIntLit(Sign::Plus))));
    let no_else = Expr::ExprIf(b(boolean(false)), block(0, Some(num(1))), None);
    assert!(fold(&no_else).is_none());
    let not_bool = Expr::ExprIf(b(num(1)), block(0, Some(num(1))), Some(b(num(2))));
    assert!(fold(&not_bool).is_none());
    let resolved_cond = Expr::ExprIf(b(path(boolean(true))), block(0, Some(num(1))), None);
    assert_eq!(resolution(&fold(&resolved_cond)), Some(true));
    let resolved_branch = Expr::ExprIf(b(boolean(true)), block(0, Some(path(num(1)))), None);
    assert_eq!(resolution(&fold(&resolved_branch)), Some(true));
}

#[test]
fn arrays_tuples_and_repeats() {
    match fold(&Expr::ExprVec(vec![num(1), path(num(2))])) {
        Some(Constant { constant: ConstantVariant::ConstantVec(ref parts), needed_resolution: true }) => {
            assert_eq!(parts.len(), 2);
            assert!(!parts[0].needed_resolution);
            assert!(parts[1].needed_resolution);
        }
        _ => panic!("array"),
    }
    match fold(&Expr::ExprTup(vec![num(1), boolean(false)])) {
        Some(Constant { constant: ConstantVariant::ConstantTuple(ref parts), needed_resolution: false }) => {
            assert_eq!(parts.len(), 2)
        }
        _ => panic!("tuple"),
    }
    assert!(matches!(fold(&Expr::ExprVec(vec![])), Some(Constant { constant: ConstantVariant::ConstantVec(_), needed_resolution: false })));
    assert!(fold(&Expr::ExprVec(vec![num(1), Expr::ExprOther])).is_none());
    assert!(fold(&Expr::ExprTup(vec![Expr::ExprOther, num(1)])).is_none());
    match fold(&Expr::ExprRepeat(b(lit(Lit::LitByte(5))), b(num(3)))) {
        Some(Constant { constant: ConstantVariant::ConstantRepeat(ref v, 3), needed_resolution: false }) => {
            assert!(matches!(**v, ConstantVariant::ConstantByte(5)))
        }
        _ => panic!("repeat"),
    }
    assert!(fold(&Expr::ExprRepeat(b(Expr::ExprOther), b(num(3)))).is_none());
    match fold(&Expr::ExprRepeat(b(num(0)), b(neg(num(0))))) {
        Some(Constant { constant: ConstantVariant::ConstantRepeat(_, 0), .. }) => {}
        _ => panic!("repeat with a negative zero count"),
    }
}

#[test]
fn repeat_with_a_count_that_is_not_a_natural_panics() {
    let e = Expr::ExprRepeat(b(num(1)), b(boolean(true)));
    assert!(matches!(fold_constant(&e, &float_order), Folding::Panics));
    let negative = Expr::ExprRepeat(b(num(0)), b(neg(num(5))));
    assert!(matches!(fold_constant(&negative, &float_order), Folding::Panics));
}

#[test]
fn logical_and_bitwise_not() {
    assert_eq!(as_bool(&fold(&not(boolean(true)))), Some(false));
    assert_eq!(as_int(&fold(&not(typed(5, i32_ty(Sign::Plus))))), Some((6, i32_ty(Sign::Minus))));
    assert_eq!(as_int(&fold(&not(typed(0, i32_ty(Sign::Minus))))), Some((1, i32_ty(Sign::Minus))));
    assert_eq!(as_int(&fold(&not(typed(3, i32_ty(Sign::Minus))))), Some((2, i32_ty(Sign::Plus))));
    assert!(fold(&not(typed(u64::MAX, i32_ty(Sign::Plus)))).is_none());
    assert_eq!(as_int(&fold(&not(typed(5, u8_ty())))), Some((250, u8_ty())));
    assert_eq!(
        as_int(&fold(&not(typed(1, LitIntType::UnsignedIntLit(UintTy::TyU64))))),
        Some((u64::MAX - 1, LitIntType::UnsignedIntLit(UintTy::TyU64)))
    );
    assert!(fold(&not(typed(5, LitIntType::UnsignedIntLit(UintTy::TyUs)))).is_none());
    assert!(fold(&not(num(5))).is_none());
    assert!(fold(&not(lit(Lit::LitChar('a')))).is_none());
}

#[test]
fn negation() {
    assert_eq!(as_int(&fold(&neg(num(5)))), Some((5, LitIntType::UnsuffixedIntLit(Sign::Minus))));
    assert_eq!(as_int(&fold(&neg(neg(typed(5, i32_ty(Sign::Plus)))))), Some((5, i32_ty(Sign::Plus))));
    assert!(fold(&neg(typed(5, u8_ty()))).is_none());
    match fold(&neg(float("1.5"))) {
        Some(Constant { constant: ConstantVariant::ConstantFloat(ref t, _), .. }) => assert_eq!(t, "-1.5"),
        _ => panic!("negated float"),
    }
    match fold(&neg(neg(float("1.5")))) {
        Some(Constant { constant: ConstantVariant::ConstantFloat(ref t, _), .. }) => assert_eq!(t, "1.5"),
        _ => panic!("twice negated float"),
    }
    assert!(fold(&neg(boolean(true))).is_none());
    let deref = Expr::ExprUnary(UnOp::UnDeref, b(num(4)));
    assert_eq!(as_int(&fold(&deref)), Some((4, LitIntType::UnsuffixedIntLit(Sign::Plus))));
    let boxed = Expr::ExprUnary(UnOp::UnUniq, b(num(4)));
    assert_eq!(as_int(&fold(&boxed)), Some((4, LitIntType::UnsuffixedIntLit(Sign::Plus))));
}

#[test]
fn addition() {
    let unsuffixed = |s| LitIntType::UnsuffixedIntLit(s);
    assert_eq!(as_int(&fold(&bin(BinOp::BiAdd, num(1), num(2)))), Some((3, unsuffixed(Sign::Plus))));
    assert_eq!(as_int(&fold(&bin(BinOp::BiAdd, neg(num(3)), num(5)))), Some((2, unsuffixed(Sign::Plus))));
    assert_eq!(as_int(&fold(&bin(BinOp::BiAdd, num(3), neg(num(5))))), Some((2, unsuffixed(Sign::Minus))));
    assert_eq!(as_int(&fold(&bin(BinOp::BiAdd, neg(num(3)), neg(num(5))))), Some((8, unsuffixed(Sign::Minus))));
    assert_eq!(as_int(&fold(&bin(BinOp::BiAdd, typed(1, i32_ty(Sign::Plus)), num(2)))), Some((3, i32_ty(Sign::Plus))));
    assert_eq!(as_int(&fold(&bin(BinOp::BiAdd, num(2), typed(1, u8_ty())))), Some((3, u8_ty())));
    assert!(fold(&bin(BinOp::BiAdd, typed(1, i32_ty(Sign::Plus)), typed(1, u8_ty()))).is_none());
    assert!(fold(&bin(BinOp::BiAdd, typed(1, i32_ty(Sign::Plus)), typed(1, LitIntType::SignedIntLit(IntTy::TyI64, Sign::Plus)))).is_none());
    assert!(fold(&bin(BinOp::BiAdd, num(u64::MAX), num(1))).is_none());
    assert!(fold(&bin(BinOp::BiAdd, neg(num(5)), typed(3, u8_ty()))).is_none());
    assert!(matches!(fold(&bin(BinOp::BiAdd, lit(Lit::LitByte(200)), lit(Lit::LitByte(55)))), Some(Constant { constant: ConstantVariant::ConstantByte(255), .. })));
    assert!(fold(&bin(BinOp::BiAdd, lit(Lit::LitByte(200)), lit(Lit::LitByte(56)))).is_none());
    assert!(fold(&bin(BinOp::BiAdd, boolean(true), boolean(true))).is_none());
    assert_eq!(resolution(&fold(&bin(BinOp::BiAdd, num(1), path(num(2))))), Some(true));
}

#[test]
fn subtraction() {
    let unsuffixed = |s| LitIntType::UnsuffixedIntLit(s);
    assert_eq!(as_int(&fold(&bin(BinOp::BiSub, num(5), num(3)))), Some((2, unsuffixed(Sign::Plus))));
    assert!(fold(&bin(BinOp::BiSub, num(3), num(5))).is_none());
    assert_eq!(as_int(&fold(&bin(BinOp::BiSub, neg(num(5)), neg(num(3))))), Some((2, unsuffixed(Sign::Minus))));
    assert!(fold(&bin(BinOp::BiSub, neg(num(3)), neg(num(5)))).is_none());
    assert_eq!(as_int(&fold(&bin(BinOp::BiSub, neg(num(3)), num(5)))), Some((8, unsuffixed(Sign::Minus))));
    assert_eq!(as_int(&fold(&bin(BinOp::BiSub, num(3), neg(num(5))))), Some((8, unsuffixed(Sign::Plus))));
    assert!(matches!(fold(&bin(BinOp::BiSub, lit(Lit::LitByte(b'b')), lit(Lit::LitByte(b'a')))), Some(Constant { constant: ConstantVariant::ConstantByte(1), .. })));
    assert!(fold(&bin(BinOp::BiSub, lit(Lit::LitByte(b'a')), lit(Lit::LitByte(b'b')))).is_none());
}

#[test]
fn bit_operations() {
    let unsuffixed = LitIntType::UnsuffixedIntLit(Sign::Plus);
    assert_eq!(as_int(&fold(&bin(BinOp::BiBitXor, num(6), num(3)))), Some((5, unsuffixed)));
    assert_eq!(as_int(&fold(&bin(BinOp::BiBitAnd, num(6), num(3)))), Some((2, unsuffixed)));
    assert_eq!(as_int(&fold(&bin(BinOp::BiBitOr, num(6), num(3)))), Some((7, unsuffixed)));
    assert_eq!(as_int(&fold(&bin(BinOp::BiShl, num(1), num(4)))), Some((16, unsuffixed)));
    assert_eq!(as_int(&fold(&bin(BinOp::BiShr, num(16), num(2)))), Some((4, unsuffixed)));
    assert_eq!(as_bool(&fold(&bin(BinOp::BiBitAnd, boolean(true), boolean(false)))), Some(false));
    assert_eq!(as_bool(&fold(&bin(BinOp::BiBitOr, boolean(true), boolean(false)))), Some(true));
    assert_eq!(as_bool(&fold(&bin(BinOp::BiShl, boolean(true), boolean(true)))), Some(true));
    assert!(matches!(fold(&bin(BinOp::BiShl, lit(Lit::LitByte(0x81)), lit(Lit::LitByte(1)))), Some(Constant { constant: ConstantVariant::ConstantByte(2), .. })));
    assert!(fold(&bin(BinOp::BiBitAnd, typed(1, i32_ty(Sign::Plus)), typed(1, u8_ty()))).is_none());
    assert!(fold(&bin(BinOp::BiBitAnd, num(1), neg(num(1)))).is_none());
    let minus_one_i32 = neg(typed(1, i32_ty(Sign::Plus)));
    assert!(fold(&bin(BinOp::BiBitAnd, minus_one_i32, typed(3, i32_ty(Sign::Plus)))).is_none());
    assert_eq!(as_int(&fold(&bin(BinOp::BiBitOr, neg(num(0)), num(3)))), Some((3, LitIntType::UnsuffixedIntLit(Sign::Plus))));
    assert!(fold(&bin(BinOp::BiBitAnd, typed(1, u8_ty()), neg(num(1)))).is_none());
    assert!(fold(&bin(BinOp::BiBitXor, lit(Lit::LitChar('a')), lit(Lit::LitChar('b')))).is_none());
}

#[test]
fn overflowing_shifts_panic() {
    let e = bin(BinOp::BiShl, num(1), num(64));
    assert!(matches!(fold_constant(&e, &float_order), Folding::Panics));
    let e = bin(BinOp::BiShr, lit(Lit::LitByte(1)), lit(Lit::LitByte(200)));
    assert!(matches!(fold_constant(&e, &float_order), Folding::Panics));
    let e = bin(BinOp::BiShl, num(1), num(63));
    assert!(matches!(fold_constant(&e, &float_order), Folding::Folded(_)));
}

#[test]
fn short_circuits() {
    assert_eq!(as_bool(&fold(&bin(BinOp::BiAnd, boolean(false), Expr::ExprOther))), Some(false));
    assert_eq!(as_bool(&fold(&bin(BinOp::BiOr, boolean(true), Expr::ExprOther))), Some(true));
    assert_eq!(as_bool(&fold(&bin(BinOp::BiAnd, boolean(true), boolean(false)))), Some(false));
    assert_eq!(as_bool(&fold(&bin(BinOp::BiOr, boolean(false), boolean(true)))), Some(true));
    assert!(fold(&bin(BinOp::BiAnd, boolean(true), num(1))).is_none());
    assert!(fold(&bin(BinOp::BiAnd, num(1), boolean(true))).is_none());
    assert!(fold(&bin(BinOp::BiOr, boolean(false), Expr::ExprOther)).is_none());
    assert_eq!(resolution(&fold(&bin(BinOp::BiAnd, boolean(true), path(boolean(true))))), Some(true));
    assert_eq!(resolution(&fold(&bin(BinOp::BiAnd, boolean(false), path(boolean(true))))), Some(false));
    let never_panics = bin(BinOp::BiAnd, boolean(false), bin(BinOp::BiShl, num(1), num(99)));
    assert!(matches!(fold_constant(&never_panics, &float_order), Folding::Folded(_)));
}

#[test]
fn equality() {
    assert_eq!(as_bool(&fold(&bin(BinOp::BiEq, num(1), num(1)))), Some(true));
    assert_eq!(as_bool(&fold(&bin(BinOp::BiEq, num(1), typed(1, u8_ty())))), Some(true));
    assert_eq!(as_bool(&fold(&bin(BinOp::BiEq, neg(num(0)), num(0)))), Some(true));
    assert_eq!(as_bool(&fold(&bin(BinOp::BiEq, neg(num(1)), num(1)))), Some(false));
    assert_eq!(as_bool(&fold(&bin(BinOp::BiNe, num(1), num(2)))), Some(true));
    assert_eq!(as_bool(&fold(&bin(BinOp::BiEq, float("1.0"), float("1.00")))), Some(true));
    let f32_one = lit(Lit::LitFloat("1.0".to_string(), FloatTy::TyF32));
    let f64_one = lit(Lit::LitFloat("1.0".to_string(), FloatTy::TyF64));
    assert_eq!(as_bool(&fold(&bin(BinOp::BiEq, f32_one, f64_one))), Some(false));
    assert_eq!(as_bool(&fold(&bin(BinOp::BiEq, num(1), boolean(true)))), Some(false));
    let s = |t: &str| lit(Lit::LitStr(t.to_string(), StrStyle::CookedStr));
    assert_eq!(as_bool(&fold(&bin(BinOp::BiEq, s("ab"), s("ab")))), Some(true));
    let raw = lit(Lit::LitStr("ab".to_string(), StrStyle::RawStr(1)));
    assert_eq!(as_bool(&fold(&bin(BinOp::BiEq, s("ab"), raw))), Some(false));
    let bytes = |v: Vec<u8>| lit(Lit::LitBinary(Rc::new(v)));
    assert_eq!(as_bool(&fold(&bin(BinOp::BiEq, bytes(vec![1, 2]), bytes(vec![1, 2])))), Some(true));
    assert_eq!(as_bool(&fold(&bin(BinOp::BiEq, bytes(vec![1, 2]), bytes(vec![1])))), Some(false));
    let arr = |a: u64, c: u64| Expr::ExprVec(vec![num(a), num(c)]);
    assert_eq!(as_bool(&fold(&bin(BinOp::BiEq, arr(1, 2), arr(1, 2)))), Some(true));
    assert_eq!(as_bool(&fold(&bin(BinOp::BiEq, arr(1, 2), arr(2, 1)))), Some(false));
    let resolved = Expr::ExprVec(vec![num(1), path(num(2))]);
    assert_eq!(as_bool(&fold(&bin(BinOp::BiEq, resolved, arr(1, 2)))), Some(false));
    let rep = |n: u64| Expr::ExprRepeat(b(num(0)), b(num(n)));
    assert_eq!(as_bool(&fold(&bin(BinOp::BiEq, rep(2), rep(2)))), Some(true));
    assert_eq!(as_bool(&fold(&bin(BinOp::BiEq, rep(2), rep(3)))), Some(false));
}

#[test]
fn ordering() {
    // integers compare by their numeric values
    assert_eq!(as_bool(&fold(&bin(BinOp::BiLt, num(3), num(5)))), Some(true));
    assert_eq!(as_bool(&fold(&bin(BinOp::BiLt, num(2), num(1)))), Some(false));
    assert_eq!(as_bool(&fold(&bin(BinOp::BiGt, neg(num(5)), num(3)))), Some(false));
    assert_eq!(as_bool(&fold(&bin(BinOp::BiLt, neg(num(5)), num(3)))), Some(true));
    assert_eq!(as_bool(&fold(&bin(BinOp::BiLt, neg(num(3)), neg(num(5))))), Some(false));
    assert_eq!(as_bool(&fold(&bin(BinOp::BiGt, neg(num(3)), neg(num(5))))), Some(true));
    assert_eq!(as_bool(&fold(&bin(BinOp::BiLt, neg(num(1)), typed(2, u8_ty())))), Some(true));
    assert_eq!(as_bool(&fold(&bin(BinOp::BiLt, neg(num(0)), num(0)))), Some(false));
    assert_eq!(as_bool(&fold(&bin(BinOp::BiLe, num(2), num(2)))), Some(true));
    assert_eq!(as_bool(&fold(&bin(BinOp::BiGe, num(2), num(2)))), Some(true));
    assert_eq!(as_bool(&fold(&bin(BinOp::BiLe, num(3), num(2)))), Some(false));
    // other values compare in their natural order
    let c = |x: char| lit(Lit::LitChar(x));
    assert_eq!(as_bool(&fold(&bin(BinOp::BiLt, c('a'), c('b')))), Some(true));
    let by = |x: u8| lit(Lit::LitByte(x));
    assert_eq!(as_bool(&fold(&bin(BinOp::BiGt, by(2), by(1)))), Some(true));
    assert_eq!(as_bool(&fold(&bin(BinOp::BiLt, boolean(false), boolean(true)))), Some(true));
    let s = |t: &str| lit(Lit::LitStr(t.to_string(), StrStyle::CookedStr));
    assert_eq!(as_bool(&fold(&bin(BinOp::BiLt, s("ab"), s("b")))), Some(true));
    assert_eq!(as_bool(&fold(&bin(BinOp::BiLt, s("ab"), s("a")))), Some(false));
    assert_eq!(as_bool(&fold(&bin(BinOp::BiLt, s("é"), s("z")))), Some(false));
    let raw = lit(Lit::LitStr("b".to_string(), StrStyle::RawStr(0)));
    assert!(fold(&bin(BinOp::BiLt, s("a"), raw)).is_none());
    assert_eq!(as_bool(&fold(&bin(BinOp::BiLt, float("1.5"), float("2")))), Some(true));
    assert!(fold(&bin(BinOp::BiLt, float("x"), float("2"))).is_none());
    let f32_one = lit(Lit::LitFloat("1.0".to_string(), FloatTy::TyF32));
    assert!(fold(&bin(BinOp::BiLt, f32_one, lit(Lit::LitFloat("2.0".to_string(), FloatTy::TyF64)))).is_none());
    let bytes = |v: Vec<u8>| lit(Lit::LitBinary(Rc::new(v)));
    assert!(fold(&bin(BinOp::BiLt, bytes(vec![1]), bytes(vec![2]))).is_none());
    assert!(fold(&bin(BinOp::BiLt, num(1), boolean(true))).is_none());
    let chars = |v: Vec<char>| Expr::ExprVec(v.into_iter().map(c).collect());
    assert_eq!(as_bool(&fold(&bin(BinOp::BiLt, chars(vec!['a']), chars(vec!['a', 'b'])))), Some(true));
    assert_eq!(as_bool(&fold(&bin(BinOp::BiLt, chars(vec!['b']), chars(vec!['a', 'b'])))), Some(false));
    let rep = |x: char, n: u64| Expr::ExprRepeat(b(c(x)), b(num(n)));
    assert_eq!(as_bool(&fold(&bin(BinOp::BiLt, rep('a', 9), rep('b', 1)))), Some(true));
    assert_eq!(as_bool(&fold(&bin(BinOp::BiLt, rep('a', 1), rep('a', 2)))), Some(true));
    let tup = |x: char| Expr::ExprTup(vec![c(x)]);
    assert_eq!(as_bool(&fold(&bin(BinOp::BiGt, tup('b'), tup('a')))), Some(true));
}

#[test]
fn operators_that_do_not_fold() {
    assert!(fold(&bin(BinOp::BiMul, num(2), num(3))).is_none());
    assert!(fold(&bin(BinOp::BiDiv, num(6), num(3))).is_none());
    assert!(fold(&bin(BinOp::BiRem, num(6), num(4))).is_none());
    assert!(fold(&Expr::ExprOther).is_none());
    let mul_of_panicking = bin(BinOp::BiMul, bin(BinOp::BiShl, num(1), num(99)), num(1));
    assert!(matches!(fold_constant(&mul_of_panicking, &float_order), Folding::Unfoldable));
}

#[test]
fn law_paren_transparent_on_examples() {
    for e in [num(3), neg(num(2)), Expr::ExprOther, bin(BinOp::BiEq, num(1), num(1))] {
        let inner = fold(&e);
        let outer = fold(&Expr::ExprParen(b(e)));
        assert_eq!(as_int(&inner), as_int(&outer));
        assert_eq!(as_bool(&inner), as_bool(&outer));
        assert_eq!(resolution(&inner), resolution(&outer));
    }
}
