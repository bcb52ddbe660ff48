use std::rc::Rc;

use const_fold::ast::{IntTy, LitIntType, Sign, StrStyle, UintTy};
use const_fold::ops::{
    add_constants, bit_constants, constant_negate, constant_not, neg_float_str, sub_constants,
    unify_int_type, BitOp,
};
use const_fold::{Constant, ConstantVariant, FloatWidth, Folding, Order};

fn float_order(a: &str, b: &str) -> Option<Order> {
    match (a.parse::<f64>(), b.parse::<f64>()) {
        (Ok(x), Ok(y)) => x.partial_cmp(&y).map(|o| match o {
            std::cmp::Ordering::Less => Order::Less,
            std::cmp::Ordering::Equal => Order::Equal,
            std::cmp::Ordering::Greater => Order::Greater,
        }),
        _ => None,
    }
}

fn integer(v: u64, ty: LitIntType) -> ConstantVariant {
    ConstantVariant::ConstantInt(v, ty)
}

fn plus() -> LitIntType {
    LitIntType::UnsuffixedIntLit(Sign::Plus)
}

fn minus() -> LitIntType {
    LitIntType::UnsuffixedIntLit(Sign::Minus)
}

fn i8_ty(s: Sign) -> LitIntType {
    LitIntType::SignedIntLit(IntTy::TyI8, s)
}

fn u16_ty() -> LitIntType {
    LitIntType::UnsignedIntLit(UintTy::TyU16)
}

fn int_of(c: Option<ConstantVariant>) -> Option<(u64, LitIntType)> {
    match c {
        Some(ConstantVariant::ConstantInt(v, t)) => Some((v, t)),
        _ => None,
    }
}

fn float(s: &str, w: FloatWidth) -> ConstantVariant {
    ConstantVariant::ConstantFloat(s.to_string(), w)
}

#[test]
fn constructors() {
    let c = Constant::new(ConstantVariant::ConstantBool(true));
    assert!(!c.needed_resolution);
    let r = Constant::new_resolved(ConstantVariant::ConstantBool(true));
    assert!(r.needed_resolution);
    assert_eq!(ConstantVariant::ConstantInt(17, plus()).as_u64(), 17);
}

#[test]
fn unify_types() {
    let i32p = LitIntType::SignedIntLit(IntTy::TyI32, Sign::Plus);
    let i32m = LitIntType::SignedIntLit(IntTy::TyI32, Sign::Minus);
    let i64p = LitIntType::SignedIntLit(IntTy::TyI64, Sign::Plus);
    assert_eq!(unify_int_type(i32p, i32m, Sign::Minus), Some(i32m));
    assert_eq!(unify_int_type(i32p, i64p, Sign::Plus), None);
    assert_eq!(unify_int_type(u16_ty(), u16_ty(), Sign::Plus), Some(u16_ty()));
    assert_eq!(unify_int_type(u16_ty(), u16_ty(), Sign::Minus), None);
    assert_eq!(unify_int_type(plus(), minus(), Sign::Minus), Some(minus()));
    assert_eq!(unify_int_type(i32p, plus(), Sign::Minus), Some(i32m));
    assert_eq!(unify_int_type(plus(), i32p, Sign::Minus), Some(i32m));
    assert_eq!(unify_int_type(u16_ty(), plus(), Sign::Minus), Some(u16_ty()));
    assert_eq!(unify_int_type(u16_ty(), minus(), Sign::Plus), None);
    assert_eq!(unify_int_type(minus(), u16_ty(), Sign::Plus), None);
    assert_eq!(unify_int_type(i32p, u16_ty(), Sign::Plus), None);
}

#[test]
fn law_unify_symmetric_on_examples() {
    let tys = [
        plus(),
        minus(),
        i8_ty(Sign::Plus),
        i8_ty(Sign::Minus),
        u16_ty(),
        LitIntType::SignedIntLit(IntTy::TyIs, Sign::Plus),
    ];
    for l in tys {
        for r in tys {
            for s in [Sign::Plus, Sign::Minus] {
                assert_eq!(unify_int_type(l, r, s), unify_int_type(r, l, s));
            }
        }
    }
}

fn value(v: u64, ty: LitIntType) -> i128 {
    if const_fold::is_negative(ty) {
        -(v as i128)
    } else {
        v as i128
    }
}

#[test]
fn law_integer_arithmetic_is_exact_on_examples() {
    let tys = [plus(), minus(), i8_ty(Sign::Plus), i8_ty(Sign::Minus), u16_ty()];
    for lv in [0u64, 1, 3, 7, 100] {
        for rv in [0u64, 1, 3, 7, 100] {
            for lt in tys {
                for rt in tys {
                    if let Some((v, t)) = int_of(add_constants(integer(lv, lt), integer(rv, rt))) {
                        assert_eq!(value(v, t), value(lv, lt) + value(rv, rt));
                    }
                    if let Some((v, t)) = int_of(sub_constants(integer(lv, lt), integer(rv, rt))) {
                        assert_eq!(value(v, t), value(lv, lt) - value(rv, rt));
                    }
                }
            }
        }
    }
}

#[test]
fn byte_arithmetic() {
    assert!(matches!(add_constants(ConstantVariant::ConstantByte(1), ConstantVariant::ConstantByte(2)), Some(ConstantVariant::ConstantByte(3))));
    assert!(add_constants(ConstantVariant::ConstantByte(255), ConstantVariant::ConstantByte(1)).is_none());
    assert!(matches!(sub_constants(ConstantVariant::ConstantByte(3), ConstantVariant::ConstantByte(3)), Some(ConstantVariant::ConstantByte(0))));
    assert!(sub_constants(ConstantVariant::ConstantByte(3), ConstantVariant::ConstantByte(4)).is_none());
    assert!(add_constants(ConstantVariant::ConstantByte(3), integer(1, plus())).is_none());
}

#[test]
fn bit_operations_on_values() {
    match bit_constants(BitOp::Shr, integer(0x100, u16_ty()), integer(8, plus())) {
        Folding::Folded(ConstantVariant::ConstantInt(1, t)) => assert_eq!(t, u16_ty()),
        _ => panic!("shift right"),
    }
    assert!(matches!(bit_constants(BitOp::Shl, integer(1, plus()), integer(64, plus())), Folding::Panics));
    assert!(matches!(bit_constants(BitOp::Xor, integer(1, u16_ty()), integer(1, i8_ty(Sign::Plus))), Folding::Unfoldable));
    assert!(matches!(bit_constants(BitOp::Xor, ConstantVariant::ConstantBool(true), ConstantVariant::ConstantBool(true)), Folding::Folded(ConstantVariant::ConstantBool(false))));
    assert!(matches!(bit_constants(BitOp::Or, ConstantVariant::ConstantByte(0xf0), ConstantVariant::ConstantByte(0x0f)), Folding::Folded(ConstantVariant::ConstantByte(0xff))));
}

#[test]
fn law_not_is_twos_complement_on_examples() {
    for v in [0u64, 1, 2, 126, 1000] {
        for s in [Sign::Plus, Sign::Minus] {
            let c = Constant::new(integer(v, i8_ty(s)));
            let n = constant_not(c).expect("not of a signed integer");
            match n.constant {
                ConstantVariant::ConstantInt(w, t) => assert_eq!(value(w, t), -value(v, i8_ty(s)) - 1),
                _ => panic!("not of an integer"),
            }
            let nn = constant_not(n).expect("not of a signed integer");
            match nn.constant {
                ConstantVariant::ConstantInt(w, t) => assert_eq!(value(w, t), value(v, i8_ty(s))),
                _ => panic!("not of an integer"),
            }
        }
    }
    for v in [0u64, 1, 0xfffe, 0xffff] {
        match constant_not(Constant::new(integer(v, u16_ty()))).map(|c| c.constant) {
            Some(ConstantVariant::ConstantInt(w, _)) => assert_eq!(w, 0xffff - v),
            _ => panic!("not of an unsigned integer"),
        }
    }
    let kept = constant_not(Constant::new_resolved(ConstantVariant::ConstantBool(false))).unwrap();
    assert!(kept.needed_resolution);
    assert!(matches!(kept.constant, ConstantVariant::ConstantBool(true)));
}

#[test]
fn law_negation_is_involutive_on_examples() {
    for s in ["1.5", "-2", "", "-", "abc"] {
        assert_eq!(neg_float_str(neg_float_str(s.to_string())), s);
    }
    assert_eq!(neg_float_str("1.5".to_string()), "-1.5");
    assert_eq!(neg_float_str("-1.5".to_string()), "1.5");
    assert_eq!(neg_float_str("--1".to_string()), "-1");
    assert_eq!(neg_float_str("".to_string()), "-");
    for ty in [plus(), minus(), i8_ty(Sign::Plus), i8_ty(Sign::Minus)] {
        let once = constant_negate(Constant::new(integer(9, ty))).unwrap();
        let twice = constant_negate(once).unwrap();
        assert_eq!(twice.constant.as_u64(), 9);
        match twice.constant {
            ConstantVariant::ConstantInt(_, t) => assert_eq!(t, ty),
            _ => panic!("negated integer"),
        }
    }
    assert!(constant_negate(Constant::new(integer(9, u16_ty()))).is_none());
    assert!(constant_negate(Constant::new(ConstantVariant::ConstantChar('a'))).is_none());
}

#[test]
fn value_equality() {
    let f = &float_order;
    assert!(integer(5, plus()).equals(&integer(5, u16_ty()), f));
    assert!(integer(0, minus()).equals(&integer(0, plus()), f));
    assert!(!integer(5, minus()).equals(&integer(5, plus()), f));
    assert!(float("1.0", FloatWidth::FwAny).equals(&float("1", FloatWidth::Fw32), f));
    assert!(!float("1.0", FloatWidth::Fw64).equals(&float("1", FloatWidth::Fw32), f));
    assert!(!float("nope", FloatWidth::FwAny).equals(&float("nope", FloatWidth::FwAny), f));
    let s = |t: &str| ConstantVariant::ConstantStr(t.to_string(), StrStyle::CookedStr);
    assert!(s("x").equals(&s("x"), f));
    assert!(!s("x").equals(&s("y"), f));
    let bin = |v: Vec<u8>| ConstantVariant::ConstantBinary(Rc::new(v));
    assert!(bin(vec![1]).equals(&bin(vec![1]), f));
    assert!(!bin(vec![1]).equals(&bin(vec![1, 1]), f));
    let a = Constant::new(ConstantVariant::ConstantChar('a'));
    let ra = Constant::new_resolved(ConstantVariant::ConstantChar('a'));
    assert!(!a.equals(&ra, f));
    assert!(a.equals(&Constant::new(ConstantVariant::ConstantChar('a')), f));
    let v = |cs: Vec<Constant>| ConstantVariant::ConstantVec(cs);
    assert!(v(vec![]).equals(&v(vec![]), f));
    assert!(!v(vec![Constant::new(ConstantVariant::ConstantByte(1))]).equals(&v(vec![]), f));
    assert!(!v(vec![]).equals(&ConstantVariant::ConstantTuple(vec![]), f));
}

#[test]
fn value_order() {
    let f = &float_order;
    assert_eq!(integer(1, plus()).compare(&integer(2, plus()), f), Some(Order::Less));
    assert_eq!(integer(3, plus()).compare(&integer(5, plus()), f), Some(Order::Less));
    assert_eq!(integer(1, minus()).compare(&integer(2, u16_ty()), f), Some(Order::Less));
    assert_eq!(integer(5, minus()).compare(&integer(3, minus()), f), Some(Order::Less));
    assert_eq!(integer(2, plus()).compare(&integer(2, u16_ty()), f), Some(Order::Equal));
    assert_eq!(integer(1, minus()).compare(&integer(1, plus()), f), Some(Order::Less));
    assert_eq!(integer(0, minus()).compare(&integer(0, plus()), f), Some(Order::Equal));
    assert_eq!(float("1", FloatWidth::FwAny).compare(&float("2", FloatWidth::Fw64), f), Some(Order::Less));
    assert_eq!(float("1", FloatWidth::Fw32).compare(&float("2", FloatWidth::Fw64), f), None);
    let s = |t: &str| ConstantVariant::ConstantStr(t.to_string(), StrStyle::CookedStr);
    assert_eq!(s("abc").compare(&s("abd"), f), Some(Order::Less));
    assert_eq!(s("abc").compare(&s("ab"), f), Some(Order::Greater));
    assert_eq!(s("ab").compare(&s("ab"), f), Some(Order::Equal));
    assert_eq!(ConstantVariant::ConstantBool(true).compare(&ConstantVariant::ConstantBool(false), f), Some(Order::Greater));
    let a = Constant::new(ConstantVariant::ConstantChar('a'));
    let ra = Constant::new_resolved(ConstantVariant::ConstantChar('a'));
    assert_eq!(a.compare(&ra, f), Some(Order::Equal));
    let rep = |c: char, n: usize| ConstantVariant::ConstantRepeat(Box::new(ConstantVariant::ConstantChar(c)), n);
    assert_eq!(rep('a', 3).compare(&rep('a', 2), f), Some(Order::Greater));
    assert_eq!(rep('a', 3).compare(&rep('b', 2), f), Some(Order::Less));
    let bin = ConstantVariant::ConstantBinary(Rc::new(vec![1]));
    assert_eq!(bin.compare(&ConstantVariant::ConstantBinary(Rc::new(vec![1])), f), None);
}

#[test]
fn law_order_antisymmetric_on_examples() {
    let f = &float_order;
    let flip = |o: Option<Order>| match o {
        Some(Order::Less) => Some(Order::Greater),
        Some(Order::Greater) => Some(Order::Less),
        x => x,
    };
    let values = || {
        vec![
            integer(3, plus()),
            integer(3, minus()),
            integer(0, minus()),
            integer(7, u16_ty()),
            float("2.5", FloatWidth::FwAny),
            float("-1", FloatWidth::Fw64),
            ConstantVariant::ConstantStr("b".to_string(), StrStyle::CookedStr),
            ConstantVariant::ConstantStr("ab".to_string(), StrStyle::CookedStr),
            ConstantVariant::ConstantChar('q'),
            ConstantVariant::ConstantBool(false),
        ]
    };
    for l in values() {
        for r in values() {
            assert_eq!(l.compare(&r, f), flip(r.compare(&l, f)));
            assert_eq!(l.equals(&r, f), r.equals(&l, f));
        }
        assert!(l.equals(&l, f));
    }
}

#[test]
fn law_int_bits_exact_on_examples() {
    let tys = [plus(), minus(), i8_ty(Sign::Plus), i8_ty(Sign::Minus), u16_ty()];
    for l in [0u64, 1, 6, 12] {
        for r in [0u64, 1, 3, 5] {
            for lt in tys {
                for rt in tys {
                    for (op, f) in [
                        (BitOp::And, (|x: u64, y: u64| x & y) as fn(u64, u64) -> u64),
                        (BitOp::Or, |x, y| x | y),
                        (BitOp::Xor, |x, y| x ^ y),
                        (BitOp::Shl, |x, y| x << y),
                        (BitOp::Shr, |x, y| x >> y),
                    ] {
                        if let Folding::Folded(ConstantVariant::ConstantInt(v, t)) = bit_constants(op, integer(l, lt), integer(r, rt)) {
                            assert!(value(l, lt) >= 0 && value(r, rt) >= 0);
                            assert_eq!(value(v, t), f(l, r) as i128);
                        }
                    }
                }
            }
        }
    }
    assert!(matches!(bit_constants(BitOp::And, integer(1, i8_ty(Sign::Minus)), integer(3, i8_ty(Sign::Plus))), Folding::Unfoldable));
}

#[test]
fn law_values_of_different_kinds_are_unequal() {
    let f = &float_order;
    assert!(!ConstantVariant::ConstantByte(1).equals(&integer(1, plus()), f));
    assert!(!ConstantVariant::ConstantChar('1').equals(&ConstantVariant::ConstantStr("1".to_string(), StrStyle::CookedStr), f));
    assert!(!ConstantVariant::ConstantBool(true).equals(&integer(1, plus()), f));
}

#[test]
fn law_equal_order_means_equal_values() {
    let f = &float_order;
    let values = || {
        vec![
            integer(3, plus()),
            integer(3, u16_ty()),
            integer(0, minus()),
            integer(0, plus()),
            ConstantVariant::ConstantStr("é".to_string(), StrStyle::CookedStr),
            ConstantVariant::ConstantStr("é".to_string(), StrStyle::CookedStr),
            float("1.0", FloatWidth::FwAny),
            float("1", FloatWidth::Fw32),
            ConstantVariant::ConstantRepeat(Box::new(ConstantVariant::ConstantChar('x')), 2),
        ]
    };
    for l in values() {
        for r in values() {
            if l.compare(&r, f) == Some(Order::Equal) {
                assert!(l.equals(&r, f));
            }
        }
    }
}

#[test]
fn as_u64_of_natural_integers() {
    assert_eq!(integer(5, i8_ty(Sign::Plus)).as_u64(), 5);
    assert_eq!(integer(0, i8_ty(Sign::Minus)).as_u64(), 0);
}
