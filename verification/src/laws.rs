//! Properties of folding that hold on every input.
use vstd::prelude::*;
use vstd::utf8::encode_utf8;
use vstd::utf8::encode_scalar;
use vstd::utf8::encode_utf8_decode_utf8;
use crate::ast::{BinOp, Block, Expr, FloatTy, LitIntType, Sign, Lit, StrStyle, UintTy, UnOp, spec_is_negative};
use crate::ops::{
    BitOp, bit_value, bits_value,
    add_value, negate_value, neg_float_text, not_value, spec_unify, sub_value,
    uint_mask,
};
use crate::value::{
    Constant,
    ConstantModel, FloatOrderFn, FloatWidth, Folding, Order, ValueModel, bytes_order, constant_eq, order_of,
    seq_eq, seq_order, value_eq, value_order, int_value,
};
use crate::fold::{any_resolved, fold, fold_block, fold_list};

verus! {

/// Unifying integer types does not depend on the order of the operands.
pub proof fn law_unify_symmetric(l: LitIntType, r: LitIntType, s: Sign)
    ensures
        spec_unify(l, r, s) == spec_unify(r, l, s),
{
}

/// A type produced by unification carries the requested sign, unless it is unsigned.
proof fn lemma_unify_sign(l: LitIntType, r: LitIntType, s: Sign)
    ensures
        spec_unify(l, r, s) matches Some(t) ==> (
            t is UnsignedIntLit || spec_is_negative(t) == (s == Sign::Minus)),
        spec_unify(l, r, s) matches Some(t) && t is UnsignedIntLit ==> !spec_is_negative(l) && !spec_is_negative(r),
{
}

/// Addition of integers is exact: where `l + r` folds, its value is the sum.
pub proof fn law_int_add_exact(l: u64, lty: LitIntType, r: u64, rty: LitIntType, v: u64, ty: LitIntType)
    requires
        add_value(ValueModel::Int(l, lty), ValueModel::Int(r, rty)) == Some(ValueModel::Int(v, ty)),
    ensures
        int_value(v, ty) == int_value(l, lty) + int_value(r, rty),
{
    lemma_unify_sign(lty, rty, Sign::Minus);
    lemma_unify_sign(lty, rty, Sign::Plus);
    lemma_unify_sign(rty, lty, Sign::Minus);
    lemma_unify_sign(rty, lty, Sign::Plus);
}

/// Subtraction of integers is exact: where `l - r` folds, its value is the difference.
pub proof fn law_int_sub_exact(l: u64, lty: LitIntType, r: u64, rty: LitIntType, v: u64, ty: LitIntType)
    requires
        sub_value(ValueModel::Int(l, lty), ValueModel::Int(r, rty)) == Some(ValueModel::Int(v, ty)),
    ensures
        int_value(v, ty) == int_value(l, lty) - int_value(r, rty),
{
    lemma_unify_sign(lty, rty, Sign::Minus);
    lemma_unify_sign(lty, rty, Sign::Plus);
}

/// Byte arithmetic is exact: where `l + r` or `l - r` folds, it is the sum or difference.
pub proof fn law_byte_arith_exact(l: u8, r: u8, v: u8)
    ensures
        add_value(ValueModel::Byte(l), ValueModel::Byte(r)) == Some(ValueModel::Byte(v)) ==> v == l + r,
        sub_value(ValueModel::Byte(l), ValueModel::Byte(r)) == Some(ValueModel::Byte(v)) ==> v == l - r,
        add_value(ValueModel::Byte(l), ValueModel::Byte(r)) is None <==> l + r > 255,
        sub_value(ValueModel::Byte(l), ValueModel::Byte(r)) is None <==> r > l,
{
}

/// Integers are equal exactly when their numeric values are, whatever their types.
pub proof fn law_int_eq_is_numeric(l: u64, lty: LitIntType, r: u64, rty: LitIntType, fo: FloatOrderFn)
    ensures
        value_eq(ValueModel::Int(l, lty), ValueModel::Int(r, rty), fo)
            <==> int_value(l, lty) == int_value(r, rty),
{
}

/// Integers are ordered by their numeric values, whatever their types.
pub proof fn law_int_order_is_numeric(l: u64, lty: LitIntType, r: u64, rty: LitIntType, fo: FloatOrderFn)
    ensures
        value_order(ValueModel::Int(l, lty), ValueModel::Int(r, rty), fo)
            == Some(order_of(int_value(l, lty), int_value(r, rty))),
{
}

/// `!` on a signed integer is two's complement: `!x == -x - 1`.
pub proof fn law_not_signed(v: u64, ty: LitIntType, w: u64, wty: LitIntType)
    requires
        ty is SignedIntLit,
        not_value(ValueModel::Int(v, ty)) == Some(ValueModel::Int(w, wty)),
    ensures
        int_value(w, wty) == -int_value(v, ty) - 1,
{
}

/// `!` on an unsigned integer that fits its type is the type's maximum minus it.
pub proof fn law_not_unsigned(v: u64, ty: LitIntType, w: u64, mask: u64)
    requires
        ty matches LitIntType::UnsignedIntLit(ity) && uint_mask(ity) == Some(mask),
        v <= mask,
    ensures
        not_value(ValueModel::Int(v, ty)) == Some(ValueModel::Int((mask - v) as u64, ty)),
{
    let ity = ty->UnsignedIntLit_0;
    assert(uint_mask(ity) == Some(mask));
    assert(!v & mask == (mask - v) as u64) by (bit_vector)
        requires
            v <= mask,
            mask == 0xffu64 || mask == 0xffffu64 || mask == 0xffff_ffffu64 || mask == 0xffff_ffff_ffff_ffffu64,
    ;
}

/// `!` is its own inverse on bools, and on the values of signed integers.
pub proof fn law_not_involutive(v: ValueModel)
    requires
        v is Bool || v matches ValueModel::Int(_, LitIntType::SignedIntLit(_, _)),
        not_value(v) is Some,
        not_value(not_value(v).unwrap()) is Some,
    ensures
        v is Bool ==> not_value(not_value(v).unwrap()) == Some(v),
        v matches ValueModel::Int(n, ty) ==> not_value(not_value(v).unwrap()) matches Some(
            ValueModel::Int(m, mty),
        ) && int_value(m, mty) == int_value(n, ty),
{
}

/// Negation is its own inverse, except on float text that starts with `--`.
pub proof fn law_negate_involutive(v: ValueModel)
    requires
        negate_value(v) is Some,
        v matches ValueModel::Float(s, _) ==> !(s.len() > 1 && s[0] == '-' && s[1] == '-'),
    ensures
        negate_value(negate_value(v).unwrap()) == Some(v),
{
    if let ValueModel::Float(s, w) = v {
        if s.len() > 0 && s[0] == '-' {
            assert(s.skip(1).len() > 0 ==> s.skip(1)[0] == s[1]);
            assert(seq!['-'] + s.skip(1) =~= s);
        } else {
            assert((seq!['-'] + s).skip(1) =~= s);
        }
    }
}


/// The opposite outcome of a comparison.
pub open spec fn flip(o: Option<Order>) -> Option<Order> {
    match o {
        Some(Order::Less) => Some(Order::Greater),
        Some(Order::Greater) => Some(Order::Less),
        x => x,
    }
}

/// Comparing two float texts the other way round gives the opposite outcome.
pub open spec fn antisymmetric(fo: FloatOrderFn) -> bool {
    forall|a: Seq<char>, b: Seq<char>| #[trigger] fo(a, b) == flip(fo(b, a))
}

/// Two float texts compare equal exactly when they do the other way round.
pub open spec fn symmetric_equal(fo: FloatOrderFn) -> bool {
    forall|a: Seq<char>, b: Seq<char>| #[trigger] fo(a, b) == Some(Order::Equal) <==> fo(b, a) == Some(Order::Equal)
}

/// Every float text compares equal to itself.
pub open spec fn reflexive(fo: FloatOrderFn) -> bool {
    forall|a: Seq<char>| #[trigger] fo(a, a) == Some(Order::Equal)
}

proof fn lemma_bytes_order_flip(l: Seq<u8>, r: Seq<u8>)
    ensures
        Some(bytes_order(l, r)) == flip(Some(bytes_order(r, l))),
    decreases l.len(),
{
    if l.len() > 0 && r.len() > 0 && l[0] == r[0] {
        lemma_bytes_order_flip(l.drop_first(), r.drop_first());
    }
}

/// Comparing two values the other way round gives the opposite outcome,
/// where float texts compare so.
pub proof fn law_order_antisymmetric(l: ValueModel, r: ValueModel, fo: FloatOrderFn)
    requires
        antisymmetric(fo),
    ensures
        value_order(l, r, fo) == flip(value_order(r, l, fo)),
    decreases l,
{
    match l {
        ValueModel::Str(ls, lst) => {
            if let ValueModel::Str(rs, rst) = r {
                lemma_bytes_order_flip(encode_utf8(ls), encode_utf8(rs));
            }
        },
        ValueModel::Float(ls, _) => {
            if let ValueModel::Float(rs, _) = r {
                assert(fo(ls, rs) == flip(fo(rs, ls)));
            }
        },
        ValueModel::Vec(ls) => {
            if let ValueModel::Vec(rs) = r {
                lemma_seq_order_flip(ls, rs, fo);
            }
        },
        ValueModel::Tuple(ls) => {
            if let ValueModel::Tuple(rs) = r {
                lemma_seq_order_flip(ls, rs, fo);
            }
        },
        ValueModel::Repeat(lv, _) => {
            if let ValueModel::Repeat(rv, _) = r {
                law_order_antisymmetric(*lv, *rv, fo);
            }
        },
        _ => {},
    }
}

proof fn lemma_seq_order_flip(l: Seq<ConstantModel>, r: Seq<ConstantModel>, fo: FloatOrderFn)
    requires
        antisymmetric(fo),
    ensures
        seq_order(l, r, fo) == flip(seq_order(r, l, fo)),
    decreases l,
{
    if l.len() > 0 && r.len() > 0 {
        law_order_antisymmetric(l[0].value, r[0].value, fo);
        lemma_seq_order_flip(l.skip(1), r.skip(1), fo);
    }
}

/// Equality of values is symmetric, where float texts that compare equal
/// compare equal the other way round too.
pub proof fn law_eq_symmetric(l: ValueModel, r: ValueModel, fo: FloatOrderFn)
    requires
        symmetric_equal(fo),
    ensures
        value_eq(l, r, fo) == value_eq(r, l, fo),
    decreases l,
{
    match l {
        ValueModel::Float(ls, _) => {
            if let ValueModel::Float(rs, _) = r {
                assert((fo(ls, rs) == Some(Order::Equal)) == (fo(rs, ls) == Some(Order::Equal)));
            }
        },
        ValueModel::Vec(ls) => {
            if let ValueModel::Vec(rs) = r {
                lemma_seq_eq_symmetric(ls, rs, fo);
            }
        },
        ValueModel::Tuple(ls) => {
            if let ValueModel::Tuple(rs) = r {
                lemma_seq_eq_symmetric(ls, rs, fo);
            }
        },
        ValueModel::Repeat(lv, _) => {
            if let ValueModel::Repeat(rv, _) = r {
                law_eq_symmetric(*lv, *rv, fo);
            }
        },
        _ => {},
    }
}

proof fn lemma_seq_eq_symmetric(l: Seq<ConstantModel>, r: Seq<ConstantModel>, fo: FloatOrderFn)
    requires
        symmetric_equal(fo),
    ensures
        seq_eq(l, r, fo) == seq_eq(r, l, fo),
    decreases l,
{
    if l.len() > 0 && r.len() > 0 {
        law_eq_symmetric(l[0].value, r[0].value, fo);
        lemma_seq_eq_symmetric(l.skip(1), r.skip(1), fo);
        assert(constant_eq(l[0], r[0], fo) == constant_eq(r[0], l[0], fo));
    }
}

/// Every value equals itself, where every float text compares equal to itself.
pub proof fn law_eq_reflexive(v: ValueModel, fo: FloatOrderFn)
    requires
        reflexive(fo),
    ensures
        value_eq(v, v, fo),
    decreases v,
{
    match v {
        ValueModel::Float(s, _) => {
            assert(fo(s, s) == Some(Order::Equal));
        },
        ValueModel::Vec(cs) => lemma_seq_eq_reflexive(cs, fo),
        ValueModel::Tuple(cs) => lemma_seq_eq_reflexive(cs, fo),
        ValueModel::Repeat(x, _) => law_eq_reflexive(*x, fo),
        _ => {},
    }
}

proof fn lemma_seq_eq_reflexive(cs: Seq<ConstantModel>, fo: FloatOrderFn)
    requires
        reflexive(fo),
    ensures
        seq_eq(cs, cs, fo),
    decreases cs,
{
    if cs.len() > 0 {
        law_eq_reflexive(cs[0].value, fo);
        lemma_seq_eq_reflexive(cs.skip(1), fo);
        assert(constant_eq(cs[0], cs[0], fo));
    }
}

/// A folded bool with its value flipped.
pub open spec fn negated_bool(f: Folding<ConstantModel>) -> Folding<ConstantModel> {
    match f {
        Folding::Folded(c) => match c.value {
            ValueModel::Bool(b) => Folding::Folded(
                ConstantModel { value: ValueModel::Bool(!b), needed_resolution: c.needed_resolution },
            ),
            _ => f,
        },
        _ => f,
    }
}

/// `l != r` folds to the opposite of `l == r`.
pub proof fn law_ne_negates_eq(l: Expr, r: Expr, fo: FloatOrderFn)
    ensures
        fold(Expr::ExprBinary(BinOp::BiNe, Box::new(l), Box::new(r)), fo) == negated_bool(
            fold(Expr::ExprBinary(BinOp::BiEq, Box::new(l), Box::new(r)), fo),
        ),
{
}

/// `l == r` folds like `r == l`, where float texts compare antisymmetrically.
pub proof fn law_fold_eq_symmetric(l: Expr, r: Expr, fo: FloatOrderFn)
    requires
        antisymmetric(fo),
    ensures
        fold(Expr::ExprBinary(BinOp::BiEq, Box::new(l), Box::new(r)), fo) == fold(
            Expr::ExprBinary(BinOp::BiEq, Box::new(r), Box::new(l)),
            fo,
        ),
{
    assert forall|a: Seq<char>, b: Seq<char>| #[trigger] fo(a, b) == Some(Order::Equal) <==> fo(b, a) == Some(Order::Equal) by {
        assert(fo(a, b) == flip(fo(b, a)));
    }
    if let (Folding::Folded(a), Folding::Folded(b)) = (fold(l, fo), fold(r, fo)) {
        law_eq_symmetric(a.value, b.value, fo);
    }
}

/// `e == e` folds to `true` wherever `e` folds, where float texts equal themselves.
pub proof fn law_fold_eq_reflexive(e: Expr, fo: FloatOrderFn)
    requires
        reflexive(fo),
    ensures
        fold(e, fo) matches Folding::Folded(c) ==> fold(
            Expr::ExprBinary(BinOp::BiEq, Box::new(e), Box::new(e)),
            fo,
        ) == Folding::Folded(
            ConstantModel { value: ValueModel::Bool(true), needed_resolution: c.needed_resolution },
        ),
{
    if let Folding::Folded(c) = fold(e, fo) {
        law_eq_reflexive(c.value, fo);
    }
}

/// `l < r` folds like `r > l`, and `l <= r` like `r >= l`, where float
/// texts compare antisymmetrically.
pub proof fn law_fold_order_swap(l: Expr, r: Expr, fo: FloatOrderFn)
    requires
        antisymmetric(fo),
    ensures
        fold(Expr::ExprBinary(BinOp::BiLt, Box::new(l), Box::new(r)), fo) == fold(
            Expr::ExprBinary(BinOp::BiGt, Box::new(r), Box::new(l)),
            fo,
        ),
        fold(Expr::ExprBinary(BinOp::BiLe, Box::new(l), Box::new(r)), fo) == fold(
            Expr::ExprBinary(BinOp::BiGe, Box::new(r), Box::new(l)),
            fo,
        ),
{
    if let (Folding::Folded(a), Folding::Folded(b)) = (fold(l, fo), fold(r, fo)) {
        law_order_antisymmetric(a.value, b.value, fo);
    }
}

/// `false && e` folds to `false` and `true || e` to `true`, whatever `e` is.
pub proof fn law_short_circuit(e: Expr, fo: FloatOrderFn)
    ensures
        fold(
            Expr::ExprBinary(
                BinOp::BiAnd,
                Box::new(Expr::ExprLit(Lit::LitBool(false))),
                Box::new(e),
            ),
            fo,
        ) == Folding::Folded(ConstantModel { value: ValueModel::Bool(false), needed_resolution: false }),
        fold(
            Expr::ExprBinary(
                BinOp::BiOr,
                Box::new(Expr::ExprLit(Lit::LitBool(true))),
                Box::new(e),
            ),
            fo,
        ) == Folding::Folded(ConstantModel { value: ValueModel::Bool(true), needed_resolution: false }),
{
    assert(fold(Expr::ExprLit(Lit::LitBool(false)), fo) == Folding::Folded(
        ConstantModel { value: ValueModel::Bool(false), needed_resolution: false },
    ));
    assert(fold(Expr::ExprLit(Lit::LitBool(true)), fo) == Folding::Folded(
        ConstantModel { value: ValueModel::Bool(true), needed_resolution: false },
    ));
}

/// The expression names no constant item.
pub open spec fn path_free(e: Expr) -> bool
    decreases e,
{
    match e {
        Expr::ExprParen(x) => path_free(*x),
        Expr::ExprPath(_) => false,
        Expr::ExprBlock(b) => block_path_free(b),
        Expr::ExprIf(c, t, o) => path_free(*c) && block_path_free(t) && match o {
            Some(x) => path_free(*x),
            None => true,
        },
        Expr::ExprLit(_) => true,
        Expr::ExprVec(es) => list_path_free(es@),
        Expr::ExprTup(es) => list_path_free(es@),
        Expr::ExprRepeat(a, b) => path_free(*a) && path_free(*b),
        Expr::ExprUnary(_, x) => path_free(*x),
        Expr::ExprBinary(_, a, b) => path_free(*a) && path_free(*b),
        Expr::ExprOther => true,
    }
}

/// The block names no constant item.
pub open spec fn block_path_free(b: Block) -> bool
    decreases b,
{
    match b.expr {
        Some(x) => path_free(*x),
        None => true,
    }
}

/// No expression of the sequence names a constant item.
pub open spec fn list_path_free(es: Seq<Expr>) -> bool
    decreases es,
{
    es.len() == 0 || (path_free(es[0]) && list_path_free(es.skip(1)))
}

/// A constant folded from an expression that names no constant item did
/// not need resolution.
pub proof fn law_path_free_unresolved(e: Expr, fo: FloatOrderFn)
    requires
        path_free(e),
    ensures
        fold(e, fo) matches Folding::Folded(c) ==> !c.needed_resolution,
    decreases e,
{
    match e {
        Expr::ExprParen(x) => law_path_free_unresolved(*x, fo),
        Expr::ExprBlock(b) => lemma_block_unresolved(b, fo),
        Expr::ExprIf(c, t, o) => {
            law_path_free_unresolved(*c, fo);
            lemma_block_unresolved(t, fo);
            if let Some(x) = o {
                law_path_free_unresolved(*x, fo);
            }
        },
        Expr::ExprVec(es) => lemma_list_unresolved(es@, fo),
        Expr::ExprTup(es) => lemma_list_unresolved(es@, fo),
        Expr::ExprRepeat(a, b) => {
            law_path_free_unresolved(*a, fo);
            law_path_free_unresolved(*b, fo);
        },
        Expr::ExprUnary(_, x) => law_path_free_unresolved(*x, fo),
        Expr::ExprBinary(_, a, b) => {
            law_path_free_unresolved(*a, fo);
            law_path_free_unresolved(*b, fo);
        },
        _ => {},
    }
}

proof fn lemma_block_unresolved(b: Block, fo: FloatOrderFn)
    requires
        block_path_free(b),
    ensures
        fold_block(b, fo) matches Folding::Folded(c) ==> !c.needed_resolution,
    decreases b,
{
    if let Some(x) = b.expr {
        law_path_free_unresolved(*x, fo);
    }
}

proof fn lemma_list_unresolved(es: Seq<Expr>, fo: FloatOrderFn)
    requires
        list_path_free(es),
    ensures
        fold_list(es, fo) matches Folding::Folded(cs) ==> !any_resolved(cs),
    decreases es,
{
    if es.len() > 0 {
        law_path_free_unresolved(es[0], fo);
        lemma_list_unresolved(es.skip(1), fo);
        if let Folding::Folded(cs) = fold_list(es, fo) {
            if let (Folding::Folded(c), Folding::Folded(rest)) = (fold(es[0], fo), fold_list(es.skip(1), fo)) {
                assert(cs =~= seq![c] + rest);
                assert forall|i: int| 0 <= i < cs.len() implies !#[trigger] cs[i].needed_resolution by {
                    if i > 0 {
                        assert(cs[i] == rest[i - 1]);
                    }
                }
            }
        }
    }
}


/// A block with statements does not fold, whatever its trailing expression.
pub proof fn law_block_with_statements(b: Block, fo: FloatOrderFn)
    requires
        b.stmts > 0,
    ensures
        fold(Expr::ExprBlock(b), fo) == Folding::<ConstantModel>::Unfoldable,
{
    assert(fold_block(b, fo) == Folding::<ConstantModel>::Unfoldable);
}

/// An array folds only where every part folds, to the parts' values in
/// order, needing resolution exactly where a part did; where every part
/// folds, so does the array.
pub proof fn law_array_folds_partwise(es: Vec<Expr>, fo: FloatOrderFn)
    ensures
        fold(Expr::ExprVec(es), fo) matches Folding::Folded(c) ==> (c.value matches ValueModel::Vec(cs)
            && cs.len() == es@.len() && (forall|i: int| 0 <= i < es@.len() ==> fold(
            #[trigger] es@[i],
            fo,
        ) == Folding::Folded(cs[i])) && (c.needed_resolution <==> exists|i: int|
            0 <= i < cs.len() && #[trigger] cs[i].needed_resolution)),
        (forall|i: int| 0 <= i < es@.len() ==> #[trigger] fold(es@[i], fo) is Folded) ==> fold(
            Expr::ExprVec(es),
            fo,
        ) is Folded,
{
    lemma_fold_list_partwise(es@, fo);
}

proof fn lemma_fold_list_partwise(es: Seq<Expr>, fo: FloatOrderFn)
    ensures
        fold_list(es, fo) matches Folding::Folded(cs) ==> cs.len() == es.len() && forall|i: int|
            0 <= i < es.len() ==> fold(#[trigger] es[i], fo) == Folding::Folded(cs[i]),
        (forall|i: int| 0 <= i < es.len() ==> #[trigger] fold(es[i], fo) is Folded) ==> fold_list(es, fo) is Folded,
    decreases es.len(),
{
    if es.len() > 0 {
        lemma_fold_list_partwise(es.skip(1), fo);
        if let Folding::Folded(cs) = fold_list(es, fo) {
            if let (Folding::Folded(c), Folding::Folded(rest)) = (fold(es[0], fo), fold_list(es.skip(1), fo)) {
                assert(cs =~= seq![c] + rest);
                assert forall|i: int| 0 <= i < es.len() implies fold(#[trigger] es[i], fo) == Folding::Folded(cs[i]) by {
                    if i > 0 {
                        assert(es[i] == es.skip(1)[i - 1]);
                        assert(cs[i] == rest[i - 1]);
                    }
                }
            }
        }
        if forall|i: int| 0 <= i < es.len() ==> #[trigger] fold(es[i], fo) is Folded {
            assert(fold(es[0], fo) is Folded);
            assert forall|i: int| 0 <= i < es.skip(1).len() implies #[trigger] fold(es.skip(1)[i], fo) is Folded by {
                assert(es.skip(1)[i] == es[i + 1]);
            }
        }
    }
}

/// Bit operations on integers fold only on values that are not negative;
/// where one folds, the result is the operation on those values, and not negative.
pub proof fn law_int_bits_exact(op: BitOp, l: u64, lty: LitIntType, r: u64, rty: LitIntType, v: u64, ty: LitIntType)
    requires
        bit_value(op, ValueModel::Int(l, lty), ValueModel::Int(r, rty)) == Folding::Folded(ValueModel::Int(v, ty)),
    ensures
        int_value(l, lty) == l,
        int_value(r, rty) == r,
        int_value(v, ty) == v,
        bits_value(op, l, r) == Some(v),
{
    lemma_unify_sign(lty, rty, Sign::Plus);
}

/// Values of different kinds are never equal.
pub proof fn law_eq_distinct_variants(l: ValueModel, r: ValueModel, fo: FloatOrderFn)
    requires
        !same_kind(l, r),
    ensures
        !value_eq(l, r, fo),
{
}

/// Whether two values are of the same kind.
pub open spec fn same_kind(l: ValueModel, r: ValueModel) -> bool {
    match (l, r) {
        (ValueModel::Str(..), ValueModel::Str(..)) => true,
        (ValueModel::Binary(..), ValueModel::Binary(..)) => true,
        (ValueModel::Byte(..), ValueModel::Byte(..)) => true,
        (ValueModel::Char(..), ValueModel::Char(..)) => true,
        (ValueModel::Int(..), ValueModel::Int(..)) => true,
        (ValueModel::Float(..), ValueModel::Float(..)) => true,
        (ValueModel::Bool(..), ValueModel::Bool(..)) => true,
        (ValueModel::Vec(..), ValueModel::Vec(..)) => true,
        (ValueModel::Repeat(..), ValueModel::Repeat(..)) => true,
        (ValueModel::Tuple(..), ValueModel::Tuple(..)) => true,
        _ => false,
    }
}

/// The value holds no array or tuple, at any depth.
pub open spec fn no_aggregates(v: ValueModel) -> bool
    decreases v,
{
    match v {
        ValueModel::Vec(_) | ValueModel::Tuple(_) => false,
        ValueModel::Repeat(x, _) => no_aggregates(*x),
        _ => true,
    }
}

proof fn lemma_bytes_order_equal(l: Seq<u8>, r: Seq<u8>)
    requires
        bytes_order(l, r) == Order::Equal,
    ensures
        l == r,
    decreases l.len(),
{
    if l.len() > 0 && r.len() > 0 {
        lemma_bytes_order_equal(l.drop_first(), r.drop_first());
        assert(l =~= seq![l[0]] + l.drop_first());
        assert(r =~= seq![r[0]] + r.drop_first());
    } else {
        assert(l =~= r);
    }
}

/// Values that compare `Equal` are equal, where they hold no array or tuple
/// (whose order ignores the parts' resolution flags).
pub proof fn law_order_equal_implies_eq(l: ValueModel, r: ValueModel, fo: FloatOrderFn)
    requires
        no_aggregates(l),
        value_order(l, r, fo) == Some(Order::Equal),
    ensures
        value_eq(l, r, fo),
    decreases l,
{
    match l {
        ValueModel::Str(ls, _) => {
            if let ValueModel::Str(rs, _) = r {
                lemma_bytes_order_equal(encode_utf8(ls), encode_utf8(rs));
                encode_utf8_decode_utf8(ls);
                encode_utf8_decode_utf8(rs);
            }
        },
        ValueModel::Repeat(lv, _) => {
            if let ValueModel::Repeat(rv, _) = r {
                law_order_equal_implies_eq(*lv, *rv, fo);
            }
        },
        _ => {},
    }
}

/// Parentheses do not change what an expression folds to.
pub proof fn law_paren_transparent(e: Expr, fo: FloatOrderFn)
    ensures
        fold(Expr::ExprParen(Box::new(e)), fo) == fold(e, fo),
{
}

/// Constants are ordered by their values alone: the order of two constants
/// is that of their variants, whatever their resolution flags.
pub proof fn law_constant_order_ignores_resolution(a: Constant, b: Constant, ra: bool, rb: bool, fo: FloatOrderFn)
    ensures
        value_order(a@.value, b@.value, fo) == value_order(a.constant@, b.constant@, fo),
        value_order(
            Constant { constant: a.constant, needed_resolution: ra }@.value,
            Constant { constant: b.constant, needed_resolution: rb }@.value,
            fo,
        ) == value_order(a@.value, b@.value, fo),
{
}

/// `l && r` and `l || r` on two folded bools fold to the bools' conjunction
/// and disjunction; the result needed resolution if an operand that was
/// read did.
pub proof fn law_and_or_of_bools(
    l: Expr,
    r: Expr,
    a: ConstantModel,
    c: ConstantModel,
    x: bool,
    y: bool,
    fo: FloatOrderFn,
)
    requires
        fold(l, fo) == Folding::Folded(a),
        a.value == ValueModel::Bool(x),
        fold(r, fo) == Folding::Folded(c),
        c.value == ValueModel::Bool(y),
    ensures
        fold(Expr::ExprBinary(BinOp::BiAnd, Box::new(l), Box::new(r)), fo) == Folding::Folded(
            ConstantModel {
                value: ValueModel::Bool(x && y),
                needed_resolution: a.needed_resolution || (x && c.needed_resolution),
            },
        ),
        fold(Expr::ExprBinary(BinOp::BiOr, Box::new(l), Box::new(r)), fo) == Folding::Folded(
            ConstantModel {
                value: ValueModel::Bool(x || y),
                needed_resolution: a.needed_resolution || (!x && c.needed_resolution),
            },
        ),
{
}

/// A right operand of `&&` or `||` that folds to something other than a
/// bool leaves the expression unfolded, unless the left operand decides.
pub proof fn law_and_or_non_bool_right(l: Expr, r: Expr, a: ConstantModel, c: ConstantModel, x: bool, fo: FloatOrderFn)
    requires
        fold(l, fo) == Folding::Folded(a),
        a.value == ValueModel::Bool(x),
        fold(r, fo) == Folding::Folded(c),
        !(c.value is Bool),
    ensures
        x ==> fold(Expr::ExprBinary(BinOp::BiAnd, Box::new(l), Box::new(r)), fo)
            == Folding::<ConstantModel>::Unfoldable,
        !x ==> fold(Expr::ExprBinary(BinOp::BiOr, Box::new(l), Box::new(r)), fo)
            == Folding::<ConstantModel>::Unfoldable,
{
}

/// Byte strings are equal exactly when their bytes are.
pub proof fn law_bytes_eq_exact(l: Seq<u8>, r: Seq<u8>, fo: FloatOrderFn)
    ensures
        value_eq(ValueModel::Binary(l), ValueModel::Binary(r), fo) <==> l == r,
{
}

/// Strings, bytes, chars and bools are equal exactly when they are the
/// same value (a string also in the same style).
pub proof fn law_scalar_eq_exact(l: ValueModel, r: ValueModel, fo: FloatOrderFn)
    requires
        l is Str || l is Binary || l is Byte || l is Char || l is Bool,
    ensures
        value_eq(l, r, fo) <==> l == r,
{
}

/// `l == r` and `l != r` on two folded byte strings fold to whether the
/// bytes are the same.
pub proof fn law_fold_eq_bytes(
    l: Expr,
    r: Expr,
    a: ConstantModel,
    c: ConstantModel,
    p: Seq<u8>,
    q: Seq<u8>,
    fo: FloatOrderFn,
)
    requires
        fold(l, fo) == Folding::Folded(a),
        a.value == ValueModel::Binary(p),
        fold(r, fo) == Folding::Folded(c),
        c.value == ValueModel::Binary(q),
    ensures
        fold(Expr::ExprBinary(BinOp::BiEq, Box::new(l), Box::new(r)), fo) == Folding::Folded(
            ConstantModel {
                value: ValueModel::Bool(p == q),
                needed_resolution: a.needed_resolution || c.needed_resolution,
            },
        ),
        fold(Expr::ExprBinary(BinOp::BiNe, Box::new(l), Box::new(r)), fo) == Folding::Folded(
            ConstantModel {
                value: ValueModel::Bool(p != q),
                needed_resolution: a.needed_resolution || c.needed_resolution,
            },
        ),
{
    law_bytes_eq_exact(p, q, fo);
}

/// A tuple folds only where every part folds, to the parts' values in
/// order, needing resolution exactly where a part did; where every part
/// folds, so does the tuple.
pub proof fn law_tuple_folds_partwise(es: Vec<Expr>, fo: FloatOrderFn)
    ensures
        fold(Expr::ExprTup(es), fo) matches Folding::Folded(c) ==> (c.value matches ValueModel::Tuple(cs)
            && cs.len() == es@.len() && (forall|i: int| 0 <= i < es@.len() ==> fold(
            #[trigger] es@[i],
            fo,
        ) == Folding::Folded(cs[i])) && (c.needed_resolution <==> exists|i: int|
            0 <= i < cs.len() && #[trigger] cs[i].needed_resolution)),
        (forall|i: int| 0 <= i < es@.len() ==> #[trigger] fold(es@[i], fo) is Folded) ==> fold(
            Expr::ExprTup(es),
            fo,
        ) is Folded,
{
    lemma_fold_list_partwise(es@, fo);
}

/// Chars are ordered by their code points.
pub proof fn law_char_order_by_code_point(l: char, r: char, fo: FloatOrderFn)
    ensures
        value_order(ValueModel::Char(l), ValueModel::Char(r), fo) matches Some(o)
            && (o == Order::Less <==> (l as int) < (r as int))
            && (o == Order::Equal <==> l == r)
            && (o == Order::Greater <==> (l as int) > (r as int)),
{
}

/// Bytes are ordered by their numeric values.
pub proof fn law_byte_order_numeric(l: u8, r: u8, fo: FloatOrderFn)
    ensures
        value_order(ValueModel::Byte(l), ValueModel::Byte(r), fo) matches Some(o)
            && (o == Order::Less <==> l < r)
            && (o == Order::Equal <==> l == r)
            && (o == Order::Greater <==> l > r),
{
}

/// `false` is ordered before `true`.
pub proof fn law_bool_order(l: bool, r: bool, fo: FloatOrderFn)
    ensures
        value_order(ValueModel::Bool(l), ValueModel::Bool(r), fo) matches Some(o)
            && (o == Order::Less <==> !l && r)
            && (o == Order::Equal <==> l == r)
            && (o == Order::Greater <==> l && !r),
{
}

/// What the binary operation `l op r` folds to.
pub open spec fn folded_binary(op: BinOp, l: Expr, r: Expr, fo: FloatOrderFn) -> Folding<ConstantModel> {
    fold(Expr::ExprBinary(op, Box::new(l), Box::new(r)), fo)
}

/// A folded bool whose resolution flag is that of two operands.
pub open spec fn folded_bool(b: bool, a: ConstantModel, c: ConstantModel) -> Folding<ConstantModel> {
    Folding::Folded(
        ConstantModel { value: ValueModel::Bool(b), needed_resolution: a.needed_resolution || c.needed_resolution },
    )
}

/// `<`, `<=`, `>=` and `>` on two folded chars compare their code points.
pub proof fn law_fold_compare_chars(l: Expr, r: Expr, a: ConstantModel, c: ConstantModel, x: char, y: char, fo: FloatOrderFn)
    requires
        fold(l, fo) == Folding::Folded(a),
        a.value == ValueModel::Char(x),
        fold(r, fo) == Folding::Folded(c),
        c.value == ValueModel::Char(y),
    ensures
        folded_binary(BinOp::BiLt, l, r, fo) == folded_bool((x as int) < (y as int), a, c),
        folded_binary(BinOp::BiLe, l, r, fo) == folded_bool((x as int) <= (y as int), a, c),
        folded_binary(BinOp::BiGe, l, r, fo) == folded_bool((x as int) >= (y as int), a, c),
        folded_binary(BinOp::BiGt, l, r, fo) == folded_bool((x as int) > (y as int), a, c),
{
}

/// `<`, `<=`, `>=` and `>` on two folded bytes compare their values.
pub proof fn law_fold_compare_bytes(l: Expr, r: Expr, a: ConstantModel, c: ConstantModel, x: u8, y: u8, fo: FloatOrderFn)
    requires
        fold(l, fo) == Folding::Folded(a),
        a.value == ValueModel::Byte(x),
        fold(r, fo) == Folding::Folded(c),
        c.value == ValueModel::Byte(y),
    ensures
        folded_binary(BinOp::BiLt, l, r, fo) == folded_bool(x < y, a, c),
        folded_binary(BinOp::BiLe, l, r, fo) == folded_bool(x <= y, a, c),
        folded_binary(BinOp::BiGe, l, r, fo) == folded_bool(x >= y, a, c),
        folded_binary(BinOp::BiGt, l, r, fo) == folded_bool(x > y, a, c),
{
}

/// `<`, `<=`, `>=` and `>` on two folded bools put `false` before `true`.
pub proof fn law_fold_compare_bools(l: Expr, r: Expr, a: ConstantModel, c: ConstantModel, x: bool, y: bool, fo: FloatOrderFn)
    requires
        fold(l, fo) == Folding::Folded(a),
        a.value == ValueModel::Bool(x),
        fold(r, fo) == Folding::Folded(c),
        c.value == ValueModel::Bool(y),
    ensures
        folded_binary(BinOp::BiLt, l, r, fo) == folded_bool(!x && y, a, c),
        folded_binary(BinOp::BiLe, l, r, fo) == folded_bool(!x || y, a, c),
        folded_binary(BinOp::BiGe, l, r, fo) == folded_bool(x || !y, a, c),
        folded_binary(BinOp::BiGt, l, r, fo) == folded_bool(x && !y, a, c),
{
}

/// `<`, `<=`, `>=` and `>` on two folded integers compare their numeric
/// values, whatever their types.
pub proof fn law_fold_compare_ints(
    l: Expr,
    r: Expr,
    a: ConstantModel,
    c: ConstantModel,
    x: u64,
    xty: LitIntType,
    y: u64,
    yty: LitIntType,
    fo: FloatOrderFn,
)
    requires
        fold(l, fo) == Folding::Folded(a),
        a.value == ValueModel::Int(x, xty),
        fold(r, fo) == Folding::Folded(c),
        c.value == ValueModel::Int(y, yty),
    ensures
        folded_binary(BinOp::BiLt, l, r, fo) == folded_bool(int_value(x, xty) < int_value(y, yty), a, c),
        folded_binary(BinOp::BiLe, l, r, fo) == folded_bool(int_value(x, xty) <= int_value(y, yty), a, c),
        folded_binary(BinOp::BiGe, l, r, fo) == folded_bool(int_value(x, xty) >= int_value(y, yty), a, c),
        folded_binary(BinOp::BiGt, l, r, fo) == folded_bool(int_value(x, xty) > int_value(y, yty), a, c),
        folded_binary(BinOp::BiEq, l, r, fo) == folded_bool(int_value(x, xty) == int_value(y, yty), a, c),
        folded_binary(BinOp::BiNe, l, r, fo) == folded_bool(int_value(x, xty) != int_value(y, yty), a, c),
{
}

/// Negating an integer of a signed or unsuffixed type negates its numeric
/// value and keeps its magnitude and its type; an unsigned one has no negation.
pub proof fn law_negate_int(v: u64, ty: LitIntType)
    ensures
        negate_value(ValueModel::Int(v, ty)) is None <==> ty is UnsignedIntLit,
        negate_value(ValueModel::Int(v, ty)) matches Some(n) ==> (n matches ValueModel::Int(w, wty)
            && w == v
            && int_value(w, wty) == -int_value(v, ty)
            && (ty matches LitIntType::SignedIntLit(ity, _) ==> (wty matches LitIntType::SignedIntLit(
            jty,
            _,
        ) && jty == ity))
            && (ty is UnsuffixedIntLit ==> wty is UnsuffixedIntLit)),
{
}

/// `-e` on an integer that `e` folds to: the negated value where the type
/// is signed or unsuffixed, with the operand's resolution flag; no value
/// where it is unsigned.
pub proof fn law_fold_negate_int(e: Expr, a: ConstantModel, v: u64, ty: LitIntType, fo: FloatOrderFn)
    requires
        fold(e, fo) == Folding::Folded(a),
        a.value == ValueModel::Int(v, ty),
    ensures
        ty is UnsignedIntLit ==> fold(Expr::ExprUnary(UnOp::UnNeg, Box::new(e)), fo)
            == Folding::<ConstantModel>::Unfoldable,
        !(ty is UnsignedIntLit) ==> (fold(Expr::ExprUnary(UnOp::UnNeg, Box::new(e)), fo) matches Folding::Folded(n)
            && (n.needed_resolution == a.needed_resolution
            && (n.value matches ValueModel::Int(w, wty)
            && w == v
            && int_value(w, wty) == -int_value(v, ty)))),
{
    law_negate_int(v, ty);
}

/// `!e` on a bool that `e` folds to is its negation, with the operand's
/// resolution flag.
pub proof fn law_fold_not_bool(e: Expr, a: ConstantModel, x: bool, fo: FloatOrderFn)
    requires
        fold(e, fo) == Folding::Folded(a),
        a.value == ValueModel::Bool(x),
    ensures
        fold(Expr::ExprUnary(UnOp::UnNot, Box::new(e)), fo) == Folding::Folded(
            ConstantModel { value: ValueModel::Bool(!x), needed_resolution: a.needed_resolution },
        ),
{
}

/// `!` has no value on an unsuffixed integer, on a `usize`, and on a
/// signed integer of magnitude `u64::MAX` with a plus sign; on every other
/// signed integer it has one, of the same type.
pub proof fn law_not_defined(v: u64, ty: LitIntType)
    ensures
        ty is UnsuffixedIntLit ==> not_value(ValueModel::Int(v, ty)) is None,
        ty == LitIntType::UnsignedIntLit(UintTy::TyUs) ==> not_value(ValueModel::Int(v, ty)) is None,
        ty matches LitIntType::SignedIntLit(ity, s) ==> ((not_value(ValueModel::Int(v, ty)) is None
            <==> (s == Sign::Plus && v == u64::MAX))
            && (not_value(ValueModel::Int(v, ty)) matches Some(n) ==> (n matches ValueModel::Int(
            _,
            LitIntType::SignedIntLit(jty, _),
        ) && jty == ity))),
{
}

/// Integer types that hold negative numbers and fit together: the same
/// signed type, or a signed or unsuffixed one beside an unsuffixed one.
pub open spec fn signed_types_fit(l: LitIntType, r: LitIntType) -> bool {
    match (l, r) {
        (LitIntType::SignedIntLit(a, _), LitIntType::SignedIntLit(b, _)) => a == b,
        (LitIntType::SignedIntLit(_, _), LitIntType::UnsuffixedIntLit(_)) => true,
        (LitIntType::UnsuffixedIntLit(_), LitIntType::SignedIntLit(_, _)) => true,
        (LitIntType::UnsuffixedIntLit(_), LitIntType::UnsuffixedIntLit(_)) => true,
        _ => false,
    }
}

/// On integers of types that fit together and hold negative numbers, `l + r`
/// folds unless the magnitudes of two operands of one sign overflow `u64`;
/// `l - r` folds where the signs are equal and the right magnitude is not
/// the larger, or where they differ and the magnitudes' sum fits `u64`.
pub proof fn law_signed_arith_defined(l: u64, lty: LitIntType, r: u64, rty: LitIntType)
    requires
        signed_types_fit(lty, rty),
    ensures
        add_value(ValueModel::Int(l, lty), ValueModel::Int(r, rty)) is Some <==> (spec_is_negative(lty)
            == spec_is_negative(rty) ==> l + r <= u64::MAX),
        sub_value(ValueModel::Int(l, lty), ValueModel::Int(r, rty)) is Some <==> (if spec_is_negative(lty)
            == spec_is_negative(rty) {
            r <= l
        } else {
            l + r <= u64::MAX
        }),
{
}

/// On two integers of one unsigned type, `l + r` folds where the sum fits
/// `u64` and `l - r` where `r` is not larger than `l`.
pub proof fn law_unsigned_arith_defined(l: u64, r: u64, ity: UintTy)
    ensures
        add_value(
            ValueModel::Int(l, LitIntType::UnsignedIntLit(ity)),
            ValueModel::Int(r, LitIntType::UnsignedIntLit(ity)),
        ) == (if l + r <= u64::MAX {
            Some(ValueModel::Int((l + r) as u64, LitIntType::UnsignedIntLit(ity)))
        } else {
            None
        }),
        sub_value(
            ValueModel::Int(l, LitIntType::UnsignedIntLit(ity)),
            ValueModel::Int(r, LitIntType::UnsignedIntLit(ity)),
        ) == (if r <= l {
            Some(ValueModel::Int((l - r) as u64, LitIntType::UnsignedIntLit(ity)))
        } else {
            None
        }),
{
}

/// `&`, `|`, `^`, `<<` and `>>` on two folded bools: conjunction,
/// disjunction, inequality, the left bool, and the left bool without the right.
pub proof fn law_fold_bits_bools(l: Expr, r: Expr, a: ConstantModel, c: ConstantModel, x: bool, y: bool, fo: FloatOrderFn)
    requires
        fold(l, fo) == Folding::Folded(a),
        a.value == ValueModel::Bool(x),
        fold(r, fo) == Folding::Folded(c),
        c.value == ValueModel::Bool(y),
    ensures
        folded_binary(BinOp::BiBitAnd, l, r, fo) == folded_bool(x && y, a, c),
        folded_binary(BinOp::BiBitOr, l, r, fo) == folded_bool(x || y, a, c),
        folded_binary(BinOp::BiBitXor, l, r, fo) == folded_bool(x != y, a, c),
        folded_binary(BinOp::BiShl, l, r, fo) == folded_bool(x, a, c),
        folded_binary(BinOp::BiShr, l, r, fo) == folded_bool(x && !y, a, c),
{
    assert((0u64 & 0u64) == 0 && (0u64 & 1u64) == 0 && (1u64 & 0u64) == 0 && (1u64 & 1u64) == 1) by (bit_vector);
    assert((0u64 | 0u64) == 0 && (0u64 | 1u64) == 1 && (1u64 | 0u64) == 1 && (1u64 | 1u64) == 1) by (bit_vector);
    assert((0u64 ^ 0u64) == 0 && (0u64 ^ 1u64) == 1 && (1u64 ^ 0u64) == 1 && (1u64 ^ 1u64) == 0) by (bit_vector);
    assert((0u64 << 0u64) == 0 && (0u64 << 1u64) == 0 && (1u64 << 0u64) == 1 && (1u64 << 1u64) == 2) by (bit_vector);
    assert((0u64 >> 0u64) == 0 && (0u64 >> 1u64) == 0 && (1u64 >> 0u64) == 1 && (1u64 >> 1u64) == 0) by (bit_vector);
}

/// A folded byte.
pub open spec fn folded_byte(b: u8, a: ConstantModel, c: ConstantModel) -> Folding<ConstantModel> {
    Folding::Folded(
        ConstantModel { value: ValueModel::Byte(b), needed_resolution: a.needed_resolution || c.needed_resolution },
    )
}

/// `&`, `|` and `^` on two folded bytes are the bitwise operations on them;
/// `>>` shifts right, and both shifts panic by 64 or more.
pub proof fn law_fold_bits_bytes(l: Expr, r: Expr, a: ConstantModel, c: ConstantModel, x: u8, y: u8, fo: FloatOrderFn)
    requires
        fold(l, fo) == Folding::Folded(a),
        a.value == ValueModel::Byte(x),
        fold(r, fo) == Folding::Folded(c),
        c.value == ValueModel::Byte(y),
    ensures
        folded_binary(BinOp::BiBitAnd, l, r, fo) == folded_byte(x & y, a, c),
        folded_binary(BinOp::BiBitOr, l, r, fo) == folded_byte(x | y, a, c),
        folded_binary(BinOp::BiBitXor, l, r, fo) == folded_byte(x ^ y, a, c),
        y < 64 ==> folded_binary(BinOp::BiShr, l, r, fo) == folded_byte(x >> y, a, c),
        y >= 64 ==> folded_binary(BinOp::BiShl, l, r, fo) is Panics && folded_binary(BinOp::BiShr, l, r, fo) is Panics,
{
    assert(((x as u64) & (y as u64)) as u8 == x & y) by (bit_vector);
    assert(((x as u64) | (y as u64)) as u8 == x | y) by (bit_vector);
    assert(((x as u64) ^ (y as u64)) as u8 == x ^ y) by (bit_vector);
    if y < 64 {
        assert(((x as u64) >> (y as u64)) as u8 == x >> y) by (bit_vector)
            requires
                y < 64,
        ;
    }
}

/// A folded integer of a given type.
pub open spec fn folded_int(v: u64, ty: LitIntType, a: ConstantModel, c: ConstantModel) -> Folding<ConstantModel> {
    Folding::Folded(
        ConstantModel { value: ValueModel::Int(v, ty), needed_resolution: a.needed_resolution || c.needed_resolution },
    )
}

/// Bit operations on two folded integers that are not negative and whose
/// types fit together are the operations on their values, in the common
/// type; shifts by 64 or more panic. A negative operand leaves them unfolded.
pub proof fn law_fold_bits_ints(
    l: Expr,
    r: Expr,
    a: ConstantModel,
    c: ConstantModel,
    x: u64,
    xty: LitIntType,
    y: u64,
    yty: LitIntType,
    ty: LitIntType,
    fo: FloatOrderFn,
)
    requires
        fold(l, fo) == Folding::Folded(a),
        a.value == ValueModel::Int(x, xty),
        fold(r, fo) == Folding::Folded(c),
        c.value == ValueModel::Int(y, yty),
        int_value(x, xty) >= 0,
        int_value(y, yty) >= 0,
        spec_unify(xty, yty, Sign::Plus) == Some(ty),
    ensures
        folded_binary(BinOp::BiBitAnd, l, r, fo) == folded_int(x & y, ty, a, c),
        folded_binary(BinOp::BiBitOr, l, r, fo) == folded_int(x | y, ty, a, c),
        folded_binary(BinOp::BiBitXor, l, r, fo) == folded_int(x ^ y, ty, a, c),
        y < 64 ==> folded_binary(BinOp::BiShl, l, r, fo) == folded_int(x << y, ty, a, c),
        y < 64 ==> folded_binary(BinOp::BiShr, l, r, fo) == folded_int(x >> y, ty, a, c),
        y >= 64 ==> folded_binary(BinOp::BiShl, l, r, fo) is Panics && folded_binary(BinOp::BiShr, l, r, fo) is Panics,
{
}

/// A bit operation with a negative integer operand does not fold.
pub proof fn law_fold_bits_negative(op: BinOp, l: Expr, r: Expr, a: ConstantModel, c: ConstantModel, x: u64, xty: LitIntType, y: u64, yty: LitIntType, fo: FloatOrderFn)
    requires
        op == BinOp::BiBitAnd || op == BinOp::BiBitOr || op == BinOp::BiBitXor || op == BinOp::BiShl || op == BinOp::BiShr,
        fold(l, fo) == Folding::Folded(a),
        a.value == ValueModel::Int(x, xty),
        fold(r, fo) == Folding::Folded(c),
        c.value == ValueModel::Int(y, yty),
        int_value(x, xty) < 0 || int_value(y, yty) < 0,
    ensures
        folded_binary(op, l, r, fo) == Folding::<ConstantModel>::Unfoldable,
{
}

/// An `if` whose condition folds to a bool folds like the branch it picks,
/// needing resolution if the condition or the branch did; an `if` without
/// `else` whose condition is false does not fold.
pub proof fn law_fold_if(cond: Expr, then: Block, otherwise: Option<Box<Expr>>, a: ConstantModel, b: bool, fo: FloatOrderFn)
    requires
        fold(cond, fo) == Folding::Folded(a),
        a.value == ValueModel::Bool(b),
    ensures
        ({
            let taken = if b {
                fold_block(then, fo)
            } else {
                match otherwise {
                    Some(x) => fold(*x, fo),
                    None => Folding::Unfoldable,
                }
            };
            let whole = fold(Expr::ExprIf(Box::new(cond), then, otherwise), fo);
            &&& taken is Unfoldable ==> whole is Unfoldable
            &&& taken is Panics ==> whole is Panics
            &&& taken matches Folding::Folded(t) ==> whole == Folding::Folded(
                ConstantModel { value: t.value, needed_resolution: a.needed_resolution || t.needed_resolution },
            )
        }),
{
}

/// A path to a constant item folds to the item's value, marked as needing
/// resolution; a path to anything else does not fold.
pub proof fn law_fold_path(def: Option<Box<Expr>>, fo: FloatOrderFn)
    ensures
        def is None ==> fold(Expr::ExprPath(def), fo) is Unfoldable,
        def matches Some(body) ==> (fold(*body, fo) matches Folding::Folded(c) ==> fold(
            Expr::ExprPath(def),
            fo,
        ) == Folding::Folded(ConstantModel { value: c.value, needed_resolution: true })),
        def matches Some(body) ==> (fold(*body, fo) is Unfoldable ==> fold(Expr::ExprPath(def), fo) is Unfoldable),
{
}

/// `[v; n]` with a value that folds and a count that folds to an integer
/// that is not negative is that value repeated `n` times; a negative count,
/// or one that is not an integer, panics.
pub proof fn law_fold_repeat(v: Expr, n: Expr, a: ConstantModel, c: ConstantModel, k: u64, kty: LitIntType, fo: FloatOrderFn)
    requires
        fold(v, fo) == Folding::Folded(a),
        fold(n, fo) == Folding::Folded(c),
    ensures
        c.value == ValueModel::Int(k, kty) && int_value(k, kty) >= 0 ==> fold(
            Expr::ExprRepeat(Box::new(v), Box::new(n)),
            fo,
        ) == Folding::Folded(
            ConstantModel {
                value: ValueModel::Repeat(Box::new(a.value), k as usize),
                needed_resolution: a.needed_resolution || c.needed_resolution,
            },
        ),
        c.value == ValueModel::Int(k, kty) && int_value(k, kty) < 0 ==> fold(
            Expr::ExprRepeat(Box::new(v), Box::new(n)),
            fo,
        ) is Panics,
        !(c.value is Int) ==> fold(Expr::ExprRepeat(Box::new(v), Box::new(n)), fo) is Panics,
{
}

proof fn lemma_seq_eq_pointwise(l: Seq<ConstantModel>, r: Seq<ConstantModel>, fo: FloatOrderFn)
    ensures
        seq_eq(l, r, fo) <==> (l.len() == r.len() && forall|i: int| 0 <= i < l.len() ==> value_eq(
            #[trigger] l[i].value,
            r[i].value,
            fo,
        ) && l[i].needed_resolution == r[i].needed_resolution),
    decreases l.len(),
{
    if l.len() > 0 && r.len() > 0 {
        lemma_seq_eq_pointwise(l.skip(1), r.skip(1), fo);
        if l.len() == r.len() && forall|i: int| 0 <= i < l.len() ==> value_eq(
            #[trigger] l[i].value,
            r[i].value,
            fo,
        ) && l[i].needed_resolution == r[i].needed_resolution {
            assert forall|i: int| 0 <= i < l.skip(1).len() implies value_eq(
                #[trigger] l.skip(1)[i].value,
                r.skip(1)[i].value,
                fo,
            ) && l.skip(1)[i].needed_resolution == r.skip(1)[i].needed_resolution by {
                assert(l.skip(1)[i] == l[i + 1]);
                assert(r.skip(1)[i] == r[i + 1]);
            }
            assert(value_eq(l[0].value, r[0].value, fo) && l[0].needed_resolution == r[0].needed_resolution);
            assert(constant_eq(l[0], r[0], fo));
            assert(l.skip(1).len() == r.skip(1).len());
            assert(seq_eq(l.skip(1), r.skip(1), fo));
            assert(seq_eq(l, r, fo));
        }
        if seq_eq(l, r, fo) {
            assert(constant_eq(l[0], r[0], fo));
            assert(seq_eq(l.skip(1), r.skip(1), fo));
            assert(l.skip(1).len() == r.skip(1).len());
            assert forall|i: int| 0 <= i < l.len() implies value_eq(
                #[trigger] l[i].value,
                r[i].value,
                fo,
            ) && l[i].needed_resolution == r[i].needed_resolution by {
                if i > 0 {
                    assert(l.skip(1)[i - 1] == l[i]);
                    assert(r.skip(1)[i - 1] == r[i]);
                    assert(value_eq(l.skip(1)[i - 1].value, r.skip(1)[i - 1].value, fo));
                }
            }
        }
    }
}

/// Two arrays, or two tuples, are equal exactly when they have the same
/// length and their parts are equal one by one, resolution flags included.
pub proof fn law_aggregate_eq_pointwise(l: Seq<ConstantModel>, r: Seq<ConstantModel>, fo: FloatOrderFn)
    ensures
        value_eq(ValueModel::Vec(l), ValueModel::Vec(r), fo) <==> (l.len() == r.len() && forall|i: int|
            0 <= i < l.len() ==> value_eq(#[trigger] l[i].value, r[i].value, fo)
                && l[i].needed_resolution == r[i].needed_resolution),
        value_eq(ValueModel::Tuple(l), ValueModel::Tuple(r), fo) <==> (l.len() == r.len() && forall|i: int|
            0 <= i < l.len() ==> value_eq(#[trigger] l[i].value, r[i].value, fo)
                && l[i].needed_resolution == r[i].needed_resolution),
        !value_eq(ValueModel::Vec(l), ValueModel::Tuple(r), fo),
{
    lemma_seq_eq_pointwise(l, r, fo);
}

proof fn lemma_seq_order_at(l: Seq<ConstantModel>, r: Seq<ConstantModel>, k: int, fo: FloatOrderFn)
    requires
        0 <= k <= l.len(),
        k <= r.len(),
        forall|i: int| 0 <= i < k ==> value_order(#[trigger] l[i].value, r[i].value, fo) == Some(Order::Equal),
    ensures
        k < l.len() && k < r.len() && value_order(l[k].value, r[k].value, fo) != Some(Order::Equal)
            ==> seq_order(l, r, fo) == value_order(l[k].value, r[k].value, fo),
        k == l.len() && k < r.len() ==> seq_order(l, r, fo) == Some(Order::Less),
        k == l.len() && k == r.len() ==> seq_order(l, r, fo) == Some(Order::Equal),
        k < l.len() && k == r.len() ==> seq_order(l, r, fo) == Some(Order::Greater),
    decreases k,
{
    if k > 0 {
        assert(value_order(l[0].value, r[0].value, fo) == Some(Order::Equal));
        assert forall|i: int| 0 <= i < k - 1 implies value_order(
            #[trigger] l.skip(1)[i].value,
            r.skip(1)[i].value,
            fo,
        ) == Some(Order::Equal) by {
            assert(l.skip(1)[i] == l[i + 1]);
            assert(r.skip(1)[i] == r[i + 1]);
        }
        lemma_seq_order_at(l.skip(1), r.skip(1), k - 1, fo);
        if k < l.len() && k < r.len() {
            assert(l.skip(1)[k - 1] == l[k]);
            assert(r.skip(1)[k - 1] == r[k]);
        }
    }
}

/// Arrays, and tuples, are ordered lexicographically: where the first `k`
/// parts compare equal, the first part that does not decides; where one
/// runs out first, the shorter comes first.
pub proof fn law_aggregate_order_lexicographic(l: Seq<ConstantModel>, r: Seq<ConstantModel>, k: int, fo: FloatOrderFn)
    requires
        0 <= k <= l.len(),
        k <= r.len(),
        forall|i: int| 0 <= i < k ==> value_order(#[trigger] l[i].value, r[i].value, fo) == Some(Order::Equal),
    ensures
        k < l.len() && k < r.len() && value_order(l[k].value, r[k].value, fo) != Some(Order::Equal) ==> (
            value_order(ValueModel::Vec(l), ValueModel::Vec(r), fo) == value_order(l[k].value, r[k].value, fo)
            && value_order(ValueModel::Tuple(l), ValueModel::Tuple(r), fo) == value_order(l[k].value, r[k].value, fo)),
        k == l.len() && k < r.len() ==> value_order(ValueModel::Vec(l), ValueModel::Vec(r), fo) == Some(Order::Less)
            && value_order(ValueModel::Tuple(l), ValueModel::Tuple(r), fo) == Some(Order::Less),
        k == l.len() && k == r.len() ==> value_order(ValueModel::Vec(l), ValueModel::Vec(r), fo) == Some(Order::Equal)
            && value_order(ValueModel::Tuple(l), ValueModel::Tuple(r), fo) == Some(Order::Equal),
        k < l.len() && k == r.len() ==> value_order(ValueModel::Vec(l), ValueModel::Vec(r), fo) == Some(Order::Greater)
            && value_order(ValueModel::Tuple(l), ValueModel::Tuple(r), fo) == Some(Order::Greater),
{
    lemma_seq_order_at(l, r, k, fo);
}

/// Floats of two different fixed widths neither compare nor are equal;
/// otherwise they compare, and are equal, as the float order says of their texts.
pub proof fn law_float_compare(ls: Seq<char>, lw: FloatWidth, rs: Seq<char>, rw: FloatWidth, fo: FloatOrderFn)
    ensures
        lw != FloatWidth::FwAny && rw != FloatWidth::FwAny && lw != rw ==> value_order(
            ValueModel::Float(ls, lw),
            ValueModel::Float(rs, rw),
            fo,
        ) is None && !value_eq(ValueModel::Float(ls, lw), ValueModel::Float(rs, rw), fo),
        lw == FloatWidth::FwAny || rw == FloatWidth::FwAny || lw == rw ==> value_order(
            ValueModel::Float(ls, lw),
            ValueModel::Float(rs, rw),
            fo,
        ) == fo(ls, rs) && (value_eq(ValueModel::Float(ls, lw), ValueModel::Float(rs, rw), fo) <==> fo(ls, rs)
            == Some(Order::Equal)),
{
}

proof fn lemma_bytes_order_refl(b: Seq<u8>)
    ensures
        bytes_order(b, b) == Order::Equal,
    decreases b.len(),
{
    if b.len() > 0 {
        lemma_bytes_order_refl(b.drop_first());
    }
}

/// Strings of different styles do not compare; strings of one style
/// compare, and compare `Equal` exactly when they are the same string.
pub proof fn law_str_order(ls: Seq<char>, lst: StrStyle, rs: Seq<char>, rst: StrStyle, fo: FloatOrderFn)
    ensures
        lst != rst ==> value_order(ValueModel::Str(ls, lst), ValueModel::Str(rs, rst), fo) is None,
        lst == rst ==> (value_order(ValueModel::Str(ls, lst), ValueModel::Str(rs, rst), fo) matches Some(o)
            && (o == Order::Equal <==> ls == rs)),
{
    if lst == rst {
        lemma_bytes_order_refl(encode_utf8(ls));
        if bytes_order(encode_utf8(ls), encode_utf8(rs)) == Order::Equal {
            lemma_bytes_order_equal(encode_utf8(ls), encode_utf8(rs));
            encode_utf8_decode_utf8(ls);
            encode_utf8_decode_utf8(rs);
        }
    }
}

/// A literal folds to its own value, needing no resolution; a suffixed
/// float keeps its width and an unsuffixed one takes any.
pub proof fn law_literal_folds_to_itself(lit: Lit, fo: FloatOrderFn)
    ensures
        fold(Expr::ExprLit(lit), fo) matches Folding::Folded(c) && !c.needed_resolution,
        lit matches Lit::LitStr(s, st) ==> fold(Expr::ExprLit(lit), fo)->Folded_0.value == ValueModel::Str(s@, st),
        lit matches Lit::LitBinary(b) ==> fold(Expr::ExprLit(lit), fo)->Folded_0.value == ValueModel::Binary(b@),
        lit matches Lit::LitByte(b) ==> fold(Expr::ExprLit(lit), fo)->Folded_0.value == ValueModel::Byte(b),
        lit matches Lit::LitChar(ch) ==> fold(Expr::ExprLit(lit), fo)->Folded_0.value == ValueModel::Char(ch),
        lit matches Lit::LitInt(v, ty) ==> fold(Expr::ExprLit(lit), fo)->Folded_0.value == ValueModel::Int(v, ty),
        lit matches Lit::LitFloat(s, FloatTy::TyF32) ==> fold(Expr::ExprLit(lit), fo)->Folded_0.value
            == ValueModel::Float(s@, FloatWidth::Fw32),
        lit matches Lit::LitFloat(s, FloatTy::TyF64) ==> fold(Expr::ExprLit(lit), fo)->Folded_0.value
            == ValueModel::Float(s@, FloatWidth::Fw64),
        lit matches Lit::LitFloatUnsuffixed(s) ==> fold(Expr::ExprLit(lit), fo)->Folded_0.value
            == ValueModel::Float(s@, FloatWidth::FwAny),
        lit matches Lit::LitBool(b) ==> fold(Expr::ExprLit(lit), fo)->Folded_0.value == ValueModel::Bool(b),
{
}

/// `*e` and `box e` fold like `e`.
pub proof fn law_deref_transparent(e: Expr, fo: FloatOrderFn)
    ensures
        fold(Expr::ExprUnary(UnOp::UnDeref, Box::new(e)), fo) == fold(e, fo),
        fold(Expr::ExprUnary(UnOp::UnUniq, Box::new(e)), fo) == fold(e, fo),
{
}

/// A block without statements folds like its trailing expression; one with
/// neither statements nor a trailing expression does not fold.
pub proof fn law_block_without_statements(b: Block, fo: FloatOrderFn)
    requires
        b.stmts == 0,
    ensures
        b.expr matches Some(x) ==> fold(Expr::ExprBlock(b), fo) == fold(*x, fo),
        b.expr is None ==> fold(Expr::ExprBlock(b), fo) is Unfoldable,
{
    assert(fold(Expr::ExprBlock(b), fo) == fold_block(b, fo));
}

/// `l + r` and `l - r` on two folded integers: where either folds, it is an
/// integer whose numeric value is the sum or difference, needing resolution
/// if an operand did, and neither panics. On integers of signed or
/// unsuffixed types that fit together, `l + r` folds unless two magnitudes
/// of one sign overflow `u64`, and `l - r` folds where the signs are equal
/// and the right magnitude is not the larger, or where they differ and the
/// magnitudes' sum fits `u64`.
pub proof fn law_fold_int_arith(
    l: Expr,
    r: Expr,
    a: ConstantModel,
    c: ConstantModel,
    x: u64,
    xty: LitIntType,
    y: u64,
    yty: LitIntType,
    fo: FloatOrderFn,
)
    requires
        fold(l, fo) == Folding::Folded(a),
        a.value == ValueModel::Int(x, xty),
        fold(r, fo) == Folding::Folded(c),
        c.value == ValueModel::Int(y, yty),
    ensures
        folded_binary(BinOp::BiAdd, l, r, fo) matches Folding::Folded(s) ==> (s.value matches ValueModel::Int(
            v,
            ty,
        ) && int_value(v, ty) == int_value(x, xty) + int_value(y, yty)
            && s.needed_resolution == (a.needed_resolution || c.needed_resolution)),
        folded_binary(BinOp::BiSub, l, r, fo) matches Folding::Folded(s) ==> (s.value matches ValueModel::Int(
            v,
            ty,
        ) && int_value(v, ty) == int_value(x, xty) - int_value(y, yty)
            && s.needed_resolution == (a.needed_resolution || c.needed_resolution)),
        !(folded_binary(BinOp::BiAdd, l, r, fo) is Panics) && !(folded_binary(BinOp::BiSub, l, r, fo) is Panics),
        signed_types_fit(xty, yty) ==> (folded_binary(BinOp::BiAdd, l, r, fo) is Folded <==> (spec_is_negative(xty)
            == spec_is_negative(yty) ==> x + y <= u64::MAX)),
        signed_types_fit(xty, yty) ==> (folded_binary(BinOp::BiSub, l, r, fo) is Folded <==> (if spec_is_negative(
            xty,
        ) == spec_is_negative(yty) {
            y <= x
        } else {
            x + y <= u64::MAX
        })),
{
    if signed_types_fit(xty, yty) {
        law_signed_arith_defined(x, xty, y, yty);
    }
    if let Some(ValueModel::Int(v, ty)) = add_value(a.value, c.value) {
        law_int_add_exact(x, xty, y, yty, v, ty);
    }
    if let Some(ValueModel::Int(v, ty)) = sub_value(a.value, c.value) {
        law_int_sub_exact(x, xty, y, yty, v, ty);
    }
    assert(add_value(a.value, c.value) matches Some(n) ==> n is Int);
    assert(sub_value(a.value, c.value) matches Some(n) ==> n is Int);
}

proof fn lemma_encode_utf8_concat(p: Seq<char>, q: Seq<char>)
    ensures
        encode_utf8(p + q) == encode_utf8(p) + encode_utf8(q),
    decreases p.len(),
{
    if p.len() == 0 {
        assert(p + q =~= q);
        assert(encode_utf8(p) + encode_utf8(q) =~= encode_utf8(q));
    } else {
        assert((p + q).drop_first() =~= p.drop_first() + q);
        assert((p + q)[0] == p[0]);
        lemma_encode_utf8_concat(p.drop_first(), q);
        assert(encode_utf8(p + q) =~= encode_scalar(p[0] as u32) + (encode_utf8(p.drop_first()) + encode_utf8(q)));
    }
}

proof fn lemma_bytes_order_proper_prefix(p: Seq<u8>, q: Seq<u8>)
    requires
        q.len() > 0,
    ensures
        bytes_order(p, p + q) == Order::Less,
    decreases p.len(),
{
    if p.len() > 0 {
        assert((p + q).drop_first() =~= p.drop_first() + q);
        assert((p + q)[0] == p[0]);
        lemma_bytes_order_proper_prefix(p.drop_first(), q);
    }
}

/// A string comes before every longer string that it begins.
pub proof fn law_str_order_prefix(ls: Seq<char>, t: Seq<char>, st: StrStyle, fo: FloatOrderFn)
    requires
        t.len() > 0,
    ensures
        value_order(ValueModel::Str(ls, st), ValueModel::Str(ls + t, st), fo) == Some(Order::Less),
{
    lemma_encode_utf8_concat(ls, t);
    assert(encode_utf8(t).len() > 0) by {
        assert(encode_scalar(t[0] as u32).len() > 0);
    }
    lemma_bytes_order_proper_prefix(encode_utf8(ls), encode_utf8(t));
}

/// Strings whose first chars are ASCII and differ are ordered by those chars.
pub proof fn law_str_order_ascii_first(ls: Seq<char>, rs: Seq<char>, st: StrStyle, fo: FloatOrderFn)
    requires
        ls.len() > 0,
        rs.len() > 0,
        (ls[0] as u32) < 0x80,
        (rs[0] as u32) < 0x80,
        ls[0] != rs[0],
    ensures
        value_order(ValueModel::Str(ls, st), ValueModel::Str(rs, st), fo) == Some(
            if (ls[0] as u32) < (rs[0] as u32) {
                Order::Less
            } else {
                Order::Greater
            },
        ),
{
    let x = ls[0] as u32;
    let y = rs[0] as u32;
    assert((x & 0x7F) as u8 == x) by (bit_vector)
        requires
            x < 0x80,
    ;
    assert((y & 0x7F) as u8 == y) by (bit_vector)
        requires
            y < 0x80,
    ;
    assert(encode_scalar(x) == seq![(x & 0x7F) as u8]);
    assert(encode_scalar(y) == seq![(y & 0x7F) as u8]);
    assert(encode_utf8(ls) == encode_scalar(x) + encode_utf8(ls.drop_first()));
    assert(encode_utf8(rs) == encode_scalar(y) + encode_utf8(rs.drop_first()));
    assert(encode_utf8(ls)[0] == x as u8);
    assert(encode_utf8(rs)[0] == y as u8);
    assert(x != y) by {
        vstd::utf8::char_u32_cast(ls[0], x);
        vstd::utf8::char_u32_cast(rs[0], y);
    }
}

/// Repeats compare by their values first and, where the values compare
/// equal, by their counts; they are equal exactly when their counts and
/// their values are.
pub proof fn law_repeat_compare(lv: ValueModel, ln: usize, rv: ValueModel, rn: usize, fo: FloatOrderFn)
    ensures
        value_order(lv, rv, fo) == Some(Order::Equal) ==> value_order(
            ValueModel::Repeat(Box::new(lv), ln),
            ValueModel::Repeat(Box::new(rv), rn),
            fo,
        ) == Some(
            if ln < rn {
                Order::Less
            } else if ln == rn {
                Order::Equal
            } else {
                Order::Greater
            },
        ),
        value_order(lv, rv, fo) != Some(Order::Equal) ==> value_order(
            ValueModel::Repeat(Box::new(lv), ln),
            ValueModel::Repeat(Box::new(rv), rn),
            fo,
        ) == value_order(lv, rv, fo),
        value_eq(ValueModel::Repeat(Box::new(lv), ln), ValueModel::Repeat(Box::new(rv), rn), fo) <==> (ln
            == rn && value_eq(lv, rv, fo)),
{
}

/// Integer types that do not fit together: two different signed types, two
/// different unsigned types, or a signed type beside an unsigned one.
pub open spec fn types_clash(l: LitIntType, r: LitIntType) -> bool {
    match (l, r) {
        (LitIntType::SignedIntLit(a, _), LitIntType::SignedIntLit(b, _)) => a != b,
        (LitIntType::UnsignedIntLit(a), LitIntType::UnsignedIntLit(b)) => a != b,
        (LitIntType::SignedIntLit(_, _), LitIntType::UnsignedIntLit(_)) => true,
        (LitIntType::UnsignedIntLit(_), LitIntType::SignedIntLit(_, _)) => true,
        _ => false,
    }
}

/// Integers of types that do not fit together are neither added,
/// subtracted nor combined bitwise.
pub proof fn law_clashing_types_do_not_fold(op: BitOp, l: u64, lty: LitIntType, r: u64, rty: LitIntType)
    requires
        types_clash(lty, rty),
    ensures
        add_value(ValueModel::Int(l, lty), ValueModel::Int(r, rty)) is None,
        sub_value(ValueModel::Int(l, lty), ValueModel::Int(r, rty)) is None,
        bit_value(op, ValueModel::Int(l, lty), ValueModel::Int(r, rty)) is Unfoldable,
{
}

/// The type of an integer result: a suffixed operand's type, or no suffix
/// where neither operand has one.
pub open spec fn result_type_of(lty: LitIntType, rty: LitIntType, ty: LitIntType) -> bool {
    &&& (lty matches LitIntType::SignedIntLit(a, _) ==> (ty matches LitIntType::SignedIntLit(b, _) && b == a))
    &&& (rty matches LitIntType::SignedIntLit(a, _) ==> (ty matches LitIntType::SignedIntLit(b, _) && b == a))
    &&& (lty matches LitIntType::UnsignedIntLit(a) ==> ty == LitIntType::UnsignedIntLit(a))
    &&& (rty matches LitIntType::UnsignedIntLit(a) ==> ty == LitIntType::UnsignedIntLit(a))
    &&& (lty is UnsuffixedIntLit && rty is UnsuffixedIntLit ==> ty is UnsuffixedIntLit)
}

/// Sums, differences and bitwise results of integers keep the suffix of a
/// suffixed operand.
pub proof fn law_arith_result_type(op: BitOp, l: u64, lty: LitIntType, r: u64, rty: LitIntType, v: u64, ty: LitIntType)
    ensures
        add_value(ValueModel::Int(l, lty), ValueModel::Int(r, rty)) == Some(ValueModel::Int(v, ty))
            ==> result_type_of(lty, rty, ty),
        sub_value(ValueModel::Int(l, lty), ValueModel::Int(r, rty)) == Some(ValueModel::Int(v, ty))
            ==> result_type_of(lty, rty, ty),
        bit_value(op, ValueModel::Int(l, lty), ValueModel::Int(r, rty)) == Folding::Folded(ValueModel::Int(v, ty))
            ==> result_type_of(lty, rty, ty),
{
}

/// Values of different kinds do not compare, and neither do byte strings.
pub proof fn law_order_distinct_kinds(l: ValueModel, r: ValueModel, fo: FloatOrderFn)
    requires
        !same_kind(l, r) || l is Binary,
    ensures
        value_order(l, r, fo) is None,
{
}

} // verus!
