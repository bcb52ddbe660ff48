//! Operations on folded values: literal conversion, integer type
//! unification, negation, `!`, addition, subtraction and bit operations.
use std::rc::Rc;
use vstd::prelude::*;
use vstd::string::StrSliceExecFns;
use vstd::string::StringExecFns;
use crate::ast::{
    FloatTy, IntTy, Lit, LitIntType, Sign, UintTy, is_negative, neg_sign, spec_is_negative,
    spec_neg_sign,
};
use crate::value::{
    int_value, int_is_negative,
    Constant, ConstantModel, ConstantVariant, FloatWidth, Folding, ValueModel, width_of,
};

verus! {

/// The value an optional constant stands for.
pub open spec fn opt_model(r: Option<ConstantVariant>) -> Option<ValueModel> {
    match r {
        Some(v) => Some(v@),
        None => None,
    }
}

/// The value an optional constant stands for.
pub open spec fn opt_constant_model(r: Option<Constant>) -> Option<ConstantModel> {
    match r {
        Some(c) => Some(c@),
        None => None,
    }
}

// ---------------------------------------------------------------- literals

/// The constant a literal stands for.
pub open spec fn lit_model(lit: Lit) -> ConstantModel {
    ConstantModel {
        value: match lit {
            Lit::LitStr(s, style) => ValueModel::Str(s@, style),
            Lit::LitBinary(b) => ValueModel::Binary(b@),
            Lit::LitByte(b) => ValueModel::Byte(b),
            Lit::LitChar(c) => ValueModel::Char(c),
            Lit::LitInt(v, ty) => ValueModel::Int(v, ty),
            Lit::LitFloat(s, ty) => ValueModel::Float(s@, width_of(ty)),
            Lit::LitFloatUnsuffixed(s) => ValueModel::Float(s@, FloatWidth::FwAny),
            Lit::LitBool(b) => ValueModel::Bool(b),
        },
        needed_resolution: false,
    }
}

/// A second handle on shared bytes.
#[verifier::external_body]
fn share_bytes(b: &Rc<Vec<u8>>) -> (r: Rc<Vec<u8>>)
    ensures
        r@ == b@,
{
    Rc::clone(b)
}

pub fn lit_to_constant(lit: &Lit) -> (c: Constant)
    ensures
        c@ == lit_model(*lit),
{
    match lit {
        Lit::LitStr(is, style) => Constant::new(ConstantVariant::ConstantStr(is.clone(), *style)),
        Lit::LitBinary(blob) => Constant::new(ConstantVariant::ConstantBinary(share_bytes(blob))),
        Lit::LitByte(b) => Constant::new(ConstantVariant::ConstantByte(*b)),
        Lit::LitChar(c) => Constant::new(ConstantVariant::ConstantChar(*c)),
        Lit::LitInt(value, ty) => Constant::new(ConstantVariant::ConstantInt(*value, *ty)),
        Lit::LitFloat(is, ty) => Constant::new(
            ConstantVariant::ConstantFloat(is.clone(), FloatWidth::from(*ty)),
        ),
        Lit::LitFloatUnsuffixed(is) => Constant::new(
            ConstantVariant::ConstantFloat(is.clone(), FloatWidth::FwAny),
        ),
        Lit::LitBool(b) => Constant::new(ConstantVariant::ConstantBool(*b)),
    }
}

// ------------------------------------------------------- integer types

/// The type of the result of an integer operation on operands of types
/// `l` and `r` whose result has sign `s`, where the two types fit together.
pub open spec fn spec_unify(l: LitIntType, r: LitIntType, s: Sign) -> Option<LitIntType> {
    match (l, r) {
        (LitIntType::SignedIntLit(lty, _), LitIntType::SignedIntLit(rty, _)) => if lty == rty {
            Some(LitIntType::SignedIntLit(lty, s))
        } else {
            None
        },
        (LitIntType::UnsignedIntLit(lty), LitIntType::UnsignedIntLit(rty)) => if s == Sign::Plus
            && lty == rty {
            Some(LitIntType::UnsignedIntLit(lty))
        } else {
            None
        },
        (LitIntType::UnsuffixedIntLit(_), LitIntType::UnsuffixedIntLit(_)) => Some(
            LitIntType::UnsuffixedIntLit(s),
        ),
        (LitIntType::SignedIntLit(lty, _), LitIntType::UnsuffixedIntLit(_)) => Some(
            LitIntType::SignedIntLit(lty, s),
        ),
        (LitIntType::UnsignedIntLit(lty), LitIntType::UnsuffixedIntLit(rs)) => if rs == Sign::Plus {
            Some(LitIntType::UnsignedIntLit(lty))
        } else {
            None
        },
        (LitIntType::UnsuffixedIntLit(_), LitIntType::SignedIntLit(rty, _)) => Some(
            LitIntType::SignedIntLit(rty, s),
        ),
        (LitIntType::UnsuffixedIntLit(ls), LitIntType::UnsignedIntLit(rty)) => if ls == Sign::Plus {
            Some(LitIntType::UnsignedIntLit(rty))
        } else {
            None
        },
        _ => None,
    }
}

pub fn unify_int_type(l: LitIntType, r: LitIntType, s: Sign) -> (t: Option<LitIntType>)
    ensures
        t == spec_unify(l, r, s),
{
    match (l, r) {
        (LitIntType::SignedIntLit(lty, _), LitIntType::SignedIntLit(rty, _)) => if lty == rty {
            Some(LitIntType::SignedIntLit(lty, s))
        } else {
            None
        },
        (LitIntType::UnsignedIntLit(lty), LitIntType::UnsignedIntLit(rty)) => if s == Sign::Plus
            && lty == rty {
            Some(LitIntType::UnsignedIntLit(lty))
        } else {
            None
        },
        (LitIntType::UnsuffixedIntLit(_), LitIntType::UnsuffixedIntLit(_)) => Some(
            LitIntType::UnsuffixedIntLit(s),
        ),
        (LitIntType::SignedIntLit(lty, _), LitIntType::UnsuffixedIntLit(_)) => Some(
            LitIntType::SignedIntLit(lty, s),
        ),
        (LitIntType::UnsignedIntLit(lty), LitIntType::UnsuffixedIntLit(rs)) => if rs == Sign::Plus {
            Some(LitIntType::UnsignedIntLit(lty))
        } else {
            None
        },
        (LitIntType::UnsuffixedIntLit(_), LitIntType::SignedIntLit(rty, _)) => Some(
            LitIntType::SignedIntLit(rty, s),
        ),
        (LitIntType::UnsuffixedIntLit(ls), LitIntType::UnsignedIntLit(rty)) => if ls == Sign::Plus {
            Some(LitIntType::UnsignedIntLit(rty))
        } else {
            None
        },
        _ => None,
    }
}

// ------------------------------------------------------------------ not

/// All bits of an unsigned type; `None` for `usize`, whose width the folder
/// does not guess.
pub open spec fn uint_mask(ity: UintTy) -> Option<u64> {
    match ity {
        UintTy::TyU8 => Some(0xffu64),
        UintTy::TyU16 => Some(0xffffu64),
        UintTy::TyU32 => Some(0xffff_ffffu64),
        UintTy::TyU64 => Some(0xffff_ffff_ffff_ffffu64),
        UintTy::TyUs => None,
    }
}

/// `!v`: logical not of a bool, bitwise not of an integer.
pub open spec fn not_value(v: ValueModel) -> Option<ValueModel> {
    match v {
        ValueModel::Bool(b) => Some(ValueModel::Bool(!b)),
        ValueModel::Int(value, ty) => match ty {
            LitIntType::SignedIntLit(ity, Sign::Plus) => if value == u64::MAX {
                None
            } else {
                Some(ValueModel::Int((value + 1) as u64, LitIntType::SignedIntLit(ity, Sign::Minus)))
            },
            LitIntType::SignedIntLit(ity, Sign::Minus) => if value == 0 {
                Some(ValueModel::Int(1, LitIntType::SignedIntLit(ity, Sign::Minus)))
            } else {
                Some(ValueModel::Int((value - 1) as u64, LitIntType::SignedIntLit(ity, Sign::Plus)))
            },
            LitIntType::UnsignedIntLit(ity) => match uint_mask(ity) {
                Some(mask) => Some(ValueModel::Int(!value & mask, LitIntType::UnsignedIntLit(ity))),
                None => None,
            },
            LitIntType::UnsuffixedIntLit(_) => None,
        },
        _ => None,
    }
}

/// `!` of a folded constant, keeping its resolution flag.
pub open spec fn not_constant(c: ConstantModel) -> Option<ConstantModel> {
    match not_value(c.value) {
        Some(v) => Some(ConstantModel { value: v, needed_resolution: c.needed_resolution }),
        None => None,
    }
}

fn uint_max(ity: UintTy) -> (m: Option<u64>)
    ensures
        m == uint_mask(ity),
{
    match ity {
        UintTy::TyU8 => Some(0xffu64),
        UintTy::TyU16 => Some(0xffffu64),
        UintTy::TyU32 => Some(0xffff_ffffu64),
        UintTy::TyU64 => Some(0xffff_ffff_ffff_ffffu64),
        UintTy::TyUs => None,
    }
}

pub fn constant_not(o: Constant) -> (r: Option<Constant>)
    ensures
        opt_constant_model(r) == not_constant(o@),
{
    let needed_resolution = o.needed_resolution;
    let constant = match o.constant {
        ConstantVariant::ConstantBool(b) => ConstantVariant::ConstantBool(!b),
        ConstantVariant::ConstantInt(value, ty) => {
            let (nvalue, nty) = match ty {
                LitIntType::SignedIntLit(ity, Sign::Plus) => {
                    if value == u64::MAX {
                        return None;
                    }
                    (value + 1, LitIntType::SignedIntLit(ity, Sign::Minus))
                },
                LitIntType::SignedIntLit(ity, Sign::Minus) => {
                    if value == 0 {
                        (1, LitIntType::SignedIntLit(ity, Sign::Minus))
                    } else {
                        (value - 1, LitIntType::SignedIntLit(ity, Sign::Plus))
                    }
                },
                LitIntType::UnsignedIntLit(ity) => {
                    let mask = match uint_max(ity) {
                        Some(m) => m,
                        None => {
                            return None;
                        },  // refuse to guess
                    };
                    (!value & mask, LitIntType::UnsignedIntLit(ity))
                },
                LitIntType::UnsuffixedIntLit(_) => {
                    return None;
                },  // refuse to guess
            };
            ConstantVariant::ConstantInt(nvalue, nty)
        },
        _ => {
            return None;
        },
    };
    Some(Constant { needed_resolution, constant })
}

// ------------------------------------------------------------- negation

/// The text of a float literal with its sign flipped.
pub open spec fn neg_float_text(s: Seq<char>) -> Seq<char> {
    if s.len() > 0 && s[0] == '-' {
        s.skip(1)
    } else {
        seq!['-'] + s
    }
}

/// `-v` of an integer with a signed or unsuffixed type, or of a float.
pub open spec fn negate_value(v: ValueModel) -> Option<ValueModel> {
    match v {
        ValueModel::Int(value, ty) => match ty {
            LitIntType::SignedIntLit(ity, sign) => Some(
                ValueModel::Int(value, LitIntType::SignedIntLit(ity, spec_neg_sign(sign))),
            ),
            LitIntType::UnsuffixedIntLit(sign) => Some(
                ValueModel::Int(value, LitIntType::UnsuffixedIntLit(spec_neg_sign(sign))),
            ),
            LitIntType::UnsignedIntLit(_) => None,
        },
        ValueModel::Float(s, w) => Some(ValueModel::Float(neg_float_text(s), w)),
        _ => None,
    }
}

/// `-` of a folded constant, keeping its resolution flag.
pub open spec fn negate_constant(c: ConstantModel) -> Option<ConstantModel> {
    match negate_value(c.value) {
        Some(v) => Some(ConstantModel { value: v, needed_resolution: c.needed_resolution }),
        None => None,
    }
}

pub fn neg_float_str(s: String) -> (r: String)
    ensures
        r@ == neg_float_text(s@),
{
    let t = s.as_str();
    let n = t.unicode_len();
    if n > 0 && t.get_char(0) == '-' {
        assert(t@.subrange(1, n as int) =~= t@.skip(1));
        t.substring_char(1, n).to_owned()
    } else {
        let minus = "-";
        proof {
            reveal_strlit("-");
        }
        let mut r = String::from_str(minus);
        r.append(t);
        assert(r@ =~= seq!['-'] + s@);
        r
    }
}

pub fn constant_negate(o: Constant) -> (r: Option<Constant>)
    ensures
        opt_constant_model(r) == negate_constant(o@),
{
    let needed_resolution = o.needed_resolution;
    let constant = match o.constant {
        ConstantVariant::ConstantInt(value, ty) => ConstantVariant::ConstantInt(
            value,
            match ty {
                LitIntType::SignedIntLit(ity, sign) => LitIntType::SignedIntLit(ity, neg_sign(sign)),
                LitIntType::UnsuffixedIntLit(sign) => LitIntType::UnsuffixedIntLit(neg_sign(sign)),
                _ => {
                    return None;
                },
            },
        ),
        ConstantVariant::ConstantFloat(is, ty) => ConstantVariant::ConstantFloat(
            neg_float_str(is),
            ty,
        ),
        _ => {
            return None;
        },
    };
    Some(Constant { needed_resolution, constant })
}


// -------------------------------------------------- addition, subtraction

/// `pos - neg` on magnitudes, as the sum of a non-negative and a negative integer.
pub open spec fn add_neg_value(pos: u64, pty: LitIntType, neg: u64, nty: LitIntType) -> Option<ValueModel> {
    if neg > pos {
        match spec_unify(nty, pty, Sign::Minus) {
            Some(ty) => Some(ValueModel::Int((neg - pos) as u64, ty)),
            None => None,
        }
    } else {
        match spec_unify(nty, pty, Sign::Plus) {
            Some(ty) => Some(ValueModel::Int((pos - neg) as u64, ty)),
            None => None,
        }
    }
}

/// `l - r` on magnitudes, with the sign of the result given.
pub open spec fn sub_int_value(l: u64, lty: LitIntType, r: u64, rty: LitIntType, neg: bool) -> Option<ValueModel> {
    match spec_unify(lty, rty, if neg { Sign::Minus } else { Sign::Plus }) {
        Some(ty) => if r <= l {
            Some(ValueModel::Int((l - r) as u64, ty))
        } else {
            None
        },
        None => None,
    }
}

/// The sign that a sign flag stands for.
pub open spec fn sign_of(negative: bool) -> Sign {
    if negative {
        Sign::Minus
    } else {
        Sign::Plus
    }
}

/// `l + r` of two bytes or two integers; `None` on overflow or types that do not fit.
pub open spec fn add_value(l: ValueModel, r: ValueModel) -> Option<ValueModel> {
    match (l, r) {
        (ValueModel::Byte(l8), ValueModel::Byte(r8)) => if l8 + r8 <= u8::MAX {
            Some(ValueModel::Byte((l8 + r8) as u8))
        } else {
            None
        },
        (ValueModel::Int(l64, lty), ValueModel::Int(r64, rty)) => {
            let ln = spec_is_negative(lty);
            let rn = spec_is_negative(rty);
            if ln == rn {
                match spec_unify(lty, rty, sign_of(ln)) {
                    Some(ty) => if l64 + r64 <= u64::MAX {
                        Some(ValueModel::Int((l64 + r64) as u64, ty))
                    } else {
                        None
                    },
                    None => None,
                }
            } else if ln {
                add_neg_value(r64, rty, l64, lty)
            } else {
                add_neg_value(l64, lty, r64, rty)
            }
        },
        _ => None,
    }
}

/// `l - r` of two bytes or two integers; `None` on underflow or types that do not fit.
pub open spec fn sub_value(l: ValueModel, r: ValueModel) -> Option<ValueModel> {
    match (l, r) {
        (ValueModel::Byte(l8), ValueModel::Byte(r8)) => if r8 > l8 {
            None
        } else {
            Some(ValueModel::Byte((l8 - r8) as u8))
        },
        (ValueModel::Int(l64, lty), ValueModel::Int(r64, rty)) => {
            let ln = spec_is_negative(lty);
            let rn = spec_is_negative(rty);
            match (ln, rn) {
                (false, false) => sub_int_value(l64, lty, r64, rty, r64 > l64),
                (true, true) => sub_int_value(l64, lty, r64, rty, l64 > r64),
                (true, false) => match spec_unify(lty, rty, Sign::Minus) {
                    Some(ty) => if l64 + r64 <= u64::MAX {
                        Some(ValueModel::Int((l64 + r64) as u64, ty))
                    } else {
                        None
                    },
                    None => None,
                },
                (false, true) => match spec_unify(lty, rty, Sign::Plus) {
                    Some(ty) => if l64 + r64 <= u64::MAX {
                        Some(ValueModel::Int((l64 + r64) as u64, ty))
                    } else {
                        None
                    },
                    None => None,
                },
            }
        },
        _ => None,
    }
}

fn add_neg_int(pos: u64, pty: LitIntType, neg: u64, nty: LitIntType) -> (r: Option<ConstantVariant>)
    ensures
        opt_model(r) == add_neg_value(pos, pty, neg, nty),
{
    if neg > pos {
        match unify_int_type(nty, pty, Sign::Minus) {
            Some(ty) => Some(ConstantVariant::ConstantInt(neg - pos, ty)),
            None => None,
        }
    } else {
        match unify_int_type(nty, pty, Sign::Plus) {
            Some(ty) => Some(ConstantVariant::ConstantInt(pos - neg, ty)),
            None => None,
        }
    }
}

fn sub_int(l: u64, lty: LitIntType, r: u64, rty: LitIntType, neg: bool) -> (res: Option<ConstantVariant>)
    ensures
        opt_model(res) == sub_int_value(l, lty, r, rty, neg),
{
    match unify_int_type(lty, rty, if neg { Sign::Minus } else { Sign::Plus }) {
        Some(ty) => match l.checked_sub(r) {
            Some(v) => Some(ConstantVariant::ConstantInt(v, ty)),
            None => None,
        },
        None => None,
    }
}

/// The sum of two folded operands.
pub fn add_constants(l: ConstantVariant, r: ConstantVariant) -> (res: Option<ConstantVariant>)
    ensures
        opt_model(res) == add_value(l@, r@),
{
    match (l, r) {
        (ConstantVariant::ConstantByte(l8), ConstantVariant::ConstantByte(r8)) => match l8.checked_add(r8) {
            Some(v) => Some(ConstantVariant::ConstantByte(v)),
            None => None,
        },
        (ConstantVariant::ConstantInt(l64, lty), ConstantVariant::ConstantInt(r64, rty)) => {
            let ln = is_negative(lty);
            let rn = is_negative(rty);
            if ln == rn {
                match unify_int_type(lty, rty, if ln { Sign::Minus } else { Sign::Plus }) {
                    Some(ty) => match l64.checked_add(r64) {
                        Some(v) => Some(ConstantVariant::ConstantInt(v, ty)),
                        None => None,
                    },
                    None => None,
                }
            } else {
                if ln {
                    add_neg_int(r64, rty, l64, lty)
                } else {
                    add_neg_int(l64, lty, r64, rty)
                }
            }
        },
        _ => None,
    }
}

/// The difference of two folded operands.
pub fn sub_constants(l: ConstantVariant, r: ConstantVariant) -> (res: Option<ConstantVariant>)
    ensures
        opt_model(res) == sub_value(l@, r@),
{
    match (l, r) {
        (ConstantVariant::ConstantByte(l8), ConstantVariant::ConstantByte(r8)) => if r8 > l8 {
            None
        } else {
            Some(ConstantVariant::ConstantByte(l8 - r8))
        },
        (ConstantVariant::ConstantInt(l64, lty), ConstantVariant::ConstantInt(r64, rty)) => {
            let ln = is_negative(lty);
            let rn = is_negative(rty);
            match (ln, rn) {
                (false, false) => sub_int(l64, lty, r64, rty, r64 > l64),
                (true, true) => sub_int(l64, lty, r64, rty, l64 > r64),
                (true, false) => match unify_int_type(lty, rty, Sign::Minus) {
                    Some(ty) => match l64.checked_add(r64) {
                        Some(v) => Some(ConstantVariant::ConstantInt(v, ty)),
                        None => None,
                    },
                    None => None,
                },
                (false, true) => match unify_int_type(lty, rty, Sign::Plus) {
                    Some(ty) => match l64.checked_add(r64) {
                        Some(v) => Some(ConstantVariant::ConstantInt(v, ty)),
                        None => None,
                    },
                    None => None,
                },
            }
        },
        _ => None,
    }
}

// --------------------------------------------------------- bit operations

/// The bit operators the folder computes.
#[derive(PartialEq, Eq, Structural, Debug, Clone, Copy)]
pub enum BitOp {
    Xor,
    And,
    Or,
    Shl,
    Shr,
}

/// A bit operation on 64-bit words; `None` for a shift by 64 or more,
/// which overflows.
pub open spec fn bits_value(op: BitOp, x: u64, y: u64) -> Option<u64> {
    match op {
        BitOp::Xor => Some(x ^ y),
        BitOp::And => Some(x & y),
        BitOp::Or => Some(x | y),
        BitOp::Shl => if y < 64 {
            Some(x << y)
        } else {
            None
        },
        BitOp::Shr => if y < 64 {
            Some(x >> y)
        } else {
            None
        },
    }
}

/// `false` is 0, `true` is 1.
pub open spec fn bool_bits(b: bool) -> u64 {
    if b {
        1
    } else {
        0
    }
}

/// A bit operation on two bools, two bytes or two integers of fitting types.
/// Negative integers are not folded: their bits are not the bits of their magnitude.
pub open spec fn bit_value(op: BitOp, l: ValueModel, r: ValueModel) -> Folding<ValueModel> {
    match (l, r) {
        (ValueModel::Bool(lb), ValueModel::Bool(rb)) => match bits_value(op, bool_bits(lb), bool_bits(rb)) {
            Some(x) => Folding::Folded(ValueModel::Bool(x != 0)),
            None => Folding::Panics,
        },
        (ValueModel::Byte(l8), ValueModel::Byte(r8)) => match bits_value(op, l8 as u64, r8 as u64) {
            Some(x) => Folding::Folded(ValueModel::Byte(x as u8)),
            None => Folding::Panics,
        },
        (ValueModel::Int(l, lty), ValueModel::Int(r, rty)) => if int_is_negative(l, lty)
            || int_is_negative(r, rty) {
            Folding::Unfoldable
        } else {
            match spec_unify(lty, rty, Sign::Plus) {
                Some(ty) => match bits_value(op, l, r) {
                    Some(x) => Folding::Folded(ValueModel::Int(x, ty)),
                    None => Folding::Panics,
                },
                None => Folding::Unfoldable,
            }
        },
        _ => Folding::Unfoldable,
    }
}

fn apply_bits(op: BitOp, x: u64, y: u64) -> (r: u64)
    requires
        bits_value(op, x, y) is Some,
    ensures
        bits_value(op, x, y) == Some(r),
{
    match op {
        BitOp::Xor => x ^ y,
        BitOp::And => x & y,
        BitOp::Or => x | y,
        BitOp::Shl => x << y,
        BitOp::Shr => x >> y,
    }
}

fn bool_as_bits(b: bool) -> (r: u64)
    ensures
        r == bool_bits(b),
{
    if b {
        1
    } else {
        0
    }
}

/// A bit operation on two folded operands; `Panics` where a shift overflows.
pub fn bit_constants(op: BitOp, l: ConstantVariant, r: ConstantVariant) -> (res: Folding<ConstantVariant>)
    ensures
        match bit_value(op, l@, r@) {
            Folding::Folded(v) => res matches Folding::Folded(c) && c@ == v,
            Folding::Unfoldable => res is Unfoldable,
            Folding::Panics => res is Panics,
        },
{
    match (l, r) {
        (ConstantVariant::ConstantBool(l), ConstantVariant::ConstantBool(r)) => Folding::Folded(
            ConstantVariant::ConstantBool(apply_bits(op, bool_as_bits(l), bool_as_bits(r)) != 0),
        ),
        (ConstantVariant::ConstantByte(l8), ConstantVariant::ConstantByte(r8)) => {
            if !shift_fits(op, r8 as u64) {
                return Folding::Panics;
            }
            Folding::Folded(ConstantVariant::ConstantByte(apply_bits(op, l8 as u64, r8 as u64) as u8))
        },
        (ConstantVariant::ConstantInt(l, lty), ConstantVariant::ConstantInt(r, rty)) => {
            if (is_negative(lty) && l != 0) || (is_negative(rty) && r != 0) {
                return Folding::Unfoldable;
            }
            match unify_int_type(lty, rty, Sign::Plus) {
            Some(ty) => {
                if !shift_fits(op, r) {
                    return Folding::Panics;
                }
                Folding::Folded(ConstantVariant::ConstantInt(apply_bits(op, l, r), ty))
            },
            None => Folding::Unfoldable,
        }
        },
        _ => Folding::Unfoldable,
    }
}

/// Whether the operation can be applied with `y` as its right operand
/// without overflowing a shift.
fn shift_fits(op: BitOp, y: u64) -> (b: bool)
    ensures
        b == match op {
            BitOp::Shl | BitOp::Shr => y < 64,
            _ => true,
        },
{
    match op {
        BitOp::Shl | BitOp::Shr => y < 64,
        _ => true,
    }
}

} // verus!
