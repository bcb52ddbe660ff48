//! A model of the parts of Rust's syntax tree that constant folding reads.
use std::rc::Rc;
use vstd::prelude::*;

verus! {

/// The sign of an integer literal; `Minus` comes from a negation.
#[derive(PartialEq, Eq, Structural, Debug, Clone, Copy)]
pub enum Sign {
    Minus,
    Plus,
}

/// Signed integer types of a literal suffix.
#[derive(PartialEq, Eq, Structural, Debug, Clone, Copy)]
pub enum IntTy {
    TyIs,
    TyI8,
    TyI16,
    TyI32,
    TyI64,
}

/// Unsigned integer types of a literal suffix.
#[derive(PartialEq, Eq, Structural, Debug, Clone, Copy)]
pub enum UintTy {
    TyUs,
    TyU8,
    TyU16,
    TyU32,
    TyU64,
}

/// The type of an integer literal: suffixed signed, suffixed unsigned, or unsuffixed.
#[derive(PartialEq, Eq, Structural, Debug, Clone, Copy)]
pub enum LitIntType {
    SignedIntLit(IntTy, Sign),
    UnsignedIntLit(UintTy),
    UnsuffixedIntLit(Sign),
}

/// The type of a suffixed float literal.
#[derive(PartialEq, Eq, Structural, Debug, Clone, Copy)]
pub enum FloatTy {
    TyF32,
    TyF64,
}

/// How a string literal was written: plain, or raw with a number of `#`s.
#[derive(PartialEq, Eq, Structural, Debug, Clone, Copy)]
pub enum StrStyle {
    CookedStr,
    RawStr(usize),
}

/// A literal. Number literals are unsigned; a minus sign is a negation around them.
#[derive(Debug)]
pub enum Lit {
    LitStr(String, StrStyle),
    LitBinary(Rc<Vec<u8>>),
    LitByte(u8),
    LitChar(char),
    LitInt(u64, LitIntType),
    LitFloat(String, FloatTy),
    LitFloatUnsuffixed(String),
    LitBool(bool),
}

/// Unary operators: `box`, `*`, `!` and `-`.
#[derive(PartialEq, Eq, Structural, Debug, Clone, Copy)]
pub enum UnOp {
    UnUniq,
    UnDeref,
    UnNot,
    UnNeg,
}

/// Binary operators.
#[derive(PartialEq, Eq, Structural, Debug, Clone, Copy)]
pub enum BinOp {
    BiAdd,
    BiSub,
    BiMul,
    BiDiv,
    BiRem,
    BiAnd,
    BiOr,
    BiBitXor,
    BiBitAnd,
    BiBitOr,
    BiShl,
    BiShr,
    BiEq,
    BiLt,
    BiLe,
    BiNe,
    BiGe,
    BiGt,
}

/// A block: the number of its statements and its trailing expression.
#[derive(Debug)]
pub struct Block {
    pub stmts: usize,
    pub expr: Option<Box<Expr>>,
}

/// An expression.
#[derive(Debug)]
pub enum Expr {
    /// `(e)`
    ExprParen(Box<Expr>),
    /// A path. Where it names a constant item, the expression that the
    /// item is defined by; `None` where it names anything else.
    ExprPath(Option<Box<Expr>>),
    /// `{ stmts; e }`
    ExprBlock(Block),
    /// `if cond { then } else otherwise`
    ExprIf(Box<Expr>, Block, Option<Box<Expr>>),
    /// A literal.
    ExprLit(Lit),
    /// `[a, b, c]`
    ExprVec(Vec<Expr>),
    /// `(a, b, c)`
    ExprTup(Vec<Expr>),
    /// `[value; count]`
    ExprRepeat(Box<Expr>, Box<Expr>),
    /// A unary operation.
    ExprUnary(UnOp, Box<Expr>),
    /// A binary operation.
    ExprBinary(BinOp, Box<Expr>, Box<Expr>),
    /// Any other kind of expression (calls, loops, casts, ...).
    ExprOther,
}

/// Whether an integer literal type carries a minus sign.
pub open spec fn spec_is_negative(ty: LitIntType) -> bool {
    match ty {
        LitIntType::SignedIntLit(_, sign) => sign == Sign::Minus,
        LitIntType::UnsuffixedIntLit(sign) => sign == Sign::Minus,
        LitIntType::UnsignedIntLit(_) => false,
    }
}

/// is the given LitIntType negative?
pub fn is_negative(ty: LitIntType) -> (r: bool)
    ensures
        r == spec_is_negative(ty),
{
    match ty {
        LitIntType::SignedIntLit(_, sign) => sign == Sign::Minus,
        LitIntType::UnsuffixedIntLit(sign) => sign == Sign::Minus,
        LitIntType::UnsignedIntLit(_) => false,
    }
}

/// The opposite sign.
pub open spec fn spec_neg_sign(s: Sign) -> Sign {
    match s {
        Sign::Plus => Sign::Minus,
        Sign::Minus => Sign::Plus,
    }
}

pub(crate) fn neg_sign(s: Sign) -> (r: Sign)
    ensures
        r == spec_neg_sign(s),
{
    match s {
        Sign::Plus => Sign::Minus,
        Sign::Minus => Sign::Plus,
    }
}

} // verus!
