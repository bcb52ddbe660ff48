//! Simple constant folding: an expression in, a constant or nothing out.
use vstd::prelude::*;
use crate::ast::{BinOp, Block, Expr, UnOp, is_negative};
use crate::ops::opt_model;
use crate::ops::{
    BitOp, add_constants, add_value, bit_constants, bit_value, constant_negate, constant_not,
    lit_model, lit_to_constant, negate_constant, not_constant, sub_constants, sub_value,
};
use crate::value::{
    int_is_negative,
    Constant, ConstantModel, ConstantVariant, FloatOrderFn, Folding, Order, ValueModel,
    computes_float_order, lemma_models_of, model_of, models_of, total_float_order, value_eq,
    value_order,
};

verus! {

/// An operation on two folded operands.
#[derive(PartialEq, Eq, Structural, Debug, Clone, Copy)]
pub enum PairOp {
    Add,
    Sub,
    Bits(BitOp),
    Eq,
    Ne,
    /// `Compare(ordering, b)` folds to whether the operands' order being
    /// `ordering` is `b`.
    Compare(Order, bool),
    /// `[value; count]`
    Repeat,
}

/// `Some` as a folded value, `None` as no value.
pub open spec fn from_option(v: Option<ValueModel>) -> Folding<ValueModel> {
    match v {
        Some(x) => Folding::Folded(x),
        None => Folding::Unfoldable,
    }
}

/// An operation on the values of two folded operands.
pub open spec fn pair_value(op: PairOp, a: ValueModel, b: ValueModel, fo: FloatOrderFn) -> Folding<ValueModel> {
    match op {
        PairOp::Add => from_option(add_value(a, b)),
        PairOp::Sub => from_option(sub_value(a, b)),
        PairOp::Bits(bop) => bit_value(bop, a, b),
        PairOp::Eq => Folding::Folded(ValueModel::Bool(value_eq(a, b, fo))),
        PairOp::Ne => Folding::Folded(ValueModel::Bool(!value_eq(a, b, fo))),
        PairOp::Compare(ordering, want) => match value_order(a, b, fo) {
            Some(o) => Folding::Folded(ValueModel::Bool(want == (o == ordering))),
            None => Folding::Unfoldable,
        },
        PairOp::Repeat => match b {
            ValueModel::Int(n, t) => if int_is_negative(n, t) {
                Folding::Panics
            } else {
                Folding::Folded(ValueModel::Repeat(Box::new(a), n as usize))
            },
            _ => Folding::Panics,
        },
    }
}

/// Both operands are folded, then the operation applied to their values;
/// the result needed resolution if either operand did.
pub open spec fn apply_pair(
    l: Folding<ConstantModel>,
    r: Folding<ConstantModel>,
    op: PairOp,
    fo: FloatOrderFn,
) -> Folding<ConstantModel> {
    if l is Panics || r is Panics {
        Folding::Panics
    } else {
        match (l, r) {
            (Folding::Folded(a), Folding::Folded(b)) => match pair_value(op, a.value, b.value, fo) {
                Folding::Folded(v) => Folding::Folded(
                    ConstantModel { value: v, needed_resolution: a.needed_resolution || b.needed_resolution },
                ),
                Folding::Unfoldable => Folding::Unfoldable,
                Folding::Panics => Folding::Panics,
            },
            _ => Folding::Unfoldable,
        }
    }
}

/// `&&` (with `b == false`) and `||` (with `b == true`): a left operand
/// equal to `b` decides; otherwise the right operand must be a bool.
pub open spec fn short_circuit(l: Folding<ConstantModel>, r: Folding<ConstantModel>, b: bool) -> Folding<
    ConstantModel,
> {
    match l {
        Folding::Folded(lc) => match lc.value {
            ValueModel::Bool(lb) => if lb == b {
                Folding::Folded(lc)
            } else {
                match r {
                    Folding::Folded(rc) => match rc.value {
                        ValueModel::Bool(_) => Folding::Folded(
                            ConstantModel {
                                value: rc.value,
                                needed_resolution: lc.needed_resolution || rc.needed_resolution,
                            },
                        ),
                        _ => Folding::Unfoldable,
                    },
                    Folding::Unfoldable => Folding::Unfoldable,
                    Folding::Panics => Folding::Panics,
                }
            },
            _ => Folding::Unfoldable,
        },
        Folding::Unfoldable => Folding::Unfoldable,
        Folding::Panics => Folding::Panics,
    }
}

/// A binary operation on two folded operands.
pub open spec fn binop_fold(
    op: BinOp,
    l: Folding<ConstantModel>,
    r: Folding<ConstantModel>,
    fo: FloatOrderFn,
) -> Folding<ConstantModel> {
    match op {
        BinOp::BiAdd => apply_pair(l, r, PairOp::Add, fo),
        BinOp::BiSub => apply_pair(l, r, PairOp::Sub, fo),
        BinOp::BiAnd => short_circuit(l, r, false),
        BinOp::BiOr => short_circuit(l, r, true),
        BinOp::BiBitXor => apply_pair(l, r, PairOp::Bits(BitOp::Xor), fo),
        BinOp::BiBitAnd => apply_pair(l, r, PairOp::Bits(BitOp::And), fo),
        BinOp::BiBitOr => apply_pair(l, r, PairOp::Bits(BitOp::Or), fo),
        BinOp::BiShl => apply_pair(l, r, PairOp::Bits(BitOp::Shl), fo),
        BinOp::BiShr => apply_pair(l, r, PairOp::Bits(BitOp::Shr), fo),
        BinOp::BiEq => apply_pair(l, r, PairOp::Eq, fo),
        BinOp::BiNe => apply_pair(l, r, PairOp::Ne, fo),
        BinOp::BiLt => apply_pair(l, r, PairOp::Compare(Order::Less, true), fo),
        BinOp::BiLe => apply_pair(l, r, PairOp::Compare(Order::Greater, false), fo),
        BinOp::BiGe => apply_pair(l, r, PairOp::Compare(Order::Less, false), fo),
        BinOp::BiGt => apply_pair(l, r, PairOp::Compare(Order::Greater, true), fo),
        _ => Folding::Unfoldable,
    }
}

/// A unary operation on a folded operand.
pub open spec fn unop_fold(op: UnOp, c: Folding<ConstantModel>) -> Folding<ConstantModel> {
    match c {
        Folding::Folded(o) => {
            let r = match op {
                UnOp::UnNot => not_constant(o),
                UnOp::UnNeg => negate_constant(o),
                UnOp::UnUniq | UnOp::UnDeref => Some(o),
            };
            match r {
                Some(x) => Folding::Folded(x),
                None => Folding::Unfoldable,
            }
        },
        Folding::Unfoldable => Folding::Unfoldable,
        Folding::Panics => Folding::Panics,
    }
}

/// Folding through a path marks the result as needing resolution.
pub open spec fn resolved(c: Folding<ConstantModel>) -> Folding<ConstantModel> {
    match c {
        Folding::Folded(x) => Folding::Folded(ConstantModel { value: x.value, needed_resolution: true }),
        Folding::Unfoldable => Folding::Unfoldable,
        Folding::Panics => Folding::Panics,
    }
}

/// The branch taken by a folded `if` inherits the condition's resolution flag.
pub open spec fn with_resolution(c: Folding<ConstantModel>, res: bool) -> Folding<ConstantModel> {
    match c {
        Folding::Folded(x) => Folding::Folded(
            ConstantModel { value: x.value, needed_resolution: res || x.needed_resolution },
        ),
        Folding::Unfoldable => Folding::Unfoldable,
        Folding::Panics => Folding::Panics,
    }
}

/// Whether some constant of a sequence needed resolution.
pub open spec fn any_resolved(cs: Seq<ConstantModel>) -> bool {
    exists|i: int| 0 <= i < cs.len() && #[trigger] cs[i].needed_resolution
}

/// An array (`tuple == false`) or tuple of folded parts.
pub open spec fn aggregate(parts: Folding<Seq<ConstantModel>>, tuple: bool) -> Folding<ConstantModel> {
    match parts {
        Folding::Folded(cs) => Folding::Folded(
            ConstantModel {
                value: if tuple {
                    ValueModel::Tuple(cs)
                } else {
                    ValueModel::Vec(cs)
                },
                needed_resolution: any_resolved(cs),
            },
        ),
        Folding::Unfoldable => Folding::Unfoldable,
        Folding::Panics => Folding::Panics,
    }
}

/// `ps` in front of the folded rest of a sequence.
pub open spec fn prefixed(ps: Seq<ConstantModel>, rest: Folding<Seq<ConstantModel>>) -> Folding<Seq<ConstantModel>> {
    match rest {
        Folding::Folded(cs) => Folding::Folded(ps + cs),
        Folding::Unfoldable => Folding::Unfoldable,
        Folding::Panics => Folding::Panics,
    }
}

/// The value of an expression, folded in Rust's order of evaluation; `fo`
/// is how float literals compare.
pub open spec fn fold(e: Expr, fo: FloatOrderFn) -> Folding<ConstantModel>
    decreases e,
{
    match e {
        Expr::ExprParen(inner) => fold(*inner, fo),
        Expr::ExprPath(def) => match def {
            Some(body) => resolved(fold(*body, fo)),
            None => Folding::Unfoldable,
        },
        Expr::ExprBlock(block) => fold_block(block, fo),
        Expr::ExprIf(cond, then, otherwise) => match fold(*cond, fo) {
            Folding::Folded(c) => match c.value {
                ValueModel::Bool(b) => with_resolution(
                    if b {
                        fold_block(then, fo)
                    } else {
                        match otherwise {
                            Some(x) => fold(*x, fo),
                            None => Folding::Unfoldable,
                        }
                    },
                    c.needed_resolution,
                ),
                _ => Folding::Unfoldable,
            },
            Folding::Unfoldable => Folding::Unfoldable,
            Folding::Panics => Folding::Panics,
        },
        Expr::ExprLit(lit) => Folding::Folded(lit_model(lit)),
        Expr::ExprVec(es) => aggregate(fold_list(es@, fo), false),
        Expr::ExprTup(es) => aggregate(fold_list(es@, fo), true),
        Expr::ExprRepeat(value, number) => apply_pair(
            fold(*value, fo),
            fold(*number, fo),
            PairOp::Repeat,
            fo,
        ),
        Expr::ExprUnary(op, operand) => unop_fold(op, fold(*operand, fo)),
        Expr::ExprBinary(op, left, right) => binop_fold(op, fold(*left, fo), fold(*right, fo), fo),
        Expr::ExprOther => Folding::Unfoldable,
    }
}

/// A block folds to its trailing expression when it has no statements.
pub open spec fn fold_block(block: Block, fo: FloatOrderFn) -> Folding<ConstantModel>
    decreases block,
{
    if block.stmts == 0 {
        match block.expr {
            Some(x) => fold(*x, fo),
            None => Folding::Unfoldable,
        }
    } else {
        Folding::Unfoldable
    }
}

/// The expressions of a sequence folded from first to last, stopping at the
/// first that does not fold.
pub open spec fn fold_list(es: Seq<Expr>, fo: FloatOrderFn) -> Folding<Seq<ConstantModel>>
    decreases es,
{
    if es.len() == 0 {
        Folding::Folded(Seq::empty())
    } else {
        match fold(es[0], fo) {
            Folding::Folded(c) => prefixed(seq![c], fold_list(es.skip(1), fo)),
            Folding::Unfoldable => Folding::Unfoldable,
            Folding::Panics => Folding::Panics,
        }
    }
}

/// `r` is what the folding `fd` yields.
pub open spec fn folds_to(fd: Folding<ConstantModel>, r: Option<Constant>) -> bool {
    match fd {
        Folding::Folded(c) => r matches Some(x) && x@ == c,
        Folding::Unfoldable => r is None,
        Folding::Panics => false,
    }
}


/// `r` is the outcome `fd` describes.
pub open spec fn outcome_is(fd: Folding<ConstantModel>, r: Folding<Constant>) -> bool {
    match fd {
        Folding::Folded(c) => r matches Folding::Folded(x) && x@ == c,
        Folding::Unfoldable => r is Unfoldable,
        Folding::Panics => r is Panics,
    }
}

/// `r` is the outcome on values that `fd` describes.
pub open spec fn value_outcome_is(fd: Folding<ValueModel>, r: Folding<ConstantVariant>) -> bool {
    match fd {
        Folding::Folded(v) => r matches Folding::Folded(x) && x@ == v,
        Folding::Unfoldable => r is Unfoldable,
        Folding::Panics => r is Panics,
    }
}

fn from_opt(r: Option<ConstantVariant>) -> (f: Folding<ConstantVariant>)
    ensures
        value_outcome_is(from_option(opt_model(r)), f),
{
    match r {
        Some(c) => Folding::Folded(c),
        None => Folding::Unfoldable,
    }
}

/// An operation on the values of two folded operands.
fn apply_pair_values<F: Fn(&str, &str) -> Option<Order>>(
    op: PairOp,
    l: ConstantVariant,
    r: ConstantVariant,
    float_order: &F,
) -> (res: Folding<ConstantVariant>)
    requires
        total_float_order(*float_order),
    ensures
        forall|fo: FloatOrderFn| #[trigger] computes_float_order(*float_order, fo)
            ==> value_outcome_is(pair_value(op, l@, r@, fo), res),
{
    match op {
        PairOp::Add => from_opt(add_constants(l, r)),
        PairOp::Sub => from_opt(sub_constants(l, r)),
        PairOp::Bits(bop) => bit_constants(bop, l, r),
        PairOp::Eq => Folding::Folded(ConstantVariant::ConstantBool(l.equals(&r, float_order))),
        PairOp::Ne => Folding::Folded(ConstantVariant::ConstantBool(!l.equals(&r, float_order))),
        PairOp::Compare(ordering, b) => match l.compare(&r, float_order) {
            Some(o) => Folding::Folded(ConstantVariant::ConstantBool(b == (o == ordering))),
            None => Folding::Unfoldable,
        },
        PairOp::Repeat => match r {
            ConstantVariant::ConstantInt(v, t) => {
                if is_negative(t) && v != 0 {
                    return Folding::Panics;
                }
                let n = r.as_u64();
                Folding::Folded(ConstantVariant::ConstantRepeat(Box::new(l), n as usize))
            },
            _ => Folding::Panics,
        },
    }
}

/// simple constant folding: Insert an expression, get a constant or none.
/// Callers pass expressions whose folding does not panic; `fold_constant`
/// tells such expressions apart.
pub fn constant<F: Fn(&str, &str) -> Option<Order>>(e: &Expr, float_order: &F) -> (r: Option<Constant>)
    requires
        total_float_order(*float_order),
        forall|fo: FloatOrderFn| #[trigger] computes_float_order(*float_order, fo)
            ==> !(fold(*e, fo) is Panics),
    ensures
        forall|fo: FloatOrderFn| #[trigger] computes_float_order(*float_order, fo)
            ==> folds_to(fold(*e, fo), r),
{
    match fold_constant(e, float_order) {
        Folding::Folded(c) => Some(c),
        _ => None,
    }
}

/// Constant folding that reports where folding panics (a repeat count
/// that is not an integer, a shift by 64 or more) instead of panicking.
pub fn fold_constant<F: Fn(&str, &str) -> Option<Order>>(e: &Expr, float_order: &F) -> (r: Folding<Constant>)
    requires
        total_float_order(*float_order),
    ensures
        forall|fo: FloatOrderFn| #[trigger] computes_float_order(*float_order, fo)
            ==> outcome_is(fold(*e, fo), r),
    decreases e, 3nat,
{
    match e {
        Expr::ExprParen(inner) => fold_constant(inner, float_order),
        Expr::ExprPath(def) => fetch_path(def, float_order),
        Expr::ExprBlock(block) => constant_block(block, float_order),
        Expr::ExprIf(cond, then, otherwise) => constant_if(cond, then, otherwise, float_order, Ghost(*e)),
        Expr::ExprLit(lit) => Folding::Folded(lit_to_constant(lit)),
        Expr::ExprVec(vec) => constant_vec(vec, float_order, Ghost(*e)),
        Expr::ExprTup(tup) => constant_tup(tup, float_order, Ghost(*e)),
        Expr::ExprRepeat(value, number) => constant_binop_apply(
            value,
            number,
            PairOp::Repeat,
            float_order,
            Ghost(*e),
        ),
        Expr::ExprUnary(op, operand) => match fold_constant(operand, float_order) {
            Folding::Folded(o) => {
                let r = match op {
                    UnOp::UnNot => constant_not(o),
                    UnOp::UnNeg => constant_negate(o),
                    UnOp::UnUniq | UnOp::UnDeref => Some(o),
                };
                match r {
                    Some(c) => Folding::Folded(c),
                    None => Folding::Unfoldable,
                }
            },
            Folding::Unfoldable => Folding::Unfoldable,
            Folding::Panics => Folding::Panics,
        },
        Expr::ExprBinary(op, left, right) => constant_binop(*op, left, right, float_order, Ghost(*e)),
        Expr::ExprOther => Folding::Unfoldable,
    }
}

/// lookup a possibly constant expression from a ExprPath
fn fetch_path<F: Fn(&str, &str) -> Option<Order>>(def: &Option<Box<Expr>>, float_order: &F) -> (r: Folding<Constant>)
    requires
        total_float_order(*float_order),
    ensures
        forall|fo: FloatOrderFn| #[trigger] computes_float_order(*float_order, fo)
            ==> outcome_is(fold(Expr::ExprPath(*def), fo), r),
    decreases def, 2nat,
{
    match def {
        Some(body) => match fold_constant(body, float_order) {
            Folding::Folded(c) => Folding::Folded(Constant::new_resolved(c.constant)),
            Folding::Unfoldable => Folding::Unfoldable,
            Folding::Panics => Folding::Panics,
        },
        None => Folding::Unfoldable,
    }
}

/// A block can only yield a constant if it only has one constant expression
fn constant_block<F: Fn(&str, &str) -> Option<Order>>(block: &Block, float_order: &F) -> (r: Folding<Constant>)
    requires
        total_float_order(*float_order),
    ensures
        forall|fo: FloatOrderFn| #[trigger] computes_float_order(*float_order, fo)
            ==> outcome_is(fold_block(*block, fo), r),
    decreases block, 2nat,
{
    if block.stmts == 0 {
        match &block.expr {
            Some(b) => fold_constant(b, float_order),
            None => Folding::Unfoldable,
        }
    } else {
        Folding::Unfoldable
    }
}

fn constant_if<F: Fn(&str, &str) -> Option<Order>>(
    cond: &Box<Expr>,
    then: &Block,
    otherwise: &Option<Box<Expr>>,
    float_order: &F,
    Ghost(node): Ghost<Expr>,
) -> (r: Folding<Constant>)
    requires
        node == Expr::ExprIf(*cond, *then, *otherwise),
        total_float_order(*float_order),
    ensures
        forall|fo: FloatOrderFn| #[trigger] computes_float_order(*float_order, fo)
            ==> outcome_is(fold(node, fo), r),
    decreases node, 2nat,
{
    proof {
        assert(decreases_to!(node => node->ExprIf_0));
        assert(decreases_to!(node => node->ExprIf_1));
        assert(decreases_to!(node => node->ExprIf_2));
    }
    match fold_constant(cond, float_order) {
        Folding::Folded(c) => match c.constant {
            ConstantVariant::ConstantBool(b) => {
                let res = c.needed_resolution;
                let part = if b {
                    constant_block(then, float_order)
                } else {
                    match otherwise {
                        Some(expr) => fold_constant(expr, float_order),
                        None => Folding::Unfoldable,
                    }
                };
                match part {
                    Folding::Folded(part) => Folding::Folded(
                        Constant {
                            constant: part.constant,
                            needed_resolution: res || part.needed_resolution,
                        },
                    ),
                    Folding::Unfoldable => Folding::Unfoldable,
                    Folding::Panics => Folding::Panics,
                }
            },
            _ => Folding::Unfoldable,
        },
        Folding::Unfoldable => Folding::Unfoldable,
        Folding::Panics => Folding::Panics,
    }
}

/// Both operands folded, then the operation applied to their values.
fn constant_binop_apply<F: Fn(&str, &str) -> Option<Order>>(
    left: &Box<Expr>,
    right: &Box<Expr>,
    op: PairOp,
    float_order: &F,
    Ghost(node): Ghost<Expr>,
) -> (res: Folding<Constant>)
    requires
        decreases_to!(node => **left),
        decreases_to!(node => **right),
        total_float_order(*float_order),
    ensures
        forall|fo: FloatOrderFn| #[trigger] computes_float_order(*float_order, fo)
            ==> outcome_is(apply_pair(fold(**left, fo), fold(**right, fo), op, fo), res),
    decreases node, 0nat,
{
    let lc = fold_constant(left, float_order);
    let rc = fold_constant(right, float_order);
    match (lc, rc) {
        (Folding::Panics, _) | (_, Folding::Panics) => Folding::Panics,
        (Folding::Folded(l), Folding::Folded(r)) => {
            let ln = l.needed_resolution;
            let rn = r.needed_resolution;
            match apply_pair_values(op, l.constant, r.constant, float_order) {
                Folding::Folded(c) => Folding::Folded(Constant { needed_resolution: ln || rn, constant: c }),
                Folding::Unfoldable => Folding::Unfoldable,
                Folding::Panics => Folding::Panics,
            }
        },
        _ => Folding::Unfoldable,
    }
}

/// create `Some(ConstantVec(..))` of all constants, unless there is any
/// non-constant part
fn constant_vec<F: Fn(&str, &str) -> Option<Order>>(
    vec: &Vec<Expr>,
    float_order: &F,
    Ghost(node): Ghost<Expr>,
) -> (r: Folding<Constant>)
    requires
        decreases_to!(node => *vec),
        total_float_order(*float_order),
    ensures
        forall|fo: FloatOrderFn| #[trigger] computes_float_order(*float_order, fo)
            ==> outcome_is(aggregate(fold_list(vec@, fo), false), r),
    decreases node, 2nat,
{
    match constant_parts(vec, float_order, Ghost(node)) {
        Folding::Folded((parts, resolved)) => Folding::Folded(
            Constant { constant: ConstantVariant::ConstantVec(parts), needed_resolution: resolved },
        ),
        Folding::Unfoldable => Folding::Unfoldable,
        Folding::Panics => Folding::Panics,
    }
}

fn constant_tup<F: Fn(&str, &str) -> Option<Order>>(
    tup: &Vec<Expr>,
    float_order: &F,
    Ghost(node): Ghost<Expr>,
) -> (r: Folding<Constant>)
    requires
        decreases_to!(node => *tup),
        total_float_order(*float_order),
    ensures
        forall|fo: FloatOrderFn| #[trigger] computes_float_order(*float_order, fo)
            ==> outcome_is(aggregate(fold_list(tup@, fo), true), r),
    decreases node, 2nat,
{
    match constant_parts(tup, float_order, Ghost(node)) {
        Folding::Folded((parts, resolved)) => Folding::Folded(
            Constant { constant: ConstantVariant::ConstantTuple(parts), needed_resolution: resolved },
        ),
        Folding::Unfoldable => Folding::Unfoldable,
        Folding::Panics => Folding::Panics,
    }
}

/// The folded parts of an array or tuple, and whether any needed resolution.
fn constant_parts<F: Fn(&str, &str) -> Option<Order>>(
    vec: &Vec<Expr>,
    float_order: &F,
    Ghost(node): Ghost<Expr>,
) -> (r: Folding<(Vec<Constant>, bool)>)
    requires
        decreases_to!(node => *vec),
        total_float_order(*float_order),
    ensures
        forall|fo: FloatOrderFn| #[trigger] computes_float_order(*float_order, fo)
            ==> match fold_list(vec@, fo) {
                Folding::Folded(cs) => r matches Folding::Folded((parts, resolved)) && models_of(parts@) == cs
                    && resolved == any_resolved(cs),
                Folding::Unfoldable => r is Unfoldable,
                Folding::Panics => r is Panics,
            },
    decreases node, 0nat,
{
    let mut parts: Vec<Constant> = Vec::new();
    let mut resolved = false;
    let mut i: usize = 0;
    assert(vec@.skip(0) =~= vec@);
    assert(models_of(parts@) =~= Seq::<ConstantModel>::empty());
    while i < vec.len()
        invariant
            i <= vec.len(),
            decreases_to!(node => *vec),
            total_float_order(*float_order),
            forall|fo: FloatOrderFn| #[trigger] computes_float_order(*float_order, fo)
                ==> fold_list(vec@, fo) == prefixed(models_of(parts@), fold_list(vec@.skip(i as int), fo)),
            resolved == any_resolved(models_of(parts@)),
        decreases vec.len() - i,
    {
        assert(vec@.skip(i as int)[0] == vec@[i as int]);
        assert(vec@.skip(i as int).skip(1) =~= vec@.skip(i + 1));
        assert(decreases_to!(*vec => vec@[i as int]));
        match fold_constant(&vec[i], float_order) {
            Folding::Folded(p) => {
                let ghost old_parts = parts@;
                proof {
                    lemma_models_of(old_parts);
                }
                resolved = resolved || p.needed_resolution;
                parts.push(p);
                proof {
                    lemma_models_of(parts@);
                    assert(parts@.drop_last() =~= old_parts);
                    assert(models_of(parts@) =~= models_of(old_parts) + seq![model_of(p)]);
                    assert forall|fo: FloatOrderFn| #[trigger] computes_float_order(*float_order, fo)
                        implies fold_list(vec@, fo) == prefixed(models_of(parts@), fold_list(vec@.skip(i + 1), fo)) by {
                        let rest = fold_list(vec@.skip(i + 1), fo);
                        match rest {
                            Folding::Folded(cs) => {
                                assert(models_of(old_parts) + (seq![model_of(p)] + cs) =~= models_of(parts@) + cs);
                            },
                            _ => {},
                        }
                    }
                    let ms = models_of(parts@);
                    if resolved {
                        if p.needed_resolution {
                            assert(ms[ms.len() - 1].needed_resolution);
                        } else {
                            let j = choose|j: int| 0 <= j < models_of(old_parts).len() && #[trigger] models_of(old_parts)[j].needed_resolution;
                            assert(ms[j] == models_of(old_parts)[j]);
                        }
                    } else {
                        assert forall|j: int| 0 <= j < ms.len() implies !#[trigger] ms[j].needed_resolution by {
                            if j < old_parts.len() {
                                assert(ms[j] == models_of(old_parts)[j]);
                            }
                        }
                    }
                }
            },
            Folding::Unfoldable => {
                return Folding::Unfoldable;
            },
            Folding::Panics => {
                return Folding::Panics;
            },
        }
        i = i + 1;
    }
    proof {
        assert forall|fo: FloatOrderFn| #[trigger] computes_float_order(*float_order, fo)
            implies fold_list(vec@, fo) == Folding::Folded(models_of(parts@)) by {
            assert(vec@.skip(i as int) =~= Seq::<Expr>::empty());
            assert(models_of(parts@) + Seq::<ConstantModel>::empty() =~= models_of(parts@));
        }
    }
    Folding::Folded((parts, resolved))
}

/// `&&` and `||`: the left operand decides when it is `b`.
fn constant_short_circuit<F: Fn(&str, &str) -> Option<Order>>(
    left: &Box<Expr>,
    right: &Box<Expr>,
    b: bool,
    float_order: &F,
    Ghost(node): Ghost<Expr>,
) -> (res: Folding<Constant>)
    requires
        decreases_to!(node => **left),
        decreases_to!(node => **right),
        total_float_order(*float_order),
    ensures
        forall|fo: FloatOrderFn| #[trigger] computes_float_order(*float_order, fo)
            ==> outcome_is(short_circuit(fold(**left, fo), fold(**right, fo), b), res),
    decreases node, 1nat,
{
    match fold_constant(left, float_order) {
        Folding::Folded(left) => {
            if let ConstantVariant::ConstantBool(lbool) = left.constant {
                if lbool == b {
                    Folding::Folded(left)
                } else {
                    match fold_constant(right, float_order) {
                        Folding::Folded(right) => {
                            if let ConstantVariant::ConstantBool(_) = right.constant {
                                Folding::Folded(
                                    Constant {
                                        constant: right.constant,
                                        needed_resolution: left.needed_resolution
                                            || right.needed_resolution,
                                    },
                                )
                            } else {
                                Folding::Unfoldable
                            }
                        },
                        Folding::Unfoldable => Folding::Unfoldable,
                        Folding::Panics => Folding::Panics,
                    }
                }
            } else {
                Folding::Unfoldable
            }
        },
        Folding::Unfoldable => Folding::Unfoldable,
        Folding::Panics => Folding::Panics,
    }
}

/// Compares the two operands; folds to whether their order being
/// `ordering` is `b`.
fn constant_cmp<F: Fn(&str, &str) -> Option<Order>>(
    left: &Box<Expr>,
    right: &Box<Expr>,
    ordering: Order,
    b: bool,
    float_order: &F,
    Ghost(node): Ghost<Expr>,
) -> (res: Folding<Constant>)
    requires
        decreases_to!(node => **left),
        decreases_to!(node => **right),
        total_float_order(*float_order),
    ensures
        forall|fo: FloatOrderFn| #[trigger] computes_float_order(*float_order, fo)
            ==> outcome_is(apply_pair(fold(**left, fo), fold(**right, fo), PairOp::Compare(ordering, b), fo), res),
    decreases node, 1nat,
{
    constant_binop_apply(left, right, PairOp::Compare(ordering, b), float_order, Ghost(node))
}

fn constant_binop<F: Fn(&str, &str) -> Option<Order>>(
    op: BinOp,
    left: &Box<Expr>,
    right: &Box<Expr>,
    float_order: &F,
    Ghost(node): Ghost<Expr>,
) -> (res: Folding<Constant>)
    requires
        node == Expr::ExprBinary(op, *left, *right),
        total_float_order(*float_order),
    ensures
        forall|fo: FloatOrderFn| #[trigger] computes_float_order(*float_order, fo)
            ==> outcome_is(fold(node, fo), res),
    decreases node, 2nat,
{
    proof {
        assert(decreases_to!(node => node->ExprBinary_1));
        assert(decreases_to!(node => node->ExprBinary_2));
    }
    match op {
        BinOp::BiAdd => constant_binop_apply(left, right, PairOp::Add, float_order, Ghost(node)),
        BinOp::BiSub => constant_binop_apply(left, right, PairOp::Sub, float_order, Ghost(node)),
        BinOp::BiAnd => constant_short_circuit(left, right, false, float_order, Ghost(node)),
        BinOp::BiOr => constant_short_circuit(left, right, true, float_order, Ghost(node)),
        BinOp::BiBitXor => constant_bitop(left, right, BitOp::Xor, float_order, Ghost(node)),
        BinOp::BiBitAnd => constant_bitop(left, right, BitOp::And, float_order, Ghost(node)),
        BinOp::BiBitOr => constant_bitop(left, right, BitOp::Or, float_order, Ghost(node)),
        BinOp::BiShl => constant_bitop(left, right, BitOp::Shl, float_order, Ghost(node)),
        BinOp::BiShr => constant_bitop(left, right, BitOp::Shr, float_order, Ghost(node)),
        BinOp::BiEq => constant_binop_apply(left, right, PairOp::Eq, float_order, Ghost(node)),
        BinOp::BiNe => constant_binop_apply(left, right, PairOp::Ne, float_order, Ghost(node)),
        BinOp::BiLt => constant_cmp(left, right, Order::Less, true, float_order, Ghost(node)),
        BinOp::BiLe => constant_cmp(left, right, Order::Greater, false, float_order, Ghost(node)),
        BinOp::BiGe => constant_cmp(left, right, Order::Less, false, float_order, Ghost(node)),
        BinOp::BiGt => constant_cmp(left, right, Order::Greater, true, float_order, Ghost(node)),
        _ => Folding::Unfoldable,
    }
}

/// A bit operation on two folded operands.
fn constant_bitop<F: Fn(&str, &str) -> Option<Order>>(
    left: &Box<Expr>,
    right: &Box<Expr>,
    op: BitOp,
    float_order: &F,
    Ghost(node): Ghost<Expr>,
) -> (res: Folding<Constant>)
    requires
        decreases_to!(node => **left),
        decreases_to!(node => **right),
        total_float_order(*float_order),
    ensures
        forall|fo: FloatOrderFn| #[trigger] computes_float_order(*float_order, fo)
            ==> outcome_is(apply_pair(fold(**left, fo), fold(**right, fo), PairOp::Bits(op), fo), res),
    decreases node, 1nat,
{
    constant_binop_apply(left, right, PairOp::Bits(op), float_order, Ghost(node))
}

} // verus!
