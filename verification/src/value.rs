use std::rc::Rc;
use vstd::prelude::*;
use crate::ast::{FloatTy, LitIntType, StrStyle, spec_is_negative};
use vstd::utf8::encode_utf8;

verus! {

/// The width of a float literal: suffixed `f32`, suffixed `f64`, or unsuffixed.
#[derive(PartialEq, Eq, Structural, Debug, Clone, Copy)]
pub enum FloatWidth {
    Fw32,
    Fw64,
    FwAny,
}

/// The outcome of folding: a value, no value (the expression is not a
/// constant the folder can compute), or a panic of the folder.
pub enum Folding<T> {
    Folded(T),
    Unfoldable,
    Panics,
}

/// The outcome of comparing two values.
#[derive(PartialEq, Eq, Structural, Debug, Clone, Copy)]
pub enum Order {
    Less,
    Equal,
    Greater,
}

/// A folded constant, together with whether folding it had to look through
/// a path to a named constant.
#[derive(Debug)]
pub struct Constant {
    pub constant: ConstantVariant,
    pub needed_resolution: bool,
}

/// A Lit_-like enum to fold constant `Expr`s into.
#[derive(Debug)]
pub enum ConstantVariant {
    /// a String "abc"
    ConstantStr(String, StrStyle),
    /// a Binary String b"abc"
    ConstantBinary(Rc<Vec<u8>>),
    /// a single byte b'a'
    ConstantByte(u8),
    /// a single char 'a'
    ConstantChar(char),
    /// an integer: its magnitude and its literal type, which carries the sign
    ConstantInt(u64, LitIntType),
    /// a float with given type, kept as the text of the literal
    ConstantFloat(String, FloatWidth),
    /// true or false
    ConstantBool(bool),
    /// an array of constants
    ConstantVec(Vec<Constant>),
    /// also an array, but with only one constant, repeated N times
    ConstantRepeat(Box<ConstantVariant>, usize),
    /// a tuple of constants
    ConstantTuple(Vec<Constant>),
}

/// The mathematical value of a `ConstantVariant`.
pub enum ValueModel {
    Str(Seq<char>, StrStyle),
    Binary(Seq<u8>),
    Byte(u8),
    Char(char),
    Int(u64, LitIntType),
    Float(Seq<char>, FloatWidth),
    Bool(bool),
    Vec(Seq<ConstantModel>),
    Repeat(Box<ValueModel>, usize),
    Tuple(Seq<ConstantModel>),
}

/// The mathematical value of a `Constant`.
pub struct ConstantModel {
    pub value: ValueModel,
    pub needed_resolution: bool,
}

/// How two float literals compare as `f64` values: `None` when either
/// does not parse or the two are unordered.
pub type FloatOrderFn = spec_fn(Seq<char>, Seq<char>) -> Option<Order>;

pub open spec fn model_of_variant(v: ConstantVariant) -> ValueModel
    decreases v,
{
    match v {
        ConstantVariant::ConstantStr(s, st) => ValueModel::Str(s@, st),
        ConstantVariant::ConstantBinary(b) => ValueModel::Binary(b@),
        ConstantVariant::ConstantByte(b) => ValueModel::Byte(b),
        ConstantVariant::ConstantChar(c) => ValueModel::Char(c),
        ConstantVariant::ConstantInt(n, t) => ValueModel::Int(n, t),
        ConstantVariant::ConstantFloat(s, w) => ValueModel::Float(s@, w),
        ConstantVariant::ConstantBool(b) => ValueModel::Bool(b),
        ConstantVariant::ConstantVec(cs) => ValueModel::Vec(models_of(cs@)),
        ConstantVariant::ConstantRepeat(b, n) => ValueModel::Repeat(
            Box::new(model_of_variant(*b)),
            n,
        ),
        ConstantVariant::ConstantTuple(cs) => ValueModel::Tuple(models_of(cs@)),
    }
}

pub open spec fn model_of(c: Constant) -> ConstantModel
    decreases c,
{
    ConstantModel { value: model_of_variant(c.constant), needed_resolution: c.needed_resolution }
}

pub open spec fn models_of(cs: Seq<Constant>) -> Seq<ConstantModel>
    decreases cs,
{
    if cs.len() == 0 {
        Seq::empty()
    } else {
        models_of(cs.drop_last()).push(model_of(cs.last()))
    }
}

/// The width of a suffixed float type.
pub open spec fn width_of(ty: FloatTy) -> FloatWidth {
    match ty {
        FloatTy::TyF32 => FloatWidth::Fw32,
        FloatTy::TyF64 => FloatWidth::Fw64,
    }
}

impl From<FloatTy> for FloatWidth {
    fn from(ty: FloatTy) -> (w: FloatWidth) {
        match ty {
            FloatTy::TyF32 => FloatWidth::Fw32,
            FloatTy::TyF64 => FloatWidth::Fw64,
        }
    }
}

impl vstd::std_specs::convert::FromSpecImpl<FloatTy> for FloatWidth {
    open spec fn obeys_from_spec() -> bool {
        true
    }

    open spec fn from_spec(ty: FloatTy) -> FloatWidth {
        width_of(ty)
    }
}

impl Constant {
    /// A constant that was folded without looking through a path.
    pub fn new(variant: ConstantVariant) -> (c: Constant)
        ensures
            c.constant == variant,
            !c.needed_resolution,
    {
        Constant { constant: variant, needed_resolution: false }
    }

    /// A constant whose folding looked through a path to a named constant.
    pub fn new_resolved(variant: ConstantVariant) -> (c: Constant)
        ensures
            c.constant == variant,
            c.needed_resolution,
    {
        Constant { constant: variant, needed_resolution: true }
    }
}

impl ConstantVariant {
    /// The value of an integer constant as a `u64`. Callers pass integers
    /// that are not negative only: other values do not convert losslessly.
    pub fn as_u64(&self) -> (v: u64)
        requires
            *self matches ConstantVariant::ConstantInt(n, t) && !int_is_negative(n, t),
        ensures
            self matches ConstantVariant::ConstantInt(n, _) && v == n,
    {
        match self {
            ConstantVariant::ConstantInt(val, _) => *val,
            _ => 0,
        }
    }
}

impl View for ConstantVariant {
    type V = ValueModel;

    open spec fn view(&self) -> ValueModel {
        model_of_variant(*self)
    }
}

impl View for Constant {
    type V = ConstantModel;

    open spec fn view(&self) -> ConstantModel {
        model_of(*self)
    }
}

pub proof fn lemma_models_of(cs: Seq<Constant>)
    ensures
        models_of(cs).len() == cs.len(),
        forall|i: int| 0 <= i < cs.len() ==> #[trigger] models_of(cs)[i] == model_of(cs[i]),
    decreases cs.len(),
{
    if cs.len() > 0 {
        lemma_models_of(cs.drop_last());
    }
}

/// Whether two float widths may be compared.
pub open spec fn widths_compatible(l: FloatWidth, r: FloatWidth) -> bool {
    l == FloatWidth::FwAny || r == FloatWidth::FwAny || l == r
}

/// The order of two naturals.
pub open spec fn order_of(l: int, r: int) -> Order {
    if l < r {
        Order::Less
    } else if l == r {
        Order::Equal
    } else {
        Order::Greater
    }
}

/// Lexicographic order of two byte strings.
pub open spec fn bytes_order(l: Seq<u8>, r: Seq<u8>) -> Order
    decreases l.len(),
{
    if l.len() == 0 || r.len() == 0 {
        order_of(l.len() as int, r.len() as int)
    } else if l[0] != r[0] {
        order_of(l[0] as int, r[0] as int)
    } else {
        bytes_order(l.drop_first(), r.drop_first())
    }
}

/// The signed value of an integer constant: its magnitude with its type's sign.
pub open spec fn int_value(v: u64, ty: LitIntType) -> int {
    if spec_is_negative(ty) {
        -(v as int)
    } else {
        v as int
    }
}

/// Whether an integer constant is a negative number (a negative zero is not).
pub open spec fn int_is_negative(v: u64, ty: LitIntType) -> bool {
    spec_is_negative(ty) && v != 0
}

/// Equality of constant values.
pub open spec fn value_eq(l: ValueModel, r: ValueModel, fo: FloatOrderFn) -> bool
    decreases l,
{
    match l {
        ValueModel::Str(ls, lst) => r matches ValueModel::Str(rs, rst) && ls == rs && lst == rst,
        ValueModel::Binary(lb) => r matches ValueModel::Binary(rb) && lb == rb,
        ValueModel::Byte(lb) => r matches ValueModel::Byte(rb) && lb == rb,
        ValueModel::Char(lc) => r matches ValueModel::Char(rc) && lc == rc,
        ValueModel::Int(lv, lt) => r matches ValueModel::Int(rv, rt) && lv == rv
            && int_is_negative(lv, lt) == int_is_negative(rv, rt),
        ValueModel::Float(ls, lw) => r matches ValueModel::Float(rs, rw) && widths_compatible(lw, rw)
            && fo(ls, rs) == Some(Order::Equal),
        ValueModel::Bool(lb) => r matches ValueModel::Bool(rb) && lb == rb,
        ValueModel::Vec(ls) => r matches ValueModel::Vec(rs) && seq_eq(ls, rs, fo),
        ValueModel::Repeat(lv, ln) => r matches ValueModel::Repeat(rv, rn) && ln == rn
            && value_eq(*lv, *rv, fo),
        ValueModel::Tuple(ls) => r matches ValueModel::Tuple(rs) && seq_eq(ls, rs, fo),
    }
}

/// Equality of constants: equal values and equal resolution flags.
pub open spec fn constant_eq(l: ConstantModel, r: ConstantModel, fo: FloatOrderFn) -> bool
    decreases l,
{
    value_eq(l.value, r.value, fo) && l.needed_resolution == r.needed_resolution
}

/// Element-wise equality of two sequences of constants.
pub open spec fn seq_eq(l: Seq<ConstantModel>, r: Seq<ConstantModel>, fo: FloatOrderFn) -> bool
    decreases l,
{
    if l.len() == 0 || r.len() == 0 {
        l.len() == r.len()
    } else {
        constant_eq(l[0], r[0], fo) && seq_eq(l.skip(1), r.skip(1), fo)
    }
}


/// Order of constant values; `None` where the two are not comparable.
/// Integers are ordered by their numeric values, whatever their types.
pub open spec fn value_order(l: ValueModel, r: ValueModel, fo: FloatOrderFn) -> Option<Order>
    decreases l,
{
    match l {
        ValueModel::Str(ls, lst) => match r {
            ValueModel::Str(rs, rst) => if lst != rst {
                None
            } else {
                Some(bytes_order(encode_utf8(ls), encode_utf8(rs)))
            },
            _ => None,
        },
        ValueModel::Byte(lb) => match r {
            ValueModel::Byte(rb) => Some(order_of(lb as int, rb as int)),
            _ => None,
        },
        ValueModel::Char(lc) => match r {
            ValueModel::Char(rc) => Some(order_of(lc as int, rc as int)),
            _ => None,
        },
        ValueModel::Int(lv, lt) => match r {
            ValueModel::Int(rv, rt) => Some(order_of(int_value(lv, lt), int_value(rv, rt))),
            _ => None,
        },
        ValueModel::Float(ls, lw) => match r {
            ValueModel::Float(rs, rw) => if widths_compatible(lw, rw) {
                fo(ls, rs)
            } else {
                None
            },
            _ => None,
        },
        ValueModel::Bool(lb) => match r {
            ValueModel::Bool(rb) => Some(order_of(bool_rank(lb), bool_rank(rb))),
            _ => None,
        },
        ValueModel::Vec(ls) => match r {
            ValueModel::Vec(rs) => seq_order(ls, rs, fo),
            _ => None,
        },
        ValueModel::Repeat(lv, ln) => match r {
            ValueModel::Repeat(rv, rn) => match value_order(*lv, *rv, fo) {
                Some(Order::Equal) => Some(order_of(ln as int, rn as int)),
                x => x,
            },
            _ => None,
        },
        ValueModel::Tuple(ls) => match r {
            ValueModel::Tuple(rs) => seq_order(ls, rs, fo),
            _ => None,
        },
        ValueModel::Binary(_) => None,
    }
}

/// `false` is ordered before `true`.
pub open spec fn bool_rank(b: bool) -> int {
    if b {
        1
    } else {
        0
    }
}

/// Lexicographic order of two sequences of constants, comparing their values.
pub open spec fn seq_order(l: Seq<ConstantModel>, r: Seq<ConstantModel>, fo: FloatOrderFn) -> Option<
    Order,
>
    decreases l,
{
    if l.len() == 0 || r.len() == 0 {
        Some(order_of(l.len() as int, r.len() as int))
    } else {
        match value_order(l[0].value, r[0].value, fo) {
            Some(Order::Equal) => seq_order(l.skip(1), r.skip(1), fo),
            x => x,
        }
    }
}

/// `f` computes the float order that `fo` describes.
pub open spec fn computes_float_order<F: Fn(&str, &str) -> Option<Order>>(
    f: F,
    fo: FloatOrderFn,
) -> bool {
    forall|a: &str, b: &str, r: Option<Order>| #[trigger] f.ensures((a, b), r) ==> r == fo(a@, b@)
}

/// `f` may be called on any two strings.
pub open spec fn total_float_order<F: Fn(&str, &str) -> Option<Order>>(f: F) -> bool {
    forall|a: &str, b: &str| #[trigger] f.requires((a, b))
}

/// The order of two naturals.
fn order_u64(l: u64, r: u64) -> (o: Order)
    ensures
        o == order_of(l as int, r as int),
{
    if l < r {
        Order::Less
    } else if l == r {
        Order::Equal
    } else {
        Order::Greater
    }
}

/// Element-wise equality of two byte strings.
fn bytes_equal(l: &[u8], r: &[u8]) -> (eq: bool)
    ensures
        eq == (l@ == r@),
{
    if l.len() != r.len() {
        return false;
    }
    let mut i: usize = 0;
    while i < l.len()
        invariant
            i <= l.len(),
            l.len() == r.len(),
            forall|j: int| 0 <= j < i ==> l@[j] == r@[j],
        decreases l.len() - i,
    {
        if l[i] != r[i] {
            return false;
        }
        i = i + 1;
    }
    assert(l@ =~= r@);
    true
}

/// Lexicographic order of two byte strings.
fn bytes_compare(l: &[u8], r: &[u8]) -> (o: Order)
    ensures
        o == bytes_order(l@, r@),
{
    let mut i: usize = 0;
    assert(l@.skip(0) =~= l@);
    assert(r@.skip(0) =~= r@);
    while i < l.len() && i < r.len()
        invariant
            i <= l.len(),
            i <= r.len(),
            bytes_order(l@, r@) == bytes_order(l@.skip(i as int), r@.skip(i as int)),
        decreases l.len() - i,
    {
        if l[i] != r[i] {
            return order_u64(l[i] as u64, r[i] as u64);
        }
        assert(l@.skip(i as int).drop_first() =~= l@.skip(i + 1));
        assert(r@.skip(i as int).drop_first() =~= r@.skip(i + 1));
        i = i + 1;
    }
    order_u64(l.len() as u64, r.len() as u64)
}

impl Constant {
    /// Constants are equal when their values are equal and they agree on
    /// whether folding them needed resolution.
    pub fn equals<F: Fn(&str, &str) -> Option<Order>>(&self, other: &Constant, float_order: &F) -> (eq: bool)
        requires
            total_float_order(*float_order),
        ensures
            forall|fo: FloatOrderFn| #[trigger] computes_float_order(*float_order, fo)
                ==> eq == constant_eq(self@, other@, fo),
        decreases self,
    {
        self.constant.equals(&other.constant, float_order)
            && self.needed_resolution == other.needed_resolution
    }

    /// Constants are ordered by their values alone.
    pub fn compare<F: Fn(&str, &str) -> Option<Order>>(&self, other: &Constant, float_order: &F) -> (o: Option<Order>)
        requires
            total_float_order(*float_order),
        ensures
            forall|fo: FloatOrderFn| #[trigger] computes_float_order(*float_order, fo)
                ==> o == value_order(self.constant@, other.constant@, fo),
        decreases self,
    {
        self.constant.compare(&other.constant, float_order)
    }
}

/// Element-wise equality of two sequences of constants.
fn constants_equal<F: Fn(&str, &str) -> Option<Order>>(l: &Vec<Constant>, r: &Vec<Constant>, float_order: &F) -> (eq: bool)
    requires
        total_float_order(*float_order),
    ensures
        forall|fo: FloatOrderFn| #[trigger] computes_float_order(*float_order, fo)
            ==> eq == seq_eq(models_of(l@), models_of(r@), fo),
    decreases l,
{
    proof {
        lemma_models_of(l@);
        lemma_models_of(r@);
    }
    let ghost lm = models_of(l@);
    let ghost rm = models_of(r@);
    if l.len() != r.len() {
        proof {
            assert forall|fo: FloatOrderFn| #[trigger] computes_float_order(*float_order, fo)
                implies !seq_eq(lm, rm, fo) by {
                if seq_eq(lm, rm, fo) {
                    lemma_seq_eq_len(lm, rm, fo);
                }
            }
        }
        return false;
    }
    let mut i: usize = 0;
    assert(lm.skip(0) =~= lm);
    assert(rm.skip(0) =~= rm);
    while i < l.len()
        invariant
            i <= l.len(),
            l.len() == r.len(),
            lm == models_of(l@),
            rm == models_of(r@),
            lm.len() == l.len(),
            rm.len() == r.len(),
            forall|j: int| 0 <= j < l.len() ==> #[trigger] lm[j] == model_of(l@[j]),
            forall|j: int| 0 <= j < r.len() ==> #[trigger] rm[j] == model_of(r@[j]),
            total_float_order(*float_order),
            forall|fo: FloatOrderFn| #[trigger] computes_float_order(*float_order, fo)
                ==> seq_eq(lm, rm, fo) == seq_eq(lm.skip(i as int), rm.skip(i as int), fo),
        decreases l.len() - i,
    {
        assert(lm.skip(i as int).skip(1) =~= lm.skip(i + 1));
        assert(rm.skip(i as int).skip(1) =~= rm.skip(i + 1));
        assert(lm.skip(i as int)[0] == lm[i as int]);
        assert(rm.skip(i as int)[0] == rm[i as int]);
        if !l[i].equals(&r[i], float_order) {
            return false;
        }
        i = i + 1;
    }
    true
}

/// Lexicographic order of two sequences of constants.
fn constants_compare<F: Fn(&str, &str) -> Option<Order>>(l: &Vec<Constant>, r: &Vec<Constant>, float_order: &F) -> (o: Option<Order>)
    requires
        total_float_order(*float_order),
    ensures
        forall|fo: FloatOrderFn| #[trigger] computes_float_order(*float_order, fo)
            ==> o == seq_order(models_of(l@), models_of(r@), fo),
    decreases l,
{
    proof {
        lemma_models_of(l@);
        lemma_models_of(r@);
    }
    let ghost lm = models_of(l@);
    let ghost rm = models_of(r@);
    let mut i: usize = 0;
    assert(lm.skip(0) =~= lm);
    assert(rm.skip(0) =~= rm);
    while i < l.len() && i < r.len()
        invariant
            i <= l.len(),
            i <= r.len(),
            lm == models_of(l@),
            rm == models_of(r@),
            lm.len() == l.len(),
            rm.len() == r.len(),
            forall|j: int| 0 <= j < l.len() ==> #[trigger] lm[j] == model_of(l@[j]),
            forall|j: int| 0 <= j < r.len() ==> #[trigger] rm[j] == model_of(r@[j]),
            total_float_order(*float_order),
            forall|fo: FloatOrderFn| #[trigger] computes_float_order(*float_order, fo)
                ==> seq_order(lm, rm, fo) == seq_order(lm.skip(i as int), rm.skip(i as int), fo),
        decreases l.len() - i,
    {
        assert(lm.skip(i as int).skip(1) =~= lm.skip(i + 1));
        assert(rm.skip(i as int).skip(1) =~= rm.skip(i + 1));
        assert(lm.skip(i as int)[0] == lm[i as int]);
        assert(rm.skip(i as int)[0] == rm[i as int]);
        let o = l[i].constant.compare(&r[i].constant, float_order);
        match o {
            Some(Order::Equal) => {},
            _ => {
                return o;
            },
        }
        i = i + 1;
    }
    Some(order_u64(l.len() as u64, r.len() as u64))
}

proof fn lemma_seq_eq_len(l: Seq<ConstantModel>, r: Seq<ConstantModel>, fo: FloatOrderFn)
    requires
        seq_eq(l, r, fo),
    ensures
        l.len() == r.len(),
    decreases l.len(),
{
    if l.len() > 0 && r.len() > 0 {
        lemma_seq_eq_len(l.skip(1), r.skip(1), fo);
    }
}

impl ConstantVariant {
    /// Equality of constant values. Two integers are equal when they have the
    /// same numeric value, whatever their types; two floats when their widths
    /// may be compared and `float_order` finds them equal.
    pub fn equals<F: Fn(&str, &str) -> Option<Order>>(&self, other: &ConstantVariant, float_order: &F) -> (eq: bool)
        requires
            total_float_order(*float_order),
        ensures
            forall|fo: FloatOrderFn| #[trigger] computes_float_order(*float_order, fo)
                ==> eq == value_eq(self@, other@, fo),
        decreases self,
    {
        match self {
            ConstantVariant::ConstantStr(ls, lsty) => match other {
                ConstantVariant::ConstantStr(rs, rsty) => *ls == *rs && *lsty == *rsty,
                _ => false,
            },
            ConstantVariant::ConstantBinary(l) => match other {
                ConstantVariant::ConstantBinary(r) => bytes_equal(l.as_slice(), r.as_slice()),
                _ => false,
            },
            ConstantVariant::ConstantByte(l) => match other {
                ConstantVariant::ConstantByte(r) => *l == *r,
                _ => false,
            },
            ConstantVariant::ConstantChar(l) => match other {
                ConstantVariant::ConstantChar(r) => *l == *r,
                _ => false,
            },
            ConstantVariant::ConstantInt(lv, lty) => match other {
                ConstantVariant::ConstantInt(rv, rty) => *lv == *rv && (crate::ast::is_negative(*lty)
                    && *lv != 0) == (crate::ast::is_negative(*rty) && *rv != 0),
                _ => false,
            },
            ConstantVariant::ConstantFloat(ls, lw) => match other {
                ConstantVariant::ConstantFloat(rs, rw) => {
                    if widths_match(*lw, *rw) {
                        match float_order(ls.as_str(), rs.as_str()) {
                            Some(Order::Equal) => true,
                            _ => false,
                        }
                    } else {
                        false
                    }
                },
                _ => false,
            },
            ConstantVariant::ConstantBool(l) => match other {
                ConstantVariant::ConstantBool(r) => *l == *r,
                _ => false,
            },
            ConstantVariant::ConstantVec(l) => match other {
                ConstantVariant::ConstantVec(r) => constants_equal(l, r, float_order),
                _ => false,
            },
            ConstantVariant::ConstantRepeat(lv, ls) => match other {
                ConstantVariant::ConstantRepeat(rv, rs) => *ls == *rs && (**lv).equals(&**rv, float_order),
                _ => false,
            },
            ConstantVariant::ConstantTuple(l) => match other {
                ConstantVariant::ConstantTuple(r) => constants_equal(l, r, float_order),
                _ => false,
            },
        }
    }

    /// Order of constant values, `None` where the two cannot be compared.
    pub fn compare<F: Fn(&str, &str) -> Option<Order>>(&self, other: &ConstantVariant, float_order: &F) -> (o: Option<Order>)
        requires
            total_float_order(*float_order),
        ensures
            forall|fo: FloatOrderFn| #[trigger] computes_float_order(*float_order, fo)
                ==> o == value_order(self@, other@, fo),
        decreases self,
    {
        match self {
            ConstantVariant::ConstantStr(ls, lsty) => match other {
                ConstantVariant::ConstantStr(rs, rsty) => if *lsty != *rsty {
                    None
                } else {
                    Some(bytes_compare(ls.as_str().as_bytes(), rs.as_str().as_bytes()))
                },
                _ => None,
            },
            ConstantVariant::ConstantByte(l) => match other {
                ConstantVariant::ConstantByte(r) => Some(order_u64(*l as u64, *r as u64)),
                _ => None,
            },
            ConstantVariant::ConstantChar(l) => match other {
                ConstantVariant::ConstantChar(r) => Some(order_u64(*l as u64, *r as u64)),
                _ => None,
            },
            ConstantVariant::ConstantInt(lv, lty) => match other {
                ConstantVariant::ConstantInt(rv, rty) => {
                    let ln = crate::ast::is_negative(*lty) && *lv != 0;
                    let rn = crate::ast::is_negative(*rty) && *rv != 0;
                    Some(
                        if ln && rn {
                            order_u64(*rv, *lv)
                        } else if !ln && !rn {
                            order_u64(*lv, *rv)
                        } else if ln {
                            Order::Less
                        } else {
                            Order::Greater
                        },
                    )
                },
                _ => None,
            },
            ConstantVariant::ConstantFloat(ls, lw) => match other {
                ConstantVariant::ConstantFloat(rs, rw) => {
                    if widths_match(*lw, *rw) {
                        float_order(ls.as_str(), rs.as_str())
                    } else {
                        None
                    }
                },
                _ => None,
            },
            ConstantVariant::ConstantBool(l) => match other {
                ConstantVariant::ConstantBool(r) => Some(order_u64(*l as u64, *r as u64)),
                _ => None,
            },
            ConstantVariant::ConstantVec(l) => match other {
                ConstantVariant::ConstantVec(r) => constants_compare(l, r, float_order),
                _ => None,
            },
            ConstantVariant::ConstantRepeat(lv, ls) => match other {
                ConstantVariant::ConstantRepeat(rv, rs) => {
                    let o = (**lv).compare(&**rv, float_order);
                    match o {
                        Some(Order::Equal) => Some(order_u64(*ls as u64, *rs as u64)),
                        _ => o,
                    }
                },
                _ => None,
            },
            ConstantVariant::ConstantTuple(l) => match other {
                ConstantVariant::ConstantTuple(r) => constants_compare(l, r, float_order),
                _ => None,
            },
            ConstantVariant::ConstantBinary(_) => None,
        }
    }
}

/// Whether two float widths may be compared.
fn widths_match(l: FloatWidth, r: FloatWidth) -> (b: bool)
    ensures
        b == widths_compatible(l, r),
{
    match (l, r) {
        (FloatWidth::FwAny, _) | (_, FloatWidth::FwAny) | (FloatWidth::Fw32, FloatWidth::Fw32) | (
            FloatWidth::Fw64,
            FloatWidth::Fw64,
        ) => true,
        _ => false,
    }
}

} // verus!
