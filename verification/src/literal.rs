//! Runtime values. Numbers are bit patterns, strings own their text, and
//! arrays and instances are handles into the interpreter's heap, so that
//! every copy of such a value aliases the same storage.
use crate::callable::Callable;
use crate::num::num_eq_bits;
use crate::num::{is_nan_bits, num_eq};
use vstd::prelude::*;

verus! {

pub enum Literal {
    Number(u64),
    String(String),
    Bool(bool),
    Callable(Callable),
    Instance(usize),
    Array(usize),
}

pub struct QalamArray {
    pub elements: Vec<Option<Literal>>,
}

impl QalamArray {
    pub fn init() -> (r: Self)
        ensures
            r.elements@.len() == 0,
    {
        QalamArray { elements: Vec::new() }
    }

    pub fn from_vec(vec: Vec<Option<Literal>>) -> (r: Self)
        ensures
            r.elements == vec,
    {
        QalamArray { elements: vec }
    }

    /// A fresh array of the given size with every slot holding the value.
    pub fn construct(size: usize, val: &Option<Literal>) -> (r: Self)
        ensures
            r.elements@.len() == size,
            forall|i: int| 0 <= i < size ==> opt_like(*val, #[trigger] r.elements@[i]),
    {
        let mut elements: Vec<Option<Literal>> = Vec::new();
        let mut k: usize = 0;
        while k < size
            invariant
                k <= size,
                elements@.len() == k,
                forall|i: int| 0 <= i < k ==> opt_like(*val, #[trigger] elements@[i]),
            decreases size - k,
        {
            let v = opt_dup(val);
            proof {
                lemma_opt_like_sym(*val, v);
            }
            elements.push(v);
            k = k + 1;
        }
        QalamArray { elements }
    }
}

/// Two values that the rest of the system cannot tell apart: equal except
/// that string contents are compared as text.
pub open spec fn lit_like(a: Literal, b: Literal) -> bool {
    match (a, b) {
        (Literal::String(x), Literal::String(y)) => x@ == y@,
        _ => a == b,
    }
}

pub open spec fn opt_like(a: Option<Literal>, b: Option<Literal>) -> bool {
    match (a, b) {
        (Option::Some(x), Option::Some(y)) => lit_like(x, y),
        (Option::None, Option::None) => true,
        _ => false,
    }
}

impl Literal {
    /// A copy that the language cannot distinguish from the original: handles
    /// and callables still alias the same objects.
    pub fn dup(&self) -> (r: Literal)
        ensures
            lit_like(*self, r),
    {
        match self {
            Literal::Number(b) => Literal::Number(*b),
            Literal::String(s) => Literal::String(s.clone()),
            Literal::Bool(b) => Literal::Bool(*b),
            Literal::Callable(c) => Literal::Callable(c.dup()),
            Literal::Instance(h) => Literal::Instance(*h),
            Literal::Array(h) => Literal::Array(*h),
        }
    }
}

pub fn opt_dup(v: &Option<Literal>) -> (r: Option<Literal>)
    ensures
        opt_like(*v, r),
{
    match v {
        Some(l) => Some(l.dup()),
        None => None,
    }
}

/// Equality as the language defines it: numbers, strings and bools by
/// content (all NaNs equal), callables by identity, arrays and instances by
/// handle; the absent value equals only itself, and values of different
/// kinds are unequal.
pub open spec fn lit_eq(a: Literal, b: Literal) -> bool {
    match (a, b) {
        (Literal::Number(x), Literal::Number(y)) => num_eq_bits(x, y),
        (Literal::String(x), Literal::String(y)) => x@ == y@,
        (Literal::Bool(x), Literal::Bool(y)) => x == y,
        (Literal::Callable(x), Literal::Callable(y)) => x.ident() == y.ident(),
        (Literal::Instance(x), Literal::Instance(y)) => x == y,
        (Literal::Array(x), Literal::Array(y)) => x == y,
        _ => false,
    }
}

pub open spec fn opt_eq(a: Option<Literal>, b: Option<Literal>) -> bool {
    match (a, b) {
        (Option::Some(x), Option::Some(y)) => lit_eq(x, y),
        (Option::None, Option::None) => true,
        _ => false,
    }
}

pub fn literal_equals(a: &Literal, b: &Literal) -> (r: bool)
    ensures
        r == lit_eq(*a, *b),
{
    match (a, b) {
        (Literal::Number(x), Literal::Number(y)) => num_eq(*x, *y),
        (Literal::String(x), Literal::String(y)) => x.eq(y),
        (Literal::Bool(x), Literal::Bool(y)) => *x == *y,
        (Literal::Callable(x), Literal::Callable(y)) => {
            let xi = x.ident_exec();
            let yi = y.ident_exec();
            xi.0 == yi.0 && xi.1 == yi.1
        },
        (Literal::Instance(x), Literal::Instance(y)) => *x == *y,
        (Literal::Array(x), Literal::Array(y)) => *x == *y,
        _ => false,
    }
}

pub fn opt_equals(a: &Option<Literal>, b: &Option<Literal>) -> (r: bool)
    ensures
        r == opt_eq(*a, *b),
{
    match (a, b) {
        (Some(x), Some(y)) => literal_equals(x, y),
        (None, None) => true,
        _ => false,
    }
}

pub open spec fn lit_is_nan(v: Literal) -> bool {
    match v {
        Literal::Number(b) => is_nan_bits(b),
        _ => false,
    }
}

pub proof fn lemma_opt_like_sym(a: Option<Literal>, b: Option<Literal>)
    ensures
        opt_like(a, b) == opt_like(b, a),
{
}

/// The language's equality is reflexive on every value that is not a NaN
/// number.
pub proof fn lemma_lit_eq_reflexive(v: Literal)
    requires
        !lit_is_nan(v),
    ensures
        lit_eq(v, v),
{
}

/// The language's equality is symmetric on all values, NaNs included.
pub proof fn lemma_lit_eq_symmetric(a: Literal, b: Literal)
    ensures
        lit_eq(a, b) == lit_eq(b, a),
{
}

} // verus!
