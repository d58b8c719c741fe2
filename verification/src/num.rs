//! Numbers. A jsonnet number is a double; the evaluator keeps it as the bits of
//! that double and hands every computation on it to a backend that the caller
//! supplies: a function from a `NumRequest` to a `NumAnswer`.
use crate::ast::BinaryOpType;
use crate::val::SVal;
use vstd::prelude::*;

verus! {

/// A computation on numbers (each number is the bits of a double).
#[derive(Clone, Copy, Debug, PartialEq, Eq, Structural)]
pub enum NumRequest {
    /// The binary operator applied to two numbers.
    Binary(BinaryOpType, u64, u64),
    /// Whether two numbers are equal as doubles.
    Equal(u64, u64),
    /// The number as `{}` prints it.
    Display(u64),
    /// The number as `{:?}` prints it.
    Debug(u64),
    /// The number converted to an index (`as usize`).
    ToIndex(u64),
    /// The index converted to a number (`as f64`).
    FromIndex(usize),
    /// Whether the number is greater than zero.
    IsPositive(u64),
}

/// The backend's answer.
pub enum NumAnswer {
    Num(u64),
    Bool(bool),
    Text(String),
    Index(usize),
}

/// The backend can be called on every request, and gives one answer to each.
pub open spec fn backend_ok<N: Fn(NumRequest) -> NumAnswer>(num: N) -> bool {
    &&& forall|q: NumRequest| num.requires((q,))
    &&& forall|q: NumRequest, a1: NumAnswer, a2: NumAnswer|
        #![trigger num.ensures((q,), a1), num.ensures((q,), a2)]
        num.ensures((q,), a1) && num.ensures((q,), a2) ==> a1 == a2
}

/// The function that a backend computes.
pub open spec fn num_model<N: Fn(NumRequest) -> NumAnswer>(num: N) -> spec_fn(NumRequest) -> NumAnswer {
    |q: NumRequest| choose|a: NumAnswer| num.ensures((q,), a)
}

/// Asks the backend.
pub fn ask<N: Fn(NumRequest) -> NumAnswer>(num: &N, q: NumRequest) -> (a: NumAnswer)
    requires
        backend_ok(*num),
    ensures
        a == num_model(*num)(q),
{
    let a = num(q);
    assert(num.ensures((q,), a));
    let ghost b = choose|b: NumAnswer| num.ensures((q,), b);
    assert(num.ensures((q,), b));
    a
}

/// An answer taken as a value.
pub open spec fn ans_val(a: NumAnswer) -> SVal {
    match a {
        NumAnswer::Num(x) => SVal::Num(x),
        NumAnswer::Bool(b) => SVal::Bool(b),
        NumAnswer::Text(s) => SVal::Str(s@),
        NumAnswer::Index(_) => SVal::Null,
    }
}

/// An answer taken as a text (empty unless it is one).
pub open spec fn ans_text(a: NumAnswer) -> Seq<char> {
    match a {
        NumAnswer::Text(s) => s@,
        _ => Seq::empty(),
    }
}

/// An answer taken as an index (zero unless it is one).
pub open spec fn ans_index(a: NumAnswer) -> usize {
    match a {
        NumAnswer::Index(i) => i,
        _ => 0,
    }
}

/// An answer taken as a truth value (false unless it is one).
pub open spec fn ans_bool(a: NumAnswer) -> bool {
    match a {
        NumAnswer::Bool(b) => b,
        _ => false,
    }
}

} // verus!
