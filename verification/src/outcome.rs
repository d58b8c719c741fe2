//! Outcomes that do not depend on the depth bound.
//!
//! The semantics in `spec` takes a bound on the depth of an evaluation. Once an
//! evaluation does not run out of depth its outcome is the same at every
//! greater bound (`depth`), so each function of the semantics has an outcome
//! of its own, free of the bound: the one it reaches at any bound that is
//! large enough, or `SError::StackOverflow` where no bound is.
use crate::ast::{Arg, ArgsDesc, AssertStmt, BinaryOpType, CompSpec, Expr, FieldName, IfSpecData, LocExpr, ObjBody, UnaryOpType};
use crate::num::{ans_index, NumRequest};
use crate::depth::{
    lemma_binop_depth, lemma_builtin_depth, lemma_call_depth, lemma_eval_comp_depth,
    lemma_eval_depth, lemma_eval_object_depth, lemma_field_name_depth, lemma_index_val_depth,
    lemma_unop_depth, not_out_of_depth,
};
use crate::spec::{arg_thunks, binop, builtin, call, cast_bool, cast_str, eval, force, index_val, eval_comp, eval_list, eval_object, field_name, unop, NumFn, SRes};
use crate::val::{SError, SFrame, SFunc, SObj, SVal};
use vstd::prelude::*;

verus! {

/// The outcome of `eval` at a bound large enough, free of the bound.
pub open spec fn eval_outcome(nm: NumFn, c: Seq<SFrame>, e: LocExpr) -> SRes<SVal> {
    if exists|f: nat| not_out_of_depth(#[trigger] eval(nm, f, c, e)) {
        let f = choose|f: nat| not_out_of_depth(#[trigger] eval(nm, f, c, e));
        eval(nm, f, c, e)
    } else {
        Err(SError::StackOverflow)
    }
}

/// A `eval` that does not run out of depth has the same outcome at every
/// greater bound.
pub proof fn lemma_eval_depth_le(nm: NumFn, f: nat, f2: nat, c: Seq<SFrame>, e: LocExpr)
    requires
        not_out_of_depth(eval(nm, f, c, e)),
        f <= f2,
    ensures
        eval(nm, f2, c, e) == eval(nm, f, c, e),
    decreases f2 - f,
{
    if f < f2 {
        lemma_eval_depth(nm, f, c, e);
        lemma_eval_depth_le(nm, f + 1, f2, c, e);
    }
}

/// At a bound where `eval` does not run out of depth, its outcome is the
/// bound-free one.
pub proof fn lemma_eval_outcome(nm: NumFn, f: nat, c: Seq<SFrame>, e: LocExpr)
    ensures
        not_out_of_depth(eval(nm, f, c, e)) ==> eval_outcome(nm, c, e) == eval(nm, f, c, e),
        !not_out_of_depth(eval_outcome(nm, c, e)) ==> !not_out_of_depth(eval(nm, f, c, e)),
{
    if not_out_of_depth(eval(nm, f, c, e)) {
        let f0 = choose|f: nat| not_out_of_depth(#[trigger] eval(nm, f, c, e));
        assert(not_out_of_depth(eval(nm, f0, c, e)));
        if f0 <= f {
            lemma_eval_depth_le(nm, f0, f, c, e);
        } else {
            lemma_eval_depth_le(nm, f, f0, c, e);
        }
    }
}

/// The outcome of `binop` at a bound large enough, free of the bound.
pub open spec fn binop_outcome(nm: NumFn, c: Seq<SFrame>, a: SVal, op: BinaryOpType, b: SVal) -> SRes<SVal> {
    if exists|f: nat| not_out_of_depth(#[trigger] binop(nm, f, c, a, op, b)) {
        let f = choose|f: nat| not_out_of_depth(#[trigger] binop(nm, f, c, a, op, b));
        binop(nm, f, c, a, op, b)
    } else {
        Err(SError::StackOverflow)
    }
}

/// A `binop` that does not run out of depth has the same outcome at every
/// greater bound.
pub proof fn lemma_binop_depth_le(nm: NumFn, f: nat, f2: nat, c: Seq<SFrame>, a: SVal, op: BinaryOpType, b: SVal)
    requires
        not_out_of_depth(binop(nm, f, c, a, op, b)),
        f <= f2,
    ensures
        binop(nm, f2, c, a, op, b) == binop(nm, f, c, a, op, b),
    decreases f2 - f,
{
    if f < f2 {
        lemma_binop_depth(nm, f, c, a, op, b);
        lemma_binop_depth_le(nm, f + 1, f2, c, a, op, b);
    }
}

/// At a bound where `binop` does not run out of depth, its outcome is the
/// bound-free one.
pub proof fn lemma_binop_outcome(nm: NumFn, f: nat, c: Seq<SFrame>, a: SVal, op: BinaryOpType, b: SVal)
    ensures
        not_out_of_depth(binop(nm, f, c, a, op, b)) ==> binop_outcome(nm, c, a, op, b) == binop(nm, f, c, a, op, b),
        !not_out_of_depth(binop_outcome(nm, c, a, op, b)) ==> !not_out_of_depth(binop(nm, f, c, a, op, b)),
{
    if not_out_of_depth(binop(nm, f, c, a, op, b)) {
        let f0 = choose|f: nat| not_out_of_depth(#[trigger] binop(nm, f, c, a, op, b));
        assert(not_out_of_depth(binop(nm, f0, c, a, op, b)));
        if f0 <= f {
            lemma_binop_depth_le(nm, f0, f, c, a, op, b);
        } else {
            lemma_binop_depth_le(nm, f, f0, c, a, op, b);
        }
    }
}

/// The outcome of `unop` at a bound large enough, free of the bound.
pub open spec fn unop_outcome(nm: NumFn, op: UnaryOpType, v: SVal) -> SRes<SVal> {
    if exists|f: nat| not_out_of_depth(#[trigger] unop(nm, f, op, v)) {
        let f = choose|f: nat| not_out_of_depth(#[trigger] unop(nm, f, op, v));
        unop(nm, f, op, v)
    } else {
        Err(SError::StackOverflow)
    }
}

/// A `unop` that does not run out of depth has the same outcome at every
/// greater bound.
pub proof fn lemma_unop_depth_le(nm: NumFn, f: nat, f2: nat, op: UnaryOpType, v: SVal)
    requires
        not_out_of_depth(unop(nm, f, op, v)),
        f <= f2,
    ensures
        unop(nm, f2, op, v) == unop(nm, f, op, v),
    decreases f2 - f,
{
    if f < f2 {
        lemma_unop_depth(nm, f, op, v);
        lemma_unop_depth_le(nm, f + 1, f2, op, v);
    }
}

/// At a bound where `unop` does not run out of depth, its outcome is the
/// bound-free one.
pub proof fn lemma_unop_outcome(nm: NumFn, f: nat, op: UnaryOpType, v: SVal)
    ensures
        not_out_of_depth(unop(nm, f, op, v)) ==> unop_outcome(nm, op, v) == unop(nm, f, op, v),
        !not_out_of_depth(unop_outcome(nm, op, v)) ==> !not_out_of_depth(unop(nm, f, op, v)),
{
    if not_out_of_depth(unop(nm, f, op, v)) {
        let f0 = choose|f: nat| not_out_of_depth(#[trigger] unop(nm, f, op, v));
        assert(not_out_of_depth(unop(nm, f0, op, v)));
        if f0 <= f {
            lemma_unop_depth_le(nm, f0, f, op, v);
        } else {
            lemma_unop_depth_le(nm, f, f0, op, v);
        }
    }
}

/// The outcome of `eval_comp` at a bound large enough, free of the bound.
pub open spec fn eval_comp_outcome(nm: NumFn, c: Seq<SFrame>, value: LocExpr, specs: Seq<CompSpec>, i: nat) -> SRes<Option<Seq<SVal>>> {
    if exists|f: nat| not_out_of_depth(#[trigger] eval_comp(nm, f, c, value, specs, i)) {
        let f = choose|f: nat| not_out_of_depth(#[trigger] eval_comp(nm, f, c, value, specs, i));
        eval_comp(nm, f, c, value, specs, i)
    } else {
        Err(SError::StackOverflow)
    }
}

/// A `eval_comp` that does not run out of depth has the same outcome at every
/// greater bound.
pub proof fn lemma_eval_comp_depth_le(nm: NumFn, f: nat, f2: nat, c: Seq<SFrame>, value: LocExpr, specs: Seq<CompSpec>, i: nat)
    requires
        not_out_of_depth(eval_comp(nm, f, c, value, specs, i)),
        f <= f2,
    ensures
        eval_comp(nm, f2, c, value, specs, i) == eval_comp(nm, f, c, value, specs, i),
    decreases f2 - f,
{
    if f < f2 {
        lemma_eval_comp_depth(nm, f, c, value, specs, i);
        lemma_eval_comp_depth_le(nm, f + 1, f2, c, value, specs, i);
    }
}

/// At a bound where `eval_comp` does not run out of depth, its outcome is the
/// bound-free one.
pub proof fn lemma_eval_comp_outcome(nm: NumFn, f: nat, c: Seq<SFrame>, value: LocExpr, specs: Seq<CompSpec>, i: nat)
    ensures
        not_out_of_depth(eval_comp(nm, f, c, value, specs, i)) ==> eval_comp_outcome(nm, c, value, specs, i) == eval_comp(nm, f, c, value, specs, i),
        !not_out_of_depth(eval_comp_outcome(nm, c, value, specs, i)) ==> !not_out_of_depth(eval_comp(nm, f, c, value, specs, i)),
{
    if not_out_of_depth(eval_comp(nm, f, c, value, specs, i)) {
        let f0 = choose|f: nat| not_out_of_depth(#[trigger] eval_comp(nm, f, c, value, specs, i));
        assert(not_out_of_depth(eval_comp(nm, f0, c, value, specs, i)));
        if f0 <= f {
            lemma_eval_comp_depth_le(nm, f0, f, c, value, specs, i);
        } else {
            lemma_eval_comp_depth_le(nm, f, f0, c, value, specs, i);
        }
    }
}

/// The outcome of `eval_object` at a bound large enough, free of the bound.
pub open spec fn eval_object_outcome(nm: NumFn, c: Seq<SFrame>, body: ObjBody) -> SRes<SObj> {
    if exists|f: nat| not_out_of_depth(#[trigger] eval_object(nm, f, c, body)) {
        let f = choose|f: nat| not_out_of_depth(#[trigger] eval_object(nm, f, c, body));
        eval_object(nm, f, c, body)
    } else {
        Err(SError::StackOverflow)
    }
}

/// A `eval_object` that does not run out of depth has the same outcome at every
/// greater bound.
pub proof fn lemma_eval_object_depth_le(nm: NumFn, f: nat, f2: nat, c: Seq<SFrame>, body: ObjBody)
    requires
        not_out_of_depth(eval_object(nm, f, c, body)),
        f <= f2,
    ensures
        eval_object(nm, f2, c, body) == eval_object(nm, f, c, body),
    decreases f2 - f,
{
    if f < f2 {
        lemma_eval_object_depth(nm, f, c, body);
        lemma_eval_object_depth_le(nm, f + 1, f2, c, body);
    }
}

/// At a bound where `eval_object` does not run out of depth, its outcome is the
/// bound-free one.
pub proof fn lemma_eval_object_outcome(nm: NumFn, f: nat, c: Seq<SFrame>, body: ObjBody)
    ensures
        not_out_of_depth(eval_object(nm, f, c, body)) ==> eval_object_outcome(nm, c, body) == eval_object(nm, f, c, body),
        !not_out_of_depth(eval_object_outcome(nm, c, body)) ==> !not_out_of_depth(eval_object(nm, f, c, body)),
{
    if not_out_of_depth(eval_object(nm, f, c, body)) {
        let f0 = choose|f: nat| not_out_of_depth(#[trigger] eval_object(nm, f, c, body));
        assert(not_out_of_depth(eval_object(nm, f0, c, body)));
        if f0 <= f {
            lemma_eval_object_depth_le(nm, f0, f, c, body);
        } else {
            lemma_eval_object_depth_le(nm, f, f0, c, body);
        }
    }
}

/// The outcome of `field_name` at a bound large enough, free of the bound.
pub open spec fn field_name_outcome(nm: NumFn, c: Seq<SFrame>, n: FieldName) -> SRes<Seq<char>> {
    if exists|f: nat| not_out_of_depth(#[trigger] field_name(nm, f, c, n)) {
        let f = choose|f: nat| not_out_of_depth(#[trigger] field_name(nm, f, c, n));
        field_name(nm, f, c, n)
    } else {
        Err(SError::StackOverflow)
    }
}

/// A `field_name` that does not run out of depth has the same outcome at every
/// greater bound.
pub proof fn lemma_field_name_depth_le(nm: NumFn, f: nat, f2: nat, c: Seq<SFrame>, n: FieldName)
    requires
        not_out_of_depth(field_name(nm, f, c, n)),
        f <= f2,
    ensures
        field_name(nm, f2, c, n) == field_name(nm, f, c, n),
    decreases f2 - f,
{
    if f < f2 {
        lemma_field_name_depth(nm, f, c, n);
        lemma_field_name_depth_le(nm, f + 1, f2, c, n);
    }
}

/// At a bound where `field_name` does not run out of depth, its outcome is the
/// bound-free one.
pub proof fn lemma_field_name_outcome(nm: NumFn, f: nat, c: Seq<SFrame>, n: FieldName)
    ensures
        not_out_of_depth(field_name(nm, f, c, n)) ==> field_name_outcome(nm, c, n) == field_name(nm, f, c, n),
        !not_out_of_depth(field_name_outcome(nm, c, n)) ==> !not_out_of_depth(field_name(nm, f, c, n)),
{
    if not_out_of_depth(field_name(nm, f, c, n)) {
        let f0 = choose|f: nat| not_out_of_depth(#[trigger] field_name(nm, f, c, n));
        assert(not_out_of_depth(field_name(nm, f0, c, n)));
        if f0 <= f {
            lemma_field_name_depth_le(nm, f0, f, c, n);
        } else {
            lemma_field_name_depth_le(nm, f, f0, c, n);
        }
    }
}

// ---------------------------------------------------------------------------
// How the outcome of an expression follows from those of its parts
// ---------------------------------------------------------------------------

/// A bound at which an evaluation that has an outcome reaches it.
pub proof fn lemma_eval_settles(nm: NumFn, c: Seq<SFrame>, e: LocExpr) -> (f: nat)
    requires
        not_out_of_depth(eval_outcome(nm, c, e)),
    ensures
        eval(nm, f, c, e) == eval_outcome(nm, c, e),
{
    let f = choose|f: nat| not_out_of_depth(#[trigger] eval(nm, f, c, e));
    lemma_eval_outcome(nm, f, c, e);
    f
}

/// At every bound from `f` on, an evaluation that has an outcome at `f`
/// reaches it.
pub proof fn lemma_eval_settled_from(nm: NumFn, f: nat, f2: nat, c: Seq<SFrame>, e: LocExpr)
    requires
        eval(nm, f, c, e) == eval_outcome(nm, c, e),
        not_out_of_depth(eval_outcome(nm, c, e)),
        f <= f2,
    ensures
        eval(nm, f2, c, e) == eval_outcome(nm, c, e),
{
    lemma_eval_depth_le(nm, f, f2, c, e);
}

/// Parentheses change no outcome.
pub proof fn lemma_outcome_parened(nm: NumFn, c: Seq<SFrame>, e: LocExpr, x: LocExpr)
    requires
        *e.0 == Expr::Parened(x),
    ensures
        eval_outcome(nm, c, e) == eval_outcome(nm, c, x),
{
    if not_out_of_depth(eval_outcome(nm, c, x)) {
        let f = lemma_eval_settles(nm, c, x);
        assert(eval(nm, f + 1, c, e) == eval(nm, f, c, x));
        lemma_eval_outcome(nm, f + 1, c, e);
    } else if not_out_of_depth(eval_outcome(nm, c, e)) {
        let f = lemma_eval_settles(nm, c, e);
        lemma_eval_outcome(nm, (f - 1) as nat, c, x);
    }
}

/// `if cond then t else el` has the outcome of the branch that the outcome
/// of `cond` chooses (`false` where the chosen `else` is absent).
pub proof fn lemma_outcome_if_else(
    nm: NumFn,
    c: Seq<SFrame>,
    e: LocExpr,
    cond: LocExpr,
    t: LocExpr,
    el: Option<LocExpr>,
    b: bool,
)
    requires
        *e.0 == (Expr::IfElse { cond: IfSpecData(cond), cond_then: t, cond_else: el }),
        eval_outcome(nm, c, cond) == Ok::<SVal, SError>(SVal::Bool(b)),
    ensures
        eval_outcome(nm, c, e) == (if b {
            eval_outcome(nm, c, t)
        } else {
            match el {
                Some(x) => eval_outcome(nm, c, x),
                None => Ok(SVal::Bool(false)),
            }
        }),
{
    let f1 = lemma_eval_settles(nm, c, cond);
    if !b && el is None {
        assert(force(nm, f1, SVal::Bool(b)) == Ok::<SVal, SError>(SVal::Bool(b)));
        assert(cast_bool(nm, f1, SVal::Bool(b), "if condition should be boolean"@) == Ok::<bool, SError>(b));
        lemma_eval_outcome(nm, f1 + 1, c, e);
    } else {
        let x = if b { t } else { el.unwrap() };
        if not_out_of_depth(eval_outcome(nm, c, x)) {
            let f2 = lemma_eval_settles(nm, c, x);
            let g: nat = if f1 <= f2 { f2 } else { f1 };
            lemma_eval_settled_from(nm, f1, g, c, cond);
            lemma_eval_settled_from(nm, f2, g, c, x);
            assert(force(nm, g, SVal::Bool(b)) == Ok::<SVal, SError>(SVal::Bool(b)));
            assert(cast_bool(nm, g, SVal::Bool(b), "if condition should be boolean"@) == Ok::<bool, SError>(b));
            assert(eval(nm, g + 1, c, e) == eval(nm, g, c, x));
            lemma_eval_outcome(nm, g + 1, c, e);
        } else if not_out_of_depth(eval_outcome(nm, c, e)) {
            let f = lemma_eval_settles(nm, c, e);
            let g = (f - 1) as nat;
            lemma_eval_outcome(nm, g, c, cond);
            assert(cast_bool(nm, g, SVal::Bool(b), "if condition should be boolean"@) == Ok::<bool, SError>(b));
            lemma_eval_outcome(nm, g, c, x);
        }
    }
}

/// `assert cond; r` has the outcome of `r` where the outcome of `cond` is
/// `true`.
pub proof fn lemma_outcome_assert(
    nm: NumFn,
    c: Seq<SFrame>,
    e: LocExpr,
    cond: LocExpr,
    msg: Option<LocExpr>,
    r: LocExpr,
)
    requires
        *e.0 == Expr::AssertExpr(AssertStmt(cond, msg), r),
        eval_outcome(nm, c, cond) == Ok::<SVal, SError>(SVal::Bool(true)),
    ensures
        eval_outcome(nm, c, e) == eval_outcome(nm, c, r),
{
    let f1 = lemma_eval_settles(nm, c, cond);
    if not_out_of_depth(eval_outcome(nm, c, r)) {
        let f2 = lemma_eval_settles(nm, c, r);
        let g: nat = if f1 <= f2 { f2 } else { f1 };
        lemma_eval_settled_from(nm, f1, g, c, cond);
        lemma_eval_settled_from(nm, f2, g, c, r);
        assert(force(nm, g, SVal::Bool(true)) == Ok::<SVal, SError>(SVal::Bool(true)));
        assert(cast_bool(nm, g, SVal::Bool(true), "assertion condition should be boolean"@) == Ok::<bool, SError>(true));
        assert(eval(nm, g + 1, c, e) == eval(nm, g, c, r));
        lemma_eval_outcome(nm, g + 1, c, e);
    } else if not_out_of_depth(eval_outcome(nm, c, e)) {
        let f = lemma_eval_settles(nm, c, e);
        let g = (f - 1) as nat;
        lemma_eval_outcome(nm, g, c, cond);
        assert(cast_bool(nm, g, SVal::Bool(true), "assertion condition should be boolean"@) == Ok::<bool, SError>(true));
        lemma_eval_outcome(nm, g, c, r);
    }
}

/// `error m` fails with the text that is the outcome of `m`.
pub proof fn lemma_outcome_error(nm: NumFn, c: Seq<SFrame>, e: LocExpr, m: LocExpr, s: Seq<char>)
    requires
        *e.0 == Expr::Error(m),
        eval_outcome(nm, c, m) == Ok::<SVal, SError>(SVal::Str(s)),
    ensures
        eval_outcome(nm, c, e) == Err::<SVal, SError>(SError::RuntimeError(s)),
{
    let f = lemma_eval_settles(nm, c, m);
    assert(force(nm, f, SVal::Str(s)) == Ok::<SVal, SError>(SVal::Str(s)));
    assert(cast_str(nm, f, SVal::Str(s), "error text should be string"@) == Ok::<Seq<char>, SError>(s));
    lemma_eval_outcome(nm, f + 1, c, e);
}

/// `x op y` has the outcome of the operator on the outcomes of `x` and `y`.
pub proof fn lemma_outcome_binary(
    nm: NumFn,
    c: Seq<SFrame>,
    e: LocExpr,
    x: LocExpr,
    op: BinaryOpType,
    y: LocExpr,
    a: SVal,
    b: SVal,
)
    requires
        *e.0 == Expr::BinaryOp(x, op, y),
        eval_outcome(nm, c, x) == Ok::<SVal, SError>(a),
        eval_outcome(nm, c, y) == Ok::<SVal, SError>(b),
        !(a is Lazy),
        !(b is Lazy),
    ensures
        eval_outcome(nm, c, e) == binop_outcome(nm, c, a, op, b),
{
    let f1 = lemma_eval_settles(nm, c, x);
    let f2 = lemma_eval_settles(nm, c, y);
    if not_out_of_depth(binop_outcome(nm, c, a, op, b)) {
        let f3 = choose|f: nat| not_out_of_depth(#[trigger] binop(nm, f, c, a, op, b));
        lemma_binop_outcome(nm, f3, c, a, op, b);
        let g0: nat = if f1 <= f2 { f2 } else { f1 };
        let g: nat = if g0 <= f3 { f3 } else { g0 };
        lemma_eval_settled_from(nm, f1, g, c, x);
        lemma_eval_settled_from(nm, f2, g, c, y);
        lemma_binop_depth_le(nm, f3, g, c, a, op, b);
        assert(eval(nm, g + 1, c, e) == binop(nm, g, c, a, op, b));
        lemma_eval_outcome(nm, g + 1, c, e);
    } else if not_out_of_depth(eval_outcome(nm, c, e)) {
        let f = lemma_eval_settles(nm, c, e);
        let g = (f - 1) as nat;
        lemma_eval_outcome(nm, g, c, x);
        lemma_eval_outcome(nm, g, c, y);
        lemma_binop_outcome(nm, g, c, a, op, b);
    }
}

/// Indexing an array by a number within it gives the item, the outcomes of
/// the array and the index being those.
pub proof fn lemma_outcome_index_array(
    nm: NumFn,
    c: Seq<SFrame>,
    e: LocExpr,
    x: LocExpr,
    ix: LocExpr,
    xs: Seq<SVal>,
    n: u64,
)
    requires
        *e.0 == Expr::Index(x, ix),
        eval_outcome(nm, c, x) == Ok::<SVal, SError>(SVal::Arr(xs)),
        eval_outcome(nm, c, ix) == Ok::<SVal, SError>(SVal::Num(n)),
        ans_index(nm(NumRequest::ToIndex(n))) < xs.len(),
    ensures
        eval_outcome(nm, c, e) == Ok::<SVal, SError>(
            xs[ans_index(nm(NumRequest::ToIndex(n))) as int],
        ),
{
    let f1 = lemma_eval_settles(nm, c, x);
    let f2 = lemma_eval_settles(nm, c, ix);
    let g: nat = if f1 <= f2 { f2 } else { f1 };
    lemma_eval_settled_from(nm, f1, g, c, x);
    lemma_eval_settled_from(nm, f2, g, c, ix);
    assert(force(nm, g, SVal::Arr(xs)) == Ok::<SVal, SError>(SVal::Arr(xs)));
    assert(index_val(nm, g, SVal::Arr(xs), SVal::Num(n)) == Ok::<SVal, SError>(
        xs[ans_index(nm(NumRequest::ToIndex(n))) as int],
    ));
    lemma_eval_outcome(nm, g + 1, c, e);
}

/// The outcomes of the items from the `i`-th on, each being a value.
pub open spec fn item_values(nm: NumFn, c: Seq<SFrame>, items: Seq<LocExpr>, i: nat) -> Seq<SVal>
    decreases items.len() - i,
{
    if i >= items.len() {
        Seq::empty()
    } else {
        match eval_outcome(nm, c, items[i as int]) {
            Ok(v) => seq![v] + item_values(nm, c, items, i + 1),
            Err(_) => item_values(nm, c, items, i + 1),
        }
    }
}

proof fn lemma_eval_list_settles(nm: NumFn, c: Seq<SFrame>, items: Seq<LocExpr>, i: nat) -> (f: nat)
    requires
        forall|j: int| i <= j < items.len() ==> (#[trigger] eval_outcome(nm, c, items[j])) is Ok,
    ensures
        forall|f2: nat|
            f <= f2 ==> #[trigger] eval_list(nm, f2, c, items, i) == Ok::<Seq<SVal>, SError>(
                item_values(nm, c, items, i),
            ),
    decreases items.len() - i,
{
    if i >= items.len() {
        0
    } else {
        assert(eval_outcome(nm, c, items[i as int]) is Ok);
        let f1 = lemma_eval_settles(nm, c, items[i as int]);
        let f2 = lemma_eval_list_settles(nm, c, items, i + 1);
        let g: nat = if f1 <= f2 { f2 } else { f1 };
        assert forall|f3: nat| g <= f3 implies #[trigger] eval_list(nm, f3, c, items, i) == Ok::<
            Seq<SVal>,
            SError,
        >(item_values(nm, c, items, i)) by {
            lemma_eval_settled_from(nm, f1, f3, c, items[i as int]);
            assert(eval_list(nm, f3, c, items, i + 1) == Ok::<Seq<SVal>, SError>(
                item_values(nm, c, items, i + 1),
            ));
        }
        g
    }
}

/// An array literal whose items each have a value has the array of those
/// values, in order, as its outcome.
pub proof fn lemma_outcome_array(nm: NumFn, c: Seq<SFrame>, e: LocExpr, items: Seq<LocExpr>)
    requires
        *e.0 matches Expr::Arr(v) && v@ == items,
        forall|j: int| 0 <= j < items.len() ==> (#[trigger] eval_outcome(nm, c, items[j])) is Ok,
    ensures
        eval_outcome(nm, c, e) == Ok::<SVal, SError>(SVal::Arr(item_values(nm, c, items, 0))),
        item_values(nm, c, items, 0).len() == items.len(),
{
    let f = lemma_eval_list_settles(nm, c, items, 0);
    assert(eval_list(nm, f, c, items, 0) == Ok::<Seq<SVal>, SError>(item_values(nm, c, items, 0)));
    lemma_eval_outcome(nm, f + 1, c, e);
    lemma_item_values_len(nm, c, items, 0);
}

proof fn lemma_item_values_len(nm: NumFn, c: Seq<SFrame>, items: Seq<LocExpr>, i: nat)
    requires
        forall|j: int| i <= j < items.len() ==> (#[trigger] eval_outcome(nm, c, items[j])) is Ok,
    ensures
        item_values(nm, c, items, i).len() == if i <= items.len() { items.len() - i } else { 0 },
    decreases items.len() - i,
{
    if i < items.len() {
        assert(eval_outcome(nm, c, items[i as int]) is Ok);
        lemma_item_values_len(nm, c, items, i + 1);
    }
}

/// The outcome of `index_val` at a bound large enough, free of the bound.
pub open spec fn index_val_outcome(nm: NumFn, v: SVal, ix: SVal) -> SRes<SVal> {
    if exists|f: nat| not_out_of_depth(#[trigger] index_val(nm, f, v, ix)) {
        let f = choose|f: nat| not_out_of_depth(#[trigger] index_val(nm, f, v, ix));
        index_val(nm, f, v, ix)
    } else {
        Err(SError::StackOverflow)
    }
}

/// A `index_val` that does not run out of depth has the same outcome at every
/// greater bound.
pub proof fn lemma_index_val_depth_le(nm: NumFn, f: nat, f2: nat, v: SVal, ix: SVal)
    requires
        not_out_of_depth(index_val(nm, f, v, ix)),
        f <= f2,
    ensures
        index_val(nm, f2, v, ix) == index_val(nm, f, v, ix),
    decreases f2 - f,
{
    if f < f2 {
        lemma_index_val_depth(nm, f, v, ix);
        lemma_index_val_depth_le(nm, f + 1, f2, v, ix);
    }
}

/// At a bound where `index_val` does not run out of depth, its outcome is the
/// bound-free one.
pub proof fn lemma_index_val_outcome(nm: NumFn, f: nat, v: SVal, ix: SVal)
    ensures
        not_out_of_depth(index_val(nm, f, v, ix)) ==> index_val_outcome(nm, v, ix) == index_val(nm, f, v, ix),
        !not_out_of_depth(index_val_outcome(nm, v, ix)) ==> !not_out_of_depth(index_val(nm, f, v, ix)),
{
    if not_out_of_depth(index_val(nm, f, v, ix)) {
        let f0 = choose|f: nat| not_out_of_depth(#[trigger] index_val(nm, f, v, ix));
        assert(not_out_of_depth(index_val(nm, f0, v, ix)));
        if f0 <= f {
            lemma_index_val_depth_le(nm, f0, f, v, ix);
        } else {
            lemma_index_val_depth_le(nm, f, f0, v, ix);
        }
    }
}

/// The outcome of `builtin` at a bound large enough, free of the bound.
pub open spec fn builtin_outcome(nm: NumFn, c: Seq<SFrame>, name: Seq<char>, args: Seq<Arg>) -> SRes<SVal> {
    if exists|f: nat| not_out_of_depth(#[trigger] builtin(nm, f, c, name, args)) {
        let f = choose|f: nat| not_out_of_depth(#[trigger] builtin(nm, f, c, name, args));
        builtin(nm, f, c, name, args)
    } else {
        Err(SError::StackOverflow)
    }
}

/// A `builtin` that does not run out of depth has the same outcome at every
/// greater bound.
pub proof fn lemma_builtin_depth_le(nm: NumFn, f: nat, f2: nat, c: Seq<SFrame>, name: Seq<char>, args: Seq<Arg>)
    requires
        not_out_of_depth(builtin(nm, f, c, name, args)),
        f <= f2,
    ensures
        builtin(nm, f2, c, name, args) == builtin(nm, f, c, name, args),
    decreases f2 - f,
{
    if f < f2 {
        lemma_builtin_depth(nm, f, c, name, args);
        lemma_builtin_depth_le(nm, f + 1, f2, c, name, args);
    }
}

/// At a bound where `builtin` does not run out of depth, its outcome is the
/// bound-free one.
pub proof fn lemma_builtin_outcome(nm: NumFn, f: nat, c: Seq<SFrame>, name: Seq<char>, args: Seq<Arg>)
    ensures
        not_out_of_depth(builtin(nm, f, c, name, args)) ==> builtin_outcome(nm, c, name, args) == builtin(nm, f, c, name, args),
        !not_out_of_depth(builtin_outcome(nm, c, name, args)) ==> !not_out_of_depth(builtin(nm, f, c, name, args)),
{
    if not_out_of_depth(builtin(nm, f, c, name, args)) {
        let f0 = choose|f: nat| not_out_of_depth(#[trigger] builtin(nm, f, c, name, args));
        assert(not_out_of_depth(builtin(nm, f0, c, name, args)));
        if f0 <= f {
            lemma_builtin_depth_le(nm, f0, f, c, name, args);
        } else {
            lemma_builtin_depth_le(nm, f, f0, c, name, args);
        }
    }
}

/// The outcome of `call` at a bound large enough, free of the bound.
pub open spec fn call_outcome(nm: NumFn, fd: SFunc, args: Seq<(Option<Seq<char>>, SVal)>) -> SRes<SVal> {
    if exists|f: nat| not_out_of_depth(#[trigger] call(nm, f, fd, args)) {
        let f = choose|f: nat| not_out_of_depth(#[trigger] call(nm, f, fd, args));
        call(nm, f, fd, args)
    } else {
        Err(SError::StackOverflow)
    }
}

/// A `call` that does not run out of depth has the same outcome at every
/// greater bound.
pub proof fn lemma_call_depth_le(nm: NumFn, f: nat, f2: nat, fd: SFunc, args: Seq<(Option<Seq<char>>, SVal)>)
    requires
        not_out_of_depth(call(nm, f, fd, args)),
        f <= f2,
    ensures
        call(nm, f2, fd, args) == call(nm, f, fd, args),
    decreases f2 - f,
{
    if f < f2 {
        lemma_call_depth(nm, f, fd, args);
        lemma_call_depth_le(nm, f + 1, f2, fd, args);
    }
}

/// At a bound where `call` does not run out of depth, its outcome is the
/// bound-free one.
pub proof fn lemma_call_outcome(nm: NumFn, f: nat, fd: SFunc, args: Seq<(Option<Seq<char>>, SVal)>)
    ensures
        not_out_of_depth(call(nm, f, fd, args)) ==> call_outcome(nm, fd, args) == call(nm, f, fd, args),
        !not_out_of_depth(call_outcome(nm, fd, args)) ==> !not_out_of_depth(call(nm, f, fd, args)),
{
    if not_out_of_depth(call(nm, f, fd, args)) {
        let f0 = choose|f: nat| not_out_of_depth(#[trigger] call(nm, f, fd, args));
        assert(not_out_of_depth(call(nm, f0, fd, args)));
        if f0 <= f {
            lemma_call_depth_le(nm, f0, f, fd, args);
        } else {
            lemma_call_depth_le(nm, f, f0, fd, args);
        }
    }
}

/// `x[ix]` has the outcome of indexing the outcome of `x` by that of `ix`:
/// for an object and a string, its field (see `index_val`).
pub proof fn lemma_outcome_index(
    nm: NumFn,
    c: Seq<SFrame>,
    e: LocExpr,
    x: LocExpr,
    ix: LocExpr,
    v: SVal,
    i: SVal,
)
    requires
        *e.0 == Expr::Index(x, ix),
        eval_outcome(nm, c, x) == Ok::<SVal, SError>(v),
        eval_outcome(nm, c, ix) == Ok::<SVal, SError>(i),
        !(v is Lazy),
    ensures
        eval_outcome(nm, c, e) == index_val_outcome(nm, v, i),
{
    let f1 = lemma_eval_settles(nm, c, x);
    let f2 = lemma_eval_settles(nm, c, ix);
    if not_out_of_depth(index_val_outcome(nm, v, i)) {
        let f3 = choose|f: nat| not_out_of_depth(#[trigger] index_val(nm, f, v, i));
        lemma_index_val_outcome(nm, f3, v, i);
        let g0: nat = if f1 <= f2 { f2 } else { f1 };
        let g: nat = if g0 <= f3 { f3 } else { g0 };
        lemma_eval_settled_from(nm, f1, g, c, x);
        lemma_eval_settled_from(nm, f2, g, c, ix);
        lemma_index_val_depth_le(nm, f3, g, v, i);
        assert(force(nm, g, v) == Ok::<SVal, SError>(v));
        assert(eval(nm, g + 1, c, e) == index_val(nm, g, v, i));
        lemma_eval_outcome(nm, g + 1, c, e);
    } else if not_out_of_depth(eval_outcome(nm, c, e)) {
        let f = lemma_eval_settles(nm, c, e);
        let g = (f - 1) as nat;
        lemma_eval_outcome(nm, g, c, x);
        assert(force(nm, g, v) == Ok::<SVal, SError>(v));
        lemma_eval_outcome(nm, g, c, ix);
        lemma_index_val_outcome(nm, g, v, i);
    }
}

/// A call of a function of `std` that the evaluator implements (such as
/// `std.makeArray`) has the outcome of that function on the arguments as
/// written.
pub proof fn lemma_outcome_apply_builtin(
    nm: NumFn,
    c: Seq<SFrame>,
    e: LocExpr,
    x: LocExpr,
    args: ArgsDesc,
    name: Seq<char>,
)
    requires
        *e.0 == Expr::Apply(x, args),
        eval_outcome(nm, c, x) == Ok::<SVal, SError>(SVal::Intristic("std"@, name)),
    ensures
        eval_outcome(nm, c, e) == builtin_outcome(nm, c, name, args.0@),
{
    let f1 = lemma_eval_settles(nm, c, x);
    let v = SVal::Intristic("std"@, name);
    if not_out_of_depth(builtin_outcome(nm, c, name, args.0@)) {
        let f3 = choose|f: nat| not_out_of_depth(#[trigger] builtin(nm, f, c, name, args.0@));
        lemma_builtin_outcome(nm, f3, c, name, args.0@);
        let g: nat = if f1 <= f3 { f3 } else { f1 };
        lemma_eval_settled_from(nm, f1, g, c, x);
        lemma_builtin_depth_le(nm, f3, g, c, name, args.0@);
        assert(force(nm, g, v) == Ok::<SVal, SError>(v));
        assert(eval(nm, g + 1, c, e) == builtin(nm, g, c, name, args.0@));
        lemma_eval_outcome(nm, g + 1, c, e);
    } else if not_out_of_depth(eval_outcome(nm, c, e)) {
        let f = lemma_eval_settles(nm, c, e);
        let g = (f - 1) as nat;
        lemma_eval_outcome(nm, g, c, x);
        assert(force(nm, g, v) == Ok::<SVal, SError>(v));
        lemma_builtin_outcome(nm, g, c, name, args.0@);
    }
}

/// A call of a function value has the outcome of calling it with its
/// arguments as thunks in the caller's context.
pub proof fn lemma_outcome_apply_func(
    nm: NumFn,
    c: Seq<SFrame>,
    e: LocExpr,
    x: LocExpr,
    args: ArgsDesc,
    fd: SFunc,
)
    requires
        *e.0 == Expr::Apply(x, args),
        eval_outcome(nm, c, x) == Ok::<SVal, SError>(SVal::Func(fd)),
    ensures
        eval_outcome(nm, c, e) == call_outcome(nm, fd, arg_thunks(c, args.0@)),
{
    let f1 = lemma_eval_settles(nm, c, x);
    let v = SVal::Func(fd);
    let a = arg_thunks(c, args.0@);
    if not_out_of_depth(call_outcome(nm, fd, a)) {
        let f3 = choose|f: nat| not_out_of_depth(#[trigger] call(nm, f, fd, a));
        lemma_call_outcome(nm, f3, fd, a);
        let g: nat = if f1 <= f3 { f3 } else { f1 };
        lemma_eval_settled_from(nm, f1, g, c, x);
        lemma_call_depth_le(nm, f3, g, fd, a);
        assert(force(nm, g, v) == Ok::<SVal, SError>(v));
        assert(eval(nm, g + 1, c, e) == call(nm, g, fd, a));
        lemma_eval_outcome(nm, g + 1, c, e);
    } else if not_out_of_depth(eval_outcome(nm, c, e)) {
        let f = lemma_eval_settles(nm, c, e);
        let g = (f - 1) as nat;
        lemma_eval_outcome(nm, g, c, x);
        assert(force(nm, g, v) == Ok::<SVal, SError>(v));
        lemma_call_outcome(nm, g, fd, a);
    }
}

} // verus!
