//! Properties of operators, indexing, equality, functions, methods, field
//! names and comprehensions in the semantics, at any depth bound.
use crate::ast::{
    BinaryOpType, CompSpec, Expr, FieldName, ForSpecData, IfSpecData, LocExpr, ParamsDesc,
    UnaryOpType,
};
use crate::num::{ans_index, NumRequest};
use crate::spec::{
    add_op, arr_eq, binding_value, create_ctx, binop, binop_strict, cast_bool, comp_items, cur_dollar,
    cur_super, cur_this, eval, eval_comp, extend_ctx, field_name, find_binding, force, index_val,
    invoke, lookup, opt_seq, unop, val_eq, with_var, NumFn,
};
use crate::val::{SBinding, SCreator, SError, SFrame, SFunc, SMember, SObj, SVal};
use vstd::prelude::*;

verus! {

/// What `force` gives back is never a thunk, and forcing it again changes
/// nothing.
pub proof fn lemma_force_forced(nm: NumFn, f: nat, v: SVal, w: SVal)
    requires
        force(nm, f, v) == Ok::<SVal, SError>(w),
    ensures
        !(w is Lazy),
        forall|f2: nat| #[trigger] force(nm, f2, w) == Ok::<SVal, SError>(w),
    decreases f,
{
    match v {
        SVal::Lazy(t) => {
            let g = (f - 1) as nat;
            match eval(nm, g, t.ctx, t.expr) {
                Ok(r) => lemma_force_forced(nm, g, r, w),
                Err(_) => {},
            }
        },
        _ => {},
    }
}

/// A binary operator forces a thunk among its operands first: it gives what
/// it gives on the forced value, or the error of forcing.
pub proof fn lemma_binop_forces(
    nm: NumFn,
    f: nat,
    c: Seq<SFrame>,
    a: SVal,
    op: BinaryOpType,
    b: SVal,
)
    ensures
        force(nm, f, a) matches Ok(a1) ==> binop(nm, f, c, a, op, b) == binop(nm, f, c, a1, op, b),
        force(nm, f, a) matches Err(er) ==> binop(nm, f, c, a, op, b) == Err::<SVal, SError>(er),
        force(nm, f, a) is Ok ==> (force(nm, f, b) matches Ok(b1) ==> binop(nm, f, c, a, op, b)
            == binop(nm, f, c, a, op, b1)),
        force(nm, f, a) is Ok ==> (force(nm, f, b) matches Err(er) ==> binop(nm, f, c, a, op, b)
            == Err::<SVal, SError>(er)),
{
    if let Ok(a1) = force(nm, f, a) {
        lemma_force_forced(nm, f, a, a1);
        if let Ok(b1) = force(nm, f, b) {
            lemma_force_forced(nm, f, b, b1);
        }
    }
}

/// A unary operator forces a thunk first.
pub proof fn lemma_unop_forces(nm: NumFn, f: nat, op: UnaryOpType, v: SVal)
    ensures
        force(nm, f, v) matches Ok(v1) ==> unop(nm, f, op, v) == unop(nm, f, op, v1),
        force(nm, f, v) matches Err(er) ==> unop(nm, f, op, v) == Err::<SVal, SError>(er),
{
    if let Ok(v1) = force(nm, f, v) {
        lemma_force_forced(nm, f, v, v1);
    }
}

/// `+` as a binary operator is the addition of values.
pub proof fn lemma_binop_add(nm: NumFn, f: nat, c: Seq<SFrame>, a: SVal, b: SVal)
    requires
        !(a is Lazy),
        !(b is Lazy),
    ensures
        binop(nm, f, c, a, BinaryOpType::Add, b) == add_op(nm, a, b),
{
}

/// `fmt % x` with `x` not an array is `fmt % [x]`.
pub proof fn lemma_format_single(nm: NumFn, f: nat, c: Seq<SFrame>, fmt: Seq<char>, x: SVal)
    requires
        !(x is Lazy),
        !(x is Arr),
    ensures
        binop(nm, f, c, SVal::Str(fmt), BinaryOpType::Mod, x) == binop(
            nm,
            f,
            c,
            SVal::Str(fmt),
            BinaryOpType::Mod,
            SVal::Arr(seq![x]),
        ),
{
}

/// Only `%` on a string reads the context: every other binary operator gives
/// the same in any two contexts.
pub proof fn lemma_binop_context_free(
    nm: NumFn,
    f: nat,
    c1: Seq<SFrame>,
    c2: Seq<SFrame>,
    a: SVal,
    op: BinaryOpType,
    b: SVal,
)
    requires
        !(a is Lazy),
        !(b is Lazy),
        !(a is Str && op == BinaryOpType::Mod),
    ensures
        binop(nm, f, c1, a, op, b) == binop(nm, f, c2, a, op, b),
{
}

/// A computed field name is the string its expression gives.
pub proof fn lemma_field_name_dyn(nm: NumFn, f: nat, c: Seq<SFrame>, e: LocExpr, s: Seq<char>)
    requires
        eval(nm, f, c, e) == Ok::<SVal, SError>(SVal::Str(s)),
    ensures
        field_name(nm, f, c, FieldName::Dyn(e)) == Ok::<Seq<char>, SError>(s),
{
    assert(force(nm, f, SVal::Str(s)) == Ok::<SVal, SError>(SVal::Str(s)));
}

/// An `if` clause of a comprehension keeps the rest of the clauses where its
/// condition holds, and gives nothing where it does not.
pub proof fn lemma_comp_if(
    nm: NumFn,
    f: nat,
    c: Seq<SFrame>,
    value: LocExpr,
    specs: Seq<CompSpec>,
    i: nat,
    cond: LocExpr,
    b: bool,
)
    requires
        i < specs.len(),
        specs[i as int] == CompSpec::IfSpec(IfSpecData(cond)),
        eval(nm, f, c, cond) == Ok::<SVal, SError>(SVal::Bool(b)),
    ensures
        eval_comp(nm, f, c, value, specs, i) == if b {
            eval_comp(nm, f, c, value, specs, i + 1)
        } else {
            Ok(None)
        },
{
    assert(force(nm, f, SVal::Bool(b)) == Ok::<SVal, SError>(SVal::Bool(b)));
    assert(cast_bool(nm, f, SVal::Bool(b), "if spec"@) == Ok::<bool, SError>(b));
}

/// The items that the rest of a comprehension gives for each item of a `for`
/// clause, from the `j`-th on, joined in order.
pub open spec fn joined(
    nm: NumFn,
    f: nat,
    c: Seq<SFrame>,
    var: Seq<char>,
    value: LocExpr,
    specs: Seq<CompSpec>,
    i: nat,
    items: Seq<SVal>,
    j: nat,
) -> Seq<SVal>
    decreases items.len() - j,
{
    if j >= items.len() {
        Seq::empty()
    } else {
        let r = match eval_comp(nm, f, with_var(c, var, items[j as int]), value, specs, i) {
            Ok(o) => opt_seq(o),
            Err(_) => Seq::empty(),
        };
        r + joined(nm, f, c, var, value, specs, i, items, j + 1)
    }
}

proof fn lemma_comp_items_joined(
    nm: NumFn,
    f: nat,
    c: Seq<SFrame>,
    var: Seq<char>,
    value: LocExpr,
    specs: Seq<CompSpec>,
    i: nat,
    items: Seq<SVal>,
    j: nat,
)
    requires
        forall|k: int|
            j <= k < items.len() ==> (#[trigger] eval_comp(
                nm,
                f,
                with_var(c, var, items[k]),
                value,
                specs,
                i,
            )) is Ok,
    ensures
        comp_items(nm, f, c, var, value, specs, i, items, j) == Ok::<Seq<SVal>, SError>(
            joined(nm, f, c, var, value, specs, i, items, j),
        ),
    decreases items.len() - j,
{
    if j < items.len() {
        assert(eval_comp(nm, f, with_var(c, var, items[j as int]), value, specs, i) is Ok);
        lemma_comp_items_joined(nm, f, c, var, value, specs, i, items, j + 1);
    }
}

/// A `for` clause over an array gives, in order, what the rest of the
/// comprehension gives with the variable bound to each item, where each of
/// those succeeds.
pub proof fn lemma_comp_for(
    nm: NumFn,
    f: nat,
    c: Seq<SFrame>,
    value: LocExpr,
    specs: Seq<CompSpec>,
    i: nat,
    var: String,
    x: LocExpr,
    items: Seq<SVal>,
)
    requires
        i < specs.len(),
        specs[i as int] == CompSpec::ForSpec(ForSpecData(var, x)),
        eval(nm, f, c, x) == Ok::<SVal, SError>(SVal::Arr(items)),
        forall|k: int|
            0 <= k < items.len() ==> (#[trigger] eval_comp(
                nm,
                f,
                with_var(c, var@, items[k]),
                value,
                specs,
                i + 1,
            )) is Ok,
    ensures
        eval_comp(nm, f, c, value, specs, i) == Ok::<Option<Seq<SVal>>, SError>(
            Some(joined(nm, f, c, var@, value, specs, i + 1, items, 0)),
        ),
{
    assert(force(nm, f, SVal::Arr(items)) == Ok::<SVal, SError>(SVal::Arr(items)));
    lemma_comp_items_joined(nm, f, c, var@, value, specs, i + 1, items, 0);
}

// ---------------------------------------------------------------------------
// Booleans, indexing, equality
// ---------------------------------------------------------------------------

/// `&&` and `||` on booleans are conjunction and disjunction: `x || true` is
/// `true` and `x && false` is `false` for every `x`.
pub proof fn lemma_bool_and_or(nm: NumFn, f: nat, c: Seq<SFrame>, a: bool, b: bool)
    ensures
        binop_strict(nm, f, c, SVal::Bool(a), BinaryOpType::And, SVal::Bool(b))
            == Ok::<SVal, SError>(SVal::Bool(a && b)),
        binop_strict(nm, f, c, SVal::Bool(a), BinaryOpType::Or, SVal::Bool(b))
            == Ok::<SVal, SError>(SVal::Bool(a || b)),
        binop(nm, f, c, SVal::Bool(a), BinaryOpType::And, SVal::Bool(b))
            == Ok::<SVal, SError>(SVal::Bool(a && b)),
        binop(nm, f, c, SVal::Bool(a), BinaryOpType::Or, SVal::Bool(b))
            == Ok::<SVal, SError>(SVal::Bool(a || b)),
        binop(nm, f, c, SVal::Bool(a), BinaryOpType::Or, SVal::Bool(true))
            == Ok::<SVal, SError>(SVal::Bool(true)),
        binop(nm, f, c, SVal::Bool(a), BinaryOpType::And, SVal::Bool(false))
            == Ok::<SVal, SError>(SVal::Bool(false)),
{
    assert(force(nm, f, SVal::Bool(a)) == Ok::<SVal, SError>(SVal::Bool(a)));
    assert(force(nm, f, SVal::Bool(b)) == Ok::<SVal, SError>(SVal::Bool(b)));
    assert(force(nm, f, SVal::Bool(true)) == Ok::<SVal, SError>(SVal::Bool(true)));
    assert(force(nm, f, SVal::Bool(false)) == Ok::<SVal, SError>(SVal::Bool(false)));
}

/// `s[n]` is the one-character string of the character at the index `n`
/// stands for, every index of `s` included, its last; past the end it is the
/// empty string. `xs[n]` is the item at that index.
pub proof fn lemma_index_by_number(nm: NumFn, f: nat, s: Seq<char>, xs: Seq<SVal>, n: u64)
    ensures
        ans_index(nm(NumRequest::ToIndex(n))) < s.len() ==> index_val(nm, f, SVal::Str(s), SVal::Num(n))
            == Ok::<SVal, SError>(SVal::Str(seq![s[ans_index(nm(NumRequest::ToIndex(n))) as int]])),
        ans_index(nm(NumRequest::ToIndex(n))) >= s.len() ==> index_val(nm, f, SVal::Str(s), SVal::Num(n))
            == Ok::<SVal, SError>(SVal::Str(Seq::empty())),
        s.len() > 0 && ans_index(nm(NumRequest::ToIndex(n))) == s.len() - 1 ==> index_val(
            nm,
            f,
            SVal::Str(s),
            SVal::Num(n),
        ) == Ok::<SVal, SError>(SVal::Str(seq![s.last()])),
        ans_index(nm(NumRequest::ToIndex(n))) < xs.len() ==> index_val(nm, f, SVal::Arr(xs), SVal::Num(n))
            == Ok::<SVal, SError>(xs[ans_index(nm(NumRequest::ToIndex(n))) as int]),
{
}

/// Arrays of one length are equal exactly when their items are equal, each
/// to the one at its index; arrays of different lengths are not.
pub proof fn lemma_array_equality(nm: NumFn, xs: Seq<SVal>, ys: Seq<SVal>)
    ensures
        xs.len() == ys.len() ==> (val_eq(nm, SVal::Arr(xs), SVal::Arr(ys)) <==> forall|i: int|
            0 <= i < xs.len() ==> #[trigger] val_eq(nm, xs[i], ys[i])),
        xs.len() != ys.len() ==> !val_eq(nm, SVal::Arr(xs), SVal::Arr(ys)),
{
    if xs.len() == ys.len() {
        lemma_arr_eq_items(nm, xs, ys);
    }
}

proof fn lemma_arr_eq_items(nm: NumFn, xs: Seq<SVal>, ys: Seq<SVal>)
    requires
        xs.len() == ys.len(),
    ensures
        arr_eq(nm, xs, ys) <==> forall|i: int| 0 <= i < xs.len() ==> #[trigger] val_eq(nm, xs[i], ys[i]),
    decreases xs.len(),
{
    if xs.len() > 0 {
        let (xs0, ys0) = (xs.drop_last(), ys.drop_last());
        lemma_arr_eq_items(nm, xs0, ys0);
        if arr_eq(nm, xs, ys) {
            assert forall|i: int| 0 <= i < xs.len() implies #[trigger] val_eq(nm, xs[i], ys[i]) by {
                if i < xs.len() - 1 {
                    assert(xs0[i] == xs[i] && ys0[i] == ys[i]);
                    assert(val_eq(nm, xs0[i], ys0[i]));
                }
            }
        } else {
            if forall|i: int| 0 <= i < xs.len() ==> #[trigger] val_eq(nm, xs[i], ys[i]) {
                assert forall|i: int| 0 <= i < xs0.len() implies #[trigger] val_eq(nm, xs0[i], ys0[i]) by {
                    assert(xs0[i] == xs[i] && ys0[i] == ys[i]);
                    assert(val_eq(nm, xs[i], ys[i]));
                }
                assert(val_eq(nm, xs[xs.len() - 1], ys[ys.len() - 1]));
            }
        }
    }
}

// ---------------------------------------------------------------------------
// Functions and methods see the context they are written in
// ---------------------------------------------------------------------------

/// A frame whose bindings do not bind `x` leaves the value of `x` as it was:
/// a function's parameters hide only the names they bind.
pub proof fn lemma_extend_keeps_names(
    c: Seq<SFrame>,
    bs: Seq<(Seq<char>, SBinding)>,
    d: Option<SObj>,
    t: Option<SObj>,
    sp: Option<SObj>,
    x: Seq<char>,
)
    requires
        find_binding(bs, x) is None,
    ensures
        lookup(extend_ctx(c, bs, d, t, sp), x) == lookup(c, x),
{
    assert(extend_ctx(c, bs, d, t, sp).drop_last() =~= c);
}

/// A function literal is a function whose body sees every name of the
/// context it is written in, with the same `self`, `super` and `$`.
pub proof fn lemma_function_literal(
    nm: NumFn,
    f: nat,
    c: Seq<SFrame>,
    e: LocExpr,
    p: ParamsDesc,
    body: LocExpr,
)
    requires
        f > 0,
        *e.0 == Expr::Function(p, body),
    ensures
        eval(nm, f, c, e) is Ok,
        eval(nm, f, c, e)->Ok_0 is Func,
        eval(nm, f, c, e)->Ok_0->Func_0.params == p,
        eval(nm, f, c, e)->Ok_0->Func_0.body == body,
        forall|x: Seq<char>| #[trigger] lookup(eval(nm, f, c, e)->Ok_0->Func_0.ctx, x) == lookup(c, x),
        cur_this(eval(nm, f, c, e)->Ok_0->Func_0.ctx) == cur_this(c),
        cur_super(eval(nm, f, c, e)->Ok_0->Func_0.ctx) == cur_super(c),
        cur_dollar(eval(nm, f, c, e)->Ok_0->Func_0.ctx) == cur_dollar(c),
{
}

/// A method of an object is a function whose body has the object as `self`,
/// the given `super` (where there is one), every `local` of the object bound, and every other name
/// of the context the object is written in.
pub proof fn lemma_method_field(
    nm: NumFn,
    f: nat,
    m: SMember,
    this: SObj,
    sup: Option<SObj>,
    p: ParamsDesc,
)
    requires
        m.params == Some(p),
    ensures
        invoke(nm, f, m, this, sup) is Ok,
        invoke(nm, f, m, this, sup)->Ok_0 is Func,
        invoke(nm, f, m, this, sup)->Ok_0->Func_0.params == p,
        invoke(nm, f, m, this, sup)->Ok_0->Func_0.body == m.value,
        cur_this(invoke(nm, f, m, this, sup)->Ok_0->Func_0.ctx) == Some(this),
        sup is Some ==> cur_super(invoke(nm, f, m, this, sup)->Ok_0->Func_0.ctx) == sup,
        forall|x: Seq<char>|
            #![trigger find_binding(m.creator.bindings, x)]
            find_binding(m.creator.bindings, x) is Some ==> lookup(
                invoke(nm, f, m, this, sup)->Ok_0->Func_0.ctx,
                x,
            ) == Some(
                binding_value(
                    invoke(nm, f, m, this, sup)->Ok_0->Func_0.ctx,
                    find_binding(m.creator.bindings, x)->Some_0,
                ),
            ),
        forall|x: Seq<char>|
            #![trigger find_binding(m.creator.bindings, x)]
            find_binding(m.creator.bindings, x) is None ==> lookup(
                invoke(nm, f, m, this, sup)->Ok_0->Func_0.ctx,
                x,
            ) == lookup(m.creator.ctx, x),
{
    let ctx = create_ctx(m.creator, this, sup);
    assert(invoke(nm, f, m, this, sup) == Ok::<SVal, SError>(
        SVal::Func(SFunc { ctx, params: p, body: m.value }),
    ));
    lemma_object_context(m.creator, this, sup);
}

/// The context of a field of an object: the object as `self`, the given
/// `super` (else the one in force where the object is written), the object's `local`s, and the names of the context the object is
/// written in.
pub proof fn lemma_object_context(cr: SCreator, this: SObj, sup: Option<SObj>)
    ensures
        cur_this(create_ctx(cr, this, sup)) == Some(this),
        sup is Some ==> cur_super(create_ctx(cr, this, sup)) == sup,
        sup is None ==> cur_super(create_ctx(cr, this, sup)) == cur_super(cr.ctx),
        forall|x: Seq<char>|
            #![trigger find_binding(cr.bindings, x)]
            find_binding(cr.bindings, x) is Some ==> lookup(create_ctx(cr, this, sup), x) == Some(
                binding_value(create_ctx(cr, this, sup), find_binding(cr.bindings, x)->Some_0),
            ),
        forall|x: Seq<char>|
            #![trigger find_binding(cr.bindings, x)]
            find_binding(cr.bindings, x) is None ==> lookup(create_ctx(cr, this, sup), x)
                == lookup(cr.ctx, x),
{
    let ctx = create_ctx(cr, this, sup);
    assert(ctx.drop_last() =~= cr.ctx);
    assert(ctx.last().bindings == cr.bindings);
}

} // verus!
