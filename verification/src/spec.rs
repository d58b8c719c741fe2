//! The semantics of jsonnet as this evaluator implements it.
//!
//! `eval(nm, f, c, e)` is the outcome of evaluating `e` in the context `c`,
//! where `nm` computes on numbers and `f` bounds the depth of the evaluation:
//! each level of nesting (a sub-expression, a forced thunk, a function call, a
//! field) uses one unit, and `SError::StackOverflow` is the outcome when none
//! is left. `SError::Panic` marks where jsonnet's evaluation stops the
//! program. The outcomes free of the bound are in `outcome`.
use crate::ast::{
    Arg, AssertStmt, BinaryOpType, BindSpec, CompSpec, Expr, FieldName, ForSpecData, IfSpecData,
    LiteralType, LocExpr, Member, ObjBody, Param, UnaryOpType, Visibility,
};
use crate::num::{ans_bool, ans_index, ans_text, ans_val, NumAnswer, NumRequest};
use crate::val::{SBinding, SCreator, SError, SFrame, SFunc, SMember, SObj, SThunk, SVal, ValType};
use vstd::prelude::*;

verus! {

/// What computes on numbers.
pub type NumFn = spec_fn(NumRequest) -> NumAnswer;

pub type SRes<T> = Result<T, SError>;

// ---------------------------------------------------------------------------
// Contexts
// ---------------------------------------------------------------------------

pub open spec fn cur_this(c: Seq<SFrame>) -> Option<SObj> {
    if c.len() == 0 { None } else { c.last().this }
}

pub open spec fn cur_super(c: Seq<SFrame>) -> Option<SObj> {
    if c.len() == 0 { None } else { c.last().super_obj }
}

pub open spec fn cur_dollar(c: Seq<SFrame>) -> Option<SObj> {
    if c.len() == 0 { None } else { c.last().dollar }
}

pub open spec fn or_obj(a: Option<SObj>, b: Option<SObj>) -> Option<SObj> {
    match a {
        Some(x) => Some(x),
        None => b,
    }
}

/// The context with one more frame: `binds`, and the objects given, where
/// they are given, else those in force in `c`.
pub open spec fn extend_ctx(
    c: Seq<SFrame>,
    binds: Seq<(Seq<char>, SBinding)>,
    dollar: Option<SObj>,
    this: Option<SObj>,
    sup: Option<SObj>,
) -> Seq<SFrame> {
    c.push(
        SFrame {
            dollar: or_obj(dollar, cur_dollar(c)),
            this: or_obj(this, cur_this(c)),
            super_obj: or_obj(sup, cur_super(c)),
            bindings: binds,
        },
    )
}

/// The context with `x` bound to the value `v`.
pub open spec fn with_var(c: Seq<SFrame>, x: Seq<char>, v: SVal) -> Seq<SFrame> {
    extend_ctx(c, seq![(x, SBinding::Value(v))], None, None, None)
}

/// The context of a field of an object, once its `self` and `super` are known.
pub open spec fn create_ctx(cr: SCreator, this: SObj, sup: Option<SObj>) -> Seq<SFrame> {
    extend_ctx(cr.ctx, cr.bindings, or_obj(cur_dollar(cr.ctx), Some(this)), Some(this), sup)
}

/// The last binding of `x` in a frame.
pub open spec fn find_binding(bs: Seq<(Seq<char>, SBinding)>, x: Seq<char>) -> Option<SBinding>
    decreases bs.len(),
{
    if bs.len() == 0 {
        None
    } else if bs.last().0 == x {
        Some(bs.last().1)
    } else {
        find_binding(bs.drop_last(), x)
    }
}

/// What a binding of the last frame of `c` stands for: code is evaluated in `c`.
pub open spec fn binding_value(c: Seq<SFrame>, b: SBinding) -> SVal {
    match b {
        SBinding::Value(v) => v,
        SBinding::Code(None, e) => SVal::Lazy(SThunk { ctx: c, expr: e }),
        SBinding::Code(Some(p), e) => SVal::Func(SFunc { ctx: c, params: p, body: e }),
    }
}

/// The value of `x` in `c`: the innermost frame that binds it decides.
pub open spec fn lookup(c: Seq<SFrame>, x: Seq<char>) -> Option<SVal>
    decreases c.len(),
{
    if c.len() == 0 {
        None
    } else {
        match find_binding(c.last().bindings, x) {
            Some(b) => Some(binding_value(c, b)),
            None => lookup(c.drop_last(), x),
        }
    }
}

/// The bindings of `local` definitions.
pub open spec fn binds_of(bs: Seq<BindSpec>) -> Seq<(Seq<char>, SBinding)>
    decreases bs.len(),
{
    if bs.len() == 0 {
        Seq::empty()
    } else {
        binds_of(bs.drop_last()).push(
            (bs.last().name@, SBinding::Code(bs.last().params, bs.last().value)),
        )
    }
}

/// The bindings of the `local`s of an object.
pub open spec fn member_binds(ms: Seq<Member>) -> Seq<(Seq<char>, SBinding)>
    decreases ms.len(),
{
    if ms.len() == 0 {
        Seq::empty()
    } else {
        let r = member_binds(ms.drop_last());
        match ms.last() {
            Member::BindStmt(b) => r.push((b.name@, SBinding::Code(b.params, b.value))),
            _ => r,
        }
    }
}

// ---------------------------------------------------------------------------
// Values
// ---------------------------------------------------------------------------

pub open spec fn value_type(v: SVal) -> ValType {
    match v {
        SVal::Bool(_) => ValType::Bool,
        SVal::Null => ValType::Null,
        SVal::Str(_) => ValType::Str,
        SVal::Num(_) => ValType::Num,
        SVal::Arr(_) => ValType::Arr,
        SVal::Obj(_) => ValType::Obj,
        _ => ValType::Func,
    }
}

/// The name `std.type` gives a type.
pub open spec fn type_label(t: ValType) -> Seq<char> {
    match t {
        ValType::Bool => "boolean"@,
        ValType::Null => "null"@,
        ValType::Str => "string"@,
        ValType::Num => "number"@,
        ValType::Arr => "array"@,
        ValType::Obj => "object"@,
        ValType::Func => "function"@,
    }
}

/// `o` placed over `s`: the layers of `o`, then those of `s`.
pub open spec fn with_super(o: SObj, s: SObj) -> SObj
    decreases o,
{
    SObj {
        super_obj: match o.super_obj {
            None => Some(Box::new(s)),
            Some(x) => Some(Box::new(with_super(*x, s))),
        },
        entries: o.entries,
    }
}

pub open spec fn obj_depth(o: SObj) -> nat
    decreases o,
{
    1 + match o.super_obj {
        Some(s) => obj_depth(*s),
        None => 0,
    }
}

/// The last entry of a layer named `x`.
pub open spec fn find_entry(es: Seq<(Seq<char>, SMember)>, x: Seq<char>) -> Option<SMember>
    decreases es.len(),
{
    if es.len() == 0 {
        None
    } else if es.last().0 == x {
        Some(es.last().1)
    } else {
        find_entry(es.drop_last(), x)
    }
}

/// Equality of values: structural on booleans, null, strings, arrays and
/// intrinsics, numbers as the backend compares them; functions, objects and
/// thunks are equal to nothing.
pub open spec fn val_eq(nm: NumFn, a: SVal, b: SVal) -> bool
    decreases a,
{
    match (a, b) {
        (SVal::Bool(x), SVal::Bool(y)) => x == y,
        (SVal::Null, SVal::Null) => true,
        (SVal::Str(x), SVal::Str(y)) => x == y,
        (SVal::Num(x), SVal::Num(y)) => ans_bool(nm(NumRequest::Equal(x, y))),
        (SVal::Arr(xs), SVal::Arr(ys)) => xs.len() == ys.len() && arr_eq(nm, xs, ys),
        (SVal::Intristic(x1, x2), SVal::Intristic(y1, y2)) => x1 == y1 && x2 == y2,
        _ => false,
    }
}

pub open spec fn arr_eq(nm: NumFn, xs: Seq<SVal>, ys: Seq<SVal>) -> bool
    decreases xs,
{
    if xs.len() == 0 || ys.len() == 0 {
        true
    } else {
        arr_eq(nm, xs.drop_last(), ys.drop_last()) && val_eq(nm, xs.last(), ys.last())
    }
}

/// `{:?}` of a string, as std's `Debug` for `str` writes it: the string
/// between double quotes, with the characters it escapes escaped. This is what
/// the std function returns, named (see `ops::quoted_debug`).
pub uninterp spec fn str_debug(s: Seq<char>) -> Seq<char>;

/// A value as `{:?}` writes it.
pub open spec fn debug_text(nm: NumFn, v: SVal) -> Seq<char>
    decreases v,
{
    match v {
        SVal::Bool(true) => "Bool(true)"@,
        SVal::Bool(false) => "Bool(false)"@,
        SVal::Null => "Null"@,
        SVal::Str(s) => "Str("@ + str_debug(s) + ")"@,
        SVal::Num(n) => "Num("@ + ans_text(nm(NumRequest::Debug(n))) + ")"@,
        SVal::Arr(xs) => "Arr(["@ + debug_join(nm, xs) + "])"@,
        SVal::Intristic(a, b) => "Intristic("@ + str_debug(a) + ", "@ + str_debug(b) + ")"@,
        SVal::Obj(_) => "Obj(..)"@,
        SVal::Func(_) => "Func(..)"@,
        SVal::Lazy(_) => "Lazy(..)"@,
    }
}

pub open spec fn debug_join(nm: NumFn, xs: Seq<SVal>) -> Seq<char>
    decreases xs,
{
    if xs.len() == 0 {
        Seq::empty()
    } else if xs.len() == 1 {
        debug_text(nm, xs[0])
    } else {
        debug_join(nm, xs.drop_last()) + ", "@ + debug_text(nm, xs.last())
    }
}

pub open spec fn repeat(s: Seq<char>, k: nat) -> Seq<char>
    decreases k,
{
    if k == 0 {
        Seq::empty()
    } else {
        repeat(s, (k - 1) as nat) + s
    }
}

/// `a + b`.
pub open spec fn add_op(nm: NumFn, a: SVal, b: SVal) -> SRes<SVal> {
    match (a, b) {
        (SVal::Str(x), SVal::Str(y)) => Ok(SVal::Str(x + y)),
        (SVal::Str(x), SVal::Num(n)) => Ok(SVal::Str(x + ans_text(nm(NumRequest::Display(n))))),
        (SVal::Num(n), SVal::Str(y)) => Ok(SVal::Str(ans_text(nm(NumRequest::Display(n))) + y)),
        (SVal::Str(x), v) => Ok(SVal::Str(x + debug_text(nm, v))),
        (SVal::Obj(o1), SVal::Obj(o2)) => Ok(SVal::Obj(with_super(o2, o1))),
        (SVal::Arr(x), SVal::Arr(y)) => Ok(SVal::Arr(x + y)),
        (SVal::Num(x), SVal::Num(y)) => Ok(
            ans_val(nm(NumRequest::Binary(BinaryOpType::Add, x, y))),
        ),
        _ => Err(SError::Panic),
    }
}

/// The operators that two numbers are handed to the backend for.
pub open spec fn is_num_op(op: BinaryOpType) -> bool {
    !(op == BinaryOpType::Add || op == BinaryOpType::And || op == BinaryOpType::Or)
}

// ---------------------------------------------------------------------------
// Sorted field names
// ---------------------------------------------------------------------------

/// `a[i..] < b[i..]` in the order of code points.
pub open spec fn str_lt_from(a: Seq<char>, b: Seq<char>, i: nat) -> bool
    decreases a.len() - i,
{
    if i >= a.len() {
        i < b.len()
    } else if i >= b.len() {
        false
    } else if (a[i as int] as int) < (b[i as int] as int) {
        true
    } else if a[i as int] == b[i as int] {
        str_lt_from(a, b, i + 1)
    } else {
        false
    }
}

pub open spec fn str_lt(a: Seq<char>, b: Seq<char>) -> bool {
    str_lt_from(a, b, 0)
}

/// The first position, from `i` on, whose name is not below `x`.
pub open spec fn insert_pos(acc: Seq<Seq<char>>, x: Seq<char>, i: nat) -> nat
    decreases acc.len() - i,
{
    if i >= acc.len() {
        i
    } else if str_lt(acc[i as int], x) {
        insert_pos(acc, x, i + 1)
    } else {
        i
    }
}

pub open spec fn insert_name(acc: Seq<Seq<char>>, x: Seq<char>) -> Seq<Seq<char>> {
    let p = insert_pos(acc, x, 0);
    if p < acc.len() && acc[p as int] == x {
        acc
    } else {
        acc.insert(p as int, x)
    }
}

pub open spec fn names_into(acc: Seq<Seq<char>>, es: Seq<(Seq<char>, SMember)>, i: nat) -> Seq<
    Seq<char>,
>
    decreases es.len() - i,
{
    if i >= es.len() {
        acc
    } else {
        names_into(insert_name(acc, es[i as int].0), es, i + 1)
    }
}

pub open spec fn fields_acc(acc: Seq<Seq<char>>, o: SObj) -> Seq<Seq<char>>
    decreases o,
{
    let acc2 = names_into(acc, o.entries, 0);
    match o.super_obj {
        Some(s) => fields_acc(acc2, *s),
        None => acc2,
    }
}

/// The names of the fields of an object, sorted, each once.
pub open spec fn obj_fields(o: SObj) -> Seq<Seq<char>> {
    fields_acc(Seq::empty(), o)
}

// ---------------------------------------------------------------------------
// Calls
// ---------------------------------------------------------------------------

pub open spec fn positional(args: Seq<(Option<Seq<char>>, SVal)>) -> Seq<SVal>
    decreases args.len(),
{
    if args.len() == 0 {
        Seq::empty()
    } else {
        let r = positional(args.drop_last());
        match args.last().0 {
            None => r.push(args.last().1),
            Some(_) => r,
        }
    }
}

pub open spec fn named_args(args: Seq<(Option<Seq<char>>, SVal)>) -> Seq<(Seq<char>, SVal)>
    decreases args.len(),
{
    if args.len() == 0 {
        Seq::empty()
    } else {
        let r = named_args(args.drop_last());
        match args.last().0 {
            Some(n) => r.push((n, args.last().1)),
            None => r,
        }
    }
}

pub open spec fn has_param(params: Seq<Param>, x: Seq<char>) -> bool
    decreases params.len(),
{
    params.len() > 0 && (has_param(params.drop_last(), x) || params.last().0@ == x)
}

/// The first named argument that names no parameter.
pub open spec fn unknown_named(named: Seq<(Seq<char>, SVal)>, params: Seq<Param>) -> Option<
    Seq<char>,
>
    decreases named.len(),
{
    if named.len() == 0 {
        None
    } else {
        match unknown_named(named.drop_last(), params) {
            Some(x) => Some(x),
            None => if has_param(params, named.last().0) {
                None
            } else {
                Some(named.last().0)
            },
        }
    }
}

/// The first named argument called `x`.
pub open spec fn find_named(named: Seq<(Seq<char>, SVal)>, x: Seq<char>) -> Option<SVal>
    decreases named.len(),
{
    if named.len() == 0 {
        None
    } else {
        match find_named(named.drop_last(), x) {
            Some(v) => Some(v),
            None => if named.last().0 == x {
                Some(named.last().1)
            } else {
                None
            },
        }
    }
}

/// The binding of the `i`-th parameter.
pub open spec fn bind_one(
    params: Seq<Param>,
    pos: Seq<SVal>,
    named: Seq<(Seq<char>, SVal)>,
    i: int,
) -> SRes<SBinding> {
    let p = params[i];
    if i < pos.len() {
        Ok(SBinding::Value(pos[i]))
    } else {
        match find_named(named, p.0@) {
            Some(v) => Ok(SBinding::Value(v)),
            None => match p.1 {
                Some(d) => Ok(SBinding::Code(None, d)),
                None => Err(SError::FunctionParameterNotBoundInCall(p.0@)),
            },
        }
    }
}

pub open spec fn bind_each(
    params: Seq<Param>,
    pos: Seq<SVal>,
    named: Seq<(Seq<char>, SVal)>,
    i: nat,
) -> SRes<Seq<(Seq<char>, SBinding)>>
    decreases params.len() - i,
{
    if i >= params.len() {
        Ok(Seq::empty())
    } else {
        match bind_one(params, pos, named, i as int) {
            Err(e) => Err(e),
            Ok(b) => match bind_each(params, pos, named, i + 1) {
                Err(e) => Err(e),
                Ok(r) => Ok(seq![(params[i as int].0@, b)] + r),
            },
        }
    }
}

/// The frame of a call: positional arguments bind the first parameters,
/// named ones the parameters they name, defaults (evaluated in the frame
/// itself) the others.
pub open spec fn bind_params(params: Seq<Param>, args: Seq<(Option<Seq<char>>, SVal)>) -> SRes<
    Seq<(Seq<char>, SBinding)>,
> {
    let pos = positional(args);
    let named = named_args(args);
    if pos.len() > params.len() {
        Err(SError::TooManyArgsFunctionHas(params.len() as usize))
    } else {
        match unknown_named(named, params) {
            Some(x) => Err(SError::UnknownFunctionParameter(x)),
            None => bind_each(params, pos, named, 0),
        }
    }
}

/// The arguments of a call written in `c`, each a thunk.
pub open spec fn arg_thunks(c: Seq<SFrame>, args: Seq<Arg>) -> Seq<(Option<Seq<char>>, SVal)>
    decreases args.len(),
{
    if args.len() == 0 {
        Seq::empty()
    } else {
        let a = args.last();
        arg_thunks(c, args.drop_last()).push(
            (
                match a.0 {
                    Some(n) => Some(n@),
                    None => None,
                },
                SVal::Lazy(SThunk { ctx: c, expr: a.1 }),
            ),
        )
    }
}

pub open spec fn opt_seq(r: Option<Seq<SVal>>) -> Seq<SVal> {
    match r {
        Some(s) => s,
        None => Seq::empty(),
    }
}

pub open spec fn comp_measure(specs: Seq<CompSpec>, i: nat) -> nat {
    if i >= specs.len() { 0 } else { (specs.len() - i) as nat }
}

pub open spec fn body_measure(body: ObjBody) -> nat {
    match body {
        ObjBody::MemberList(ms) => ms@.len() + 1,
        _ => 0,
    }
}

// ---------------------------------------------------------------------------
// Evaluation
// ---------------------------------------------------------------------------

/// A value with its thunks forced.
pub open spec fn force(nm: NumFn, f: nat, v: SVal) -> SRes<SVal>
    decreases f, 0nat, 0nat,
{
    match v {
        SVal::Lazy(t) => if f == 0 {
            Err(SError::StackOverflow)
        } else {
            match eval(nm, (f - 1) as nat, t.ctx, t.expr) {
                Err(e) => Err(e),
                Ok(r) => force(nm, (f - 1) as nat, r),
            }
        },
        _ => Ok(v),
    }
}

pub open spec fn cast_bool(nm: NumFn, f: nat, v: SVal, what: Seq<char>) -> SRes<bool>
    decreases f, 0nat, 1nat,
{
    match force(nm, f, v) {
        Err(e) => Err(e),
        Ok(SVal::Bool(b)) => Ok(b),
        Ok(o) => Err(SError::TypeMismatch(what, ValType::Bool, value_type(o))),
    }
}

pub open spec fn cast_str(nm: NumFn, f: nat, v: SVal, what: Seq<char>) -> SRes<Seq<char>>
    decreases f, 0nat, 1nat,
{
    match force(nm, f, v) {
        Err(e) => Err(e),
        Ok(SVal::Str(s)) => Ok(s),
        Ok(o) => Err(SError::TypeMismatch(what, ValType::Str, value_type(o))),
    }
}

/// A unary operator applied to a value.
pub open spec fn unop(nm: NumFn, f: nat, op: UnaryOpType, v: SVal) -> SRes<SVal>
    decreases f, 0nat, 1nat,
{
    match force(nm, f, v) {
        Err(e) => Err(e),
        Ok(SVal::Bool(b)) => if op == UnaryOpType::Not {
            Ok(SVal::Bool(!b))
        } else {
            Err(SError::Panic)
        },
        Ok(_) => Err(SError::Panic),
    }
}

/// The name of a field.
pub open spec fn field_name(nm: NumFn, f: nat, c: Seq<SFrame>, n: FieldName) -> SRes<Seq<char>>
    decreases f, 0nat, 2nat,
{
    match n {
        FieldName::Fixed(s) => Ok(s@),
        FieldName::Dyn(e) => match eval(nm, f, c, e) {
            Err(er) => Err(er),
            Ok(v) => cast_str(nm, f, v, "dynamic field name"@),
        },
    }
}

/// A field of an object evaluated with its `self` and `super`.
pub open spec fn invoke(nm: NumFn, f: nat, m: SMember, this: SObj, sup: Option<SObj>) -> SRes<SVal>
    decreases f, 0nat, 0nat,
{
    let c = create_ctx(m.creator, this, sup);
    match m.params {
        Some(p) => Ok(SVal::Func(SFunc { ctx: c, params: p, body: m.value })),
        None => if f == 0 {
            Err(SError::StackOverflow)
        } else {
            match eval(nm, (f - 1) as nat, c, m.value) {
                Err(e) => Err(e),
                Ok(v) => force(nm, (f - 1) as nat, v),
            }
        },
    }
}

/// The field `key` of the object whose layers, from `layer` on, are searched,
/// `this` being the whole object.
pub open spec fn get_raw(nm: NumFn, f: nat, layer: SObj, key: Seq<char>, this: SObj) -> SRes<
    Option<SVal>,
>
    decreases f, 0nat, 3 + obj_depth(layer),
{
    match (find_entry(layer.entries, key), layer.super_obj) {
        (Some(m), None) => match invoke(nm, f, m, this, None) {
            Err(e) => Err(e),
            Ok(v) => Ok(Some(v)),
        },
        (Some(m), Some(s)) => match invoke(nm, f, m, this, Some(*s)) {
            Err(e) => Err(e),
            Ok(our) => if m.add {
                match get_raw(nm, f, *s, key, this) {
                    Err(e) => Err(e),
                    Ok(Some(v)) => match add_op(nm, v, our) {
                        Err(e) => Err(e),
                        Ok(r) => Ok(Some(r)),
                    },
                    Ok(None) => Ok(Some(our)),
                }
            } else {
                Ok(Some(our))
            },
        },
        (None, Some(s)) => get_raw(nm, f, *s, key, this),
        (None, None) => Ok(None),
    }
}

/// A call of a function with its arguments.
pub open spec fn call(nm: NumFn, f: nat, fd: SFunc, args: Seq<(Option<Seq<char>>, SVal)>) -> SRes<
    SVal,
>
    decreases f, 0nat, 0nat,
{
    if f == 0 {
        Err(SError::StackOverflow)
    } else {
        match bind_params(fd.params.0@, args) {
            Err(e) => Err(e),
            Ok(bs) => eval(nm, (f - 1) as nat, extend_ctx(fd.ctx, bs, None, None, None), fd.body),
        }
    }
}

/// `v[ix]` of two evaluated values.
pub open spec fn index_val(nm: NumFn, f: nat, v: SVal, ix: SVal) -> SRes<SVal>
    decreases f, 1nat, 0nat,
{
    match (v, ix) {
        (SVal::Obj(o), SVal::Str(s)) => match get_raw(nm, f, o, s, o) {
            Err(e) => Err(e),
            Ok(Some(x)) => force(nm, f, x),
            Ok(None) => match get_raw(nm, f, o, "__intristic_namespace__"@, o) {
                Err(e) => Err(e),
                Ok(Some(SVal::Str(ns))) => Ok(SVal::Intristic(ns, s)),
                Ok(_) => Err(SError::NoSuchField(s)),
            },
        },
        (SVal::Arr(xs), SVal::Num(n)) => {
            let k = ans_index(nm(NumRequest::ToIndex(n)));
            if k < xs.len() {
                Ok(xs[k as int])
            } else {
                Err(SError::Panic)
            }
        },
        (SVal::Str(s), SVal::Num(n)) => {
            let k = ans_index(nm(NumRequest::ToIndex(n)));
            Ok(SVal::Str(if k < s.len() { seq![s[k as int]] } else { Seq::empty() }))
        },
        _ => Err(SError::Panic),
    }
}

/// `fmt % args`: `std.format(fmt, args)`, `args` made an array if it is not one.
pub open spec fn fmt_call(nm: NumFn, f: nat, c: Seq<SFrame>, fmt: Seq<char>, args: SVal) -> SRes<
    SVal,
>
    decreases f, 2nat, 0nat,
{
    let arr = match args {
        SVal::Arr(v) => SVal::Arr(v),
        v => SVal::Arr(seq![v]),
    };
    match lookup(c, "std"@) {
        None => Err(SError::VariableIsNotDefined("std"@)),
        Some(sv) => match force(nm, f, sv) {
            Err(e) => Err(e),
            Ok(stdv) => match index_val(nm, f, stdv, SVal::Str("format"@)) {
                Err(e) => Err(e),
                Ok(t0) => match force(nm, f, t0) {
                    Err(e) => Err(e),
                    Ok(SVal::Func(fd)) => call(
                        nm,
                        f,
                        fd,
                        seq![(None, SVal::Str(fmt)), (None, arr)],
                    ),
                    Ok(_) => Err(SError::Panic),
                },
            },
        },
    }
}

/// A binary operator applied to two values with their thunks forced.
pub open spec fn binop_strict(
    nm: NumFn,
    f: nat,
    c: Seq<SFrame>,
    a: SVal,
    op: BinaryOpType,
    b: SVal,
) -> SRes<SVal>
    decreases f, 2nat, 1nat,
{
    if op == BinaryOpType::Add {
        add_op(nm, a, b)
    } else {
        match (a, b) {
            (SVal::Str(x), SVal::Str(y)) if op == BinaryOpType::Ne => Ok(SVal::Bool(x != y)),
            (SVal::Str(x), SVal::Num(n)) if op == BinaryOpType::Mul => Ok(
                SVal::Str(repeat(x, ans_index(nm(NumRequest::ToIndex(n))) as nat)),
            ),
            (SVal::Str(x), _) if op == BinaryOpType::Mod => fmt_call(nm, f, c, x, b),
            (SVal::Bool(x), SVal::Bool(y)) if op == BinaryOpType::And => Ok(SVal::Bool(x && y)),
            (SVal::Bool(x), SVal::Bool(y)) if op == BinaryOpType::Or => Ok(SVal::Bool(x || y)),
            (SVal::Num(x), SVal::Num(y)) if is_num_op(op) => Ok(
                ans_val(nm(NumRequest::Binary(op, x, y))),
            ),
            _ => if op == BinaryOpType::Eq {
                Ok(SVal::Bool(val_eq(nm, a, b)))
            } else if op == BinaryOpType::Ne {
                Ok(SVal::Bool(!val_eq(nm, a, b)))
            } else {
                Err(SError::Panic)
            },
        }
    }
}

/// A binary operator applied to two values.
pub open spec fn binop(nm: NumFn, f: nat, c: Seq<SFrame>, a: SVal, op: BinaryOpType, b: SVal) -> SRes<
    SVal,
>
    decreases f, 3nat, 0nat,
{
    match force(nm, f, a) {
        Err(e) => Err(e),
        Ok(a1) => match force(nm, f, b) {
            Err(e) => Err(e),
            Ok(b1) => binop_strict(nm, f, c, a1, op, b1),
        },
    }
}

/// The items of an array literal, from the `i`-th on.
pub open spec fn eval_list(nm: NumFn, f: nat, c: Seq<SFrame>, items: Seq<LocExpr>, i: nat) -> SRes<
    Seq<SVal>,
>
    decreases f, items.len() - i, 0nat,
{
    if i >= items.len() {
        Ok(Seq::empty())
    } else {
        match eval(nm, f, c, items[i as int]) {
            Err(e) => Err(e),
            Ok(v) => match eval_list(nm, f, c, items, i + 1) {
                Err(e) => Err(e),
                Ok(r) => Ok(seq![v] + r),
            },
        }
    }
}

/// An array comprehension from its `i`-th clause on: `None` where an `if`
/// clause fails.
pub open spec fn eval_comp(
    nm: NumFn,
    f: nat,
    c: Seq<SFrame>,
    value: LocExpr,
    specs: Seq<CompSpec>,
    i: nat,
) -> SRes<Option<Seq<SVal>>>
    decreases f, 2 * comp_measure(specs, i) + 1, 0nat,
{
    if i >= specs.len() {
        match eval(nm, f, c, value) {
            Err(e) => Err(e),
            Ok(v) => Ok(Some(seq![v])),
        }
    } else {
        match specs[i as int] {
            CompSpec::IfSpec(IfSpecData(cond)) => match eval(nm, f, c, cond) {
                Err(e) => Err(e),
                Ok(cv) => match cast_bool(nm, f, cv, "if spec"@) {
                    Err(e) => Err(e),
                    Ok(true) => eval_comp(nm, f, c, value, specs, i + 1),
                    Ok(false) => Ok(None),
                },
            },
            CompSpec::ForSpec(ForSpecData(var, x)) => match eval(nm, f, c, x) {
                Err(e) => Err(e),
                Ok(lv0) => match force(nm, f, lv0) {
                    Err(e) => Err(e),
                    Ok(SVal::Arr(items)) => match comp_items(
                        nm,
                        f,
                        c,
                        var@,
                        value,
                        specs,
                        i + 1,
                        items,
                        0,
                    ) {
                        Err(e) => Err(e),
                        Ok(vs) => Ok(Some(vs)),
                    },
                    Ok(_) => Err(SError::Panic),
                },
            },
        }
    }
}

/// The rest of a comprehension for each item of a `for` clause, from the
/// `j`-th on, concatenated.
pub open spec fn comp_items(
    nm: NumFn,
    f: nat,
    c: Seq<SFrame>,
    var: Seq<char>,
    value: LocExpr,
    specs: Seq<CompSpec>,
    i: nat,
    items: Seq<SVal>,
    j: nat,
) -> SRes<Seq<SVal>>
    decreases f, 2 * comp_measure(specs, i) + 2, items.len() - j,
{
    if j >= items.len() {
        Ok(Seq::empty())
    } else {
        match eval_comp(nm, f, with_var(c, var, items[j as int]), value, specs, i) {
            Err(e) => Err(e),
            Ok(r) => match comp_items(nm, f, c, var, value, specs, i, items, j + 1) {
                Err(e) => Err(e),
                Ok(rest) => Ok(opt_seq(r) + rest),
            },
        }
    }
}

/// The fields of an object literal, from the `i`-th member on.
pub open spec fn obj_entries(
    nm: NumFn,
    f: nat,
    c: Seq<SFrame>,
    creator: SCreator,
    ms: Seq<Member>,
    i: nat,
) -> SRes<Seq<(Seq<char>, SMember)>>
    decreases f, ms.len() - i, 3nat,
{
    if i >= ms.len() {
        Ok(Seq::empty())
    } else {
        match ms[i as int] {
            Member::Field(fm) => match field_name(nm, f, c, fm.name) {
                Err(e) => Err(e),
                Ok(n) => {
                    let m = match fm.params {
                        None => SMember {
                            add: fm.plus,
                            visibility: fm.visibility,
                            creator,
                            params: None,
                            value: fm.value,
                        },
                        Some(p) => SMember {
                            add: false,
                            visibility: Visibility::Hidden,
                            creator,
                            params: Some(p),
                            value: fm.value,
                        },
                    };
                    match obj_entries(nm, f, c, creator, ms, i + 1) {
                        Err(e) => Err(e),
                        Ok(rest) => Ok(seq![(n, m)] + rest),
                    }
                },
            },
            _ => obj_entries(nm, f, c, creator, ms, i + 1),
        }
    }
}

/// An object literal.
pub open spec fn eval_object(nm: NumFn, f: nat, c: Seq<SFrame>, body: ObjBody) -> SRes<SObj>
    decreases f, body_measure(body), 0nat,
{
    match body {
        ObjBody::MemberList(ms) => {
            let creator = SCreator { ctx: c, bindings: member_binds(ms@) };
            match obj_entries(nm, f, c, creator, ms@, 0) {
                Err(e) => Err(e),
                Ok(es) => Ok(SObj { super_obj: None, entries: es }),
            }
        },
        ObjBody::ObjComp(_) => Err(SError::Panic),
    }
}

/// `std.makeArray`: the function called on each index from `i` to `n`.
pub open spec fn make_array(nm: NumFn, f: nat, d: SFunc, i: nat, n: nat) -> SRes<Seq<SVal>>
    decreases f, 0nat, n - i + 1,
{
    if i >= n {
        Ok(Seq::empty())
    } else {
        match call(nm, f, d, seq![(None, ans_val(nm(NumRequest::FromIndex(i as usize))))]) {
            Err(e) => Err(e),
            Ok(v) => match make_array(nm, f, d, i + 1, n) {
                Err(e) => Err(e),
                Ok(r) => Ok(seq![v] + r),
            },
        }
    }
}

/// The functions of `std` that the evaluator implements itself.
pub open spec fn builtin(nm: NumFn, f: nat, c: Seq<SFrame>, name: Seq<char>, args: Seq<Arg>) -> SRes<
    SVal,
>
    decreases f, 1nat, 0nat,
{
    if name == "length"@ {
        if args.len() != 1 {
            Err(SError::Panic)
        } else {
            match eval(nm, f, c, args[0].1) {
                Err(e) => Err(e),
                Ok(SVal::Str(s)) => Ok(ans_val(nm(NumRequest::FromIndex(s.len() as usize)))),
                Ok(SVal::Arr(xs)) => Ok(ans_val(nm(NumRequest::FromIndex(xs.len() as usize)))),
                Ok(_) => Err(SError::Panic),
            }
        }
    } else if name == "type"@ {
        if args.len() != 1 {
            Err(SError::Panic)
        } else {
            match eval(nm, f, c, args[0].1) {
                Err(e) => Err(e),
                Ok(v) => match force(nm, f, v) {
                    Err(e) => Err(e),
                    Ok(v1) => Ok(SVal::Str(type_label(value_type(v1)))),
                },
            }
        }
    } else if name == "makeArray"@ {
        if args.len() != 2 {
            Err(SError::Panic)
        } else {
            match eval(nm, f, c, args[0].1) {
                Err(e) => Err(e),
                Ok(a) => match eval(nm, f, c, args[1].1) {
                    Err(e) => Err(e),
                    Ok(b) => match (a, b) {
                        (SVal::Num(v), SVal::Func(d)) => if !ans_bool(
                            nm(NumRequest::IsPositive(v)),
                        ) {
                            Err(SError::Panic)
                        } else {
                            match make_array(
                                nm,
                                f,
                                d,
                                0,
                                ans_index(nm(NumRequest::ToIndex(v))) as nat,
                            ) {
                                Err(e) => Err(e),
                                Ok(xs) => Ok(SVal::Arr(xs)),
                            }
                        },
                        _ => Err(SError::Panic),
                    },
                },
            }
        }
    } else if name == "codepoint"@ {
        if args.len() != 1 {
            Err(SError::Panic)
        } else {
            match eval(nm, f, c, args[0].1) {
                Err(e) => Err(e),
                Ok(SVal::Str(s)) => if s.len() != 1 {
                    Err(SError::Panic)
                } else {
                    Ok(ans_val(nm(NumRequest::FromIndex((s[0] as u32) as usize))))
                },
                Ok(_) => Err(SError::Panic),
            }
        }
    } else if name == "objectFieldsEx"@ {
        if args.len() != 2 {
            Err(SError::Panic)
        } else {
            match eval(nm, f, c, args[0].1) {
                Err(e) => Err(e),
                Ok(a) => match eval(nm, f, c, args[1].1) {
                    Err(e) => Err(e),
                    Ok(b) => match (a, b) {
                        (SVal::Obj(o), SVal::Bool(_)) => Ok(
                            SVal::Arr(obj_fields(o).map_values(|n: Seq<char>| SVal::Str(n))),
                        ),
                        _ => Err(SError::Panic),
                    },
                },
            }
        }
    } else {
        Err(SError::Panic)
    }
}

/// The outcome of evaluating `e` in `c`.
pub open spec fn eval(nm: NumFn, f: nat, c: Seq<SFrame>, e: LocExpr) -> SRes<SVal>
    decreases f, 0nat, 0nat,
{
    if f == 0 {
        Err(SError::StackOverflow)
    } else {
        let g = (f - 1) as nat;
        match *e.0 {
            Expr::Literal(LiteralType::This) => match cur_this(c) {
                Some(o) => Ok(SVal::Obj(o)),
                None => Err(SError::Panic),
            },
            Expr::Literal(LiteralType::Super) => match cur_super(c) {
                Some(o) => Ok(SVal::Obj(o)),
                None => Err(SError::Panic),
            },
            Expr::Literal(LiteralType::True) => Ok(SVal::Bool(true)),
            Expr::Literal(LiteralType::False) => Ok(SVal::Bool(false)),
            Expr::Literal(LiteralType::Null) => Ok(SVal::Null),
            Expr::Parened(x) => eval(nm, g, c, x),
            Expr::Str(s) => Ok(SVal::Str(s@)),
            Expr::Num(n) => Ok(SVal::Num(n)),
            Expr::BinaryOp(x, op, y) => match eval(nm, g, c, x) {
                Err(er) => Err(er),
                Ok(a0) => match force(nm, g, a0) {
                    Err(er) => Err(er),
                    Ok(a) => match eval(nm, g, c, y) {
                        Err(er) => Err(er),
                        Ok(b0) => match force(nm, g, b0) {
                            Err(er) => Err(er),
                            Ok(b) => binop(nm, g, c, a, op, b),
                        },
                    },
                },
            },
            Expr::UnaryOp(op, x) => match eval(nm, g, c, x) {
                Err(er) => Err(er),
                Ok(v) => unop(nm, g, op, v),
            },
            Expr::Var(name) => match lookup(c, name@) {
                None => Err(SError::VariableIsNotDefined(name@)),
                Some(v) => force(nm, g, v),
            },
            Expr::Index(x, i) => match eval(nm, g, c, x) {
                Err(er) => Err(er),
                Ok(v0) => match force(nm, g, v0) {
                    Err(er) => Err(er),
                    Ok(v) => match eval(nm, g, c, i) {
                        Err(er) => Err(er),
                        Ok(ix) => index_val(nm, g, v, ix),
                    },
                },
            },
            Expr::LocalExpr(bs, body) => eval(
                nm,
                g,
                extend_ctx(c, binds_of(bs@), None, None, None),
                body,
            ),
            Expr::Arr(items) => match eval_list(nm, g, c, items@, 0) {
                Err(er) => Err(er),
                Ok(vs) => Ok(SVal::Arr(vs)),
            },
            Expr::ArrComp(x, specs) => match eval_comp(nm, g, c, x, specs@, 0) {
                Err(er) => Err(er),
                Ok(Some(vs)) => Ok(SVal::Arr(vs)),
                Ok(None) => Err(SError::Panic),
            },
            Expr::Obj(body) => match eval_object(nm, g, c, body) {
                Err(er) => Err(er),
                Ok(o) => Ok(SVal::Obj(o)),
            },
            Expr::Apply(x, args) => match eval(nm, g, c, x) {
                Err(er) => Err(er),
                Ok(t0) => match force(nm, g, t0) {
                    Err(er) => Err(er),
                    Ok(SVal::Intristic(ns, name)) => if ns == "std"@ {
                        builtin(nm, g, c, name, args.0@)
                    } else {
                        Err(SError::Panic)
                    },
                    Ok(SVal::Func(fd)) => call(nm, g, fd, arg_thunks(c, args.0@)),
                    Ok(_) => Err(SError::Panic),
                },
            },
            Expr::Function(p, body) => Ok(SVal::Func(SFunc { ctx: c, params: p, body })),
            Expr::AssertExpr(AssertStmt(v, msg), ret) => match eval(nm, g, c, v) {
                Err(er) => Err(er),
                Ok(cv) => match cast_bool(nm, g, cv, "assertion condition should be boolean"@) {
                    Err(er) => Err(er),
                    Ok(true) => eval(nm, g, c, ret),
                    Ok(false) => match msg {
                        None => Err(SError::Panic),
                        Some(m) => match eval(nm, g, c, m) {
                            Err(er) => Err(er),
                            Ok(mv) => match cast_str(
                                nm,
                                g,
                                mv,
                                "assertion message should be string"@,
                            ) {
                                Err(er) => Err(er),
                                Ok(_) => Err(SError::Panic),
                            },
                        },
                    },
                },
            },
            Expr::Error(x) => match eval(nm, g, c, x) {
                Err(er) => Err(er),
                Ok(v) => match cast_str(nm, g, v, "error text should be string"@) {
                    Err(er) => Err(er),
                    Ok(s) => Err(SError::RuntimeError(s)),
                },
            },
            Expr::IfElse { cond, cond_then, cond_else } => match eval(nm, g, c, cond.0) {
                Err(er) => Err(er),
                Ok(cv) => match cast_bool(nm, g, cv, "if condition should be boolean"@) {
                    Err(er) => Err(er),
                    Ok(true) => eval(nm, g, c, cond_then),
                    Ok(false) => match cond_else {
                        Some(x) => eval(nm, g, c, x),
                        None => Ok(SVal::Bool(false)),
                    },
                },
            },
            _ => Err(SError::Panic),
        }
    }
}

} // verus!
