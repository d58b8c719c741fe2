//! The evaluator, proved against the semantics in `spec`.
//!
//! Every function takes `num`, the backend that computes on numbers, and
//! ensures that its outcome is the one the semantics gives. The `_in`
//! functions and the methods take `fuel`, the depth the evaluation may still
//! go to, and give `Error::Fatal` where jsonnet's evaluation stops the program
//! (`SError::Panic`). The entry points with jsonnet's names evaluate at
//! `MAX_DEPTH` and require that the evaluation does not reach such a point;
//! `try_evaluate` does not, and gives `Error::Fatal` there.
use crate::ast::{
    Arg, AssertStmt, BinaryOpType, BindSpec, CompSpec, Expr, FieldName, ForSpecData, IfSpecData, LiteralType, LocExpr, Member, ObjBody, Param, ParamsDesc, UnaryOpType,
    Visibility,
};
use crate::depth::not_out_of_depth;
use crate::outcome::{
    binop_outcome, eval_comp_outcome, eval_object_outcome, eval_outcome, field_name_outcome,
    lemma_binop_outcome, lemma_eval_comp_outcome, lemma_eval_object_outcome, lemma_eval_outcome,
    lemma_field_name_outcome, lemma_unop_outcome, unop_outcome,
};
use crate::num::{ask, backend_ok, num_model, NumAnswer, NumRequest};
use crate::ops::{
    answer_bool, answer_index, answer_text, answer_val, concat_vals, debug_string, lemma_entries_view_index,
    lemma_vals_view_add,
    lemma_entries_view_len, repeat_str, strs_view, vals_equal,
};
use crate::spec::{
    add_op, arg_thunks, bind_each, bind_one, bind_params, binds_of, binop, binop_strict, builtin,
    call, cast_bool, cast_str, comp_items, comp_measure, body_measure, eval,
    eval_comp, eval_list, eval_object, field_name, find_entry, find_named, fmt_call,
    force, get_raw, has_param, index_val, invoke, make_array, member_binds,
    named_args, obj_depth, obj_fields, obj_entries, opt_seq, positional, unknown_named, unop, value_type, with_var, SRes,
};
use crate::val::{
    binding_view, bindings_view, creator_view, entries_view, lemma_bindings_view_push,
    lemma_entries_view_push, lemma_vals_view_index, lemma_vals_view_len, lemma_vals_view_push,
    member_view, opt_obj_view, res_view, vals_view, Context, ContextCreator,
    Error, FuncDesc, LazyBinding, LazyVal, ObjMember, ObjValue, SBinding, SCreator, SError, SFunc, SMember, SObj, SVal, Val, ValType,
};
use std::rc::Rc;
use vstd::prelude::*;

verus! {

// ---------------------------------------------------------------------------
// Views of outcomes
// ---------------------------------------------------------------------------

/// The outcome is not one where the evaluator stops the program.
pub open spec fn no_panic<T>(r: SRes<T>) -> bool {
    r != Err::<T, SError>(SError::Panic)
}

pub open spec fn rv_bool(r: Result<bool, Error>) -> SRes<bool> {
    match r {
        Ok(b) => Ok(b),
        Err(e) => Err(e@),
    }
}

pub open spec fn rv_str(r: Result<String, Error>) -> SRes<Seq<char>> {
    match r {
        Ok(s) => Ok(s@),
        Err(e) => Err(e@),
    }
}

pub open spec fn rv_opt(r: Result<Option<Val>, Error>) -> SRes<Option<SVal>> {
    match r {
        Ok(Some(v)) => Ok(Some(v@)),
        Ok(None) => Ok(None),
        Err(e) => Err(e@),
    }
}

pub open spec fn rv_opt_vals(r: Result<Option<Vec<Val>>, Error>) -> SRes<Option<Seq<SVal>>> {
    match r {
        Ok(Some(v)) => Ok(Some(vals_view(v@))),
        Ok(None) => Ok(None),
        Err(e) => Err(e@),
    }
}

pub open spec fn rv_obj(r: Result<ObjValue, Error>) -> SRes<SObj> {
    match r {
        Ok(o) => Ok(o@),
        Err(e) => Err(e@),
    }
}

pub open spec fn rv_binds(r: Result<Vec<(String, LazyBinding)>, Error>) -> SRes<
    Seq<(Seq<char>, SBinding)>,
> {
    match r {
        Ok(b) => Ok(bindings_view(b@)),
        Err(e) => Err(e@),
    }
}

/// `pre` before the values of `r`.
pub open spec fn prepend<T>(pre: Seq<T>, r: SRes<Seq<T>>) -> SRes<Seq<T>> {
    match r {
        Ok(x) => Ok(pre + x),
        Err(e) => Err(e),
    }
}

pub open spec fn opt_str_view(o: Option<String>) -> Option<Seq<char>> {
    match o {
        Some(s) => Some(s@),
        None => None,
    }
}

pub open spec fn args_view(s: Seq<(Option<String>, Val)>) -> Seq<(Option<Seq<char>>, SVal)> {
    s.map_values(|a: (Option<String>, Val)| (opt_str_view(a.0), a.1@))
}

pub open spec fn named_view(s: Seq<(String, Val)>) -> Seq<(Seq<char>, SVal)> {
    s.map_values(|a: (String, Val)| (a.0@, a.1@))
}

// ---------------------------------------------------------------------------
// `+`
// ---------------------------------------------------------------------------

/// `a + b`, for the types that `+` is defined on.
pub fn evaluate_add_op<N: Fn(NumRequest) -> NumAnswer>(a: &Val, b: &Val, num: &N) -> (r: Result<
    Val,
    Error,
>)
    requires
        backend_ok(*num),
        no_panic(add_op(num_model(*num), a@, b@)),
    ensures
        res_view(r) == add_op(num_model(*num), a@, b@),
{
    add_values(a, b, num)
}

/// `a + b`; `Error::Fatal` on the types that `+` is not defined on.
pub fn add_values<N: Fn(NumRequest) -> NumAnswer>(a: &Val, b: &Val, num: &N) -> (r: Result<
    Val,
    Error,
>)
    requires
        backend_ok(*num),
    ensures
        res_view(r) == add_op(num_model(*num), a@, b@),
{
    match (a, b) {
        (Val::Str(v1), Val::Str(v2)) => {
            let mut s = v1.clone();
            s.append(v2.as_str());
            Ok(Val::Str(s))
        },
        (Val::Str(v1), Val::Num(v2)) => {
            let t = answer_text(ask(num, NumRequest::Display(*v2)));
            let mut s = v1.clone();
            s.append(t.as_str());
            Ok(Val::Str(s))
        },
        (Val::Num(v1), Val::Str(v2)) => {
            let mut s = answer_text(ask(num, NumRequest::Display(*v1)));
            s.append(v2.as_str());
            Ok(Val::Str(s))
        },
        (Val::Str(v1), v2) => {
            let t = debug_string(v2, num);
            let mut s = v1.clone();
            s.append(t.as_str());
            Ok(Val::Str(s))
        },
        (Val::Obj(v1), Val::Obj(v2)) => Ok(Val::Obj(v2.with_super(v1.clone()))),
        (Val::Arr(x), Val::Arr(y)) => {
            let xy = concat_vals(x, y);
            proof {
                lemma_vals_view_add(x@, y@);
            }
            Ok(Val::Arr(Rc::new(xy)))
        },
        (Val::Num(v1), Val::Num(v2)) => {
            let ans = ask(num, NumRequest::Binary(BinaryOpType::Add, *v1, *v2));
            Ok(answer_val(ans))
        },
        _ => Err(Error::Fatal),
    }
}

// ---------------------------------------------------------------------------
// Bindings and functions
// ---------------------------------------------------------------------------

/// The binding that `local name = value` (or `local name(params) = value`) makes.
pub fn evaluate_binding(b: &BindSpec) -> (r: (String, LazyBinding))
    ensures
        r.0@ == b.name@,
        r.1 == LazyBinding::Code(b.params, b.value),
{
    let params = match &b.params {
        Some(p) => Some(p.clone()),
        None => None,
    };
    (b.name.clone(), LazyBinding::Code(params, b.value.clone()))
}

/// The function `function(params) expr` written in `ctx`.
pub fn evaluate_method(ctx: Context, expr: &LocExpr, arg_spec: ParamsDesc) -> (r: Val)
    ensures
        r@ == SVal::Func(SFunc { ctx: ctx@, params: arg_spec, body: *expr }),
{
    Val::Func(FuncDesc { ctx, params: arg_spec, body: expr.clone() })
}

// ---------------------------------------------------------------------------
// Local bindings
// ---------------------------------------------------------------------------

/// The bindings of `local` definitions.
pub fn evaluate_bindings(bs: &Vec<BindSpec>) -> (r: Vec<(String, LazyBinding)>)
    ensures
        bindings_view(r@) == binds_of(bs@),
{
    let mut out: Vec<(String, LazyBinding)> = Vec::new();
    let mut i: usize = 0;
    while i < bs.len()
        invariant
            i <= bs.len(),
            bindings_view(out@) == binds_of(bs@.take(i as int)),
        decreases bs.len() - i,
    {
        let b = evaluate_binding(&bs[i]);
        proof {
            lemma_bindings_view_push(out@, b);
            assert(bs@.take(i + 1).drop_last() =~= bs@.take(i as int));
        }
        out.push(b);
        i += 1;
    }
    assert(bs@.take(bs.len() as int) =~= bs@);
    out
}

/// The bindings of the `local`s of an object.
pub fn member_bindings(ms: &Vec<Member>) -> (r: Vec<(String, LazyBinding)>)
    ensures
        bindings_view(r@) == member_binds(ms@),
{
    let mut out: Vec<(String, LazyBinding)> = Vec::new();
    let mut i: usize = 0;
    while i < ms.len()
        invariant
            i <= ms.len(),
            bindings_view(out@) == member_binds(ms@.take(i as int)),
        decreases ms.len() - i,
    {
        proof {
            assert(ms@.take(i + 1).drop_last() =~= ms@.take(i as int));
        }
        match &ms[i] {
            Member::BindStmt(b) => {
                let e = evaluate_binding(b);
                proof {
                    lemma_bindings_view_push(out@, e);
                }
                out.push(e);
            },
            _ => {},
        }
        i += 1;
    }
    assert(ms@.take(ms.len() as int) =~= ms@);
    out
}

// ---------------------------------------------------------------------------
// Calls
// ---------------------------------------------------------------------------

fn has_param_in(params: &Vec<Param>, x: &String) -> (r: bool)
    ensures
        r == has_param(params@, x@),
{
    let mut found = false;
    let mut i: usize = 0;
    while i < params.len()
        invariant
            i <= params.len(),
            found == has_param(params@.take(i as int), x@),
        decreases params.len() - i,
    {
        assert(params@.take(i + 1).drop_last() =~= params@.take(i as int));
        if params[i].0 == *x {
            found = true;
        }
        i += 1;
    }
    assert(params@.take(params.len() as int) =~= params@);
    found
}

fn find_named_in(named: &Vec<(String, Val)>, x: &String) -> (r: Option<Val>)
    ensures
        match r {
            Some(v) => find_named(named_view(named@), x@) == Some(v@),
            None => find_named(named_view(named@), x@) == None::<SVal>,
        },
{
    let ghost nv = named_view(named@);
    let mut found: Option<Val> = None;
    let mut i: usize = 0;
    while i < named.len()
        invariant
            i <= named.len(),
            nv == named_view(named@),
            match found {
                Some(v) => find_named(nv.take(i as int), x@) == Some(v@),
                None => find_named(nv.take(i as int), x@) == None::<SVal>,
            },
        decreases named.len() - i,
    {
        assert(nv.take(i + 1).drop_last() =~= nv.take(i as int));
        if found.is_none() && named[i].0 == *x {
            found = Some(named[i].1.clone());
        }
        i += 1;
    }
    assert(nv.take(named.len() as int) =~= nv);
    found
}

/// The frame of a call of a function with `params` on `args`.
pub fn bind_params_in(params: &Vec<Param>, args: &Vec<(Option<String>, Val)>) -> (r: Result<
    Vec<(String, LazyBinding)>,
    Error,
>)
    ensures
        rv_binds(r) == bind_params(params@, args_view(args@)),
{
    let ghost av = args_view(args@);
    let mut pos: Vec<Val> = Vec::new();
    let mut named: Vec<(String, Val)> = Vec::new();
    let mut i: usize = 0;
    while i < args.len()
        invariant
            i <= args.len(),
            av == args_view(args@),
            vals_view(pos@) == positional(av.take(i as int)),
            named_view(named@) == named_args(av.take(i as int)),
        decreases args.len() - i,
    {
        assert(av.take(i + 1).drop_last() =~= av.take(i as int));
        match &args[i].0 {
            None => {
                proof {
                    lemma_vals_view_push(pos@, args@[i as int].1);
                }
                pos.push(args[i].1.clone());
            },
            Some(n) => {
                let x = (n.clone(), args[i].1.clone());
                let ghost before = named@;
                named.push(x);
                assert(named_view(named@) =~= named_view(before).push((n@, args@[i as int].1@)));
            },
        }
        i += 1;
    }
    assert(av.take(args.len() as int) =~= av);
    proof {
        lemma_vals_view_len(pos@);
    }
    if pos.len() > params.len() {
        return Err(Error::TooManyArgsFunctionHas(params.len()));
    }
    let ghost nv = named_view(named@);
    let mut unknown: Option<String> = None;
    let mut k: usize = 0;
    while k < named.len()
        invariant
            k <= named.len(),
            nv == named_view(named@),
            opt_str_view(unknown) == unknown_named(nv.take(k as int), params@),
        decreases named.len() - k,
    {
        assert(nv.take(k + 1).drop_last() =~= nv.take(k as int));
        if unknown.is_none() && !has_param_in(params, &named[k].0) {
            unknown = Some(named[k].0.clone());
        }
        k += 1;
    }
    assert(nv.take(named.len() as int) =~= nv);
    match unknown {
        Some(x) => {
            return Err(Error::UnknownFunctionParameter(x));
        },
        None => {},
    }
    let ghost pv = vals_view(pos@);
    let mut out: Vec<(String, LazyBinding)> = Vec::new();
    let mut j: usize = 0;
    assert(Seq::<(Seq<char>, SBinding)>::empty() + bind_each(params@, pv, nv, 0)->Ok_0
        =~= bind_each(params@, pv, nv, 0)->Ok_0);
    while j < params.len()
        invariant
            j <= params.len(),
            pv == vals_view(pos@),
            pv.len() == pos.len(),
            nv == named_view(named@),
            av == args_view(args@),
            bind_params(params@, av) == bind_each(params@, pv, nv, 0),
            bind_each(params@, pv, nv, 0) == prepend(
                bindings_view(out@),
                bind_each(params@, pv, nv, j as nat),
            ),
        decreases params.len() - j,
    {
        let p = &params[j];
        let b = if j < pos.len() {
            proof {
                lemma_vals_view_index(pos@, j as int);
            }
            LazyBinding::Value(pos[j].clone())
        } else {
            match find_named_in(&named, &p.0) {
                Some(v) => LazyBinding::Value(v),
                None => match &p.1 {
                    Some(d) => LazyBinding::Code(None, d.clone()),
                    None => {
                        proof {
                            assert(params@[j as int] == *p);
                            assert(bind_one(params@, pv, nv, j as int) == Err::<SBinding, SError>(
                                SError::FunctionParameterNotBoundInCall(p.0@),
                            ));
                        }
                        return Err(Error::FunctionParameterNotBoundInCall(p.0.clone()));
                    },
                },
            }
        };
        let e = (p.0.clone(), b);
        proof {
            assert(bind_one(params@, pv, nv, j as int) == Ok::<SBinding, SError>(binding_view(b)));
            lemma_bindings_view_push(out@, e);
            match bind_each(params@, pv, nv, (j + 1) as nat) {
                Ok(r) => {
                    assert(bindings_view(out@) + (seq![(p.0@, binding_view(b))] + r)
                        =~= bindings_view(out@).push((p.0@, binding_view(b))) + r);
                },
                Err(_) => {},
            }
        }
        out.push(e);
        j += 1;
    }
    assert(bindings_view(out@) + Seq::<(Seq<char>, SBinding)>::empty() =~= bindings_view(out@));
    Ok(out)
}


// ---------------------------------------------------------------------------
// Forcing and casting
// ---------------------------------------------------------------------------

impl Val {
    /// The value with its thunks forced.
    pub fn unwrap_if_lazy<N: Fn(NumRequest) -> NumAnswer>(&self, fuel: u64, num: &N) -> (r: Result<
        Val,
        Error,
    >)
        requires
            backend_ok(*num),
        ensures
            res_view(r) == force(num_model(*num), fuel as nat, self@),
        decreases fuel, 0nat, 0nat,
    {
        match self {
            Val::Lazy(t) => {
                if fuel == 0 {
                    return Err(Error::StackOverflow);
                }
                match evaluate_in(&t.ctx, &t.expr, fuel - 1, num) {
                    Err(e) => Err(e),
                    Ok(r) => r.unwrap_if_lazy(fuel - 1, num),
                }
            },
            _ => Ok(self.clone()),
        }
    }

    /// The value as a boolean; `what` says where a boolean was expected.
    pub fn try_cast_bool<N: Fn(NumRequest) -> NumAnswer>(
        &self,
        what: &str,
        fuel: u64,
        num: &N,
    ) -> (r: Result<bool, Error>)
        requires
            backend_ok(*num),
        ensures
            rv_bool(r) == cast_bool(num_model(*num), fuel as nat, self@, what@),
        decreases fuel, 0nat, 1nat,
    {
        match self.unwrap_if_lazy(fuel, num) {
            Err(e) => Err(e),
            Ok(Val::Bool(b)) => Ok(b),
            Ok(o) => Err(Error::TypeMismatch(what.to_owned(), ValType::Bool, o.value_type())),
        }
    }

    /// The value as a string; `what` says where a string was expected.
    pub fn try_cast_str<N: Fn(NumRequest) -> NumAnswer>(&self, what: &str, fuel: u64, num: &N) -> (r:
        Result<String, Error>)
        requires
            backend_ok(*num),
        ensures
            rv_str(r) == cast_str(num_model(*num), fuel as nat, self@, what@),
        decreases fuel, 0nat, 1nat,
    {
        match self.unwrap_if_lazy(fuel, num) {
            Err(e) => Err(e),
            Ok(Val::Str(s)) => Ok(s),
            Ok(o) => Err(Error::TypeMismatch(what.to_owned(), ValType::Str, o.value_type())),
        }
    }
}

/// A unary operator applied to a value.
pub fn evaluate_unary_op_in<N: Fn(NumRequest) -> NumAnswer>(
    op: UnaryOpType,
    b: &Val,
    fuel: u64,
    num: &N,
) -> (r: Result<Val, Error>)
    requires
        backend_ok(*num),
    ensures
        res_view(r) == unop(num_model(*num), fuel as nat, op, b@),
    decreases fuel, 0nat, 1nat,
{
    match b.unwrap_if_lazy(fuel, num) {
        Err(e) => Err(e),
        Ok(Val::Bool(v)) => {
            if op == UnaryOpType::Not {
                Ok(Val::Bool(!v))
            } else {
                Err(Error::Fatal)
            }
        },
        Ok(_) => Err(Error::Fatal),
    }
}

/// The name of a field.
pub fn evaluate_field_name_in<N: Fn(NumRequest) -> NumAnswer>(
    context: &Context,
    field_name: &FieldName,
    fuel: u64,
    num: &N,
) -> (r: Result<String, Error>)
    requires
        backend_ok(*num),
    ensures
        rv_str(r) == crate::spec::field_name(num_model(*num), fuel as nat, context@, *field_name),
    decreases fuel, 0nat, 2nat,
{
    match field_name {
        FieldName::Fixed(n) => Ok(n.clone()),
        FieldName::Dyn(expr) => match evaluate_in(context, expr, fuel, num) {
            Err(e) => Err(e),
            Ok(v) => v.try_cast_str("dynamic field name", fuel, num),
        },
    }
}

// ---------------------------------------------------------------------------
// Objects
// ---------------------------------------------------------------------------

/// A field evaluated with its `self` and `super`.
fn invoke_in<N: Fn(NumRequest) -> NumAnswer>(
    m: &ObjMember,
    this: &ObjValue,
    super_obj: Option<ObjValue>,
    fuel: u64,
    num: &N,
) -> (r: Result<Val, Error>)
    requires
        backend_ok(*num),
    ensures
        res_view(r) == invoke(num_model(*num), fuel as nat, member_view(*m), this@, opt_obj_view(super_obj)),
    decreases fuel, 0nat, 0nat,
{
    let ctx = m.creator.create(this.clone(), super_obj);
    match &m.params {
        Some(p) => Ok(evaluate_method(ctx, &m.value, p.clone())),
        None => {
            if fuel == 0 {
                return Err(Error::StackOverflow);
            }
            match evaluate_in(&ctx, &m.value, fuel - 1, num) {
                Err(e) => Err(e),
                Ok(v) => v.unwrap_if_lazy(fuel - 1, num),
            }
        },
    }
}

/// The last entry of a layer with the name `key`.
fn find_member(es: &Vec<(String, ObjMember)>, key: &String) -> (r: Option<usize>)
    ensures
        match r {
            Some(i) => i < es.len() && find_entry(entries_view(es@), key@) == Some(
                member_view(es@[i as int].1),
            ),
            None => find_entry(entries_view(es@), key@) == None::<SMember>,
        },
{
    let ghost ev = entries_view(es@);
    proof {
        lemma_entries_view_len(es@);
        assert(ev.take(es.len() as int) =~= ev);
    }
    let mut j: usize = es.len();
    while j > 0
        invariant
            j <= es.len(),
            ev == entries_view(es@),
            ev.len() == es.len(),
            find_entry(ev, key@) == find_entry(ev.take(j as int), key@),
        decreases j,
    {
        proof {
            lemma_entries_view_index(es@, j - 1);
            assert(ev.take(j as int).drop_last() =~= ev.take(j - 1));
        }
        if es[j - 1].0 == *key {
            return Some(j - 1);
        }
        j -= 1;
    }
    None
}

impl ObjValue {
    /// The field `key` looked up from this layer down, `real_this` being the
    /// whole object.
    pub fn get_raw<N: Fn(NumRequest) -> NumAnswer>(
        &self,
        key: &String,
        real_this: &ObjValue,
        fuel: u64,
        num: &N,
    ) -> (r: Result<Option<Val>, Error>)
        requires
            backend_ok(*num),
        ensures
            rv_opt(r) == get_raw(num_model(*num), fuel as nat, self@, key@, real_this@),
        decreases fuel, 0nat, 3 + obj_depth(self@),
    {
        let es = &self.this_entries;
        match (find_member(es, key), &self.super_obj) {
            (Some(i), None) => {
                match invoke_in(&es[i].1, real_this, None, fuel, num) {
                    Err(e) => Err(e),
                    Ok(v) => Ok(Some(v)),
                }
            },
            (Some(i), Some(s)) => {
                let k = &es[i].1;
                let sup: ObjValue = (**s).clone();
                match invoke_in(k, real_this, Some(sup), fuel, num) {
                    Err(e) => Err(e),
                    Ok(our) => {
                        if k.add {
                            match s.get_raw(key, real_this, fuel, num) {
                                Err(e) => Err(e),
                                Ok(Some(v)) => match add_values(&v, &our, num) {
                                    Err(e) => Err(e),
                                    Ok(r) => Ok(Some(r)),
                                },
                                Ok(None) => Ok(Some(our)),
                            }
                        } else {
                            Ok(Some(our))
                        }
                    },
                }
            },
            (None, Some(s)) => s.get_raw(key, real_this, fuel, num),
            (None, None) => Ok(None),
        }
    }

    /// The field `key` of the object.
    pub fn get<N: Fn(NumRequest) -> NumAnswer>(&self, key: &String, fuel: u64, num: &N) -> (r:
        Result<Option<Val>, Error>)
        requires
            backend_ok(*num),
        ensures
            rv_opt(r) == get_raw(num_model(*num), fuel as nat, self@, key@, self@),
    {
        self.get_raw(key, self, fuel, num)
    }
}

// ---------------------------------------------------------------------------
// Functions
// ---------------------------------------------------------------------------

impl FuncDesc {
    /// The function called on `args`.
    pub fn evaluate<N: Fn(NumRequest) -> NumAnswer>(
        &self,
        args: Vec<(Option<String>, Val)>,
        fuel: u64,
        num: &N,
    ) -> (r: Result<Val, Error>)
        requires
            backend_ok(*num),
        ensures
            res_view(r) == call(num_model(*num), fuel as nat, SFunc { ctx: self.ctx@, params: self.params, body: self.body }, args_view(args@)),
        decreases fuel, 0nat, 0nat,
    {
        if fuel == 0 {
            return Err(Error::StackOverflow);
        }
        match bind_params_in(&self.params.0, &args) {
            Err(e) => Err(e),
            Ok(bs) => {
                let ctx = self.ctx.extend(bs, None, None, None);
                evaluate_in(&ctx, &self.body, fuel - 1, num)
            },
        }
    }
}


// ---------------------------------------------------------------------------
// Indexing and operators
// ---------------------------------------------------------------------------

/// `v[ix]` of two evaluated values.
fn index_val_in<N: Fn(NumRequest) -> NumAnswer>(v: &Val, ix: &Val, fuel: u64, num: &N) -> (r: Result<
    Val,
    Error,
>)
    requires
        backend_ok(*num),
    ensures
        res_view(r) == index_val(num_model(*num), fuel as nat, v@, ix@),
    decreases fuel, 1nat, 0nat,
{
    match (v, ix) {
        (Val::Obj(o), Val::Str(s)) => match o.get_raw(s, o, fuel, num) {
            Err(e) => Err(e),
            Ok(Some(x)) => x.unwrap_if_lazy(fuel, num),
            Ok(None) => {
                let ns_key = "__intristic_namespace__".to_owned();
                match o.get_raw(&ns_key, o, fuel, num) {
                    Err(e) => Err(e),
                    Ok(Some(Val::Str(n))) => Ok(Val::Intristic(n, s.clone())),
                    Ok(_) => Err(Error::NoSuchField(s.clone())),
                }
            },
        },
        (Val::Arr(xs), Val::Num(n)) => {
            let k = answer_index(&ask(num, NumRequest::ToIndex(*n)));
            proof {
                lemma_vals_view_len(xs@);
            }
            if k < xs.len() {
                proof {
                    lemma_vals_view_index(xs@, k as int);
                }
                Ok(xs[k].clone())
            } else {
                Err(Error::Fatal)
            }
        },
        (Val::Str(s), Val::Num(n)) => {
            let k = answer_index(&ask(num, NumRequest::ToIndex(*n)));
            let len = s.as_str().unicode_len();
            if k < len {
                let one = s.as_str().substring_char(k, k + 1);
                assert(one@ =~= seq![s@[k as int]]);
                Ok(Val::Str(one.to_owned()))
            } else {
                Ok(Val::Str(String::new()))
            }
        },
        _ => Err(Error::Fatal),
    }
}

/// `fmt % args`.
fn fmt_call_in<N: Fn(NumRequest) -> NumAnswer>(
    context: &Context,
    fmt: &String,
    args: &Val,
    fuel: u64,
    num: &N,
) -> (r: Result<Val, Error>)
    requires
        backend_ok(*num),
    ensures
        res_view(r) == fmt_call(num_model(*num), fuel as nat, context@, fmt@, args@),
    decreases fuel, 2nat, 0nat,
{
    let arr = match args {
        Val::Arr(v) => Val::Arr(v.clone()),
        v => {
            let mut items: Vec<Val> = Vec::new();
            items.push(v.clone());
            proof {
                lemma_vals_view_push(Seq::empty(), *v);
                assert(items@ =~= Seq::<Val>::empty().push(*v));
                assert(vals_view(Seq::<Val>::empty()) =~= Seq::<SVal>::empty());
                assert(vals_view(items@) =~= seq![v@]);
            }
            Val::Arr(Rc::new(items))
        },
    };
    let std_name = "std".to_owned();
    match context.binding(&std_name) {
        None => Err(Error::VariableIsNotDefined(std_name)),
        Some(sv) => match sv.unwrap_if_lazy(fuel, num) {
            Err(e) => Err(e),
            Ok(stdv) => match index_val_in(&stdv, &Val::Str("format".to_owned()), fuel, num) {
                Err(e) => Err(e),
                Ok(t0) => match t0.unwrap_if_lazy(fuel, num) {
                    Err(e) => Err(e),
                    Ok(Val::Func(fd)) => {
                        let mut call_args: Vec<(Option<String>, Val)> = Vec::new();
                        call_args.push((None, Val::Str(fmt.clone())));
                        call_args.push((None, arr));
                        assert(args_view(call_args@) =~= seq![
                            (None::<Seq<char>>, SVal::Str(fmt@)),
                            (None::<Seq<char>>, arr@),
                        ]);
                        fd.evaluate(call_args, fuel, num)
                    },
                    Ok(_) => Err(Error::Fatal),
                },
            },
        },
    }
}

/// A binary operator applied to two values whose thunks are forced.
fn binop_strict_in<N: Fn(NumRequest) -> NumAnswer>(
    context: &Context,
    a: &Val,
    op: BinaryOpType,
    b: &Val,
    fuel: u64,
    num: &N,
) -> (r: Result<Val, Error>)
    requires
        backend_ok(*num),
    ensures
        res_view(r) == binop_strict(num_model(*num), fuel as nat, context@, a@, op, b@),
    decreases fuel, 2nat, 1nat,
{
    if op == BinaryOpType::Add {
        return add_values(a, b, num);
    }
    match (a, b) {
        (Val::Str(x), Val::Str(y)) if op == BinaryOpType::Ne => Ok(Val::Bool(*x != *y)),
        (Val::Str(x), Val::Num(n)) if op == BinaryOpType::Mul => {
            let k = answer_index(&ask(num, NumRequest::ToIndex(*n)));
            Ok(Val::Str(repeat_str(x, k)))
        },
        (Val::Str(x), _) if op == BinaryOpType::Mod => fmt_call_in(context, x, b, fuel, num),
        (Val::Bool(x), Val::Bool(y)) if op == BinaryOpType::And => Ok(Val::Bool(*x && *y)),
        (Val::Bool(x), Val::Bool(y)) if op == BinaryOpType::Or => Ok(Val::Bool(*x || *y)),
        (Val::Num(x), Val::Num(y)) if !(op == BinaryOpType::Add || op == BinaryOpType::And
            || op == BinaryOpType::Or) => {
            let ans = ask(num, NumRequest::Binary(op, *x, *y));
            Ok(answer_val(ans))
        },
        _ => {
            if op == BinaryOpType::Eq {
                Ok(Val::Bool(vals_equal(a, b, num)))
            } else if op == BinaryOpType::Ne {
                Ok(Val::Bool(!vals_equal(a, b, num)))
            } else {
                Err(Error::Fatal)
            }
        },
    }
}

/// A binary operator applied to two values.
pub fn evaluate_binary_op_in<N: Fn(NumRequest) -> NumAnswer>(
    context: &Context,
    a: &Val,
    op: BinaryOpType,
    b: &Val,
    fuel: u64,
    num: &N,
) -> (r: Result<Val, Error>)
    requires
        backend_ok(*num),
    ensures
        res_view(r) == binop(num_model(*num), fuel as nat, context@, a@, op, b@),
    decreases fuel, 3nat, 0nat,
{
    match a.unwrap_if_lazy(fuel, num) {
        Err(e) => Err(e),
        Ok(a1) => match b.unwrap_if_lazy(fuel, num) {
            Err(e) => Err(e),
            Ok(b1) => binop_strict_in(context, &a1, op, &b1, fuel, num),
        },
    }
}


// ---------------------------------------------------------------------------
// Comprehensions and object literals
// ---------------------------------------------------------------------------

/// An array comprehension from its `i`-th clause on.
pub fn evaluate_comp_in<N: Fn(NumRequest) -> NumAnswer>(
    context: &Context,
    value: &LocExpr,
    specs: &[CompSpec],
    i: usize,
    fuel: u64,
    num: &N,
) -> (r: Result<Option<Vec<Val>>, Error>)
    requires
        backend_ok(*num),
    ensures
        rv_opt_vals(r) == eval_comp(num_model(*num), fuel as nat, context@, *value, specs@, i as nat),
    decreases fuel, 2 * comp_measure(specs@, i as nat) + 1, 0nat,
{
    let ghost nm = num_model(*num);
    if i >= specs.len() {
        return match evaluate_in(context, value, fuel, num) {
            Err(e) => Err(e),
            Ok(v) => {
                let mut out: Vec<Val> = Vec::new();
                out.push(v);
                proof {
                    lemma_vals_view_push(Seq::empty(), v);
                    assert(out@ =~= Seq::<Val>::empty().push(v));
                    assert(vals_view(Seq::<Val>::empty()) =~= Seq::<SVal>::empty());
                    assert(vals_view(out@) =~= seq![v@]);
                }
                Ok(Some(out))
            },
        };
    }
    match &specs[i] {
        CompSpec::IfSpec(IfSpecData(cond)) => match evaluate_in(context, cond, fuel, num) {
            Err(e) => Err(e),
            Ok(cv) => match cv.try_cast_bool("if spec", fuel, num) {
                Err(e) => Err(e),
                Ok(true) => evaluate_comp_in(context, value, specs, i + 1, fuel, num),
                Ok(false) => Ok(None),
            },
        },
        CompSpec::ForSpec(ForSpecData(var, expr)) => match evaluate_in(context, expr, fuel, num) {
            Err(e) => Err(e),
            Ok(lv0) => match lv0.unwrap_if_lazy(fuel, num) {
                Err(e) => Err(e),
                Ok(Val::Arr(list)) => {
                    let ghost lv = vals_view(list@);
                    let ghost whole = comp_items(nm, fuel as nat, context@, var@, *value, specs@, (i + 1) as nat, lv, 0);
                    proof {
                        lemma_vals_view_len(list@);
                        match whole {
                            Ok(x) => {
                                assert(vals_view(Seq::<Val>::empty()) + x =~= x);
                            },
                            Err(_) => {},
                        }
                    }
                    let mut out: Vec<Val> = Vec::new();
                    let mut j: usize = 0;
                    while j < list.len()
                        invariant
                            j <= list.len(),
                            i < specs.len(),
                            backend_ok(*num),
                            nm == num_model(*num),
                            lv == vals_view(list@),
                            lv.len() == list.len(),
                            whole == comp_items(nm, fuel as nat, context@, var@, *value, specs@, (i + 1) as nat, lv, 0),
                            eval_comp(nm, fuel as nat, context@, *value, specs@, i as nat) == (match whole {
                                Err(e) => Err(e),
                                Ok(vs) => Ok(Some(vs)),
                            }),
                            whole == prepend(
                                vals_view(out@),
                                comp_items(nm, fuel as nat, context@, var@, *value, specs@, (i + 1) as nat, lv, j as nat),
                            ),
                        decreases list.len() - j,
                    {
                        proof {
                            lemma_vals_view_index(list@, j as int);
                        }
                        let ctx2 = context.with_var(var.clone(), list[j].clone());
                        match evaluate_comp_in(&ctx2, value, specs, i + 1, fuel, num) {
                            Err(e) => {
                                return Err(e);
                            },
                            Ok(r) => {
                                let more = match r {
                                    Some(vs) => vs,
                                    None => Vec::new(),
                                };
                                let ghost before = out@;
                                out = crate::ops::concat_vals(&out, &more);
                                proof {
                                    crate::ops::lemma_vals_view_add(before, more@);
                                    assert(vals_view(Seq::<Val>::empty()) =~= Seq::<SVal>::empty());
                                    assert(opt_seq(rv_opt_vals(Ok::<Option<Vec<Val>>, Error>(r))->Ok_0) == vals_view(more@));
                                    match comp_items(nm, fuel as nat, context@, var@, *value, specs@, (i + 1) as nat, lv, (j + 1) as nat) {
                                        Ok(rest) => {
                                            assert(vals_view(before) + (vals_view(more@) + rest) =~= (vals_view(before) + vals_view(more@)) + rest);
                                        },
                                        Err(_) => {},
                                    }
                                }
                            },
                        }
                        j += 1;
                    }
                    proof {
                        assert(vals_view(out@) + Seq::<SVal>::empty() =~= vals_view(out@));
                    }
                    Ok(Some(out))
                },
                Ok(_) => Err(Error::Fatal),
            },
        },
    }
}

/// An object literal.
pub fn evaluate_object_in<N: Fn(NumRequest) -> NumAnswer>(
    context: &Context,
    object: &ObjBody,
    fuel: u64,
    num: &N,
) -> (r: Result<ObjValue, Error>)
    requires
        backend_ok(*num),
    ensures
        rv_obj(r) == eval_object(num_model(*num), fuel as nat, context@, *object),
    decreases fuel, body_measure(*object), 0nat,
{
    let ghost nm = num_model(*num);
    match object {
        ObjBody::MemberList(members) => {
            let binds = member_bindings(members);
            let creator = ContextCreator { context: context.clone(), bindings: Rc::new(binds) };
            let ghost cv = creator_view(creator);
            assert(cv == SCreator { ctx: context@, bindings: member_binds(members@) });
            let ghost whole = obj_entries(nm, fuel as nat, context@, cv, members@, 0);
            proof {
                match whole {
                    Ok(x) => {
                        assert(entries_view(Seq::<(String, ObjMember)>::empty()) + x =~= x);
                    },
                    Err(_) => {},
                }
            }
            let mut entries: Vec<(String, ObjMember)> = Vec::new();
            let mut i: usize = 0;
            while i < members.len()
                invariant
                    i <= members.len(),
                    backend_ok(*num),
                    nm == num_model(*num),
                    cv == creator_view(creator),
                    whole == obj_entries(nm, fuel as nat, context@, cv, members@, 0),
                    eval_object(nm, fuel as nat, context@, *object) == (match whole {
                        Err(e) => Err(e),
                        Ok(es) => Ok(SObj { super_obj: None, entries: es }),
                    }),
                    whole == prepend(
                        entries_view(entries@),
                        obj_entries(nm, fuel as nat, context@, cv, members@, i as nat),
                    ),
                    body_measure(*object) == members@.len() + 1,
                decreases members.len() - i,
            {
                match &members[i] {
                    Member::Field(fm) => {
                        let n = match evaluate_field_name_in(context, &fm.name, fuel, num) {
                            Err(e) => {
                                return Err(e);
                            },
                            Ok(n) => n,
                        };
                        let m = match &fm.params {
                            None => ObjMember {
                                add: fm.plus,
                                visibility: fm.visibility,
                                creator: creator.clone(),
                                params: None,
                                value: fm.value.clone(),
                            },
                            Some(p) => ObjMember {
                                add: false,
                                visibility: Visibility::Hidden,
                                creator: creator.clone(),
                                params: Some(p.clone()),
                                value: fm.value.clone(),
                            },
                        };
                        let ghost before = entries@;
                        proof {
                            lemma_entries_view_push(before, (n, m));
                        }
                        entries.push((n, m));
                        proof {
                            match obj_entries(nm, fuel as nat, context@, cv, members@, (i + 1) as nat) {
                                Ok(rest) => {
                                    assert(entries_view(before) + (seq![(n@, member_view(m))] + rest)
                                        =~= entries_view(entries@) + rest);
                                },
                                Err(_) => {},
                            }
                        }
                    },
                    _ => {},
                }
                i += 1;
            }
            proof {
                assert(entries_view(entries@) + Seq::<(Seq<char>, SMember)>::empty() =~= entries_view(entries@));
            }
            Ok(ObjValue { super_obj: None, this_entries: Rc::new(entries) })
        },
        ObjBody::ObjComp(_) => Err(Error::Fatal),
    }
}


// ---------------------------------------------------------------------------
// The standard library's own functions
// ---------------------------------------------------------------------------

/// A call of `std.<name>` that the evaluator implements itself.
fn builtin_in<N: Fn(NumRequest) -> NumAnswer>(
    context: &Context,
    name: &String,
    args: &Vec<Arg>,
    fuel: u64,
    num: &N,
) -> (r: Result<Val, Error>)
    requires
        backend_ok(*num),
    ensures
        res_view(r) == builtin(num_model(*num), fuel as nat, context@, name@, args@),
    decreases fuel, 1nat, 0nat,
{
    let ghost nm = num_model(*num);
    if *name == "length".to_owned() {
        if args.len() != 1 {
            return Err(Error::Fatal);
        }
        match evaluate_in(context, &args[0].1, fuel, num) {
            Err(e) => Err(e),
            Ok(Val::Str(n)) => {
                let len = n.as_str().unicode_len();
                Ok(answer_val(ask(num, NumRequest::FromIndex(len))))
            },
            Ok(Val::Arr(items)) => {
                proof {
                    lemma_vals_view_len(items@);
                }
                Ok(answer_val(ask(num, NumRequest::FromIndex(items.len()))))
            },
            Ok(_) => Err(Error::Fatal),
        }
    } else if *name == "type".to_owned() {
        if args.len() != 1 {
            return Err(Error::Fatal);
        }
        match evaluate_in(context, &args[0].1, fuel, num) {
            Err(e) => Err(e),
            Ok(v) => match v.unwrap_if_lazy(fuel, num) {
                Err(e) => Err(e),
                Ok(v1) => Ok(Val::Str(v1.value_type().name().to_owned())),
            },
        }
    } else if *name == "makeArray".to_owned() {
        if args.len() != 2 {
            return Err(Error::Fatal);
        }
        let a = match evaluate_in(context, &args[0].1, fuel, num) {
            Err(e) => {
                return Err(e);
            },
            Ok(a) => a,
        };
        let b = match evaluate_in(context, &args[1].1, fuel, num) {
            Err(e) => {
                return Err(e);
            },
            Ok(b) => b,
        };
        match (&a, &b) {
            (Val::Num(v), Val::Func(d)) => {
                if !answer_bool(&ask(num, NumRequest::IsPositive(*v))) {
                    return Err(Error::Fatal);
                }
                let n = answer_index(&ask(num, NumRequest::ToIndex(*v)));
                let ghost df = SFunc { ctx: d.ctx@, params: d.params, body: d.body };
                let ghost whole = make_array(nm, fuel as nat, df, 0, n as nat);
                proof {
                    match whole {
                        Ok(x) => {
                            assert(vals_view(Seq::<Val>::empty()) + x =~= x);
                        },
                        Err(_) => {},
                    }
                }
                let mut out: Vec<Val> = Vec::new();
                let mut i: usize = 0;
                while i < n
                    invariant
                        i <= n,
                        backend_ok(*num),
                        nm == num_model(*num),
                        df == (SFunc { ctx: d.ctx@, params: d.params, body: d.body }),
                        whole == make_array(nm, fuel as nat, df, 0, n as nat),
                        builtin(nm, fuel as nat, context@, name@, args@) == (match whole {
                            Err(e) => Err(e),
                            Ok(xs) => Ok(SVal::Arr(xs)),
                        }),
                        whole == prepend(vals_view(out@), make_array(nm, fuel as nat, df, i as nat, n as nat)),
                    decreases n - i,
                {
                    let ix = answer_val(ask(num, NumRequest::FromIndex(i)));
                    let mut call_args: Vec<(Option<String>, Val)> = Vec::new();
                    call_args.push((None, ix));
                    assert(args_view(call_args@) =~= seq![(None::<Seq<char>>, ix@)]);
                    match d.evaluate(call_args, fuel, num) {
                        Err(e) => {
                            return Err(e);
                        },
                        Ok(v) => {
                            let ghost before = out@;
                            proof {
                                lemma_vals_view_push(before, v);
                            }
                            out.push(v);
                            proof {
                                match make_array(nm, fuel as nat, df, (i + 1) as nat, n as nat) {
                                    Ok(rest) => {
                                        assert(vals_view(before) + (seq![v@] + rest) =~= vals_view(out@) + rest);
                                    },
                                    Err(_) => {},
                                }
                            }
                        },
                    }
                    i += 1;
                }
                proof {
                    assert(vals_view(out@) + Seq::<SVal>::empty() =~= vals_view(out@));
                }
                Ok(Val::Arr(Rc::new(out)))
            },
            _ => Err(Error::Fatal),
        }
    } else if *name == "codepoint".to_owned() {
        if args.len() != 1 {
            return Err(Error::Fatal);
        }
        match evaluate_in(context, &args[0].1, fuel, num) {
            Err(e) => Err(e),
            Ok(Val::Str(s)) => {
                if s.as_str().unicode_len() != 1 {
                    return Err(Error::Fatal);
                }
                let c = s.as_str().get_char(0);
                Ok(answer_val(ask(num, NumRequest::FromIndex((c as u32) as usize))))
            },
            Ok(_) => Err(Error::Fatal),
        }
    } else if *name == "objectFieldsEx".to_owned() {
        if args.len() != 2 {
            return Err(Error::Fatal);
        }
        let a = match evaluate_in(context, &args[0].1, fuel, num) {
            Err(e) => {
                return Err(e);
            },
            Ok(a) => a,
        };
        let b = match evaluate_in(context, &args[1].1, fuel, num) {
            Err(e) => {
                return Err(e);
            },
            Ok(b) => b,
        };
        match (&a, &b) {
            (Val::Obj(o), Val::Bool(_)) => {
                let fields = o.fields();
                let ghost fv = obj_fields(o@).map_values(|n: Seq<char>| SVal::Str(n));
                let mut out: Vec<Val> = Vec::new();
                let mut i: usize = 0;
                while i < fields.len()
                    invariant
                        i <= fields.len(),
                        strs_view(fields@) == obj_fields(o@),
                        fv == obj_fields(o@).map_values(|n: Seq<char>| SVal::Str(n)),
                        vals_view(out@) == fv.take(i as int),
                    decreases fields.len() - i,
                {
                    let x = Val::Str(fields[i].clone());
                    proof {
                        lemma_vals_view_push(out@, x);
                        assert(fv.take(i + 1) =~= fv.take(i as int).push(x@));
                    }
                    out.push(x);
                    i += 1;
                }
                assert(fv.take(fields.len() as int) =~= fv);
                Ok(Val::Arr(Rc::new(out)))
            },
            _ => Err(Error::Fatal),
        }
    } else {
        Err(Error::Fatal)
    }
}


// ---------------------------------------------------------------------------
// Expressions
// ---------------------------------------------------------------------------

/// The value of `expr` in `context`, within a depth of `fuel`.
pub fn evaluate_in<N: Fn(NumRequest) -> NumAnswer>(
    context: &Context,
    expr: &LocExpr,
    fuel: u64,
    num: &N,
) -> (r: Result<Val, Error>)
    requires
        backend_ok(*num),
    ensures
        res_view(r) == eval(num_model(*num), fuel as nat, context@, *expr),
    decreases fuel, 0nat, 0nat,
{
    let ghost nm = num_model(*num);
    if fuel == 0 {
        return Err(Error::StackOverflow);
    }
    let g = fuel - 1;
    match &*expr.0 {
        Expr::Literal(LiteralType::This) => match context.this() {
            Some(o) => Ok(Val::Obj(o)),
            None => Err(Error::Fatal),
        },
        Expr::Literal(LiteralType::Super) => match context.super_obj() {
            Some(o) => Ok(Val::Obj(o)),
            None => Err(Error::Fatal),
        },
        Expr::Literal(LiteralType::True) => Ok(Val::Bool(true)),
        Expr::Literal(LiteralType::False) => Ok(Val::Bool(false)),
        Expr::Literal(LiteralType::Null) => Ok(Val::Null),
        Expr::Parened(e) => evaluate_in(context, e, g, num),
        Expr::Str(v) => Ok(Val::Str(v.clone())),
        Expr::Num(v) => Ok(Val::Num(*v)),
        Expr::BinaryOp(v1, o, v2) => {
            let a0 = match evaluate_in(context, v1, g, num) {
                Err(e) => {
                    return Err(e);
                },
                Ok(v) => v,
            };
            let a = match a0.unwrap_if_lazy(g, num) {
                Err(e) => {
                    return Err(e);
                },
                Ok(v) => v,
            };
            let b0 = match evaluate_in(context, v2, g, num) {
                Err(e) => {
                    return Err(e);
                },
                Ok(v) => v,
            };
            let b = match b0.unwrap_if_lazy(g, num) {
                Err(e) => {
                    return Err(e);
                },
                Ok(v) => v,
            };
            evaluate_binary_op_in(context, &a, *o, &b, g, num)
        },
        Expr::UnaryOp(o, v) => match evaluate_in(context, v, g, num) {
            Err(e) => Err(e),
            Ok(b) => evaluate_unary_op_in(*o, &b, g, num),
        },
        Expr::Var(name) => match context.binding(name) {
            None => Err(Error::VariableIsNotDefined(name.clone())),
            Some(v) => v.unwrap_if_lazy(g, num),
        },
        Expr::Index(value, index) => {
            let v0 = match evaluate_in(context, value, g, num) {
                Err(e) => {
                    return Err(e);
                },
                Ok(v) => v,
            };
            let v = match v0.unwrap_if_lazy(g, num) {
                Err(e) => {
                    return Err(e);
                },
                Ok(v) => v,
            };
            let ix = match evaluate_in(context, index, g, num) {
                Err(e) => {
                    return Err(e);
                },
                Ok(v) => v,
            };
            index_val_in(&v, &ix, g, num)
        },
        Expr::LocalExpr(bindings, returned) => {
            let new_bindings = evaluate_bindings(bindings);
            let ctx = context.extend(new_bindings, None, None, None);
            evaluate_in(&ctx, returned, g, num)
        },
        Expr::Arr(items) => {
            let ghost whole = eval_list(nm, g as nat, context@, items@, 0);
            proof {
                match whole {
                    Ok(x) => {
                        assert(vals_view(Seq::<Val>::empty()) + x =~= x);
                    },
                    Err(_) => {},
                }
            }
            let mut out: Vec<Val> = Vec::new();
            let mut i: usize = 0;
            while i < items.len()
                invariant
                    i <= items.len(),
                    g < fuel,
                    backend_ok(*num),
                    nm == num_model(*num),
                    whole == eval_list(nm, g as nat, context@, items@, 0),
                    eval(nm, fuel as nat, context@, *expr) == (match whole {
                        Err(e) => Err(e),
                        Ok(vs) => Ok(SVal::Arr(vs)),
                    }),
                    whole == prepend(vals_view(out@), eval_list(nm, g as nat, context@, items@, i as nat)),
                decreases items.len() - i,
            {
                match evaluate_in(context, &items[i], g, num) {
                    Err(e) => {
                        return Err(e);
                    },
                    Ok(v) => {
                        let ghost before = out@;
                        proof {
                            lemma_vals_view_push(before, v);
                        }
                        out.push(v);
                        proof {
                            match eval_list(nm, g as nat, context@, items@, (i + 1) as nat) {
                                Ok(rest) => {
                                    assert(vals_view(before) + (seq![v@] + rest) =~= vals_view(out@) + rest);
                                },
                                Err(_) => {},
                            }
                        }
                    },
                }
                i += 1;
            }
            proof {
                assert(vals_view(out@) + Seq::<SVal>::empty() =~= vals_view(out@));
            }
            Ok(Val::Arr(Rc::new(out)))
        },
        Expr::ArrComp(e, compspecs) => match evaluate_comp_in(context, e, compspecs.as_slice(), 0, g, num) {
            Err(e) => Err(e),
            Ok(Some(vs)) => Ok(Val::Arr(Rc::new(vs))),
            Ok(None) => Err(Error::Fatal),
        },
        Expr::Obj(body) => match evaluate_object_in(context, body, g, num) {
            Err(e) => Err(e),
            Ok(o) => Ok(Val::Obj(o)),
        },
        Expr::Apply(value, args) => {
            let t0 = match evaluate_in(context, value, g, num) {
                Err(e) => {
                    return Err(e);
                },
                Ok(v) => v,
            };
            let t = match t0.unwrap_if_lazy(g, num) {
                Err(e) => {
                    return Err(e);
                },
                Ok(v) => v,
            };
            match t {
                Val::Intristic(ns, name) => {
                    if ns == "std".to_owned() {
                        builtin_in(context, &name, &args.0, g, num)
                    } else {
                        Err(Error::Fatal)
                    }
                },
                Val::Func(f) => {
                    let a = &args.0;
                    let mut thunks: Vec<(Option<String>, Val)> = Vec::new();
                    let mut i: usize = 0;
                    while i < a.len()
                        invariant
                            i <= a.len(),
                            args_view(thunks@) == arg_thunks(context@, a@.take(i as int)),
                        decreases a.len() - i,
                    {
                        let n = match &a[i].0 {
                            Some(n) => Some(n.clone()),
                            None => None,
                        };
                        let th = Val::Lazy(LazyVal { ctx: context.clone(), expr: a[i].1.clone() });
                        let ghost before = thunks@;
                        thunks.push((n, th));
                        proof {
                            assert(a@.take(i + 1).drop_last() =~= a@.take(i as int));
                            assert(args_view(thunks@) =~= args_view(before).push((opt_str_view(n), th@)));
                        }
                        i += 1;
                    }
                    assert(a@.take(a.len() as int) =~= a@);
                    f.evaluate(thunks, g, num)
                },
                _ => Err(Error::Fatal),
            }
        },
        Expr::Function(params, body) => Ok(evaluate_method(context.clone(), body, params.clone())),
        Expr::AssertExpr(AssertStmt(value, msg), returned) => {
            let cv = match evaluate_in(context, value, g, num) {
                Err(e) => {
                    return Err(e);
                },
                Ok(v) => v,
            };
            let ok = match cv.try_cast_bool("assertion condition should be boolean", g, num) {
                Err(e) => {
                    return Err(e);
                },
                Ok(b) => b,
            };
            if ok {
                evaluate_in(context, returned, g, num)
            } else {
                match msg {
                    Some(m) => {
                        let mv = match evaluate_in(context, m, g, num) {
                            Err(e) => {
                                return Err(e);
                            },
                            Ok(v) => v,
                        };
                        match mv.try_cast_str("assertion message should be string", g, num) {
                            Err(e) => Err(e),
                            Ok(_) => Err(Error::Fatal),
                        }
                    },
                    None => Err(Error::Fatal),
                }
            }
        },
        Expr::Error(e) => {
            let v = match evaluate_in(context, e, g, num) {
                Err(er) => {
                    return Err(er);
                },
                Ok(v) => v,
            };
            match v.try_cast_str("error text should be string", g, num) {
                Err(er) => Err(er),
                Ok(s) => Err(Error::RuntimeError(s)),
            }
        },
        Expr::IfElse { cond, cond_then, cond_else } => {
            let cv = match evaluate_in(context, &cond.0, g, num) {
                Err(e) => {
                    return Err(e);
                },
                Ok(v) => v,
            };
            let b = match cv.try_cast_bool("if condition should be boolean", g, num) {
                Err(e) => {
                    return Err(e);
                },
                Ok(b) => b,
            };
            if b {
                evaluate_in(context, cond_then, g, num)
            } else {
                match cond_else {
                    Some(v) => evaluate_in(context, v, g, num),
                    None => Ok(Val::Bool(false)),
                }
            }
        },
        _ => Err(Error::Fatal),
    }
}


// ---------------------------------------------------------------------------
// The entry points
// ---------------------------------------------------------------------------

/// The depth bound of the entry points. Running out of it takes 2^64 nested
/// steps, which no machine's stack or time allows, so at this bound an
/// evaluation's outcome is its bound-free one (see `outcome`). `evaluate_in`
/// and the other `_in` functions take a bound of the caller's choosing.
pub const MAX_DEPTH: u64 = 0xffff_ffff_ffff_ffff;

/// The value of `expr` in `context`.
pub fn evaluate<N: Fn(NumRequest) -> NumAnswer>(context: Context, expr: &LocExpr, num: &N) -> (r:
    Result<Val, Error>)
    requires
        backend_ok(*num),
        no_panic(eval(num_model(*num), MAX_DEPTH as nat, context@, *expr)),
    ensures
        res_view(r) == eval(num_model(*num), MAX_DEPTH as nat, context@, *expr),
        not_out_of_depth(res_view(r)) ==> res_view(r) == eval_outcome(num_model(*num), context@, *expr),
{
    try_evaluate(context, expr, num)
}

/// The value of `expr` in `context`, or `Error::Fatal` where jsonnet's
/// evaluation stops the program.
pub fn try_evaluate<N: Fn(NumRequest) -> NumAnswer>(context: Context, expr: &LocExpr, num: &N) -> (r:
    Result<Val, Error>)
    requires
        backend_ok(*num),
    ensures
        res_view(r) == eval(num_model(*num), MAX_DEPTH as nat, context@, *expr),
        not_out_of_depth(res_view(r)) ==> res_view(r) == eval_outcome(num_model(*num), context@, *expr),
{
    proof {
        lemma_eval_outcome(num_model(*num), MAX_DEPTH as nat, context@, *expr);
    }
    evaluate_in(&context, expr, MAX_DEPTH, num)
}

/// `a op b` in `context` (which `%` needs, for `std.format`).
pub fn evaluate_binary_op<N: Fn(NumRequest) -> NumAnswer>(
    context: Context,
    a: &Val,
    op: BinaryOpType,
    b: &Val,
    num: &N,
) -> (r: Result<Val, Error>)
    requires
        backend_ok(*num),
        no_panic(binop(num_model(*num), MAX_DEPTH as nat, context@, a@, op, b@)),
    ensures
        res_view(r) == binop(num_model(*num), MAX_DEPTH as nat, context@, a@, op, b@),
        not_out_of_depth(res_view(r)) ==> res_view(r) == binop_outcome(num_model(*num), context@, a@, op, b@),
{
    proof {
        lemma_binop_outcome(num_model(*num), MAX_DEPTH as nat, context@, a@, op, b@);
    }
    evaluate_binary_op_in(&context, a, op, b, MAX_DEPTH, num)
}

/// `op b`.
pub fn evaluate_unary_op<N: Fn(NumRequest) -> NumAnswer>(op: UnaryOpType, b: &Val, num: &N) -> (r:
    Result<Val, Error>)
    requires
        backend_ok(*num),
        no_panic(unop(num_model(*num), MAX_DEPTH as nat, op, b@)),
    ensures
        res_view(r) == unop(num_model(*num), MAX_DEPTH as nat, op, b@),
        not_out_of_depth(res_view(r)) ==> res_view(r) == unop_outcome(num_model(*num), op, b@),
{
    proof {
        lemma_unop_outcome(num_model(*num), MAX_DEPTH as nat, op, b@);
    }
    evaluate_unary_op_in(op, b, MAX_DEPTH, num)
}

/// The items of `[value for ... if ...]` with the clauses `specs`; `None`
/// where an `if` clause at the top fails.
pub fn evaluate_comp<N: Fn(NumRequest) -> NumAnswer>(
    context: Context,
    value: &LocExpr,
    specs: &[CompSpec],
    num: &N,
) -> (r: Result<Option<Vec<Val>>, Error>)
    requires
        backend_ok(*num),
        no_panic(eval_comp(num_model(*num), MAX_DEPTH as nat, context@, *value, specs@, 0)),
    ensures
        rv_opt_vals(r) == eval_comp(num_model(*num), MAX_DEPTH as nat, context@, *value, specs@, 0),
        not_out_of_depth(rv_opt_vals(r)) ==> rv_opt_vals(r) == eval_comp_outcome(
            num_model(*num),
            context@,
            *value,
            specs@,
            0,
        ),
{
    proof {
        lemma_eval_comp_outcome(num_model(*num), MAX_DEPTH as nat, context@, *value, specs@, 0);
    }
    evaluate_comp_in(&context, value, specs, 0, MAX_DEPTH, num)
}

/// The object of an object literal.
pub fn evaluate_object<N: Fn(NumRequest) -> NumAnswer>(context: Context, object: ObjBody, num: &N) -> (r:
    Result<ObjValue, Error>)
    requires
        backend_ok(*num),
        no_panic(eval_object(num_model(*num), MAX_DEPTH as nat, context@, object)),
    ensures
        rv_obj(r) == eval_object(num_model(*num), MAX_DEPTH as nat, context@, object),
        not_out_of_depth(rv_obj(r)) ==> rv_obj(r) == eval_object_outcome(num_model(*num), context@, object),
{
    proof {
        lemma_eval_object_outcome(num_model(*num), MAX_DEPTH as nat, context@, object);
    }
    evaluate_object_in(&context, &object, MAX_DEPTH, num)
}

/// The name of a field: written, or computed (and then a string).
pub fn evaluate_field_name<N: Fn(NumRequest) -> NumAnswer>(
    context: Context,
    field_name: &FieldName,
    num: &N,
) -> (r: Result<String, Error>)
    requires
        backend_ok(*num),
        no_panic(crate::spec::field_name(num_model(*num), MAX_DEPTH as nat, context@, *field_name)),
    ensures
        rv_str(r) == crate::spec::field_name(num_model(*num), MAX_DEPTH as nat, context@, *field_name),
        not_out_of_depth(rv_str(r)) ==> rv_str(r) == field_name_outcome(num_model(*num), context@, *field_name),
{
    proof {
        lemma_field_name_outcome(num_model(*num), MAX_DEPTH as nat, context@, *field_name);
    }
    evaluate_field_name_in(&context, field_name, MAX_DEPTH, num)
}

} // verus!
