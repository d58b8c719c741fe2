//! The depth bound decides only whether an evaluation runs out of depth: an
//! outcome reached within a depth is the outcome at every greater depth.
use crate::ast::{AssertStmt, CompSpec, Expr, FieldName, ForSpecData, IfSpecData, LocExpr, Member, ObjBody, Arg};
use crate::num::{ans_bool, ans_index, NumRequest};
use crate::spec::{
    arg_thunks, bind_params, binds_of, binop, binop_strict, builtin, call, cast_bool, cast_str,
    create_ctx, eval, eval_comp, eval_list, eval_object, extend_ctx, field_name, find_entry,
    fmt_call, force, get_raw, index_val, invoke, lookup, make_array, member_binds, obj_depth,
    obj_entries, comp_items, comp_measure, body_measure, unop, with_var, NumFn, SRes,
};
use crate::ast::{BinaryOpType, UnaryOpType};
use crate::val::{SCreator, SError, SFrame, SFunc, SMember, SObj, SVal};
use vstd::prelude::*;

verus! {

/// The outcome is not that the evaluation ran out of depth.
pub open spec fn not_out_of_depth<T>(r: SRes<T>) -> bool {
    r != Err::<T, SError>(SError::StackOverflow)
}

pub proof fn lemma_force_depth(nm: NumFn, f: nat, v: SVal)
    requires
        not_out_of_depth(force(nm, f, v)),
    ensures
        force(nm, f + 1, v) == force(nm, f, v),
    decreases f, 0nat, 0nat,
{
    match v {
        SVal::Lazy(t) => {
            let g = (f - 1) as nat;
            lemma_eval_depth(nm, g, t.ctx, t.expr);
            match eval(nm, g, t.ctx, t.expr) {
                Ok(r) => {
                    lemma_force_depth(nm, g, r);
                },
                Err(_) => {},
            }
        },
        _ => {},
    }
}

pub proof fn lemma_cast_bool_depth(nm: NumFn, f: nat, v: SVal, what: Seq<char>)
    requires
        not_out_of_depth(cast_bool(nm, f, v, what)),
    ensures
        cast_bool(nm, f + 1, v, what) == cast_bool(nm, f, v, what),
    decreases f, 0nat, 1nat,
{
    lemma_force_depth(nm, f, v);
}

pub proof fn lemma_cast_str_depth(nm: NumFn, f: nat, v: SVal, what: Seq<char>)
    requires
        not_out_of_depth(cast_str(nm, f, v, what)),
    ensures
        cast_str(nm, f + 1, v, what) == cast_str(nm, f, v, what),
    decreases f, 0nat, 1nat,
{
    lemma_force_depth(nm, f, v);
}

pub proof fn lemma_unop_depth(nm: NumFn, f: nat, op: UnaryOpType, v: SVal)
    requires
        not_out_of_depth(unop(nm, f, op, v)),
    ensures
        unop(nm, f + 1, op, v) == unop(nm, f, op, v),
    decreases f, 0nat, 1nat,
{
    lemma_force_depth(nm, f, v);
}

pub proof fn lemma_field_name_depth(nm: NumFn, f: nat, c: Seq<SFrame>, n: FieldName)
    requires
        not_out_of_depth(field_name(nm, f, c, n)),
    ensures
        field_name(nm, f + 1, c, n) == field_name(nm, f, c, n),
    decreases f, 0nat, 2nat,
{
    match n {
        FieldName::Dyn(e) => {
            lemma_eval_depth(nm, f, c, e);
            match eval(nm, f, c, e) {
                Ok(v) => {
                    lemma_cast_str_depth(nm, f, v, "dynamic field name"@);
                },
                Err(_) => {},
            }
        },
        _ => {},
    }
}

pub proof fn lemma_invoke_depth(nm: NumFn, f: nat, m: SMember, this: SObj, sup: Option<SObj>)
    requires
        not_out_of_depth(invoke(nm, f, m, this, sup)),
    ensures
        invoke(nm, f + 1, m, this, sup) == invoke(nm, f, m, this, sup),
    decreases f, 0nat, 0nat,
{
    let c = create_ctx(m.creator, this, sup);
    match m.params {
        None => {
            let g = (f - 1) as nat;
            lemma_eval_depth(nm, g, c, m.value);
            match eval(nm, g, c, m.value) {
                Ok(v) => {
                    lemma_force_depth(nm, g, v);
                },
                Err(_) => {},
            }
        },
        Some(_) => {},
    }
}

pub proof fn lemma_get_raw_depth(nm: NumFn, f: nat, layer: SObj, key: Seq<char>, this: SObj)
    requires
        not_out_of_depth(get_raw(nm, f, layer, key, this)),
    ensures
        get_raw(nm, f + 1, layer, key, this) == get_raw(nm, f, layer, key, this),
    decreases f, 0nat, 3 + obj_depth(layer),
{
    match (find_entry(layer.entries, key), layer.super_obj) {
        (Some(m), None) => {
            lemma_invoke_depth(nm, f, m, this, None);
        },
        (Some(m), Some(s)) => {
            lemma_invoke_depth(nm, f, m, this, Some(*s));
            match invoke(nm, f, m, this, Some(*s)) {
                Ok(_) => {
                    if m.add {
                        lemma_get_raw_depth(nm, f, *s, key, this);
                    }
                },
                Err(_) => {},
            }
        },
        (None, Some(s)) => {
            lemma_get_raw_depth(nm, f, *s, key, this);
        },
        (None, None) => {},
    }
}

pub proof fn lemma_call_depth(nm: NumFn, f: nat, fd: SFunc, args: Seq<(Option<Seq<char>>, SVal)>)
    requires
        not_out_of_depth(call(nm, f, fd, args)),
    ensures
        call(nm, f + 1, fd, args) == call(nm, f, fd, args),
    decreases f, 0nat, 0nat,
{
    match bind_params(fd.params.0@, args) {
        Ok(bs) => {
            lemma_eval_depth(nm, (f - 1) as nat, extend_ctx(fd.ctx, bs, None, None, None), fd.body);
        },
        Err(_) => {},
    }
}

pub proof fn lemma_index_val_depth(nm: NumFn, f: nat, v: SVal, ix: SVal)
    requires
        not_out_of_depth(index_val(nm, f, v, ix)),
    ensures
        index_val(nm, f + 1, v, ix) == index_val(nm, f, v, ix),
    decreases f, 1nat, 0nat,
{
    match (v, ix) {
        (SVal::Obj(o), SVal::Str(s)) => {
            lemma_get_raw_depth(nm, f, o, s, o);
            match get_raw(nm, f, o, s, o) {
                Ok(Some(x)) => {
                    lemma_force_depth(nm, f, x);
                },
                Ok(None) => {
                    lemma_get_raw_depth(nm, f, o, "__intristic_namespace__"@, o);
                },
                Err(_) => {},
            }
        },
        _ => {},
    }
}

pub proof fn lemma_fmt_call_depth(nm: NumFn, f: nat, c: Seq<SFrame>, fmt: Seq<char>, args: SVal)
    requires
        not_out_of_depth(fmt_call(nm, f, c, fmt, args)),
    ensures
        fmt_call(nm, f + 1, c, fmt, args) == fmt_call(nm, f, c, fmt, args),
    decreases f, 2nat, 0nat,
{
    let arr = match args {
        SVal::Arr(v) => SVal::Arr(v),
        v => SVal::Arr(seq![v]),
    };
    match lookup(c, "std"@) {
        Some(sv) => {
            lemma_force_depth(nm, f, sv);
            match force(nm, f, sv) {
                Ok(stdv) => {
                    lemma_index_val_depth(nm, f, stdv, SVal::Str("format"@));
                    match index_val(nm, f, stdv, SVal::Str("format"@)) {
                        Ok(t0) => {
                            lemma_force_depth(nm, f, t0);
                            match force(nm, f, t0) {
                                Ok(SVal::Func(fd)) => {
                                    lemma_call_depth(
                                        nm,
                                        f,
                                        fd,
                                        seq![(None, SVal::Str(fmt)), (None, arr)],
                                    );
                                },
                                _ => {},
                            }
                        },
                        Err(_) => {},
                    }
                },
                Err(_) => {},
            }
        },
        None => {},
    }
}

pub proof fn lemma_binop_strict_depth(
    nm: NumFn,
    f: nat,
    c: Seq<SFrame>,
    a: SVal,
    op: BinaryOpType,
    b: SVal,
)
    requires
        not_out_of_depth(binop_strict(nm, f, c, a, op, b)),
    ensures
        binop_strict(nm, f + 1, c, a, op, b) == binop_strict(nm, f, c, a, op, b),
    decreases f, 2nat, 1nat,
{
    if op != BinaryOpType::Add && op == BinaryOpType::Mod {
        match a {
            SVal::Str(x) => {
                lemma_fmt_call_depth(nm, f, c, x, b);
            },
            _ => {},
        }
    }
}

pub proof fn lemma_binop_depth(nm: NumFn, f: nat, c: Seq<SFrame>, a: SVal, op: BinaryOpType, b: SVal)
    requires
        not_out_of_depth(binop(nm, f, c, a, op, b)),
    ensures
        binop(nm, f + 1, c, a, op, b) == binop(nm, f, c, a, op, b),
    decreases f, 3nat, 0nat,
{
    lemma_force_depth(nm, f, a);
    match force(nm, f, a) {
        Ok(a1) => {
            lemma_force_depth(nm, f, b);
            match force(nm, f, b) {
                Ok(b1) => {
                    lemma_binop_strict_depth(nm, f, c, a1, op, b1);
                },
                Err(_) => {},
            }
        },
        Err(_) => {},
    }
}

pub proof fn lemma_eval_list_depth(nm: NumFn, f: nat, c: Seq<SFrame>, items: Seq<LocExpr>, i: nat)
    requires
        not_out_of_depth(eval_list(nm, f, c, items, i)),
    ensures
        eval_list(nm, f + 1, c, items, i) == eval_list(nm, f, c, items, i),
    decreases f, items.len() - i, 0nat,
{
    if i < items.len() {
        lemma_eval_depth(nm, f, c, items[i as int]);
        match eval(nm, f, c, items[i as int]) {
            Ok(_) => {
                lemma_eval_list_depth(nm, f, c, items, i + 1);
            },
            Err(_) => {},
        }
    }
}

pub proof fn lemma_eval_comp_depth(
    nm: NumFn,
    f: nat,
    c: Seq<SFrame>,
    value: LocExpr,
    specs: Seq<CompSpec>,
    i: nat,
)
    requires
        not_out_of_depth(eval_comp(nm, f, c, value, specs, i)),
    ensures
        eval_comp(nm, f + 1, c, value, specs, i) == eval_comp(nm, f, c, value, specs, i),
    decreases f, 2 * comp_measure(specs, i) + 1, 0nat,
{
    if i >= specs.len() {
        lemma_eval_depth(nm, f, c, value);
    } else {
        match specs[i as int] {
            CompSpec::IfSpec(IfSpecData(cond)) => {
                lemma_eval_depth(nm, f, c, cond);
                match eval(nm, f, c, cond) {
                    Ok(cv) => {
                        lemma_cast_bool_depth(nm, f, cv, "if spec"@);
                        match cast_bool(nm, f, cv, "if spec"@) {
                            Ok(true) => {
                                lemma_eval_comp_depth(nm, f, c, value, specs, i + 1);
                            },
                            _ => {},
                        }
                    },
                    Err(_) => {},
                }
            },
            CompSpec::ForSpec(ForSpecData(var, x)) => {
                lemma_eval_depth(nm, f, c, x);
                match eval(nm, f, c, x) {
                    Ok(lv0) => {
                        lemma_force_depth(nm, f, lv0);
                        match force(nm, f, lv0) {
                            Ok(SVal::Arr(items)) => {
                                lemma_comp_items_depth(nm, f, c, var@, value, specs, i + 1, items, 0);
                            },
                            _ => {},
                        }
                    },
                    Err(_) => {},
                }
            },
        }
    }
}

pub proof fn lemma_comp_items_depth(
    nm: NumFn,
    f: nat,
    c: Seq<SFrame>,
    var: Seq<char>,
    value: LocExpr,
    specs: Seq<CompSpec>,
    i: nat,
    items: Seq<SVal>,
    j: nat,
)
    requires
        not_out_of_depth(comp_items(nm, f, c, var, value, specs, i, items, j)),
    ensures
        comp_items(nm, f + 1, c, var, value, specs, i, items, j) == comp_items(
            nm,
            f,
            c,
            var,
            value,
            specs,
            i,
            items,
            j,
        ),
    decreases f, 2 * comp_measure(specs, i) + 2, items.len() - j,
{
    if j < items.len() {
        lemma_eval_comp_depth(nm, f, with_var(c, var, items[j as int]), value, specs, i);
        match eval_comp(nm, f, with_var(c, var, items[j as int]), value, specs, i) {
            Ok(_) => {
                lemma_comp_items_depth(nm, f, c, var, value, specs, i, items, j + 1);
            },
            Err(_) => {},
        }
    }
}

pub proof fn lemma_obj_entries_depth(
    nm: NumFn,
    f: nat,
    c: Seq<SFrame>,
    creator: SCreator,
    ms: Seq<Member>,
    i: nat,
)
    requires
        not_out_of_depth(obj_entries(nm, f, c, creator, ms, i)),
    ensures
        obj_entries(nm, f + 1, c, creator, ms, i) == obj_entries(nm, f, c, creator, ms, i),
    decreases f, ms.len() - i, 3nat,
{
    if i < ms.len() {
        match ms[i as int] {
            Member::Field(fm) => {
                lemma_field_name_depth(nm, f, c, fm.name);
                match field_name(nm, f, c, fm.name) {
                    Ok(_) => {
                        lemma_obj_entries_depth(nm, f, c, creator, ms, i + 1);
                    },
                    Err(_) => {},
                }
            },
            _ => {
                lemma_obj_entries_depth(nm, f, c, creator, ms, i + 1);
            },
        }
    }
}

pub proof fn lemma_eval_object_depth(nm: NumFn, f: nat, c: Seq<SFrame>, body: ObjBody)
    requires
        not_out_of_depth(eval_object(nm, f, c, body)),
    ensures
        eval_object(nm, f + 1, c, body) == eval_object(nm, f, c, body),
    decreases f, body_measure(body), 0nat,
{
    match body {
        ObjBody::MemberList(ms) => {
            let creator = SCreator { ctx: c, bindings: member_binds(ms@) };
            lemma_obj_entries_depth(nm, f, c, creator, ms@, 0);
        },
        _ => {},
    }
}

pub proof fn lemma_make_array_depth(nm: NumFn, f: nat, d: SFunc, i: nat, n: nat)
    requires
        not_out_of_depth(make_array(nm, f, d, i, n)),
    ensures
        make_array(nm, f + 1, d, i, n) == make_array(nm, f, d, i, n),
    decreases f, 0nat, n - i + 1,
{
    if i < n {
        let args = seq![(None, crate::num::ans_val(nm(NumRequest::FromIndex(i as usize))))];
        lemma_call_depth(nm, f, d, args);
        match call(nm, f, d, args) {
            Ok(_) => {
                lemma_make_array_depth(nm, f, d, i + 1, n);
            },
            Err(_) => {},
        }
    }
}

pub proof fn lemma_builtin_depth(nm: NumFn, f: nat, c: Seq<SFrame>, name: Seq<char>, args: Seq<Arg>)
    requires
        not_out_of_depth(builtin(nm, f, c, name, args)),
    ensures
        builtin(nm, f + 1, c, name, args) == builtin(nm, f, c, name, args),
    decreases f, 1nat, 0nat,
{
    if name == "length"@ {
        if args.len() == 1 {
            lemma_eval_depth(nm, f, c, args[0].1);
        }
    } else if name == "type"@ {
        if args.len() == 1 {
            lemma_eval_depth(nm, f, c, args[0].1);
            match eval(nm, f, c, args[0].1) {
                Ok(v) => {
                    lemma_force_depth(nm, f, v);
                },
                Err(_) => {},
            }
        }
    } else if name == "makeArray"@ {
        if args.len() == 2 {
            lemma_eval_depth(nm, f, c, args[0].1);
            match eval(nm, f, c, args[0].1) {
                Ok(a) => {
                    lemma_eval_depth(nm, f, c, args[1].1);
                    match eval(nm, f, c, args[1].1) {
                        Ok(b) => {
                            match (a, b) {
                                (SVal::Num(v), SVal::Func(d)) => {
                                    if ans_bool(nm(NumRequest::IsPositive(v))) {
                                        lemma_make_array_depth(
                                            nm,
                                            f,
                                            d,
                                            0,
                                            ans_index(nm(NumRequest::ToIndex(v))) as nat,
                                        );
                                    }
                                },
                                _ => {},
                            }
                        },
                        Err(_) => {},
                    }
                },
                Err(_) => {},
            }
        }
    } else if name == "codepoint"@ {
        if args.len() == 1 {
            lemma_eval_depth(nm, f, c, args[0].1);
        }
    } else if name == "objectFieldsEx"@ {
        if args.len() == 2 {
            lemma_eval_depth(nm, f, c, args[0].1);
            match eval(nm, f, c, args[0].1) {
                Ok(_) => {
                    lemma_eval_depth(nm, f, c, args[1].1);
                },
                Err(_) => {},
            }
        }
    }
}

/// An evaluation that does not run out of depth has the same outcome at a
/// greater depth.
pub proof fn lemma_eval_depth(nm: NumFn, f: nat, c: Seq<SFrame>, e: LocExpr)
    requires
        not_out_of_depth(eval(nm, f, c, e)),
    ensures
        eval(nm, f + 1, c, e) == eval(nm, f, c, e),
    decreases f, 0nat, 0nat,
{
    let g = (f - 1) as nat;
    match *e.0 {
        Expr::Parened(x) => {
            lemma_eval_depth(nm, g, c, x);
        },
        Expr::BinaryOp(x, op, y) => {
            lemma_eval_depth(nm, g, c, x);
            match eval(nm, g, c, x) {
                Ok(a0) => {
                    lemma_force_depth(nm, g, a0);
                    match force(nm, g, a0) {
                        Ok(a) => {
                            lemma_eval_depth(nm, g, c, y);
                            match eval(nm, g, c, y) {
                                Ok(b0) => {
                                    lemma_force_depth(nm, g, b0);
                                    match force(nm, g, b0) {
                                        Ok(b) => {
                                            lemma_binop_depth(nm, g, c, a, op, b);
                                        },
                                        Err(_) => {},
                                    }
                                },
                                Err(_) => {},
                            }
                        },
                        Err(_) => {},
                    }
                },
                Err(_) => {},
            }
        },
        Expr::UnaryOp(op, x) => {
            lemma_eval_depth(nm, g, c, x);
            match eval(nm, g, c, x) {
                Ok(v) => {
                    lemma_unop_depth(nm, g, op, v);
                },
                Err(_) => {},
            }
        },
        Expr::Var(name) => {
            match lookup(c, name@) {
                Some(v) => {
                    lemma_force_depth(nm, g, v);
                },
                None => {},
            }
        },
        Expr::Index(x, i) => {
            lemma_eval_depth(nm, g, c, x);
            match eval(nm, g, c, x) {
                Ok(v0) => {
                    lemma_force_depth(nm, g, v0);
                    match force(nm, g, v0) {
                        Ok(v) => {
                            lemma_eval_depth(nm, g, c, i);
                            match eval(nm, g, c, i) {
                                Ok(ix) => {
                                    lemma_index_val_depth(nm, g, v, ix);
                                },
                                Err(_) => {},
                            }
                        },
                        Err(_) => {},
                    }
                },
                Err(_) => {},
            }
        },
        Expr::LocalExpr(bs, body) => {
            lemma_eval_depth(nm, g, extend_ctx(c, binds_of(bs@), None, None, None), body);
        },
        Expr::Arr(items) => {
            lemma_eval_list_depth(nm, g, c, items@, 0);
        },
        Expr::ArrComp(x, specs) => {
            lemma_eval_comp_depth(nm, g, c, x, specs@, 0);
        },
        Expr::Obj(body) => {
            lemma_eval_object_depth(nm, g, c, body);
        },
        Expr::Apply(x, args) => {
            lemma_eval_depth(nm, g, c, x);
            match eval(nm, g, c, x) {
                Ok(t0) => {
                    lemma_force_depth(nm, g, t0);
                    match force(nm, g, t0) {
                        Ok(SVal::Intristic(ns, name)) => {
                            if ns == "std"@ {
                                lemma_builtin_depth(nm, g, c, name, args.0@);
                            }
                        },
                        Ok(SVal::Func(fd)) => {
                            lemma_call_depth(nm, g, fd, arg_thunks(c, args.0@));
                        },
                        _ => {},
                    }
                },
                Err(_) => {},
            }
        },
        Expr::AssertExpr(AssertStmt(v, msg), ret) => {
            lemma_eval_depth(nm, g, c, v);
            match eval(nm, g, c, v) {
                Ok(cv) => {
                    lemma_cast_bool_depth(nm, g, cv, "assertion condition should be boolean"@);
                    match cast_bool(nm, g, cv, "assertion condition should be boolean"@) {
                        Ok(true) => {
                            lemma_eval_depth(nm, g, c, ret);
                        },
                        Ok(false) => {
                            match msg {
                                Some(m) => {
                                    lemma_eval_depth(nm, g, c, m);
                                    match eval(nm, g, c, m) {
                                        Ok(mv) => {
                                            lemma_cast_str_depth(
                                                nm,
                                                g,
                                                mv,
                                                "assertion message should be string"@,
                                            );
                                        },
                                        Err(_) => {},
                                    }
                                },
                                None => {},
                            }
                        },
                        Err(_) => {},
                    }
                },
                Err(_) => {},
            }
        },
        Expr::Error(x) => {
            lemma_eval_depth(nm, g, c, x);
            match eval(nm, g, c, x) {
                Ok(v) => {
                    lemma_cast_str_depth(nm, g, v, "error text should be string"@);
                },
                Err(_) => {},
            }
        },
        Expr::IfElse { cond, cond_then, cond_else } => {
            lemma_eval_depth(nm, g, c, cond.0);
            match eval(nm, g, c, cond.0) {
                Ok(cv) => {
                    lemma_cast_bool_depth(nm, g, cv, "if condition should be boolean"@);
                    match cast_bool(nm, g, cv, "if condition should be boolean"@) {
                        Ok(true) => {
                            lemma_eval_depth(nm, g, c, cond_then);
                        },
                        Ok(false) => {
                            match cond_else {
                                Some(x) => {
                                    lemma_eval_depth(nm, g, c, x);
                                },
                                None => {},
                            }
                        },
                        Err(_) => {},
                    }
                },
                Err(_) => {},
            }
        },
        _ => {},
    }
}

} // verus!
