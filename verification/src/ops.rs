//! Operations on values that evaluate nothing: `+`, equality, the text of a
//! value, object composition and the field names of an object.
use crate::num::{
    ans_bool, ans_index, ans_text, ans_val, ask, backend_ok, num_model, NumAnswer, NumRequest,
};
use crate::spec::{
    debug_join, debug_text, str_debug, fields_acc, insert_name, insert_pos,
    names_into, obj_fields, repeat, str_lt, str_lt_from, type_label, val_eq, arr_eq, value_type,
    with_super,
};
use crate::val::{
    entries_view, lemma_vals_view_index, lemma_vals_view_len,
    val_view, vals_view, ObjMember, ObjValue,
    Val, ValType,
};
use std::rc::Rc;
use vstd::prelude::*;
use vstd::string::StringExecFns;

verus! {

// ---------------------------------------------------------------------------
// Answers of the numeric backend
// ---------------------------------------------------------------------------

pub fn answer_val(a: NumAnswer) -> (v: Val)
    ensures
        v@ == ans_val(a),
{
    match a {
        NumAnswer::Num(x) => Val::Num(x),
        NumAnswer::Bool(b) => Val::Bool(b),
        NumAnswer::Text(s) => Val::Str(s),
        NumAnswer::Index(_) => Val::Null,
    }
}

pub fn answer_text(a: NumAnswer) -> (s: String)
    ensures
        s@ == ans_text(a),
{
    match a {
        NumAnswer::Text(s) => s,
        _ => String::new(),
    }
}

pub fn answer_index(a: &NumAnswer) -> (i: usize)
    ensures
        i == ans_index(*a),
{
    match a {
        NumAnswer::Index(i) => *i,
        _ => 0,
    }
}

pub fn answer_bool(a: &NumAnswer) -> (b: bool)
    ensures
        b == ans_bool(*a),
{
    match a {
        NumAnswer::Bool(b) => *b,
        _ => false,
    }
}

// ---------------------------------------------------------------------------
// Types
// ---------------------------------------------------------------------------

impl ValType {
    /// The name `std.type` gives the type.
    pub fn name(&self) -> (s: &'static str)
        ensures
            s@ == type_label(*self),
    {
        match self {
            ValType::Bool => "boolean",
            ValType::Null => "null",
            ValType::Str => "string",
            ValType::Num => "number",
            ValType::Arr => "array",
            ValType::Obj => "object",
            ValType::Func => "function",
        }
    }
}

impl Val {
    pub fn value_type(&self) -> (t: ValType)
        ensures
            t == value_type(self@),
    {
        match self {
            Val::Bool(_) => ValType::Bool,
            Val::Null => ValType::Null,
            Val::Str(_) => ValType::Str,
            Val::Num(_) => ValType::Num,
            Val::Arr(_) => ValType::Arr,
            Val::Obj(_) => ValType::Obj,
            _ => ValType::Func,
        }
    }
}

// ---------------------------------------------------------------------------
// Sequences of values
// ---------------------------------------------------------------------------

pub proof fn lemma_vals_view_add(x: Seq<Val>, y: Seq<Val>)
    ensures
        vals_view(x + y) == vals_view(x) + vals_view(y),
    decreases y.len(),
{
    if y.len() == 0 {
        assert(x + y =~= x);
        assert(vals_view(x) + vals_view(y) =~= vals_view(x));
    } else {
        lemma_vals_view_add(x, y.drop_last());
        assert((x + y).drop_last() =~= x + y.drop_last());
        assert((x + y).last() == y.last());
        assert(vals_view(x + y) == vals_view(x + y.drop_last()).push(val_view(y.last())));
        assert(vals_view(x) + vals_view(y) =~= (vals_view(x) + vals_view(y.drop_last())).push(
            val_view(y.last()),
        ));
    }
}

/// The values of `a`, then those of `b`.
pub fn concat_vals(a: &Vec<Val>, b: &Vec<Val>) -> (r: Vec<Val>)
    ensures
        r@ == a@ + b@,
{
    let mut out: Vec<Val> = Vec::new();
    let mut i: usize = 0;
    while i < a.len()
        invariant
            i <= a.len(),
            out@ == a@.take(i as int),
        decreases a.len() - i,
    {
        out.push(a[i].clone());
        assert(a@.take(i + 1) =~= a@.take(i as int).push(a@[i as int]));
        i += 1;
    }
    let mut j: usize = 0;
    while j < b.len()
        invariant
            j <= b.len(),
            out@ == a@ + b@.take(j as int),
        decreases b.len() - j,
    {
        out.push(b[j].clone());
        assert(a@ + b@.take(j + 1) =~= (a@ + b@.take(j as int)).push(b@[j as int]));
        j += 1;
    }
    assert(a@.take(a.len() as int) =~= a@);
    assert(b@.take(b.len() as int) =~= b@);
    out
}

// ---------------------------------------------------------------------------
// Objects
// ---------------------------------------------------------------------------

impl ObjValue {
    /// This object placed over `super_obj`.
    pub fn with_super(&self, super_obj: ObjValue) -> (r: ObjValue)
        ensures
            r@ == with_super(self@, super_obj@),
        decreases self,
    {
        match &self.super_obj {
            None => ObjValue {
                super_obj: Some(Rc::new(super_obj)),
                this_entries: self.this_entries.clone(),
            },
            Some(v) => {
                let inner = v.with_super(super_obj);
                ObjValue { super_obj: Some(Rc::new(inner)), this_entries: self.this_entries.clone() }
            },
        }
    }
}

/// Whether `a` sorts before `b`.
pub fn str_less(a: &String, b: &String) -> (r: bool)
    ensures
        r == str_lt(a@, b@),
{
    let la = a.as_str().unicode_len();
    let lb = b.as_str().unicode_len();
    let mut i: usize = 0;
    while i < la && i < lb
        invariant
            la == a@.len(),
            lb == b@.len(),
            i <= la,
            i <= lb,
            str_lt(a@, b@) == str_lt_from(a@, b@, i as nat),
        decreases la - i,
    {
        let ca = a.as_str().get_char(i);
        let cb = b.as_str().get_char(i);
        if ca < cb {
            return true;
        }
        if ca != cb {
            return false;
        }
        i += 1;
    }
    i >= la && i < lb
}

pub open spec fn strs_view(s: Seq<String>) -> Seq<Seq<char>> {
    s.map_values(|x: String| x@)
}

/// Adds a name to a sorted list of distinct names.
fn insert_sorted(acc: &mut Vec<String>, x: String)
    ensures
        strs_view(final(acc)@) == insert_name(strs_view(old(acc)@), x@),
{
    let ghost a = strs_view(acc@);
    let mut i: usize = 0;
    while i < acc.len() && str_less(&acc[i], &x)
        invariant
            i <= acc.len(),
            a == strs_view(acc@),
            insert_pos(a, x@, 0) == insert_pos(a, x@, i as nat),
        decreases acc.len() - i,
    {
        proof {
            assert(a[i as int] == acc@[i as int]@);
        }
        i += 1;
    }
    proof {
        if i < acc.len() {
            assert(a[i as int] == acc@[i as int]@);
        }
    }
    if i < acc.len() && acc[i] == x {
        return;
    }
    acc.insert(i, x);
    assert(strs_view(acc@) =~= a.insert(i as int, x@));
}

impl ObjValue {
    /// The names of the fields of the object, sorted, each once.
    pub fn fields(&self) -> (r: Vec<String>)
        ensures
            strs_view(r@) == obj_fields(self@),
    {
        let mut acc: Vec<String> = Vec::new();
        assert(strs_view(acc@) =~= Seq::<Seq<char>>::empty());
        self.fields_into(&mut acc);
        acc
    }

    fn fields_into(&self, acc: &mut Vec<String>)
        ensures
            strs_view(final(acc)@) == fields_acc(strs_view(old(acc)@), self@),
        decreases self,
    {
        let es = &self.this_entries;
        let ghost ev = entries_view(es@);
        let ghost a0 = strs_view(acc@);
        let mut i: usize = 0;
        proof {
            lemma_entries_view_len(es@);
        }
        while i < es.len()
            invariant
                i <= es.len(),
                ev == entries_view(es@),
                ev.len() == es@.len(),
                names_into(a0, ev, 0) == names_into(strs_view(acc@), ev, i as nat),
            decreases es.len() - i,
        {
            proof {
                lemma_entries_view_index(es@, i as int);
            }
            insert_sorted(acc, es[i].0.clone());
            i += 1;
        }
        match &self.super_obj {
            Some(s) => {
                s.fields_into(acc);
            },
            None => {},
        }
    }
}

pub proof fn lemma_entries_view_len(s: Seq<(String, ObjMember)>)
    ensures
        entries_view(s).len() == s.len(),
    decreases s.len(),
{
    if s.len() > 0 {
        lemma_entries_view_len(s.drop_last());
    }
}

pub proof fn lemma_entries_view_index(s: Seq<(String, ObjMember)>, i: int)
    requires
        0 <= i < s.len(),
    ensures
        entries_view(s)[i].0 == s[i].0@,
        entries_view(s)[i] == (s[i].0@, crate::val::member_view(s[i].1)),
    decreases s.len(),
{
    lemma_entries_view_len(s.drop_last());
    if i < s.len() - 1 {
        lemma_entries_view_index(s.drop_last(), i);
    }
}


// ---------------------------------------------------------------------------
// Equality
// ---------------------------------------------------------------------------

/// Whether two values are equal (`==` on values).
pub fn vals_equal<N: Fn(NumRequest) -> NumAnswer>(a: &Val, b: &Val, num: &N) -> (r: bool)
    requires
        backend_ok(*num),
    ensures
        r == val_eq(num_model(*num), a@, b@),
    decreases a,
{
    match (a, b) {
        (Val::Bool(x), Val::Bool(y)) => *x == *y,
        (Val::Null, Val::Null) => true,
        (Val::Str(x), Val::Str(y)) => *x == *y,
        (Val::Num(x), Val::Num(y)) => {
            let ans = ask(num, NumRequest::Equal(*x, *y));
            answer_bool(&ans)
        },
        (Val::Arr(xs), Val::Arr(ys)) => {
            let ghost xv = vals_view(xs@);
            let ghost yv = vals_view(ys@);
            proof {
                lemma_vals_view_len(xs@);
                lemma_vals_view_len(ys@);
            }
            if xs.len() != ys.len() {
                return false;
            }
            let mut all = true;
            let mut i: usize = 0;
            while i < xs.len()
                invariant
                    i <= xs.len(),
                    xs.len() == ys.len(),
                    *a == Val::Arr(*xs),
                    xv == vals_view(xs@),
                    yv == vals_view(ys@),
                    xv.len() == xs.len(),
                    yv.len() == ys.len(),
                    backend_ok(*num),
                    all == arr_eq(num_model(*num), xv.take(i as int), yv.take(i as int)),
                decreases xs.len() - i,
            {
                proof {
                    lemma_vals_view_index(xs@, i as int);
                    lemma_vals_view_index(ys@, i as int);
                    assert(xv.take(i + 1).drop_last() =~= xv.take(i as int));
                    assert(yv.take(i + 1).drop_last() =~= yv.take(i as int));
                }
                proof {
                    assert(decreases_to!(*a => a->Arr_0));
                    let w: Vec<Val> = *a->Arr_0;
                    assert(decreases_to!(*a => w));
                    assert(decreases_to!(w => w@[i as int]));
                }
                if all {
                    all = vals_equal(&xs[i], &ys[i], num);
                }
                i += 1;
            }
            proof {
                assert(xv.take(xs.len() as int) =~= xv);
                assert(yv.take(ys.len() as int) =~= yv);
            }
            all
        },
        (Val::Intristic(x1, x2), Val::Intristic(y1, y2)) => *x1 == *y1 && *x2 == *y2,
        _ => false,
    }
}

// ---------------------------------------------------------------------------
// The text of a value
// ---------------------------------------------------------------------------

/// `{:?}` of a string: std's `Debug` for `str`, called through `format!`.
/// The contract claims only that the result is `str_debug` of the string, a
/// function of the string alone; std documents the escapes as those of
/// `char::escape_debug`, whose tables of printable and combining characters
/// are not written out here.
#[verifier::external_body]
fn quoted_debug(s: &str) -> (r: String)
    ensures
        r@ == str_debug(s@),
{
    format!("{:?}", s)
}

/// A value as `{:?}` writes it.
pub fn debug_string<N: Fn(NumRequest) -> NumAnswer>(v: &Val, num: &N) -> (r: String)
    requires
        backend_ok(*num),
    ensures
        r@ == debug_text(num_model(*num), v@),
    decreases v,
{
    match v {
        Val::Bool(true) => "Bool(true)".to_owned(),
        Val::Bool(false) => "Bool(false)".to_owned(),
        Val::Null => "Null".to_owned(),
        Val::Str(s) => {
            let mut out = "Str(".to_owned();
            let e = quoted_debug(s.as_str());
            out.append(e.as_str());
            out.append(")");
            out
        },
        Val::Num(n) => {
            let mut out = "Num(".to_owned();
            let t = answer_text(ask(num, NumRequest::Debug(*n)));
            out.append(t.as_str());
            out.append(")");
            out
        },
        Val::Arr(xs) => {
            let ghost xv = vals_view(xs@);
            proof {
                lemma_vals_view_len(xs@);
            }
            let mut body = String::new();
            let mut i: usize = 0;
            while i < xs.len()
                invariant
                    i <= xs.len(),
                    *v == Val::Arr(*xs),
                    xv == vals_view(xs@),
                    xv.len() == xs.len(),
                    backend_ok(*num),
                    body@ == debug_join(num_model(*num), xv.take(i as int)),
                decreases xs.len() - i,
            {
                proof {
                    lemma_vals_view_index(xs@, i as int);
                    assert(xv.take(i + 1).drop_last() =~= xv.take(i as int));
                }
                if i > 0 {
                    body.append(", ");
                }
                proof {
                    assert(decreases_to!(*v => v->Arr_0));
                    let w: Vec<Val> = *v->Arr_0;
                    assert(decreases_to!(*v => w));
                    assert(decreases_to!(w => w@[i as int]));
                }
                let t = debug_string(&xs[i], num);
                body.append(t.as_str());
                i += 1;
            }
            proof {
                assert(xv.take(xs.len() as int) =~= xv);
            }
            let mut out = "Arr([".to_owned();
            out.append(body.as_str());
            out.append("])");
            out
        },
        Val::Intristic(a, b) => {
            let mut out = "Intristic(".to_owned();
            let ea = quoted_debug(a.as_str());
            out.append(ea.as_str());
            out.append(", ");
            let eb = quoted_debug(b.as_str());
            out.append(eb.as_str());
            out.append(")");
            out
        },
        Val::Obj(_) => "Obj(..)".to_owned(),
        Val::Func(_) => "Func(..)".to_owned(),
        Val::Lazy(_) => "Lazy(..)".to_owned(),
    }
}

/// `s` written `k` times.
pub fn repeat_str(s: &String, k: usize) -> (r: String)
    ensures
        r@ == repeat(s@, k as nat),
{
    let mut out = String::new();
    let mut i: usize = 0;
    while i < k
        invariant
            i <= k,
            out@ == repeat(s@, i as nat),
        decreases k - i,
    {
        out.append(s.as_str());
        i += 1;
    }
    out
}

} // verus!
