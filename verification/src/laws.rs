//! Properties of the semantics that hold across operations.
use crate::num::{ans_bool, NumRequest};
use crate::spec::{
    add_op, arr_eq, val_eq, fields_acc, find_binding, insert_name, insert_pos, lookup, names_into,
    obj_fields, str_lt, str_lt_from, unop, with_super, with_var, NumFn,
};
use crate::ast::UnaryOpType;
use crate::val::{SBinding, SFrame, SMember, SObj, SVal};
use vstd::prelude::*;

verus! {

// ---------------------------------------------------------------------------
// Names
// ---------------------------------------------------------------------------

/// A name bound by `with_var` reads back as the value bound, and every other
/// name reads as it did before.
pub proof fn lemma_with_var_lookup(c: Seq<SFrame>, x: Seq<char>, v: SVal, y: Seq<char>)
    ensures
        lookup(with_var(c, x, v), x) == Some(v),
        y != x ==> lookup(with_var(c, x, v), y) == lookup(c, y),
{
    let c2 = with_var(c, x, v);
    let bs = seq![(x, SBinding::Value(v))];
    assert(c2.last().bindings == bs);
    assert(bs.drop_last() =~= Seq::<(Seq<char>, SBinding)>::empty());
    assert(c2.drop_last() =~= c);
    assert(find_binding(bs, x) == Some(SBinding::Value(v)));
    if y != x {
        assert(find_binding(bs, y) == find_binding(bs.drop_last(), y));
        assert(find_binding(bs, y) == None::<SBinding>);
    }
}

/// A frame's binding of a name hides the bindings of that name further out:
/// binding `x` twice, the inner value is read.
pub proof fn lemma_with_var_shadows(c: Seq<SFrame>, x: Seq<char>, v: SVal, w: SVal)
    ensures
        lookup(with_var(with_var(c, x, v), x, w), x) == Some(w),
{
    lemma_with_var_lookup(with_var(c, x, v), x, w, x);
}

// ---------------------------------------------------------------------------
// `+`
// ---------------------------------------------------------------------------

/// Placing objects over one another is associative.
pub proof fn lemma_with_super_assoc(a: SObj, b: SObj, c: SObj)
    ensures
        with_super(with_super(a, b), c) == with_super(a, with_super(b, c)),
    decreases a,
{
    match a.super_obj {
        None => {},
        Some(x) => {
            lemma_with_super_assoc(*x, b, c);
        },
    }
}

/// `+` is associative on strings, on arrays and on objects.
pub proof fn lemma_add_assoc(nm: NumFn, a: SVal, b: SVal, c: SVal)
    requires
        (a is Str && b is Str && c is Str) || (a is Arr && b is Arr && c is Arr) || (a is Obj
            && b is Obj && c is Obj),
    ensures
        add_op(nm, a, b) is Ok,
        add_op(nm, b, c) is Ok,
        add_op(nm, add_op(nm, a, b)->Ok_0, c) == add_op(nm, a, add_op(nm, b, c)->Ok_0),
{
    match (a, b, c) {
        (SVal::Str(x), SVal::Str(y), SVal::Str(z)) => {
            assert((x + y) + z =~= x + (y + z));
        },
        (SVal::Arr(x), SVal::Arr(y), SVal::Arr(z)) => {
            assert((x + y) + z =~= x + (y + z));
        },
        (SVal::Obj(x), SVal::Obj(y), SVal::Obj(z)) => {
            lemma_with_super_assoc(z, y, x);
        },
        _ => {},
    }
}

/// `!` undoes itself on booleans.
pub proof fn lemma_not_not(nm: NumFn, f: nat, b: bool)
    ensures
        unop(nm, f, UnaryOpType::Not, SVal::Bool(b)) == Ok::<SVal, crate::val::SError>(SVal::Bool(!b)),
        unop(nm, f, UnaryOpType::Not, unop(nm, f, UnaryOpType::Not, SVal::Bool(b))->Ok_0) == Ok::<
            SVal,
            crate::val::SError,
        >(SVal::Bool(b)),
{
}


// ---------------------------------------------------------------------------
// Field names
// ---------------------------------------------------------------------------

/// Each name sorts before the names after it.
pub open spec fn sorted_names(s: Seq<Seq<char>>) -> bool {
    forall|i: int, j: int| 0 <= i < j < s.len() ==> str_lt(#[trigger] s[i], #[trigger] s[j])
}

/// Some layer of the object has a field named `x`.
pub open spec fn obj_has_key(o: SObj, x: Seq<char>) -> bool
    decreases o,
{
    (exists|i: int| 0 <= i < o.entries.len() && #[trigger] o.entries[i].0 == x) || match o.super_obj {
        Some(s) => obj_has_key(*s, x),
        None => false,
    }
}

proof fn lemma_str_lt_irrefl(a: Seq<char>, i: nat)
    ensures
        !str_lt_from(a, a, i),
    decreases a.len() - i,
{
    if i < a.len() {
        lemma_str_lt_irrefl(a, i + 1);
    }
}

proof fn lemma_str_lt_trans(a: Seq<char>, b: Seq<char>, c: Seq<char>, i: nat)
    requires
        str_lt_from(a, b, i),
        str_lt_from(b, c, i),
    ensures
        str_lt_from(a, c, i),
    decreases a.len() - i,
{
    if i < a.len() && i < b.len() && i < c.len() && a[i as int] == b[i as int] && b[i as int]
        == c[i as int] {
        lemma_str_lt_trans(a, b, c, i + 1);
    }
}

proof fn lemma_str_lt_total(a: Seq<char>, b: Seq<char>, i: nat)
    requires
        i <= a.len(),
        i <= b.len(),
        !str_lt_from(a, b, i),
        !str_lt_from(b, a, i),
    ensures
        a.skip(i as int) == b.skip(i as int),
    decreases a.len() - i,
{
    if i < a.len() && i < b.len() {
        assert(a[i as int] == b[i as int]);
        lemma_str_lt_total(a, b, i + 1);
        assert(a.skip(i as int) =~= seq![a[i as int]] + a.skip((i + 1) as int));
        assert(b.skip(i as int) =~= seq![b[i as int]] + b.skip((i + 1) as int));
    } else {
        assert(a.skip(i as int) =~= b.skip(i as int));
    }
}

/// Two different names: one sorts before the other.
pub proof fn lemma_str_lt_connex(a: Seq<char>, b: Seq<char>)
    requires
        a != b,
    ensures
        str_lt(a, b) || str_lt(b, a),
{
    if !str_lt(a, b) && !str_lt(b, a) {
        lemma_str_lt_total(a, b, 0);
        assert(a.skip(0) =~= a);
        assert(b.skip(0) =~= b);
    }
}

proof fn lemma_insert_pos(acc: Seq<Seq<char>>, x: Seq<char>, i: nat)
    requires
        i <= acc.len(),
    ensures
        i <= insert_pos(acc, x, i) <= acc.len(),
        forall|k: int| i <= k < insert_pos(acc, x, i) ==> str_lt(#[trigger] acc[k], x),
        insert_pos(acc, x, i) < acc.len() ==> !str_lt(acc[insert_pos(acc, x, i) as int], x),
    decreases acc.len() - i,
{
    if i < acc.len() && str_lt(acc[i as int], x) {
        lemma_insert_pos(acc, x, i + 1);
    }
}

proof fn lemma_insert_name(acc: Seq<Seq<char>>, x: Seq<char>)
    requires
        sorted_names(acc),
    ensures
        sorted_names(insert_name(acc, x)),
        forall|y: Seq<char>| #[trigger] insert_name(acc, x).contains(y) <==> (acc.contains(y) || y == x),
{
    lemma_insert_pos(acc, x, 0);
    let p = insert_pos(acc, x, 0);
    if p < acc.len() && acc[p as int] == x {
        assert(acc.contains(x));
    } else {
        let r = acc.insert(p as int, x);
        if p < acc.len() {
            lemma_str_lt_connex(acc[p as int], x);
        }
        assert forall|i: int, j: int| 0 <= i < j < r.len() implies str_lt(#[trigger] r[i], #[trigger] r[j]) by {
            if j < p {
                assert(r[i] == acc[i] && r[j] == acc[j]);
            } else if j == p {
                assert(r[j] == x && r[i] == acc[i]);
            } else if i == p {
                assert(r[i] == x && r[j] == acc[j - 1]);
                if j - 1 > p {
                    lemma_str_lt_trans(x, acc[p as int], acc[j - 1], 0);
                }
            } else if i < p {
                assert(r[i] == acc[i] && r[j] == acc[j - 1]);
                if i < j - 1 {
                } else {
                    assert(false);
                }
            } else {
                assert(r[i] == acc[i - 1] && r[j] == acc[j - 1]);
            }
        }
        assert forall|y: Seq<char>| #[trigger] r.contains(y) <==> (acc.contains(y) || y == x) by {
            if r.contains(y) {
                let k = choose|k: int| 0 <= k < r.len() && r[k] == y;
                if k < p {
                    assert(acc[k] == y);
                } else if k > p {
                    assert(acc[k - 1] == y);
                }
            }
            if acc.contains(y) {
                let k = choose|k: int| 0 <= k < acc.len() && acc[k] == y;
                if k < p {
                    assert(r[k] == y);
                } else {
                    assert(r[k + 1] == y);
                }
            }
            if y == x {
                assert(r[p as int] == x);
            }
        }
    }
}

proof fn lemma_names_into(acc: Seq<Seq<char>>, es: Seq<(Seq<char>, SMember)>, i: nat)
    requires
        sorted_names(acc),
        i <= es.len(),
    ensures
        sorted_names(names_into(acc, es, i)),
        forall|y: Seq<char>| #[trigger] names_into(acc, es, i).contains(y) <==> (acc.contains(y) || exists|k: int|
            i <= k < es.len() && #[trigger] es[k].0 == y),
    decreases es.len() - i,
{
    if i < es.len() {
        let acc2 = insert_name(acc, es[i as int].0);
        lemma_insert_name(acc, es[i as int].0);
        lemma_names_into(acc2, es, i + 1);
        assert forall|y: Seq<char>| #[trigger] names_into(acc, es, i).contains(y) <==> (acc.contains(y)
            || exists|k: int| i <= k < es.len() && #[trigger] es[k].0 == y) by {
            if acc2.contains(y) && !acc.contains(y) {
                assert(es[i as int].0 == y);
            }
            if exists|k: int| i <= k < es.len() && #[trigger] es[k].0 == y {
                let k = choose|k: int| i <= k < es.len() && #[trigger] es[k].0 == y;
                if k == i {
                    assert(acc2.contains(y));
                }
            }
        }
    }
}

proof fn lemma_fields_acc(acc: Seq<Seq<char>>, o: SObj)
    requires
        sorted_names(acc),
    ensures
        sorted_names(fields_acc(acc, o)),
        forall|y: Seq<char>| #[trigger] fields_acc(acc, o).contains(y) <==> (acc.contains(y) || obj_has_key(o, y)),
    decreases o,
{
    lemma_names_into(acc, o.entries, 0);
    let acc2 = names_into(acc, o.entries, 0);
    match o.super_obj {
        Some(s) => {
            lemma_fields_acc(acc2, *s);
        },
        None => {},
    }
}

/// The field names of an object are sorted, each once, and are exactly the
/// names of the fields of its layers.
pub proof fn lemma_obj_fields(o: SObj)
    ensures
        sorted_names(obj_fields(o)),
        forall|y: Seq<char>| #[trigger] obj_fields(o).contains(y) <==> obj_has_key(o, y),
{
    lemma_fields_acc(Seq::empty(), o);
}

/// Sorted names are distinct.
pub proof fn lemma_sorted_distinct(s: Seq<Seq<char>>, i: int, j: int)
    requires
        sorted_names(s),
        0 <= i < j < s.len(),
    ensures
        s[i] != s[j],
{
    assert(str_lt(s[i], s[j]));
    lemma_str_lt_irrefl(s[i], 0);
}

/// The field names of `a + b` are those of `b` together with those of `a`.
pub proof fn lemma_with_super_keys(o: SObj, s: SObj, y: Seq<char>)
    ensures
        obj_has_key(with_super(o, s), y) <==> (obj_has_key(o, y) || obj_has_key(s, y)),
    decreases o,
{
    let w = with_super(o, s);
    assert(w.entries == o.entries);
    match o.super_obj {
        Some(x) => {
            lemma_with_super_keys(*x, s, y);
            assert(w.super_obj == Some(Box::new(with_super(*x, s))));
        },
        None => {
            assert(w.super_obj == Some(Box::new(s)));
        },
    }
}


// ---------------------------------------------------------------------------
// Equality
// ---------------------------------------------------------------------------

/// The backend finds two numbers equal in either order.
pub open spec fn equal_symmetric(nm: NumFn) -> bool {
    forall|x: u64, y: u64|
        ans_bool(#[trigger] nm(NumRequest::Equal(x, y))) == ans_bool(nm(NumRequest::Equal(y, x)))
}

/// `a == b` and `b == a` agree, where the backend compares numbers
/// symmetrically.
pub proof fn lemma_val_eq_symmetric(nm: NumFn, a: SVal, b: SVal)
    requires
        equal_symmetric(nm),
    ensures
        val_eq(nm, a, b) == val_eq(nm, b, a),
    decreases a,
{
    match (a, b) {
        (SVal::Num(x), SVal::Num(y)) => {
            assert(ans_bool(nm(NumRequest::Equal(x, y))) == ans_bool(nm(NumRequest::Equal(y, x))));
        },
        (SVal::Arr(xs), SVal::Arr(ys)) => {
            if xs.len() == ys.len() {
                lemma_arr_eq_symmetric(nm, xs, ys);
            }
        },
        _ => {},
    }
}

proof fn lemma_arr_eq_symmetric(nm: NumFn, xs: Seq<SVal>, ys: Seq<SVal>)
    requires
        equal_symmetric(nm),
        xs.len() == ys.len(),
    ensures
        arr_eq(nm, xs, ys) == arr_eq(nm, ys, xs),
    decreases xs,
{
    if xs.len() > 0 {
        lemma_arr_eq_symmetric(nm, xs.drop_last(), ys.drop_last());
        lemma_val_eq_symmetric(nm, xs.last(), ys.last());
    }
}

} // verus!
