use jsonnet_evaluator::ast::{
    Arg, ArgsDesc, AssertStmt, BinaryOpType, BindSpec, CompSpec, Expr, FieldMember, FieldName,
    ForSpecData, IfSpecData, LiteralType, LocExpr, Member, ObjBody, Param, ParamsDesc,
    UnaryOpType, Visibility,
};
use jsonnet_evaluator::evaluate::{
    evaluate_in, try_evaluate, MAX_DEPTH,
    evaluate_add_op, evaluate_binding, evaluate_method,
    evaluate, evaluate_binary_op, evaluate_comp, evaluate_field_name, evaluate_object,
    evaluate_unary_op,
};
use jsonnet_evaluator::num::{NumAnswer, NumRequest};
use jsonnet_evaluator::val::{Context, Error, LazyBinding, Val, ValType};
use std::rc::Rc;

// ---------------------------------------------------------------------------
// A backend that computes on doubles
// ---------------------------------------------------------------------------

fn backend(q: NumRequest) -> NumAnswer {
    let num = |x: f64| NumAnswer::Num(x.to_bits());
    match q {
        NumRequest::Binary(op, a, b) => {
            let (x, y) = (f64::from_bits(a), f64::from_bits(b));
            match op {
                BinaryOpType::Add => num(x + y),
                BinaryOpType::Sub => num(x - y),
                BinaryOpType::Mul => num(x * y),
                BinaryOpType::Div => num(x / y),
                BinaryOpType::Mod => num(x % y),
                BinaryOpType::Lhs => num(((x as i32) << (y as i32)) as f64),
                BinaryOpType::Rhs => num(((x as i32) >> (y as i32)) as f64),
                BinaryOpType::Lt => NumAnswer::Bool(x < y),
                BinaryOpType::Gt => NumAnswer::Bool(x > y),
                BinaryOpType::Lte => NumAnswer::Bool(x <= y),
                BinaryOpType::Gte => NumAnswer::Bool(x >= y),
                BinaryOpType::Eq => NumAnswer::Bool((x - y).abs() < f64::EPSILON),
                BinaryOpType::Ne => NumAnswer::Bool((x - y).abs() > f64::EPSILON),
                BinaryOpType::BitAnd => num(((x as i32) & (y as i32)) as f64),
                BinaryOpType::BitOr => num(((x as i32) | (y as i32)) as f64),
                BinaryOpType::BitXor => num(((x as i32) ^ (y as i32)) as f64),
                BinaryOpType::And | BinaryOpType::Or => NumAnswer::Bool(false),
            }
        }
        NumRequest::Equal(a, b) => NumAnswer::Bool(f64::from_bits(a) == f64::from_bits(b)),
        NumRequest::Display(a) => NumAnswer::Text(format!("{}", f64::from_bits(a))),
        NumRequest::Debug(a) => NumAnswer::Text(format!("{:?}", f64::from_bits(a))),
        NumRequest::ToIndex(a) => NumAnswer::Index(f64::from_bits(a) as usize),
        NumRequest::FromIndex(i) => num(i as f64),
        NumRequest::IsPositive(a) => NumAnswer::Bool(f64::from_bits(a) > 0.0),
    }
}

// ---------------------------------------------------------------------------
// Building expressions
// ---------------------------------------------------------------------------

fn e(x: Expr) -> LocExpr {
    LocExpr(Rc::new(x))
}
fn n(x: f64) -> LocExpr {
    e(Expr::Num(x.to_bits()))
}
fn s(x: &str) -> LocExpr {
    e(Expr::Str(x.to_string()))
}
fn var(x: &str) -> LocExpr {
    e(Expr::Var(x.to_string()))
}
fn lit(l: LiteralType) -> LocExpr {
    e(Expr::Literal(l))
}
fn bin(a: LocExpr, op: BinaryOpType, b: LocExpr) -> LocExpr {
    e(Expr::BinaryOp(a, op, b))
}
fn arr(items: Vec<LocExpr>) -> LocExpr {
    e(Expr::Arr(items))
}
fn index(a: LocExpr, i: LocExpr) -> LocExpr {
    e(Expr::Index(a, i))
}
fn bind(name: &str, value: LocExpr) -> BindSpec {
    BindSpec { name: name.to_string(), params: None, value }
}
fn params(ps: Vec<(&str, Option<LocExpr>)>) -> ParamsDesc {
    ParamsDesc(Rc::new(ps.into_iter().map(|(n, d)| Param(n.to_string(), d)).collect()))
}
fn method(name: &str, ps: Vec<(&str, Option<LocExpr>)>, value: LocExpr) -> BindSpec {
    BindSpec { name: name.to_string(), params: Some(params(ps)), value }
}
fn local(bs: Vec<BindSpec>, body: LocExpr) -> LocExpr {
    e(Expr::LocalExpr(bs, body))
}
fn apply(f: LocExpr, args: Vec<LocExpr>) -> LocExpr {
    e(Expr::Apply(f, ArgsDesc(args.into_iter().map(|a| Arg(None, a)).collect())))
}
fn apply_named(f: LocExpr, args: Vec<(Option<&str>, LocExpr)>) -> LocExpr {
    e(Expr::Apply(
        f,
        ArgsDesc(args.into_iter().map(|(n, a)| Arg(n.map(|n| n.to_string()), a)).collect()),
    ))
}
fn field(name: &str, value: LocExpr) -> Member {
    Member::Field(FieldMember {
        name: FieldName::Fixed(name.to_string()),
        plus: false,
        params: None,
        visibility: Visibility::Normal,
        value,
    })
}
fn plus_field(name: &str, value: LocExpr) -> Member {
    Member::Field(FieldMember {
        name: FieldName::Fixed(name.to_string()),
        plus: true,
        params: None,
        visibility: Visibility::Normal,
        value,
    })
}
fn obj(members: Vec<Member>) -> LocExpr {
    e(Expr::Obj(ObjBody::MemberList(members)))
}
fn std_obj() -> LocExpr {
    obj(vec![field("__intristic_namespace__", s("std"))])
}
fn with_std(body: LocExpr) -> LocExpr {
    local(vec![bind("std", std_obj())], body)
}
fn func(ps: Vec<(&str, Option<LocExpr>)>, body: LocExpr) -> LocExpr {
    e(Expr::Function(params(ps), body))
}

fn run(x: LocExpr) -> Result<Val, Error> {
    evaluate(Context::new(), &x, &backend)
}

fn as_num(v: &Val) -> f64 {
    match v {
        Val::Num(b) => f64::from_bits(*b),
        _ => panic!("not a number"),
    }
}
fn as_str(v: &Val) -> String {
    match v {
        Val::Str(s) => s.clone(),
        _ => panic!("not a string"),
    }
}
fn as_bool(v: &Val) -> bool {
    match v {
        Val::Bool(b) => *b,
        _ => panic!("not a boolean"),
    }
}
fn as_arr(v: &Val) -> Vec<Val> {
    match v {
        Val::Arr(a) => a.iter().cloned().collect(),
        _ => panic!("not an array"),
    }
}
fn num_of(r: Result<Val, Error>) -> f64 {
    as_num(&r.ok().expect("evaluation failed"))
}
fn str_of(r: Result<Val, Error>) -> String {
    as_str(&r.ok().expect("evaluation failed"))
}
fn bool_of(r: Result<Val, Error>) -> bool {
    as_bool(&r.ok().expect("evaluation failed"))
}
fn nums_of(r: Result<Val, Error>) -> Vec<f64> {
    as_arr(&r.ok().expect("evaluation failed")).iter().map(as_num).collect()
}
fn strs_of(r: Result<Val, Error>) -> Vec<String> {
    as_arr(&r.ok().expect("evaluation failed")).iter().map(as_str).collect()
}

// ---------------------------------------------------------------------------
// Literals and operators
// ---------------------------------------------------------------------------

#[test]
fn literals() {
    assert!(bool_of(run(lit(LiteralType::True))));
    assert!(!bool_of(run(lit(LiteralType::False))));
    assert!(matches!(run(lit(LiteralType::Null)), Ok(Val::Null)));
    assert_eq!(str_of(run(s("hi"))), "hi");
    assert_eq!(num_of(run(n(2.5))), 2.5);
    assert_eq!(num_of(run(e(Expr::Parened(n(4.0))))), 4.0);
}

#[test]
fn arithmetic() {
    assert_eq!(num_of(run(bin(n(1.0), BinaryOpType::Add, n(2.0)))), 3.0);
    assert_eq!(num_of(run(bin(n(7.0), BinaryOpType::Sub, n(2.0)))), 5.0);
    assert_eq!(num_of(run(bin(n(3.0), BinaryOpType::Mul, n(4.0)))), 12.0);
    assert_eq!(num_of(run(bin(n(7.0), BinaryOpType::Div, n(2.0)))), 3.5);
    assert_eq!(num_of(run(bin(n(7.0), BinaryOpType::Mod, n(3.0)))), 1.0);
    assert_eq!(num_of(run(bin(n(1.0), BinaryOpType::Lhs, n(4.0)))), 16.0);
    assert_eq!(num_of(run(bin(n(16.0), BinaryOpType::Rhs, n(2.0)))), 4.0);
    assert_eq!(num_of(run(bin(n(6.0), BinaryOpType::BitAnd, n(3.0)))), 2.0);
    assert_eq!(num_of(run(bin(n(6.0), BinaryOpType::BitOr, n(3.0)))), 7.0);
    assert_eq!(num_of(run(bin(n(6.0), BinaryOpType::BitXor, n(3.0)))), 5.0);
}

#[test]
fn comparisons() {
    assert!(bool_of(run(bin(n(1.0), BinaryOpType::Lt, n(2.0)))));
    assert!(!bool_of(run(bin(n(1.0), BinaryOpType::Gt, n(2.0)))));
    assert!(bool_of(run(bin(n(2.0), BinaryOpType::Lte, n(2.0)))));
    assert!(!bool_of(run(bin(n(2.0), BinaryOpType::Gte, n(3.0)))));
    assert!(bool_of(run(bin(n(2.0), BinaryOpType::Eq, n(2.0)))));
    assert!(bool_of(run(bin(n(2.0), BinaryOpType::Ne, n(3.0)))));
    assert!(bool_of(run(bin(s("a"), BinaryOpType::Ne, s("b")))));
    assert!(!bool_of(run(bin(s("a"), BinaryOpType::Ne, s("a")))));
    assert!(bool_of(run(bin(s("a"), BinaryOpType::Eq, s("a")))));
    assert!(!bool_of(run(bin(s("a"), BinaryOpType::Eq, n(1.0)))));
}

#[test]
fn equality_of_arrays_and_objects() {
    let a = arr(vec![n(1.0), s("x")]);
    let b = arr(vec![n(1.0), s("x")]);
    let c = arr(vec![n(1.0), s("y")]);
    assert!(bool_of(run(bin(a.clone(), BinaryOpType::Eq, b))));
    assert!(!bool_of(run(bin(a.clone(), BinaryOpType::Eq, c.clone()))));
    assert!(bool_of(run(bin(a, BinaryOpType::Ne, c))));
    // objects are equal to nothing
    assert!(!bool_of(run(bin(obj(vec![]), BinaryOpType::Eq, obj(vec![])))));
    assert!(bool_of(run(bin(lit(LiteralType::Null), BinaryOpType::Eq, lit(LiteralType::Null)))));
}

#[test]
fn booleans() {
    let t = || lit(LiteralType::True);
    let f = || lit(LiteralType::False);
    assert!(!bool_of(run(bin(t(), BinaryOpType::And, f()))));
    assert!(bool_of(run(bin(t(), BinaryOpType::Or, f()))));
    assert!(!bool_of(run(e(Expr::UnaryOp(UnaryOpType::Not, t())))));
    assert!(bool_of(run(e(Expr::UnaryOp(UnaryOpType::Not, f())))));
}

#[test]
fn string_concatenation() {
    assert_eq!(str_of(run(bin(s("ab"), BinaryOpType::Add, s("cd")))), "abcd");
    assert_eq!(str_of(run(bin(s("n="), BinaryOpType::Add, n(1.0)))), "n=1");
    assert_eq!(str_of(run(bin(n(2.5), BinaryOpType::Add, s("x")))), "2.5x");
    assert_eq!(str_of(run(bin(s("v="), BinaryOpType::Add, lit(LiteralType::True)))), "v=Bool(true)");
    assert_eq!(str_of(run(bin(s("v="), BinaryOpType::Add, lit(LiteralType::Null)))), "v=Null");
    assert_eq!(
        str_of(run(bin(s("v="), BinaryOpType::Add, arr(vec![n(1.0), s("q\"")])))),
        "v=Arr([Num(1.0), Str(\"q\\\"\")])"
    );
    // control characters are written as `{:?}` writes them
    assert_eq!(
        str_of(run(bin(s("x"), BinaryOpType::Add, arr(vec![s("\u{1}"), s("a'b\u{7f}")])))),
        "xArr([Str(\"\\u{1}\"), Str(\"a'b\\u{7f}\")])"
    );
}

#[test]
fn string_repetition() {
    assert_eq!(str_of(run(bin(s("ab"), BinaryOpType::Mul, n(3.0)))), "ababab");
    assert_eq!(str_of(run(bin(s("ab"), BinaryOpType::Mul, n(0.0)))), "");
}

#[test]
fn array_concatenation() {
    let r = run(bin(arr(vec![n(1.0)]), BinaryOpType::Add, arr(vec![n(2.0), n(3.0)])));
    assert_eq!(nums_of(r), vec![1.0, 2.0, 3.0]);
}

// ---------------------------------------------------------------------------
// Names and functions
// ---------------------------------------------------------------------------

#[test]
fn locals() {
    let x = local(vec![bind("x", n(2.0))], bin(var("x"), BinaryOpType::Add, var("x")));
    assert_eq!(num_of(run(x)), 4.0);
    // the inner binding shadows the outer one
    let y = local(vec![bind("x", n(1.0))], local(vec![bind("x", n(5.0))], var("x")));
    assert_eq!(num_of(run(y)), 5.0);
    // a binding may use a sibling defined after it
    let z = local(vec![bind("a", var("b")), bind("b", n(3.0))], var("a"));
    assert_eq!(num_of(run(z)), 3.0);
}

#[test]
fn unused_error_is_not_evaluated() {
    let x = local(vec![bind("x", e(Expr::Error(s("boom"))))], n(1.0));
    assert_eq!(num_of(run(x)), 1.0);
}

#[test]
fn undefined_variable() {
    match run(var("nope")) {
        Err(Error::VariableIsNotDefined(n)) => assert_eq!(n, "nope"),
        _ => panic!("expected an error"),
    }
}

#[test]
fn function_calls() {
    let f = method("f", vec![("a", None), ("b", Some(n(10.0)))], bin(var("a"), BinaryOpType::Sub, var("b")));
    let call1 = local(vec![f], apply(var("f"), vec![n(15.0)]));
    assert_eq!(num_of(run(call1)), 5.0);
    let f = method("f", vec![("a", None), ("b", Some(n(10.0)))], bin(var("a"), BinaryOpType::Sub, var("b")));
    let call2 = local(vec![f], apply(var("f"), vec![n(15.0), n(1.0)]));
    assert_eq!(num_of(run(call2)), 14.0);
    let f = method("f", vec![("a", None), ("b", Some(n(10.0)))], bin(var("a"), BinaryOpType::Sub, var("b")));
    let call3 = local(vec![f], apply_named(var("f"), vec![(Some("b"), n(1.0)), (Some("a"), n(3.0))]));
    assert_eq!(num_of(run(call3)), 2.0);
}

#[test]
fn default_refers_to_other_parameter() {
    let f = method("f", vec![("a", None), ("b", Some(bin(var("a"), BinaryOpType::Mul, n(2.0))))], var("b"));
    assert_eq!(num_of(run(local(vec![f], apply(var("f"), vec![n(4.0)])))), 8.0);
}

#[test]
fn anonymous_function() {
    let f = func(vec![("x", None)], bin(var("x"), BinaryOpType::Add, n(1.0)));
    assert_eq!(num_of(run(apply(f, vec![n(1.0)]))), 2.0);
}

#[test]
fn call_errors() {
    let f = || method("f", vec![("a", None)], var("a"));
    match run(local(vec![f()], apply(var("f"), vec![n(1.0), n(2.0)]))) {
        Err(Error::TooManyArgsFunctionHas(k)) => assert_eq!(k, 1),
        _ => panic!("expected too many arguments"),
    }
    match run(local(vec![f()], apply_named(var("f"), vec![(Some("z"), n(1.0))]))) {
        Err(Error::UnknownFunctionParameter(x)) => assert_eq!(x, "z"),
        _ => panic!("expected an unknown parameter"),
    }
    match run(local(vec![f()], apply(var("f"), vec![]))) {
        Err(Error::FunctionParameterNotBoundInCall(x)) => assert_eq!(x, "a"),
        _ => panic!("expected an unbound parameter"),
    }
}

#[test]
fn arguments_are_lazy() {
    let f = method("f", vec![("a", None), ("b", None)], var("a"));
    let x = local(vec![f], apply(var("f"), vec![n(1.0), e(Expr::Error(s("never")))]));
    assert_eq!(num_of(run(x)), 1.0);
}

#[test]
fn recursion_and_depth() {
    // local fact(k) = if k <= 1 then 1 else k * fact(k - 1); fact(5)
    let body = e(Expr::IfElse {
        cond: IfSpecData(bin(var("k"), BinaryOpType::Lte, n(1.0))),
        cond_then: n(1.0),
        cond_else: Some(bin(
            var("k"),
            BinaryOpType::Mul,
            apply(var("fact"), vec![bin(var("k"), BinaryOpType::Sub, n(1.0))]),
        )),
    });
    let x = local(vec![method("fact", vec![("k", None)], body)], apply(var("fact"), vec![n(5.0)]));
    assert_eq!(num_of(run(x)), 120.0);
    // local loop(k) = loop(k); loop(0), with a bound of the caller's choosing
    let y = local(
        vec![method("loop", vec![("k", None)], apply(var("loop"), vec![var("k")]))],
        apply(var("loop"), vec![n(0.0)]),
    );
    assert!(matches!(evaluate_in(&Context::new(), &y, 200, &backend), Err(Error::StackOverflow)));
}

#[test]
fn deep_nesting_is_evaluated() {
    // 600 pairs of parentheses around 1, and the same as an operand, an
    // array item, a condition and an error message
    let mut x = n(1.0);
    for _ in 0..600 {
        x = e(Expr::Parened(x));
    }
    assert_eq!(num_of(run(x.clone())), 1.0);
    assert_eq!(num_of(run(bin(x.clone(), BinaryOpType::Add, n(1.0)))), 2.0);
    assert_eq!(nums_of(run(arr(vec![x.clone(), n(2.0)]))), vec![1.0, 2.0]);
    let cond = bin(x.clone(), BinaryOpType::Eq, n(1.0));
    let ite = e(Expr::IfElse { cond: IfSpecData(cond.clone()), cond_then: s("yes"), cond_else: Some(s("no")) });
    assert_eq!(str_of(run(ite)), "yes");
    let asserted = e(Expr::AssertExpr(AssertStmt(cond, None), s("body")));
    assert_eq!(str_of(run(asserted)), "body");
    let mut m = s("boom");
    for _ in 0..600 {
        m = e(Expr::Parened(m));
    }
    assert!(matches!(run(e(Expr::Error(m))), Err(Error::RuntimeError(t)) if t == "boom"));
    assert_eq!(num_of(run(index(arr(vec![n(5.0), x]), n(1.0)))), 1.0);
}

#[test]
fn fatal_points_are_reported() {
    // `self` outside an object, a failed assertion, `true + 1`, an index past the end
    let cases = vec![
        lit(LiteralType::This),
        e(Expr::AssertExpr(AssertStmt(lit(LiteralType::False), None), n(1.0))),
        bin(lit(LiteralType::True), BinaryOpType::Add, n(1.0)),
        index(arr(vec![n(1.0)]), n(3.0)),
    ];
    for x in cases {
        assert!(matches!(try_evaluate(Context::new(), &x, &backend), Err(Error::Fatal)));
    }
    assert_eq!(num_of(try_evaluate(Context::new(), &n(7.0), &backend)), 7.0);
}

// ---------------------------------------------------------------------------
// Control
// ---------------------------------------------------------------------------

#[test]
fn conditionals() {
    let t = e(Expr::IfElse {
        cond: IfSpecData(lit(LiteralType::True)),
        cond_then: n(1.0),
        cond_else: Some(n(2.0)),
    });
    assert_eq!(num_of(run(t)), 1.0);
    let f = e(Expr::IfElse {
        cond: IfSpecData(lit(LiteralType::False)),
        cond_then: n(1.0),
        cond_else: Some(n(2.0)),
    });
    assert_eq!(num_of(run(f)), 2.0);
    let no_else = e(Expr::IfElse {
        cond: IfSpecData(lit(LiteralType::False)),
        cond_then: n(1.0),
        cond_else: None,
    });
    assert!(!bool_of(run(no_else)));
    let bad = e(Expr::IfElse { cond: IfSpecData(n(1.0)), cond_then: n(1.0), cond_else: None });
    match run(bad) {
        Err(Error::TypeMismatch(w, ValType::Bool, ValType::Num)) => {
            assert_eq!(w, "if condition should be boolean")
        }
        _ => panic!("expected a type mismatch"),
    }
}

#[test]
fn errors() {
    match run(e(Expr::Error(s("boom")))) {
        Err(Error::RuntimeError(m)) => assert_eq!(m, "boom"),
        _ => panic!("expected a runtime error"),
    }
    match run(e(Expr::Error(n(1.0)))) {
        Err(Error::TypeMismatch(w, ValType::Str, ValType::Num)) => {
            assert_eq!(w, "error text should be string")
        }
        _ => panic!("expected a type mismatch"),
    }
}

#[test]
fn assertions() {
    let ok = e(Expr::AssertExpr(AssertStmt(lit(LiteralType::True), Some(s("m"))), n(7.0)));
    assert_eq!(num_of(run(ok)), 7.0);
    let bad_msg = e(Expr::AssertExpr(AssertStmt(lit(LiteralType::False), Some(n(1.0))), n(7.0)));
    match run(bad_msg) {
        Err(Error::TypeMismatch(w, ValType::Str, ValType::Num)) => {
            assert_eq!(w, "assertion message should be string")
        }
        _ => panic!("expected a type mismatch"),
    }
    let bad_cond = e(Expr::AssertExpr(AssertStmt(s("x"), None), n(7.0)));
    match run(bad_cond) {
        Err(Error::TypeMismatch(w, ValType::Bool, ValType::Str)) => {
            assert_eq!(w, "assertion condition should be boolean")
        }
        _ => panic!("expected a type mismatch"),
    }
}

// ---------------------------------------------------------------------------
// Arrays, strings, comprehensions
// ---------------------------------------------------------------------------

#[test]
fn indexing() {
    assert_eq!(num_of(run(index(arr(vec![n(10.0), n(20.0)]), n(1.0)))), 20.0);
    assert_eq!(str_of(run(index(s("abc"), n(1.0)))), "b");
    assert_eq!(str_of(run(index(s("abc"), n(5.0)))), "");
}

#[test]
fn comprehension() {
    // [x * 10 for x in [1, 2, 3] if x != 2]
    let c = e(Expr::ArrComp(
        bin(var("x"), BinaryOpType::Mul, n(10.0)),
        vec![
            CompSpec::ForSpec(ForSpecData("x".to_string(), arr(vec![n(1.0), n(2.0), n(3.0)]))),
            CompSpec::IfSpec(IfSpecData(bin(var("x"), BinaryOpType::Ne, n(2.0)))),
        ],
    ));
    assert_eq!(nums_of(run(c)), vec![10.0, 30.0]);
    // [[x, y] for x in [1, 2] for y in [3, 4]]
    let c2 = e(Expr::ArrComp(
        bin(var("x"), BinaryOpType::Add, var("y")),
        vec![
            CompSpec::ForSpec(ForSpecData("x".to_string(), arr(vec![n(1.0), n(2.0)]))),
            CompSpec::ForSpec(ForSpecData("y".to_string(), arr(vec![n(10.0), n(20.0)]))),
        ],
    ));
    assert_eq!(nums_of(run(c2)), vec![11.0, 21.0, 12.0, 22.0]);
}

#[test]
fn comprehension_entry_point() {
    let specs = vec![CompSpec::ForSpec(ForSpecData("x".to_string(), arr(vec![n(1.0), n(2.0)])))];
    let r = evaluate_comp(Context::new(), &var("x"), &specs, &backend).ok().unwrap().unwrap();
    assert_eq!(r.iter().map(as_num).collect::<Vec<_>>(), vec![1.0, 2.0]);
    let none = vec![CompSpec::IfSpec(IfSpecData(lit(LiteralType::False)))];
    assert!(evaluate_comp(Context::new(), &var("x"), &none, &backend).ok().unwrap().is_none());
    let empty: Vec<CompSpec> = vec![];
    let one = evaluate_comp(Context::new(), &n(3.0), &empty, &backend).ok().unwrap().unwrap();
    assert_eq!(one.iter().map(as_num).collect::<Vec<_>>(), vec![3.0]);
}

// ---------------------------------------------------------------------------
// Objects
// ---------------------------------------------------------------------------

fn dot(o: LocExpr, name: &str) -> LocExpr {
    index(o, s(name))
}

#[test]
fn object_fields_and_self() {
    let o = obj(vec![
        field("a", n(1.0)),
        field("b", bin(dot(lit(LiteralType::This), "a"), BinaryOpType::Add, n(1.0))),
    ]);
    assert_eq!(num_of(run(dot(o, "b"))), 2.0);
}

#[test]
fn object_locals() {
    let o = obj(vec![
        Member::BindStmt(bind("x", n(3.0))),
        field("y", bin(var("x"), BinaryOpType::Mul, n(2.0))),
    ]);
    assert_eq!(num_of(run(dot(o, "y"))), 6.0);
}

#[test]
fn missing_field() {
    match run(dot(obj(vec![field("a", n(1.0))]), "b")) {
        Err(Error::NoSuchField(f)) => assert_eq!(f, "b"),
        _ => panic!("expected a missing field"),
    }
}

#[test]
fn inheritance() {
    // ({a: 1, b: self.a} + {a: super.a + 10}).b == 11
    let base = obj(vec![field("a", n(1.0)), field("b", dot(lit(LiteralType::This), "a"))]);
    let child = obj(vec![field(
        "a",
        bin(dot(lit(LiteralType::Super), "a"), BinaryOpType::Add, n(10.0)),
    )]);
    assert_eq!(num_of(run(dot(bin(base, BinaryOpType::Add, child), "b"))), 11.0);
}

#[test]
fn plus_fields() {
    // ({a: [1]} + {a+: [2]}).a == [1, 2]
    let base = obj(vec![field("a", arr(vec![n(1.0)]))]);
    let child = obj(vec![plus_field("a", arr(vec![n(2.0)]))]);
    assert_eq!(nums_of(run(dot(bin(base, BinaryOpType::Add, child), "a"))), vec![1.0, 2.0]);
    // {a+: [2]}.a == [2] when nothing is inherited
    let alone = obj(vec![plus_field("a", arr(vec![n(2.0)]))]);
    assert_eq!(nums_of(run(dot(alone, "a"))), vec![2.0]);
}

#[test]
fn dynamic_field_names() {
    let o = obj(vec![Member::Field(FieldMember {
        name: FieldName::Dyn(bin(s("a"), BinaryOpType::Add, s("b"))),
        plus: false,
        params: None,
        visibility: Visibility::Normal,
        value: n(1.0),
    })]);
    assert_eq!(num_of(run(dot(o, "ab"))), 1.0);
    let bad = obj(vec![Member::Field(FieldMember {
        name: FieldName::Dyn(n(1.0)),
        plus: false,
        params: None,
        visibility: Visibility::Normal,
        value: n(1.0),
    })]);
    match run(bad) {
        Err(Error::TypeMismatch(w, ValType::Str, ValType::Num)) => assert_eq!(w, "dynamic field name"),
        _ => panic!("expected a type mismatch"),
    }
}

#[test]
fn methods() {
    let o = obj(vec![Member::Field(FieldMember {
        name: FieldName::Fixed("f".to_string()),
        plus: false,
        params: Some(params(vec![("x", None)])),
        visibility: Visibility::Normal,
        value: bin(var("x"), BinaryOpType::Mul, n(3.0)),
    })]);
    assert_eq!(num_of(run(apply(dot(o, "f"), vec![n(2.0)]))), 6.0);
}

#[test]
fn object_entry_point() {
    let body = ObjBody::MemberList(vec![field("b", n(1.0)), field("a", n(2.0)), field("b", n(3.0))]);
    let o = evaluate_object(Context::new(), body, &backend).ok().unwrap();
    assert_eq!(o.fields(), vec!["a".to_string(), "b".to_string()]);
    // the last field of a name wins
    let v = o.get(&"b".to_string(), 10, &backend).ok().unwrap().unwrap();
    assert_eq!(as_num(&v), 3.0);
}

// ---------------------------------------------------------------------------
// The standard library
// ---------------------------------------------------------------------------

fn std_call(name: &str, args: Vec<LocExpr>) -> LocExpr {
    with_std(apply(dot(var("std"), name), args))
}

#[test]
fn std_length() {
    assert_eq!(num_of(run(std_call("length", vec![s("héllo")]))), 5.0);
    assert_eq!(num_of(run(std_call("length", vec![arr(vec![n(1.0), n(2.0)])]))), 2.0);
}

#[test]
fn std_type() {
    assert_eq!(str_of(run(std_call("type", vec![lit(LiteralType::Null)]))), "null");
    assert_eq!(str_of(run(std_call("type", vec![n(1.0)]))), "number");
    assert_eq!(str_of(run(std_call("type", vec![s("a")]))), "string");
    assert_eq!(str_of(run(std_call("type", vec![arr(vec![])]))), "array");
    assert_eq!(str_of(run(std_call("type", vec![obj(vec![])]))), "object");
    assert_eq!(str_of(run(std_call("type", vec![lit(LiteralType::True)]))), "boolean");
    assert_eq!(str_of(run(std_call("type", vec![func(vec![], n(1.0))]))), "function");
}

#[test]
fn std_make_array() {
    let f = func(vec![("i", None)], bin(var("i"), BinaryOpType::Mul, n(2.0)));
    assert_eq!(nums_of(run(std_call("makeArray", vec![n(3.0), f]))), vec![0.0, 2.0, 4.0]);
}

#[test]
fn std_codepoint() {
    assert_eq!(num_of(run(std_call("codepoint", vec![s("A")]))), 65.0);
    assert_eq!(num_of(run(std_call("codepoint", vec![s("é")]))), 233.0);
}

#[test]
fn std_object_fields() {
    let o = obj(vec![field("b", n(1.0)), field("a", n(2.0))]);
    let parent = obj(vec![field("c", n(1.0)), field("a", n(0.0))]);
    let both = bin(parent, BinaryOpType::Add, o.clone());
    assert_eq!(strs_of(run(std_call("objectFieldsEx", vec![o, lit(LiteralType::False)]))), vec!["a", "b"]);
    assert_eq!(
        strs_of(run(std_call("objectFieldsEx", vec![both, lit(LiteralType::True)]))),
        vec!["a", "b", "c"]
    );
}

#[test]
fn std_intrinsic_value() {
    match run(with_std(dot(var("std"), "length"))) {
        Ok(Val::Intristic(ns, name)) => {
            assert_eq!(ns, "std");
            assert_eq!(name, "length");
        }
        _ => panic!("expected an intrinsic"),
    }
}

#[test]
fn format_operator() {
    // local std = {format(f, a): f + a[0]}; "x=" % [5]
    let std = obj(vec![Member::Field(FieldMember {
        name: FieldName::Fixed("format".to_string()),
        plus: false,
        params: Some(params(vec![("f", None), ("a", None)])),
        visibility: Visibility::Normal,
        value: bin(var("f"), BinaryOpType::Add, index(var("a"), n(0.0))),
    })]);
    let x = local(vec![bind("std", std.clone())], bin(s("x="), BinaryOpType::Mod, arr(vec![n(5.0)])));
    assert_eq!(str_of(run(x)), "x=5");
    // a single argument is made an array
    let y = local(vec![bind("std", std)], bin(s("y="), BinaryOpType::Mod, s("z")));
    assert_eq!(str_of(run(y)), "y=z");
    // without `std` in scope
    match run(bin(s("x"), BinaryOpType::Mod, n(1.0))) {
        Err(Error::VariableIsNotDefined(v)) => assert_eq!(v, "std"),
        _ => panic!("expected std to be missing"),
    }
}

// ---------------------------------------------------------------------------
// The other entry points
// ---------------------------------------------------------------------------

#[test]
fn add_op_entry_point() {
    let r = evaluate_add_op(&Val::Str("a".to_string()), &Val::Num(2.0f64.to_bits()), &backend);
    assert_eq!(as_str(&r.ok().unwrap()), "a2");
    let r = evaluate_add_op(&Val::Num(2.0f64.to_bits()), &Val::Num(0.5f64.to_bits()), &backend);
    assert_eq!(as_num(&r.ok().unwrap()), 2.5);
    let r = evaluate_add_op(&Val::Str("a".to_string()), &Val::Intristic("std".to_string(), "x".to_string()), &backend);
    assert_eq!(as_str(&r.ok().unwrap()), "aIntristic(\"std\", \"x\")");
}

#[test]
fn unary_op_entry_point() {
    let r = evaluate_unary_op(UnaryOpType::Not, &Val::Bool(false), &backend);
    assert!(as_bool(&r.ok().unwrap()));
}

#[test]
fn binary_op_entry_point() {
    let r = evaluate_binary_op(Context::new(), &Val::Num(1.0f64.to_bits()), BinaryOpType::Lt, &Val::Num(2.0f64.to_bits()), &backend);
    assert!(as_bool(&r.ok().unwrap()));
    let r = evaluate_binary_op(Context::new(), &Val::Null, BinaryOpType::Ne, &Val::Bool(true), &backend);
    assert!(as_bool(&r.ok().unwrap()));
}

#[test]
fn field_name_entry_point() {
    let fixed = evaluate_field_name(Context::new(), &FieldName::Fixed("k".to_string()), &backend);
    assert_eq!(fixed.ok().unwrap(), "k");
    let dynamic = evaluate_field_name(Context::new(), &FieldName::Dyn(s("d")), &backend);
    assert_eq!(dynamic.ok().unwrap(), "d");
}

#[test]
fn binding_and_method() {
    let (name, b) = evaluate_binding(&bind("x", n(1.0)));
    assert_eq!(name, "x");
    assert!(matches!(b, LazyBinding::Code(None, _)));
    let f = evaluate_method(Context::new(), &n(4.0), params(vec![]));
    assert!(matches!(f, Val::Func(_)));
}

#[test]
fn context_with_var() {
    let c = Context::new().with_var("v".to_string(), Val::Num(9.0f64.to_bits()));
    assert_eq!(num_of(evaluate(c, &var("v"), &backend)), 9.0);
}

// ---------------------------------------------------------------------------
// Laws on concrete values
// ---------------------------------------------------------------------------

#[test]
fn object_plus_is_associative() {
    // a = {x: 1, y: self.x}, b = {x: super.x + 10}, c = {x+: 100}
    let a = || obj(vec![field("x", n(1.0)), field("y", dot(lit(LiteralType::This), "x"))]);
    let b = || obj(vec![field("x", bin(dot(lit(LiteralType::Super), "x"), BinaryOpType::Add, n(10.0)))]);
    let c = || obj(vec![plus_field("x", n(100.0))]);
    let left = bin(bin(a(), BinaryOpType::Add, b()), BinaryOpType::Add, c());
    let right = bin(a(), BinaryOpType::Add, bin(b(), BinaryOpType::Add, c()));
    assert_eq!(num_of(run(dot(left.clone(), "y"))), 111.0);
    assert_eq!(num_of(run(dot(right.clone(), "y"))), 111.0);
    assert_eq!(num_of(run(dot(left, "x"))), num_of(run(dot(right, "x"))));
}

#[test]
fn string_and_array_plus_are_associative() {
    let l = bin(bin(s("a"), BinaryOpType::Add, s("b")), BinaryOpType::Add, s("c"));
    let r = bin(s("a"), BinaryOpType::Add, bin(s("b"), BinaryOpType::Add, s("c")));
    assert_eq!(str_of(run(l)), str_of(run(r)));
    let la = bin(bin(arr(vec![n(1.0)]), BinaryOpType::Add, arr(vec![n(2.0)])), BinaryOpType::Add, arr(vec![n(3.0)]));
    let ra = bin(arr(vec![n(1.0)]), BinaryOpType::Add, bin(arr(vec![n(2.0)]), BinaryOpType::Add, arr(vec![n(3.0)])));
    assert_eq!(nums_of(run(la)), nums_of(run(ra)));
}

#[test]
fn read_after_write() {
    let c = Context::new().with_var("a".to_string(), Val::Str("one".to_string()));
    let c2 = c.with_var("b".to_string(), Val::Str("two".to_string()));
    assert_eq!(as_str(&c2.binding(&"a".to_string()).unwrap()), "one");
    assert_eq!(as_str(&c2.binding(&"b".to_string()).unwrap()), "two");
    let c3 = c2.with_var("a".to_string(), Val::Str("three".to_string()));
    assert_eq!(as_str(&c3.binding(&"a".to_string()).unwrap()), "three");
    assert!(c3.binding(&"z".to_string()).is_none());
}

#[test]
fn not_not() {
    let x = e(Expr::UnaryOp(UnaryOpType::Not, e(Expr::UnaryOp(UnaryOpType::Not, lit(LiteralType::True)))));
    assert!(bool_of(run(x)));
}

#[test]
fn fields_sorted_once() {
    let body = ObjBody::MemberList(vec![field("zeta", n(1.0)), field("alpha", n(2.0)), field("mid", n(3.0)), field("alpha", n(4.0))]);
    let o = evaluate_object(Context::new(), body, &backend).ok().unwrap();
    let base = ObjBody::MemberList(vec![field("beta", n(1.0)), field("zeta", n(2.0))]);
    let b = evaluate_object(Context::new(), base, &backend).ok().unwrap();
    let both = o.with_super(b);
    assert_eq!(both.fields(), vec!["alpha", "beta", "mid", "zeta"]);
}

#[test]
fn depth_does_not_change_a_result() {
    // local f(k) = if k == 0 then 0 else 1 + f(k - 1); f(3)
    let body = e(Expr::IfElse {
        cond: IfSpecData(bin(var("k"), BinaryOpType::Eq, n(0.0))),
        cond_then: n(0.0),
        cond_else: Some(bin(
            n(1.0),
            BinaryOpType::Add,
            apply(var("f"), vec![bin(var("k"), BinaryOpType::Sub, n(1.0))]),
        )),
    });
    let x = local(vec![method("f", vec![("k", None)], body)], apply(var("f"), vec![n(3.0)]));
    let c = Context::new();
    let mut first_ok = None;
    for depth in 1..60u64 {
        match evaluate_in(&c, &x, depth, &backend) {
            Err(Error::StackOverflow) => assert!(first_ok.is_none()),
            Ok(v) => {
                assert_eq!(as_num(&v), 3.0);
                if first_ok.is_none() {
                    first_ok = Some(depth);
                }
            }
            Err(_) => panic!("unexpected error"),
        }
    }
    assert!(first_ok.is_some());
    assert_eq!(num_of(evaluate_in(&c, &x, MAX_DEPTH, &backend)), 3.0);
}

#[test]
fn equality_is_symmetric() {
    let pairs = vec![
        (arr(vec![n(1.0), s("a")]), arr(vec![n(1.0), s("a")])),
        (arr(vec![n(1.0)]), arr(vec![n(2.0)])),
        (s("a"), n(1.0)),
        (lit(LiteralType::Null), lit(LiteralType::Null)),
    ];
    for (a, b) in pairs {
        let ab = bool_of(run(bin(a.clone(), BinaryOpType::Eq, b.clone())));
        let ba = bool_of(run(bin(b, BinaryOpType::Eq, a)));
        assert_eq!(ab, ba);
    }
}

#[test]
fn operators_other_than_format_ignore_the_context() {
    let c1 = Context::new();
    let c2 = Context::new().with_var("x".to_string(), Val::Num(1.0f64.to_bits()));
    let a = Val::Num(6.0f64.to_bits());
    let b = Val::Num(3.0f64.to_bits());
    for op in [BinaryOpType::Add, BinaryOpType::Mul, BinaryOpType::Div, BinaryOpType::Lt] {
        let r1 = evaluate_binary_op(c1.clone(), &a, op, &b, &backend).ok().unwrap();
        let r2 = evaluate_binary_op(c2.clone(), &a, op, &b, &backend).ok().unwrap();
        match (r1, r2) {
            (Val::Num(x), Val::Num(y)) => assert_eq!(x, y),
            (Val::Bool(x), Val::Bool(y)) => assert_eq!(x, y),
            _ => panic!("unexpected values"),
        }
    }
    let sum = evaluate_binary_op(c1, &a, BinaryOpType::Add, &b, &backend).ok().unwrap();
    let added = evaluate_add_op(&a, &b, &backend).ok().unwrap();
    assert_eq!(as_num(&sum), as_num(&added));
}
