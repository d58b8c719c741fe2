//! Runtime values, evaluation contexts and errors, with the mathematical
//! values (`SVal`, `SFrame`, ...) they stand for.
use crate::ast::{LocExpr, ParamsDesc, Visibility};
use std::rc::Rc;
use vstd::prelude::*;

verus! {

/// The type of a value, as `std.type` names it.
#[derive(Clone, Copy, Debug, PartialEq, Eq, Structural)]
pub enum ValType {
    Bool,
    Null,
    Str,
    Num,
    Arr,
    Obj,
    Func,
}

/// A deferred computation: an expression and the context it is evaluated in.
pub struct LazyVal {
    pub ctx: Context,
    pub expr: LocExpr,
}

/// A function value: the context it closes over, its parameters and body.
pub struct FuncDesc {
    pub ctx: Context,
    pub params: ParamsDesc,
    pub body: LocExpr,
}

/// What a name is bound to in a context: a value, or code that is evaluated,
/// on demand, in the context that holds the binding (so that it may refer to
/// itself and to its siblings).
pub enum LazyBinding {
    Value(Val),
    Code(Option<ParamsDesc>, LocExpr),
}

/// One frame of a context: the bindings it adds, and the `$`, `self` and
/// `super` objects in force from this frame on.
pub struct ContextInternals {
    pub dollar: Option<ObjValue>,
    pub this: Option<ObjValue>,
    pub super_obj: Option<ObjValue>,
    pub bindings: Vec<(String, LazyBinding)>,
    pub parent: Option<Context>,
}

pub struct Context(pub Rc<ContextInternals>);

/// What makes the context of an object's fields once `self` and `super` are
/// known: the context the object literal stands in and its `local`s.
pub struct ContextCreator {
    pub context: Context,
    pub bindings: Rc<Vec<(String, LazyBinding)>>,
}

/// A field of an object layer.
pub struct ObjMember {
    /// The field was written `+:`.
    pub add: bool,
    pub visibility: Visibility,
    pub creator: ContextCreator,
    /// Present for a method `name(params): body`.
    pub params: Option<ParamsDesc>,
    pub value: LocExpr,
}

/// An object: its own fields over the layers it inherits from.
pub struct ObjValue {
    pub super_obj: Option<Rc<ObjValue>>,
    pub this_entries: Rc<Vec<(String, ObjMember)>>,
}

pub enum Val {
    Bool(bool),
    Null,
    Str(String),
    /// A number, as the bits of its double.
    Num(u64),
    Lazy(LazyVal),
    Func(FuncDesc),
    Obj(ObjValue),
    Arr(Rc<Vec<Val>>),
    /// A function of the standard library that the evaluator implements:
    /// its namespace and name.
    Intristic(String, String),
}

pub enum Error {
    NoSuchField(String),
    RuntimeError(String),
    /// Where the value was expected, the type expected and the type found.
    TypeMismatch(String, ValType, ValType),
    VariableIsNotDefined(String),
    FunctionParameterNotBoundInCall(String),
    /// A call passed more positional arguments than the function has parameters.
    TooManyArgsFunctionHas(usize),
    UnknownFunctionParameter(String),
    /// The evaluation went deeper than the depth it was given.
    StackOverflow,
    /// The evaluation reached a point where jsonnet stops the program: a
    /// failed assertion, `self` outside an object, an operator on values it is
    /// not defined on, an index past the end of an array, ...
    Fatal,
}

impl Clone for Context {
    fn clone(&self) -> (res: Self)
        ensures
            res == *self,
    {
        Context(self.0.clone())
    }
}

impl Clone for ObjValue {
    fn clone(&self) -> (res: Self)
        ensures
            res == *self,
    {
        ObjValue {
            super_obj: match &self.super_obj {
                Some(s) => Some(s.clone()),
                None => None,
            },
            this_entries: self.this_entries.clone(),
        }
    }
}

impl Clone for ContextCreator {
    fn clone(&self) -> (res: Self)
        ensures
            res == *self,
    {
        ContextCreator { context: self.context.clone(), bindings: self.bindings.clone() }
    }
}

impl Clone for LazyVal {
    fn clone(&self) -> (res: Self)
        ensures
            res == *self,
    {
        LazyVal { ctx: self.ctx.clone(), expr: self.expr.clone() }
    }
}

impl Clone for FuncDesc {
    fn clone(&self) -> (res: Self)
        ensures
            res == *self,
    {
        FuncDesc { ctx: self.ctx.clone(), params: self.params.clone(), body: self.body.clone() }
    }
}

impl Clone for Val {
    fn clone(&self) -> (res: Self)
        ensures
            res == *self,
    {
        match self {
            Val::Bool(b) => Val::Bool(*b),
            Val::Null => Val::Null,
            Val::Str(s) => Val::Str(s.clone()),
            Val::Num(n) => Val::Num(*n),
            Val::Lazy(l) => Val::Lazy(l.clone()),
            Val::Func(f) => Val::Func(f.clone()),
            Val::Obj(o) => Val::Obj(o.clone()),
            Val::Arr(a) => Val::Arr(a.clone()),
            Val::Intristic(a, b) => Val::Intristic(a.clone(), b.clone()),
        }
    }
}

impl Clone for LazyBinding {
    fn clone(&self) -> (res: Self)
        ensures
            res == *self,
    {
        match self {
            LazyBinding::Value(v) => LazyBinding::Value(v.clone()),
            LazyBinding::Code(p, e) => LazyBinding::Code(
                match p {
                    Some(p) => Some(p.clone()),
                    None => None,
                },
                e.clone(),
            ),
        }
    }
}

// ---------------------------------------------------------------------------
// The mathematical values
// ---------------------------------------------------------------------------

/// A context as a sequence of frames, the innermost last.
pub struct SFrame {
    pub dollar: Option<SObj>,
    pub this: Option<SObj>,
    pub super_obj: Option<SObj>,
    pub bindings: Seq<(Seq<char>, SBinding)>,
}

pub enum SBinding {
    Value(SVal),
    Code(Option<ParamsDesc>, LocExpr),
}

pub struct SThunk {
    pub ctx: Seq<SFrame>,
    pub expr: LocExpr,
}

pub struct SFunc {
    pub ctx: Seq<SFrame>,
    pub params: ParamsDesc,
    pub body: LocExpr,
}

pub struct SCreator {
    pub ctx: Seq<SFrame>,
    pub bindings: Seq<(Seq<char>, SBinding)>,
}

pub struct SMember {
    pub add: bool,
    pub visibility: Visibility,
    pub creator: SCreator,
    pub params: Option<ParamsDesc>,
    pub value: LocExpr,
}

pub struct SObj {
    pub super_obj: Option<Box<SObj>>,
    pub entries: Seq<(Seq<char>, SMember)>,
}

pub enum SVal {
    Bool(bool),
    Null,
    Str(Seq<char>),
    Num(u64),
    Lazy(SThunk),
    Func(SFunc),
    Obj(SObj),
    Arr(Seq<SVal>),
    Intristic(Seq<char>, Seq<char>),
}

pub enum SError {
    NoSuchField(Seq<char>),
    RuntimeError(Seq<char>),
    TypeMismatch(Seq<char>, ValType, ValType),
    VariableIsNotDefined(Seq<char>),
    FunctionParameterNotBoundInCall(Seq<char>),
    TooManyArgsFunctionHas(usize),
    UnknownFunctionParameter(Seq<char>),
    StackOverflow,
    /// Where the evaluator stops the program: no result, no error.
    Panic,
}

pub open spec fn vals_view(s: Seq<Val>) -> Seq<SVal>
    decreases s,
{
    if s.len() == 0 {
        Seq::empty()
    } else {
        vals_view(s.drop_last()).push(val_view(s.last()))
    }
}

pub open spec fn bindings_view(s: Seq<(String, LazyBinding)>) -> Seq<(Seq<char>, SBinding)>
    decreases s,
{
    if s.len() == 0 {
        Seq::empty()
    } else {
        bindings_view(s.drop_last()).push((s.last().0@, binding_view(s.last().1)))
    }
}

pub open spec fn entries_view(s: Seq<(String, ObjMember)>) -> Seq<(Seq<char>, SMember)>
    decreases s,
{
    if s.len() == 0 {
        Seq::empty()
    } else {
        entries_view(s.drop_last()).push((s.last().0@, member_view(s.last().1)))
    }
}

pub open spec fn binding_view(b: LazyBinding) -> SBinding
    decreases b,
{
    match b {
        LazyBinding::Value(v) => SBinding::Value(val_view(v)),
        LazyBinding::Code(p, e) => SBinding::Code(p, e),
    }
}

pub open spec fn opt_obj_view(o: Option<ObjValue>) -> Option<SObj>
    decreases o,
{
    match o {
        Some(x) => Some(obj_view(x)),
        None => None,
    }
}

pub open spec fn ctx_view(c: Context) -> Seq<SFrame>
    decreases c,
{
    let here = SFrame {
        dollar: opt_obj_view(c.0.dollar),
        this: opt_obj_view(c.0.this),
        super_obj: opt_obj_view(c.0.super_obj),
        bindings: bindings_view(c.0.bindings@),
    };
    match c.0.parent {
        Some(p) => ctx_view(p).push(here),
        None => seq![here],
    }
}

pub open spec fn creator_view(c: ContextCreator) -> SCreator
    decreases c,
{
    SCreator { ctx: ctx_view(c.context), bindings: bindings_view(c.bindings@) }
}

pub open spec fn member_view(m: ObjMember) -> SMember
    decreases m,
{
    SMember {
        add: m.add,
        visibility: m.visibility,
        creator: creator_view(m.creator),
        params: m.params,
        value: m.value,
    }
}

pub open spec fn obj_view(o: ObjValue) -> SObj
    decreases o,
{
    SObj {
        super_obj: match o.super_obj {
            Some(s) => Some(Box::new(obj_view(*s))),
            None => None,
        },
        entries: entries_view(o.this_entries@),
    }
}

pub open spec fn val_view(v: Val) -> SVal
    decreases v,
{
    match v {
        Val::Bool(b) => SVal::Bool(b),
        Val::Null => SVal::Null,
        Val::Str(s) => SVal::Str(s@),
        Val::Num(n) => SVal::Num(n),
        Val::Lazy(l) => SVal::Lazy(SThunk { ctx: ctx_view(l.ctx), expr: l.expr }),
        Val::Func(f) => SVal::Func(SFunc { ctx: ctx_view(f.ctx), params: f.params, body: f.body }),
        Val::Obj(o) => SVal::Obj(obj_view(o)),
        Val::Arr(a) => SVal::Arr(vals_view(a@)),
        Val::Intristic(a, b) => SVal::Intristic(a@, b@),
    }
}

pub open spec fn error_view(e: Error) -> SError {
    match e {
        Error::NoSuchField(s) => SError::NoSuchField(s@),
        Error::RuntimeError(s) => SError::RuntimeError(s@),
        Error::TypeMismatch(s, a, b) => SError::TypeMismatch(s@, a, b),
        Error::VariableIsNotDefined(s) => SError::VariableIsNotDefined(s@),
        Error::FunctionParameterNotBoundInCall(s) => SError::FunctionParameterNotBoundInCall(s@),
        Error::TooManyArgsFunctionHas(n) => SError::TooManyArgsFunctionHas(n),
        Error::UnknownFunctionParameter(s) => SError::UnknownFunctionParameter(s@),
        Error::StackOverflow => SError::StackOverflow,
        Error::Fatal => SError::Panic,
    }
}

impl View for Val {
    type V = SVal;

    open spec fn view(&self) -> SVal {
        val_view(*self)
    }
}

impl View for ObjValue {
    type V = SObj;

    open spec fn view(&self) -> SObj {
        obj_view(*self)
    }
}

impl View for Context {
    type V = Seq<SFrame>;

    open spec fn view(&self) -> Seq<SFrame> {
        ctx_view(*self)
    }
}

impl View for Error {
    type V = SError;

    open spec fn view(&self) -> SError {
        error_view(*self)
    }
}

/// The mathematical value of an evaluation's outcome.
pub open spec fn res_view(r: Result<Val, Error>) -> Result<SVal, SError> {
    match r {
        Ok(v) => Ok(val_view(v)),
        Err(e) => Err(error_view(e)),
    }
}

pub proof fn lemma_vals_view_push(s: Seq<Val>, v: Val)
    ensures
        vals_view(s.push(v)) == vals_view(s).push(val_view(v)),
{
    assert(s.push(v).drop_last() =~= s);
}

pub proof fn lemma_vals_view_len(s: Seq<Val>)
    ensures
        vals_view(s).len() == s.len(),
    decreases s.len(),
{
    if s.len() > 0 {
        lemma_vals_view_len(s.drop_last());
    }
}

pub proof fn lemma_vals_view_index(s: Seq<Val>, i: int)
    requires
        0 <= i < s.len(),
    ensures
        vals_view(s)[i] == val_view(s[i]),
    decreases s.len(),
{
    lemma_vals_view_len(s.drop_last());
    if i < s.len() - 1 {
        lemma_vals_view_index(s.drop_last(), i);
    }
}

pub proof fn lemma_bindings_view_push(s: Seq<(String, LazyBinding)>, b: (String, LazyBinding))
    ensures
        bindings_view(s.push(b)) == bindings_view(s).push((b.0@, binding_view(b.1))),
{
    assert(s.push(b).drop_last() =~= s);
}

pub proof fn lemma_entries_view_push(s: Seq<(String, ObjMember)>, b: (String, ObjMember))
    ensures
        entries_view(s.push(b)) == entries_view(s).push((b.0@, member_view(b.1))),
{
    assert(s.push(b).drop_last() =~= s);
}

} // verus!
