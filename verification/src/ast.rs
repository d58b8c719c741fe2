//! Syntax tree of the jsonnet language as the parser hands it to the evaluator.
//!
//! Sub-expressions are shared through `Rc`, so that closures, thunks and object
//! members can keep a piece of the tree alive without copying it. A number
//! literal is kept as the bit pattern of its IEEE-754 double: the evaluator never
//! interprets it and hands it, unchanged, to the numeric backend.
use std::rc::Rc;
use vstd::prelude::*;

verus! {

/// An expression node (the parser's source location is not kept).
pub struct LocExpr(pub Rc<Expr>);

impl Clone for LocExpr {
    fn clone(&self) -> (res: Self)
        ensures
            res == *self,
    {
        LocExpr(self.0.clone())
    }
}

#[derive(Clone, Copy, Debug, PartialEq, Eq, Structural)]
pub enum LiteralType {
    This,
    Super,
    Dollar,
    Null,
    True,
    False,
}

#[derive(Clone, Copy, Debug, PartialEq, Eq, Structural)]
pub enum UnaryOpType {
    Plus,
    Minus,
    BitNot,
    Not,
}

#[derive(Clone, Copy, Debug, PartialEq, Eq, Structural)]
pub enum BinaryOpType {
    Mul,
    Div,
    Mod,
    Add,
    Sub,
    Lhs,
    Rhs,
    Lt,
    Gt,
    Lte,
    Gte,
    BitAnd,
    BitOr,
    BitXor,
    Eq,
    Ne,
    And,
    Or,
}

#[derive(Clone, Copy, Debug, PartialEq, Eq, Structural)]
pub enum Visibility {
    /// `:`
    Normal,
    /// `::`
    Hidden,
    /// `:::`
    Unhide,
}

/// A function parameter: its name and its default value, if any.
pub struct Param(pub String, pub Option<LocExpr>);

/// The parameters of a function.
pub struct ParamsDesc(pub Rc<Vec<Param>>);

impl Clone for ParamsDesc {
    fn clone(&self) -> (res: Self)
        ensures
            res == *self,
    {
        ParamsDesc(self.0.clone())
    }
}

/// An argument of a call: its name, for a named argument, and its expression.
pub struct Arg(pub Option<String>, pub LocExpr);

/// The arguments of a call.
pub struct ArgsDesc(pub Vec<Arg>);

/// `name = value` or `name(params) = value`.
pub struct BindSpec {
    pub name: String,
    pub params: Option<ParamsDesc>,
    pub value: LocExpr,
}

/// `assert cond : msg`
pub struct AssertStmt(pub LocExpr, pub Option<LocExpr>);

/// `if cond`
pub struct IfSpecData(pub LocExpr);

/// `for var in expr`
pub struct ForSpecData(pub String, pub LocExpr);

pub enum CompSpec {
    IfSpec(IfSpecData),
    ForSpec(ForSpecData),
}

pub enum FieldName {
    /// `name: ...`
    Fixed(String),
    /// `[expr]: ...`
    Dyn(LocExpr),
}

pub struct FieldMember {
    pub name: FieldName,
    /// `+:`
    pub plus: bool,
    pub params: Option<ParamsDesc>,
    pub visibility: Visibility,
    pub value: LocExpr,
}

pub enum Member {
    Field(FieldMember),
    BindStmt(BindSpec),
    AssertStmt(AssertStmt),
}

/// `{ [key]: value for ... }`
pub struct ObjComp {
    pub pre_locals: Vec<BindSpec>,
    pub key: LocExpr,
    pub value: LocExpr,
    pub post_locals: Vec<BindSpec>,
    pub compspecs: Vec<CompSpec>,
}

pub enum ObjBody {
    MemberList(Vec<Member>),
    ObjComp(ObjComp),
}

pub enum Expr {
    Literal(LiteralType),
    /// A string literal.
    Str(String),
    /// A number literal, as the bits of its double.
    Num(u64),
    Var(String),
    Arr(Vec<LocExpr>),
    ArrComp(LocExpr, Vec<CompSpec>),
    Obj(ObjBody),
    ObjExtend(LocExpr, ObjBody),
    Parened(LocExpr),
    UnaryOp(UnaryOpType, LocExpr),
    BinaryOp(LocExpr, BinaryOpType, LocExpr),
    AssertExpr(AssertStmt, LocExpr),
    LocalExpr(Vec<BindSpec>, LocExpr),
    Import(String),
    ImportStr(String),
    Error(LocExpr),
    Apply(LocExpr, ArgsDesc),
    Index(LocExpr, LocExpr),
    Function(ParamsDesc, LocExpr),
    IfElse { cond: IfSpecData, cond_then: LocExpr, cond_else: Option<LocExpr> },
}

} // verus!
