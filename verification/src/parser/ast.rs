use vstd::prelude::*;
use crate::common::ast::{BinOpKind, Literal, UnaryOpKind};
use crate::common::span::Span;

verus! {

/// A parsed source file.
#[derive(Debug)]
pub struct Program {
    pub stmts: Vec<Stmt>,
}

#[derive(Debug)]
pub enum Stmt {
    Func(FuncStmt),
    Let(LetStmt),
    Var(VarStmt),
    Type(TypeStmt),
    Struct(StructStmt),
    Expr(Expr),
}

#[derive(Debug)]
pub struct FuncStmt {
    pub name: Identifier,
    pub params: Vec<Param>,
    pub ret: Option<Ty>,
    pub body: Block,
}

#[derive(Debug)]
pub struct LetStmt {
    pub name: Identifier,
    pub ty: Option<Ty>,
    pub value: Expr,
}

/// A mutable binding; checked like `let`.
#[derive(Debug)]
pub struct VarStmt {
    pub name: Identifier,
    pub ty: Option<Ty>,
    pub value: Expr,
}

#[derive(Debug)]
pub struct TypeStmt {
    pub name: Identifier,
    pub ty_params: Vec<Identifier>,
    pub variants: Vec<TypeVariant>,
}

#[derive(Debug)]
pub struct TypeVariant {
    pub name: Identifier,
    pub ty_fields: Vec<Ty>,
}

#[derive(Debug)]
pub struct StructStmt {
    pub name: Identifier,
    pub ty_params: Vec<Identifier>,
    pub fields: Vec<StructField>,
}

#[derive(Debug)]
pub struct StructField {
    pub name: Identifier,
    pub ty: Ty,
}

#[derive(Debug)]
pub struct Param {
    pub name: Identifier,
    pub ty: Option<Ty>,
}

#[derive(Debug)]
pub struct Block {
    pub stmts: Vec<Stmt>,
    pub span: Span,
}

#[derive(Debug)]
pub struct Expr {
    pub kind: ExprKind,
    pub span: Span,
}

#[derive(Debug)]
#[allow(inconsistent_fields)]
pub enum ExprKind {
    Literal(Literal),
    Identifier(Identifier),
    Array(Vec<Expr>),
    Block(Block),
    BinaryOp { op: BinOpKind, left: Box<Expr>, right: Box<Expr> },
    UnaryOp { op: UnaryOpKind, operand: Box<Expr> },
    Call { callee: Box<Expr>, args: Vec<Expr> },
    UfcsCall { base: Box<Expr>, callee: Identifier, args: Vec<Expr> },
    Index { base: Box<Expr>, index: Box<Expr> },
    FieldAccess { base: Box<Expr>, field: Identifier },
    If { condition: Box<Expr>, then_block: Block, else_branch: Option<Box<Expr>> },
    Match { subject: Box<Expr>, arms: Vec<MatchArm> },
    Closure { params: Vec<Param>, ret: Option<Ty>, body: Box<Expr> },
}

#[derive(Debug)]
pub struct MatchArm {
    pub pattern: Pattern,
    pub guard: Option<Expr>,
    pub body: Expr,
}

#[derive(Debug)]
pub struct Pattern {
    pub kind: PatternKind,
    pub span: Span,
}

/// A bare identifier pattern may be a binding or a unit constructor; sema decides.
#[derive(Debug)]
#[allow(inconsistent_fields)]
pub enum PatternKind {
    Wildcard,
    Literal(Literal),
    Identifier(Identifier),
    Constructor { name: Identifier, args: Vec<Pattern> },
    Array(Vec<Pattern>),
    /// `..` binds the remainder of an array, optionally to a name;
    /// only appears as the last element of an `Array` pattern.
    Rest(Option<Identifier>),
    Or(Vec<Pattern>),
}

#[derive(Debug)]
pub struct Identifier {
    pub value: String,
    pub span: Span,
}

/// Lowercase named types are type variables, uppercase are concrete types.
#[derive(Debug)]
pub enum Ty {
    Named { name: Identifier, args: Vec<Ty> },
    Array(Box<Ty>),
    Func { params: Vec<Ty>, ret: Option<Box<Ty>> },
}

// ---- the mathematical form of the syntax tree: sequences in place of vectors ----

pub enum SpecTy {
    Named { name: Identifier, args: Seq<SpecTy> },
    Array(Box<SpecTy>),
    Func { params: Seq<SpecTy>, ret: Option<Box<SpecTy>> },
}

pub struct SpecParam {
    pub name: Identifier,
    pub ty: Option<SpecTy>,
}

pub struct SpecTypeVariant {
    pub name: Identifier,
    pub ty_fields: Seq<SpecTy>,
}

pub struct SpecStructField {
    pub name: Identifier,
    pub ty: SpecTy,
}

pub struct SpecPattern {
    pub kind: SpecPatternKind,
    pub span: Span,
}

#[allow(inconsistent_fields)]
pub enum SpecPatternKind {
    Wildcard,
    Literal(Literal),
    Identifier(Identifier),
    Constructor { name: Identifier, args: Seq<SpecPattern> },
    Array(Seq<SpecPattern>),
    Rest(Option<Identifier>),
    Or(Seq<SpecPattern>),
}

pub struct SpecExpr {
    pub kind: SpecExprKind,
    pub span: Span,
}

#[allow(inconsistent_fields)]
pub enum SpecExprKind {
    Literal(Literal),
    Identifier(Identifier),
    Array(Seq<SpecExpr>),
    Block(SpecBlock),
    BinaryOp { op: BinOpKind, left: Box<SpecExpr>, right: Box<SpecExpr> },
    UnaryOp { op: UnaryOpKind, operand: Box<SpecExpr> },
    Call { callee: Box<SpecExpr>, args: Seq<SpecExpr> },
    UfcsCall { base: Box<SpecExpr>, callee: Identifier, args: Seq<SpecExpr> },
    Index { base: Box<SpecExpr>, index: Box<SpecExpr> },
    FieldAccess { base: Box<SpecExpr>, field: Identifier },
    If { condition: Box<SpecExpr>, then_block: SpecBlock, else_branch: Option<Box<SpecExpr>> },
    Match { subject: Box<SpecExpr>, arms: Seq<SpecMatchArm> },
    Closure { params: Seq<SpecParam>, ret: Option<SpecTy>, body: Box<SpecExpr> },
}

pub struct SpecMatchArm {
    pub pattern: SpecPattern,
    pub guard: Option<SpecExpr>,
    pub body: SpecExpr,
}

pub struct SpecBlock {
    pub stmts: Seq<SpecStmt>,
    pub span: Span,
}

pub struct SpecFuncStmt {
    pub name: Identifier,
    pub params: Seq<SpecParam>,
    pub ret: Option<SpecTy>,
    pub body: SpecBlock,
}

pub struct SpecLetStmt {
    pub name: Identifier,
    pub ty: Option<SpecTy>,
    pub value: SpecExpr,
}

pub struct SpecTypeStmt {
    pub name: Identifier,
    pub ty_params: Seq<Identifier>,
    pub variants: Seq<SpecTypeVariant>,
}

pub struct SpecStructStmt {
    pub name: Identifier,
    pub ty_params: Seq<Identifier>,
    pub fields: Seq<SpecStructField>,
}

pub enum SpecStmt {
    Func(SpecFuncStmt),
    Let(SpecLetStmt),
    Var(SpecLetStmt),
    Type(SpecTypeStmt),
    Struct(SpecStructStmt),
    Expr(SpecExpr),
}

pub struct SpecProgram {
    pub stmts: Seq<SpecStmt>,
}

// ---- views ----

pub open spec fn ty_view(t: Ty) -> SpecTy
    decreases t,
{
    match t {
        Ty::Named { name, args } => SpecTy::Named { name, args: tys_view(args@) },
        Ty::Array(inner) => SpecTy::Array(Box::new(ty_view(*inner))),
        Ty::Func { params, ret } => SpecTy::Func {
            params: tys_view(params@),
            ret: match ret {
                Some(r) => Some(Box::new(ty_view(*r))),
                None => None,
            },
        },
    }
}

pub open spec fn tys_view(ts: Seq<Ty>) -> Seq<SpecTy>
    decreases ts,
{
    Seq::new(ts.len(), |i: int| if 0 <= i < ts.len() { ty_view(ts[i]) } else { SpecTy::Array(arbitrary()) })
}

pub open spec fn opt_ty_view(t: Option<Ty>) -> Option<SpecTy> {
    match t {
        Some(t) => Some(ty_view(t)),
        None => None,
    }
}

pub open spec fn param_view(p: Param) -> SpecParam {
    SpecParam { name: p.name, ty: opt_ty_view(p.ty) }
}

pub open spec fn params_view(ps: Seq<Param>) -> Seq<SpecParam> {
    Seq::new(ps.len(), |i: int| param_view(ps[i]))
}

pub open spec fn variant_view(v: TypeVariant) -> SpecTypeVariant {
    SpecTypeVariant { name: v.name, ty_fields: tys_view(v.ty_fields@) }
}

pub open spec fn field_view(f: StructField) -> SpecStructField {
    SpecStructField { name: f.name, ty: ty_view(f.ty) }
}

pub open spec fn variants_view(vs: Seq<TypeVariant>) -> Seq<SpecTypeVariant> {
    Seq::new(vs.len(), |i: int| variant_view(vs[i]))
}

pub open spec fn fields_view(fs: Seq<StructField>) -> Seq<SpecStructField> {
    Seq::new(fs.len(), |i: int| field_view(fs[i]))
}

pub open spec fn pattern_view(p: Pattern) -> SpecPattern
    decreases p,
{
    SpecPattern {
        kind: match p.kind {
            PatternKind::Wildcard => SpecPatternKind::Wildcard,
            PatternKind::Literal(l) => SpecPatternKind::Literal(l),
            PatternKind::Identifier(i) => SpecPatternKind::Identifier(i),
            PatternKind::Constructor { name, args } => SpecPatternKind::Constructor { name, args: patterns_view(args@) },
            PatternKind::Array(ps) => SpecPatternKind::Array(patterns_view(ps@)),
            PatternKind::Rest(n) => SpecPatternKind::Rest(n),
            PatternKind::Or(ps) => SpecPatternKind::Or(patterns_view(ps@)),
        },
        span: p.span,
    }
}

pub open spec fn patterns_view(ps: Seq<Pattern>) -> Seq<SpecPattern>
    decreases ps,
{
    Seq::new(ps.len(), |i: int| if 0 <= i < ps.len() { pattern_view(ps[i]) } else { arbitrary() })
}

pub open spec fn expr_view(e: Expr) -> SpecExpr
    decreases e,
{
    SpecExpr {
        kind: match e.kind {
            ExprKind::Literal(l) => SpecExprKind::Literal(l),
            ExprKind::Identifier(i) => SpecExprKind::Identifier(i),
            ExprKind::Array(es) => SpecExprKind::Array(exprs_view(es@)),
            ExprKind::Block(b) => SpecExprKind::Block(block_view(b)),
            ExprKind::BinaryOp { op, left, right } => SpecExprKind::BinaryOp {
                op,
                left: Box::new(expr_view(*left)),
                right: Box::new(expr_view(*right)),
            },
            ExprKind::UnaryOp { op, operand } => SpecExprKind::UnaryOp { op, operand: Box::new(expr_view(*operand)) },
            ExprKind::Call { callee, args } => SpecExprKind::Call {
                callee: Box::new(expr_view(*callee)),
                args: exprs_view(args@),
            },
            ExprKind::UfcsCall { base, callee, args } => SpecExprKind::UfcsCall {
                base: Box::new(expr_view(*base)),
                callee,
                args: exprs_view(args@),
            },
            ExprKind::Index { base, index } => SpecExprKind::Index {
                base: Box::new(expr_view(*base)),
                index: Box::new(expr_view(*index)),
            },
            ExprKind::FieldAccess { base, field } => SpecExprKind::FieldAccess { base: Box::new(expr_view(*base)), field },
            ExprKind::If { condition, then_block, else_branch } => SpecExprKind::If {
                condition: Box::new(expr_view(*condition)),
                then_block: block_view(then_block),
                else_branch: match else_branch {
                    Some(b) => Some(Box::new(expr_view(*b))),
                    None => None,
                },
            },
            ExprKind::Match { subject, arms } => SpecExprKind::Match {
                subject: Box::new(expr_view(*subject)),
                arms: arms_view(arms@),
            },
            ExprKind::Closure { params, ret, body } => SpecExprKind::Closure {
                params: params_view(params@),
                ret: opt_ty_view(ret),
                body: Box::new(expr_view(*body)),
            },
        },
        span: e.span,
    }
}

pub open spec fn exprs_view(es: Seq<Expr>) -> Seq<SpecExpr>
    decreases es,
{
    Seq::new(es.len(), |i: int| if 0 <= i < es.len() { expr_view(es[i]) } else { arbitrary() })
}

pub open spec fn arm_view(a: MatchArm) -> SpecMatchArm
    decreases a,
{
    SpecMatchArm {
        pattern: pattern_view(a.pattern),
        guard: match a.guard {
            Some(g) => Some(expr_view(g)),
            None => None,
        },
        body: expr_view(a.body),
    }
}

pub open spec fn arms_view(arms: Seq<MatchArm>) -> Seq<SpecMatchArm>
    decreases arms,
{
    Seq::new(arms.len(), |i: int| if 0 <= i < arms.len() { arm_view(arms[i]) } else { arbitrary() })
}

pub open spec fn block_view(b: Block) -> SpecBlock
    decreases b,
{
    SpecBlock { stmts: stmts_view(b.stmts@), span: b.span }
}

pub open spec fn stmt_view(s: Stmt) -> SpecStmt
    decreases s,
{
    match s {
        Stmt::Func(f) => SpecStmt::Func(SpecFuncStmt {
            name: f.name,
            params: params_view(f.params@),
            ret: opt_ty_view(f.ret),
            body: block_view(f.body),
        }),
        Stmt::Let(l) => SpecStmt::Let(SpecLetStmt { name: l.name, ty: opt_ty_view(l.ty), value: expr_view(l.value) }),
        Stmt::Var(l) => SpecStmt::Var(SpecLetStmt { name: l.name, ty: opt_ty_view(l.ty), value: expr_view(l.value) }),
        Stmt::Type(t) => SpecStmt::Type(SpecTypeStmt {
            name: t.name,
            ty_params: t.ty_params@,
            variants: variants_view(t.variants@),
        }),
        Stmt::Struct(t) => SpecStmt::Struct(SpecStructStmt {
            name: t.name,
            ty_params: t.ty_params@,
            fields: fields_view(t.fields@),
        }),
        Stmt::Expr(e) => SpecStmt::Expr(expr_view(e)),
    }
}

pub open spec fn stmts_view(ss: Seq<Stmt>) -> Seq<SpecStmt>
    decreases ss,
{
    Seq::new(ss.len(), |i: int| if 0 <= i < ss.len() { stmt_view(ss[i]) } else { arbitrary() })
}

impl View for Ty {
    type V = SpecTy;

    open spec fn view(&self) -> SpecTy {
        ty_view(*self)
    }
}

impl View for Pattern {
    type V = SpecPattern;

    open spec fn view(&self) -> SpecPattern {
        pattern_view(*self)
    }
}

impl View for Expr {
    type V = SpecExpr;

    open spec fn view(&self) -> SpecExpr {
        expr_view(*self)
    }
}

impl View for Program {
    type V = SpecProgram;

    open spec fn view(&self) -> SpecProgram {
        SpecProgram { stmts: stmts_view(self.stmts@) }
    }
}

} // verus!
