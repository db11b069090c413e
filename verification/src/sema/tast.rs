//! The checked program: every expression carries its type, every name its number.
use vstd::prelude::*;
use crate::common::ast::{BinOpKind, Literal, UnaryOpKind};
use crate::common::span::Span;
use super::ty::{Ty, SemTy};

verus! {

#[derive(Debug, Clone, Copy, PartialEq, Eq, Hash, Structural)]
pub struct VarId(pub u64);

#[derive(Debug, Clone, Copy, PartialEq, Eq, Hash, Structural)]
pub struct FuncId(pub u64);

#[derive(Debug, Clone, Copy, PartialEq, Eq, Hash, Structural)]
pub struct StructId(pub u64);

#[derive(Debug, Clone, Copy, PartialEq, Eq, Hash, Structural)]
pub struct StructFieldId(pub u64);

#[derive(Debug)]
pub struct Program {
    pub stmts: Vec<Stmt>,
}

#[derive(Debug)]
pub enum Stmt {
    Func(Func),
    Struct(Struct),
    Let(Let),
    Var(Var),
    Expr(Expr),
}

#[derive(Debug)]
pub struct Func {
    pub id: FuncId,
    pub params: Vec<Param>,
    pub ret_ty: Ty,
    pub body: Block,
}

#[derive(Debug)]
pub struct Param {
    pub id: VarId,
    pub ty: Ty,
}

#[derive(Debug)]
pub struct Struct {
    pub id: StructId,
    pub fields: Vec<StructField>,
    pub ty: Ty,
}

#[derive(Debug)]
pub struct StructField {
    pub id: StructFieldId,
    pub ty: Ty,
}

#[derive(Debug)]
pub struct StructLit {
    pub id: StructId,
    pub fields: Vec<Expr>,
    pub ty: Ty,
}

#[derive(Debug)]
pub struct Let {
    pub id: VarId,
    pub value: Expr,
    pub annot_ty: Ty,
    pub ty: Ty,
}

#[derive(Debug)]
pub struct Var {
    pub id: VarId,
    pub value: Expr,
    pub annot_ty: Ty,
    pub ty: Ty,
}

#[derive(Debug)]
pub struct Expr {
    pub kind: ExprKind,
    pub ty: Ty,
}

#[derive(Debug)]
#[allow(inconsistent_fields)]
pub enum ExprKind {
    Literal(Literal),
    Var { id: VarId },
    Func { id: FuncId },
    Block(Block),
    BinaryOp(BinaryOp),
    UnaryOp { op: UnaryOpKind, operand: Box<Expr> },
    Call(Call),
    StructLit(StructLit),
    /// Stands in for an expression that is not checked yet.
    Error,
}

#[derive(Debug)]
pub struct Block {
    pub stmts: Vec<Stmt>,
    pub ty: Ty,
    pub span: Span,
}

#[derive(Debug)]
pub struct BinaryOp {
    pub op: BinOpKind,
    pub left: Box<Expr>,
    pub right: Box<Expr>,
    pub ty: Ty,
}

#[derive(Debug)]
pub struct Call {
    pub callee: Box<Expr>,
    pub args: Vec<Expr>,
    pub ty: Ty,
}

// ---- the mathematical form of a checked program ----

/// A numbered, typed item: a parameter or a struct field.
pub struct TSlot {
    pub id: u64,
    pub ty: SemTy,
}

pub enum TStmt {
    Func(TFunc),
    Struct(TStruct),
    Let(TLet),
    Var(TLet),
    Expr(TExpr),
}

pub struct TFunc {
    pub id: u64,
    pub params: Seq<TSlot>,
    pub ret_ty: SemTy,
    pub body: TBlock,
}

pub struct TStruct {
    pub id: u64,
    pub fields: Seq<TSlot>,
    pub ty: SemTy,
}

pub struct TLet {
    pub id: u64,
    pub value: TExpr,
    pub annot_ty: SemTy,
    pub ty: SemTy,
}

pub struct TExpr {
    pub kind: TExprKind,
    pub ty: SemTy,
}

#[allow(inconsistent_fields)]
pub enum TExprKind {
    Literal(Literal),
    Var { id: u64 },
    Func { id: u64 },
    Block(TBlock),
    BinaryOp { op: BinOpKind, left: Box<TExpr>, right: Box<TExpr>, ty: SemTy },
    UnaryOp { op: UnaryOpKind, operand: Box<TExpr> },
    Call { callee: Box<TExpr>, args: Seq<TExpr>, ty: SemTy },
    StructLit { id: u64, fields: Seq<TExpr>, ty: SemTy },
    Error,
}

pub struct TBlock {
    pub stmts: Seq<TStmt>,
    pub ty: SemTy,
    pub span: Span,
}

pub open spec fn param_slot(p: Param) -> TSlot {
    TSlot { id: p.id.0, ty: p.ty@ }
}

pub open spec fn param_slots(ps: Seq<Param>) -> Seq<TSlot> {
    Seq::new(ps.len(), |i: int| param_slot(ps[i]))
}

pub open spec fn field_slots(fs: Seq<StructField>) -> Seq<TSlot> {
    Seq::new(fs.len(), |i: int| TSlot { id: fs[i].id.0, ty: fs[i].ty@ })
}

pub open spec fn texpr(e: Expr) -> TExpr
    decreases e,
{
    TExpr {
        kind: match e.kind {
            ExprKind::Literal(l) => TExprKind::Literal(l),
            ExprKind::Var { id } => TExprKind::Var { id: id.0 },
            ExprKind::Func { id } => TExprKind::Func { id: id.0 },
            ExprKind::Block(b) => TExprKind::Block(tblock(b)),
            ExprKind::BinaryOp(b) => TExprKind::BinaryOp {
                op: b.op,
                left: Box::new(texpr(*b.left)),
                right: Box::new(texpr(*b.right)),
                ty: b.ty@,
            },
            ExprKind::UnaryOp { op, operand } => TExprKind::UnaryOp { op, operand: Box::new(texpr(*operand)) },
            ExprKind::Call(c) => TExprKind::Call { callee: Box::new(texpr(*c.callee)), args: texprs(c.args@), ty: c.ty@ },
            ExprKind::StructLit(s) => TExprKind::StructLit { id: s.id.0, fields: texprs(s.fields@), ty: s.ty@ },
            ExprKind::Error => TExprKind::Error,
        },
        ty: e.ty@,
    }
}

pub open spec fn texprs(es: Seq<Expr>) -> Seq<TExpr>
    decreases es,
{
    Seq::new(es.len(), |i: int| if 0 <= i < es.len() { texpr(es[i]) } else { arbitrary() })
}

pub open spec fn tblock(b: Block) -> TBlock
    decreases b,
{
    TBlock { stmts: tstmts(b.stmts@), ty: b.ty@, span: b.span }
}

pub open spec fn tstmt(s: Stmt) -> TStmt
    decreases s,
{
    match s {
        Stmt::Func(f) => TStmt::Func(TFunc { id: f.id.0, params: param_slots(f.params@), ret_ty: f.ret_ty@, body: tblock(f.body) }),
        Stmt::Struct(st) => TStmt::Struct(TStruct { id: st.id.0, fields: field_slots(st.fields@), ty: st.ty@ }),
        Stmt::Let(l) => TStmt::Let(TLet { id: l.id.0, value: texpr(l.value), annot_ty: l.annot_ty@, ty: l.ty@ }),
        Stmt::Var(l) => TStmt::Var(TLet { id: l.id.0, value: texpr(l.value), annot_ty: l.annot_ty@, ty: l.ty@ }),
        Stmt::Expr(e) => TStmt::Expr(texpr(e)),
    }
}

pub open spec fn tstmts(ss: Seq<Stmt>) -> Seq<TStmt>
    decreases ss,
{
    Seq::new(ss.len(), |i: int| if 0 <= i < ss.len() { tstmt(ss[i]) } else { arbitrary() })
}

impl View for Expr {
    type V = TExpr;

    open spec fn view(&self) -> TExpr {
        texpr(*self)
    }
}

impl View for Block {
    type V = TBlock;

    open spec fn view(&self) -> TBlock {
        tblock(*self)
    }
}

impl View for Stmt {
    type V = TStmt;

    open spec fn view(&self) -> TStmt {
        tstmt(*self)
    }
}

impl View for Program {
    type V = Seq<TStmt>;

    open spec fn view(&self) -> Seq<TStmt> {
        tstmts(self.stmts@)
    }
}

} // verus!
