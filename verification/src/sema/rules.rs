//! What the checker computes, as functions of the symbol table state and the syntax tree.
//! Names are resolved in two passes: the first declares every top-level function and
//! struct, the second checks each statement in order.
use vstd::prelude::*;
use crate::common::ast::{Literal, bin_op_symbol};
use crate::common::span::Span;
use crate::parser::ast::{
    Identifier, SpecBlock, SpecExpr, SpecExprKind, SpecFuncStmt, SpecLetStmt, SpecParam,
    SpecProgram, SpecStmt, SpecStructField, SpecStructStmt, SpecTy,
};
use crate::text::decimal;
use super::ty::{SemTy, bin_op_result, ty_text};
use super::symbols::{
    SymState, define_func, define_struct, define_struct_fields, define_var, empty_state,
    enter_func, enter_scope, exit_scope, get, lookup_func, lookup_var, snake_case,
};
use super::tast::{TBlock, TExpr, TExprKind, TFunc, TLet, TSlot, TStmt, TStruct};

verus! {

/// A checking error: its message and where it points.
pub struct SemErr {
    pub message: Seq<char>,
    pub span: Span,
}

/// How a step of the checker ends: with a value, with an error for the user, or at a
/// state the checker treats as its own bug (it stops the program there).
pub enum Outcome<T> {
    Done(T),
    Error(SemErr),
    Bug,
}

pub open spec fn error<T>(message: Seq<char>, span: Span) -> Outcome<T> {
    Outcome::Error(SemErr { message, span })
}

/// The state and outcome of `r`, its value mapped by `f`.
pub open spec fn map_outcome<A, B>(r: (SymState, Outcome<A>), f: spec_fn(A) -> B) -> (SymState, Outcome<B>) {
    match r.1 {
        Outcome::Done(a) => (r.0, Outcome::Done(f(a))),
        Outcome::Error(e) => (r.0, Outcome::Error(e)),
        Outcome::Bug => (r.0, Outcome::Bug),
    }
}

// ---- types ----

/// The type a type expression names.
#[verifier::opaque]
pub open spec fn resolve_ty(t: SpecTy) -> Result<SemTy, SemErr>
    decreases t,
{
    match t {
        SpecTy::Named { name, args } => if args.len() > 0 {
            Err(SemErr { message: "generic types are not supported yet"@, span: name.span })
        } else if name.value@ == "Int"@ {
            Ok(SemTy::Int)
        } else if name.value@ == "Float"@ {
            Ok(SemTy::Float)
        } else if name.value@ == "Bool"@ {
            Ok(SemTy::Bool)
        } else {
            Err(SemErr { message: "unknown type `"@ + name.value@ + "`"@, span: name.span })
        },
        SpecTy::Array(inner) => match resolve_ty(*inner) {
            Ok(it) => Ok(SemTy::Array(Box::new(it))),
            Err(e) => Err(e),
        },
        SpecTy::Func { params, ret } => match resolve_tys(params) {
            Err(e) => Err(e),
            Ok(ps) => match ret {
                None => Ok(SemTy::Func { params: ps, ret: Box::new(SemTy::Unit) }),
                Some(r) => match resolve_ty(*r) {
                    Ok(rt) => Ok(SemTy::Func { params: ps, ret: Box::new(rt) }),
                    Err(e) => Err(e),
                },
            },
        },
    }
}

/// The types of `ts`, or the first error.
#[verifier::opaque]
pub open spec fn resolve_tys(ts: Seq<SpecTy>) -> Result<Seq<SemTy>, SemErr>
    decreases ts,
{
    if ts.len() == 0 {
        Ok(seq![])
    } else {
        match resolve_tys(ts.drop_last()) {
            Err(e) => Err(e),
            Ok(v) => match resolve_ty(ts.last()) {
                Ok(t) => Ok(v.push(t)),
                Err(e) => Err(e),
            },
        }
    }
}

/// A declared return type, `Unit` when there is none.
pub open spec fn resolve_ret(ret: Option<SpecTy>) -> Result<SemTy, SemErr> {
    match ret {
        Some(t) => resolve_ty(t),
        None => Ok(SemTy::Unit),
    }
}

/// The parameter types of a declaration; an unannotated parameter is `Infer`.
pub open spec fn resolve_params(ps: Seq<SpecParam>) -> Result<Seq<SemTy>, SemErr>
    decreases ps.len(),
{
    if ps.len() == 0 {
        Ok(seq![])
    } else {
        match resolve_params(ps.drop_last()) {
            Err(e) => Err(e),
            Ok(v) => match ps.last().ty {
                Some(t) => match resolve_ty(t) {
                    Ok(rt) => Ok(v.push(rt)),
                    Err(e) => Err(e),
                },
                None => Ok(v.push(SemTy::Infer)),
            },
        }
    }
}

/// Field names with their types, or the first error.
pub open spec fn resolve_fields(fs: Seq<SpecStructField>) -> Result<Seq<(Seq<char>, SemTy)>, SemErr>
    decreases fs.len(),
{
    if fs.len() == 0 {
        Ok(seq![])
    } else {
        match resolve_fields(fs.drop_last()) {
            Err(e) => Err(e),
            Ok(v) => match resolve_ty(fs.last().ty) {
                Ok(t) => Ok(v.push((fs.last().name.value@, t))),
                Err(e) => Err(e),
            },
        }
    }
}

/// `None` when the types agree, else the mismatch error.
pub open spec fn expect_eq(expected: SemTy, got: SemTy, span: Span, context: Seq<char>) -> Option<SemErr> {
    if expected == got {
        None
    } else {
        Some(SemErr {
            message: context + ": expected `"@ + ty_text(expected) + "`, got `"@ + ty_text(got) + "`"@,
            span,
        })
    }
}

// ---- first pass: declarations ----

/// Declares one top-level statement.
pub open spec fn register_stmt(s: SymState, st: SpecStmt) -> (SymState, Outcome<()>) {
    match st {
        SpecStmt::Func(f) => match resolve_params(f.params) {
            Err(e) => (s, Outcome::Error(e)),
            Ok(ps) => match resolve_ret(f.ret) {
                Err(e) => (s, Outcome::Error(e)),
                Ok(r) => {
                    let (s1, res) = define_func(s, f.name.value@, ps, r);
                    match res {
                        Ok(_) => (s1, Outcome::Done(())),
                        Err(m) => (s1, error(m, f.name.span)),
                    }
                },
            },
        },
        SpecStmt::Struct(st) => if st.ty_params.len() > 0 {
            (s, error("generic structs are not supported yet"@, st.name.span))
        } else {
            let (s1, res) = define_struct(s, st.name.value@);
            match res {
                Ok(_) => (s1, Outcome::Done(())),
                Err(m) => (s1, error(m, st.name.span)),
            }
        },
        SpecStmt::Let(l) => (s, error("top level should not contain let statement"@, l.name.span)),
        SpecStmt::Var(l) => (s, error("top level should not contain var statement"@, l.name.span)),
        SpecStmt::Type(t) => (s, error("not implemented yet"@, t.name.span)),
        SpecStmt::Expr(e) => (s, error("top level should not contain expression"@, e.span)),
    }
}

/// Declares the top-level statements in order, stopping at the first error.
pub open spec fn register_stmts(s: SymState, ss: Seq<SpecStmt>) -> (SymState, Outcome<()>)
    decreases ss.len(),
{
    if ss.len() == 0 {
        (s, Outcome::Done(()))
    } else {
        let (s1, o) = register_stmts(s, ss.drop_last());
        match o {
            Outcome::Done(_) => register_stmt(s1, ss.last()),
            Outcome::Error(e) => (s1, Outcome::Error(e)),
            Outcome::Bug => (s1, Outcome::Bug),
        }
    }
}

// ---- second pass: statements and expressions ----

/// Declares a variable of the current function.
pub open spec fn bind_var(s: SymState, name: Identifier, ty: SemTy) -> (SymState, Outcome<u64>) {
    if snake_case(name.value@) && (s.local_id == u64::MAX || s.scopes.len() == 0) {
        (s, Outcome::Bug)
    } else {
        let (s1, r) = define_var(s, name.value@, ty);
        match r {
            Ok(id) => (s1, Outcome::Done(id)),
            Err(m) => (s1, error(m, name.span)),
        }
    }
}

/// Declares the first `n` parameters with the types of the declaration.
pub open spec fn define_params(s: SymState, ps: Seq<SpecParam>, tys: Seq<SemTy>, n: nat) -> (SymState, Outcome<Seq<TSlot>>)
    decreases n,
{
    if n == 0 {
        (s, Outcome::Done(seq![]))
    } else {
        let (s1, o) = define_params(s, ps, tys, (n - 1) as nat);
        match o {
            Outcome::Done(v) => {
                let (s2, r) = bind_var(s1, ps[n - 1].name, tys[n - 1]);
                match r {
                    Outcome::Done(id) => (s2, Outcome::Done(v.push(TSlot { id, ty: tys[n - 1] }))),
                    Outcome::Error(e) => (s2, Outcome::Error(e)),
                    Outcome::Bug => (s2, Outcome::Bug),
                }
            },
            Outcome::Error(e) => (s1, Outcome::Error(e)),
            Outcome::Bug => (s1, Outcome::Bug),
        }
    }
}

/// The first argument among the first `n` whose type is not the parameter's.
pub open spec fn first_mismatch(params: Seq<SemTy>, args: Seq<TExpr>, n: nat, span: Span, context: Seq<char>) -> Option<SemErr>
    decreases n,
{
    if n == 0 {
        None
    } else {
        match first_mismatch(params, args, (n - 1) as nat, span, context) {
            Some(e) => Some(e),
            None => expect_eq(params[n - 1], args[n - 1].ty, span, context),
        }
    }
}

/// A block has the type of its trailing expression, else `Unit`.
pub open spec fn block_ty(ts: Seq<TStmt>) -> SemTy {
    if ts.len() > 0 && ts.last() is Expr {
        ts.last()->Expr_0.ty
    } else {
        SemTy::Unit
    }
}

/// The fields of a checked struct, numbered in order.
pub open spec fn field_slots_of(fs: Seq<(Seq<char>, SemTy)>) -> Seq<TSlot> {
    Seq::new(fs.len(), |i: int| TSlot { id: i as u64, ty: fs[i].1 })
}

/// The type of a literal.
pub open spec fn literal_ty(l: Literal) -> SemTy {
    match l {
        Literal::Int(_) => SemTy::Int,
        Literal::Bool(_) => SemTy::Bool,
    }
}

pub open spec fn check_struct(s: SymState, st: SpecStructStmt) -> (SymState, Outcome<TStruct>) {
    match resolve_fields(st.fields) {
        Err(e) => (s, Outcome::Error(e)),
        Ok(fs) => if get(s.struct_ids, st.name.value@) is None {
            (s, Outcome::Bug)
        } else {
            let (s1, r) = define_struct_fields(s, st.name.value@, fs);
            match r {
                Err(m) => (s1, error(m, st.name.span)),
                Ok(id) => (s1, Outcome::Done(TStruct { id, fields: field_slots_of(fs), ty: SemTy::Unit })),
            }
        },
    }
}

#[verifier::opaque]
pub open spec fn check_stmt(s: SymState, st: SpecStmt) -> (SymState, Outcome<TStmt>)
    decreases st,
{
    match st {
        SpecStmt::Func(f) => map_outcome(check_func(s, f), |x: TFunc| TStmt::Func(x)),
        SpecStmt::Struct(x) => map_outcome(check_struct(s, x), |x: TStruct| TStmt::Struct(x)),
        SpecStmt::Let(l) => map_outcome(check_let(s, l), |x: TLet| TStmt::Let(x)),
        SpecStmt::Var(l) => map_outcome(check_let(s, l), |x: TLet| TStmt::Var(x)),
        SpecStmt::Type(t) => (s, error("not implemented yet"@, t.name.span)),
        SpecStmt::Expr(e) => map_outcome(check_expr(s, e), |x: TExpr| TStmt::Expr(x)),
    }
}

/// Checks statements in order, stopping at the first error.
#[verifier::opaque]
pub open spec fn check_stmts(s: SymState, ss: Seq<SpecStmt>) -> (SymState, Outcome<Seq<TStmt>>)
    decreases ss,
{
    if ss.len() == 0 {
        (s, Outcome::Done(seq![]))
    } else {
        let (s1, o) = check_stmts(s, ss.drop_last());
        match o {
            Outcome::Done(v) => map_outcome(check_stmt(s1, ss.last()), |t: TStmt| v.push(t)),
            Outcome::Error(e) => (s1, Outcome::Error(e)),
            Outcome::Bug => (s1, Outcome::Bug),
        }
    }
}

/// A function body is checked in a fresh scope against the declared signature.
#[verifier::opaque]
pub open spec fn check_func(s: SymState, f: SpecFuncStmt) -> (SymState, Outcome<TFunc>)
    decreases f,
{
    let name = f.name.value@;
    if f.params.len() > 0 && f.params[0].ty is None {
        (s, Outcome::Bug)
    } else {
        let first = if f.params.len() > 0 {
            match resolve_ty(f.params[0].ty->Some_0) {
                Ok(t) => Ok(Some(t)),
                Err(e) => Err(e),
            }
        } else {
            Ok(None)
        };
        match first {
            Err(e) => (s, Outcome::Error(e)),
            Ok(first) => match lookup_func(s, name, first) {
                None => (s, error("function `"@ + name + "` is not declared"@, f.name.span)),
                Some(sym) => {
                    let n = if f.params.len() < sym.params.len() { f.params.len() } else { sym.params.len() };
                    let (s2, po) = define_params(enter_func(s), f.params, sym.params, n);
                    match po {
                        Outcome::Done(params) => {
                            let (s3, bo) = check_block(s2, f.body);
                            match bo {
                                Outcome::Done(body) => {
                                    let s4 = exit_scope(s3);
                                    match expect_eq(sym.ret, body.ty, body.span, "type mismatch for function `"@ + name + "` return type"@) {
                                        Some(e) => (s4, Outcome::Error(e)),
                                        None => (s4, Outcome::Done(TFunc { id: sym.id, params, ret_ty: sym.ret, body })),
                                    }
                                },
                                Outcome::Error(e) => (s3, Outcome::Error(e)),
                                Outcome::Bug => (s3, Outcome::Bug),
                            }
                        },
                        Outcome::Error(e) => (s2, Outcome::Error(e)),
                        Outcome::Bug => (s2, Outcome::Bug),
                    }
                },
            },
        }
    }
}

/// The type of a binding is its annotation, which must match the value, or the value's type.
pub open spec fn binding_ty(ann: Option<SpecTy>, value: TExpr, name: Identifier) -> Result<SemTy, SemErr> {
    match ann {
        Some(a) => match resolve_ty(a) {
            Err(e) => Err(e),
            Ok(t) => match expect_eq(t, value.ty, name.span, "type mismatch for `"@ + name.value@ + "`"@) {
                Some(e) => Err(e),
                None => Ok(t),
            },
        },
        None => Ok(value.ty),
    }
}

/// `let` and `var`: the value is checked before the name is declared.
#[verifier::opaque]
pub open spec fn check_let(s: SymState, l: SpecLetStmt) -> (SymState, Outcome<TLet>)
    decreases l,
{
    let (s1, vo) = check_expr(s, l.value);
    match vo {
        Outcome::Done(v) => match binding_ty(l.ty, v, l.name) {
            Err(e) => (s1, Outcome::Error(e)),
            Ok(t) => {
                let (s2, r) = bind_var(s1, l.name, t);
                match r {
                    Outcome::Done(id) => (s2, Outcome::Done(TLet { id, value: v, annot_ty: t, ty: SemTy::Unit })),
                    Outcome::Error(e) => (s2, Outcome::Error(e)),
                    Outcome::Bug => (s2, Outcome::Bug),
                }
            },
        },
        Outcome::Error(e) => (s1, Outcome::Error(e)),
        Outcome::Bug => (s1, Outcome::Bug),
    }
}

/// A block opens a scope for its statements.
#[verifier::opaque]
pub open spec fn check_block(s: SymState, b: SpecBlock) -> (SymState, Outcome<TBlock>)
    decreases b,
{
    let (s1, o) = check_stmts(enter_scope(s), b.stmts);
    match o {
        Outcome::Done(ts) => (exit_scope(s1), Outcome::Done(TBlock { stmts: ts, ty: block_ty(ts), span: b.span })),
        Outcome::Error(e) => (s1, Outcome::Error(e)),
        Outcome::Bug => (s1, Outcome::Bug),
    }
}

/// Checks expressions in order, stopping at the first error.
#[verifier::opaque]
pub open spec fn check_exprs(s: SymState, es: Seq<SpecExpr>) -> (SymState, Outcome<Seq<TExpr>>)
    decreases es,
{
    if es.len() == 0 {
        (s, Outcome::Done(seq![]))
    } else {
        let (s1, o) = check_exprs(s, es.drop_last());
        match o {
            Outcome::Done(v) => map_outcome(check_expr(s1, es.last()), |t: TExpr| v.push(t)),
            Outcome::Error(e) => (s1, Outcome::Error(e)),
            Outcome::Bug => (s1, Outcome::Bug),
        }
    }
}

/// The call of a declared function: the arguments are checked first, then the function
/// is found by its name and the type of the first argument.
pub open spec fn call_of(s1: SymState, callee: SpecExpr, targs: Seq<TExpr>) -> (SymState, Outcome<TExpr>) {
    match callee.kind {
        SpecExprKind::Identifier(ident) => {
            let name = ident.value@;
            let first = if targs.len() > 0 { Some(targs[0].ty) } else { None };
            match lookup_func(s1, name, first) {
                None => (s1, error("cannot find function `"@ + name + "`"@, ident.span)),
                Some(sym) => if targs.len() != sym.params.len() {
                    (s1, error(
                        "function `"@ + name + "` expects "@ + decimal(sym.params.len()) + " argument(s), got "@ + decimal(targs.len()),
                        callee.span,
                    ))
                } else {
                    match first_mismatch(sym.params, targs, targs.len(), callee.span, "type mismatch in call to `"@ + name + "`"@) {
                        Some(e) => (s1, Outcome::Error(e)),
                        None => {
                            let f = TExpr {
                                kind: TExprKind::Func { id: sym.id },
                                ty: SemTy::Func { params: sym.params, ret: Box::new(sym.ret) },
                            };
                            (s1, Outcome::Done(TExpr {
                                kind: TExprKind::Call { callee: Box::new(f), args: targs, ty: sym.ret },
                                ty: sym.ret,
                            }))
                        },
                    }
                },
            }
        },
        _ => (s1, error("only call on identifier is supported"@, callee.span)),
    }
}

/// The operation `left op right` once both sides are checked.
pub open spec fn binary_of(s2: SymState, op: crate::common::ast::BinOpKind, l: TExpr, r: TExpr, span: Span) -> (SymState, Outcome<TExpr>) {
    match bin_op_result(op, l.ty, r.ty) {
        None => (s2, error(
            "invalid binary operation: `"@ + ty_text(l.ty) + "` "@ + bin_op_symbol(op) + " `"@ + ty_text(r.ty) + "`"@,
            span,
        )),
        Some(t) => (s2, Outcome::Done(TExpr {
            kind: TExprKind::BinaryOp { op, left: Box::new(l), right: Box::new(r), ty: t },
            ty: t,
        })),
    }
}

#[verifier::opaque]
pub open spec fn check_expr(s: SymState, e: SpecExpr) -> (SymState, Outcome<TExpr>)
    decreases e,
{
    match e.kind {
        SpecExprKind::Literal(l) => (s, Outcome::Done(TExpr { kind: TExprKind::Literal(l), ty: literal_ty(l) })),
        SpecExprKind::Block(b) => map_outcome(check_block(s, b), |tb: TBlock| TExpr { kind: TExprKind::Block(tb), ty: tb.ty }),
        SpecExprKind::Identifier(id) => match lookup_var(s, id.value@) {
            None => (s, error("cannot find `"@ + id.value@ + "` in this scope"@, id.span)),
            Some(v) => (s, Outcome::Done(TExpr { kind: TExprKind::Var { id: v.id }, ty: v.ty })),
        },
        SpecExprKind::BinaryOp { op, left, right } => {
            let (s1, lo) = check_expr(s, *left);
            match lo {
                Outcome::Done(l) => {
                    let (s2, ro) = check_expr(s1, *right);
                    match ro {
                        Outcome::Done(r) => binary_of(s2, op, l, r, left.span),
                        Outcome::Error(err) => (s2, Outcome::Error(err)),
                        Outcome::Bug => (s2, Outcome::Bug),
                    }
                },
                Outcome::Error(err) => (s1, Outcome::Error(err)),
                Outcome::Bug => (s1, Outcome::Bug),
            }
        },
        SpecExprKind::Call { callee, args } => {
            let (s1, ao) = check_exprs(s, args);
            match ao {
                Outcome::Done(targs) => call_of(s1, *callee, targs),
                Outcome::Error(err) => (s1, Outcome::Error(err)),
                Outcome::Bug => (s1, Outcome::Bug),
            }
        },
        _ => (s, Outcome::Done(TExpr { kind: TExprKind::Error, ty: SemTy::Unit })),
    }
}

/// The checked program, or the first error: every top-level declaration is made before
/// any body is checked.
pub open spec fn check_program(p: SpecProgram) -> Outcome<Seq<TStmt>> {
    let (s1, o) = register_stmts(empty_state(), p.stmts);
    match o {
        Outcome::Done(_) => check_stmts(s1, p.stmts).1,
        Outcome::Error(e) => Outcome::Error(e),
        Outcome::Bug => Outcome::Bug,
    }
}


// ---- a failed prefix decides the whole ----

pub proof fn lemma_register_stmts_stop(s: SymState, ss: Seq<SpecStmt>, n: int)
    requires
        0 <= n <= ss.len(),
        !(register_stmts(s, ss.take(n)).1 is Done),
    ensures
        register_stmts(s, ss) == register_stmts(s, ss.take(n)),
    decreases ss.len() - n,
{
    if n < ss.len() {
        assert(ss.take(n + 1).drop_last() =~= ss.take(n));
        lemma_register_stmts_stop(s, ss, n + 1);
    } else {
        assert(ss.take(n) =~= ss);
    }
}

pub proof fn lemma_check_stmts_stop(s: SymState, ss: Seq<SpecStmt>, n: int)
    requires
        0 <= n <= ss.len(),
        !(check_stmts(s, ss.take(n)).1 is Done),
    ensures
        check_stmts(s, ss) == check_stmts(s, ss.take(n)),
    decreases ss.len() - n,
{
    if n < ss.len() {
        assert(ss.take(n + 1).drop_last() =~= ss.take(n));
        unfold_check_stmts(s, ss.take(n + 1));
        lemma_check_stmts_stop(s, ss, n + 1);
    } else {
        assert(ss.take(n) =~= ss);
    }
}

pub proof fn lemma_check_exprs_stop(s: SymState, es: Seq<SpecExpr>, n: int)
    requires
        0 <= n <= es.len(),
        !(check_exprs(s, es.take(n)).1 is Done),
    ensures
        check_exprs(s, es) == check_exprs(s, es.take(n)),
    decreases es.len() - n,
{
    if n < es.len() {
        assert(es.take(n + 1).drop_last() =~= es.take(n));
        unfold_check_exprs(s, es.take(n + 1));
        lemma_check_exprs_stop(s, es, n + 1);
    } else {
        assert(es.take(n) =~= es);
    }
}

pub proof fn lemma_resolve_tys_stop(ts: Seq<SpecTy>, n: int)
    requires
        0 <= n <= ts.len(),
        resolve_tys(ts.take(n)) is Err,
    ensures
        resolve_tys(ts) == resolve_tys(ts.take(n)),
    decreases ts.len() - n,
{
    if n < ts.len() {
        assert(ts.take(n + 1).drop_last() =~= ts.take(n));
        unfold_resolve_tys(ts.take(n + 1));
        lemma_resolve_tys_stop(ts, n + 1);
    } else {
        assert(ts.take(n) =~= ts);
    }
}

pub proof fn lemma_resolve_params_stop(ps: Seq<SpecParam>, n: int)
    requires
        0 <= n <= ps.len(),
        resolve_params(ps.take(n)) is Err,
    ensures
        resolve_params(ps) == resolve_params(ps.take(n)),
    decreases ps.len() - n,
{
    if n < ps.len() {
        assert(ps.take(n + 1).drop_last() =~= ps.take(n));
        lemma_resolve_params_stop(ps, n + 1);
    } else {
        assert(ps.take(n) =~= ps);
    }
}

pub proof fn lemma_resolve_fields_stop(fs: Seq<SpecStructField>, n: int)
    requires
        0 <= n <= fs.len(),
        resolve_fields(fs.take(n)) is Err,
    ensures
        resolve_fields(fs) == resolve_fields(fs.take(n)),
    decreases fs.len() - n,
{
    if n < fs.len() {
        assert(fs.take(n + 1).drop_last() =~= fs.take(n));
        lemma_resolve_fields_stop(fs, n + 1);
    } else {
        assert(fs.take(n) =~= fs);
    }
}

pub proof fn lemma_define_params_stop(s: SymState, ps: Seq<SpecParam>, tys: Seq<SemTy>, n: nat, m: nat)
    requires
        n <= m,
        !(define_params(s, ps, tys, n).1 is Done),
    ensures
        define_params(s, ps, tys, m) == define_params(s, ps, tys, n),
    decreases m - n,
{
    if n < m {
        lemma_define_params_stop(s, ps, tys, n, (m - 1) as nat);
    }
}

pub proof fn lemma_first_mismatch_stop(params: Seq<SemTy>, args: Seq<TExpr>, n: nat, m: nat, span: Span, context: Seq<char>)
    requires
        n <= m,
        first_mismatch(params, args, n, span, context) is Some,
    ensures
        first_mismatch(params, args, m, span, context) == first_mismatch(params, args, n, span, context),
    decreases m - n,
{
    if n < m {
        lemma_first_mismatch_stop(params, args, n, (m - 1) as nat, span, context);
    }
}

// ---- one step of each checking function ----

pub proof fn unfold_check_stmt(s: SymState, st: SpecStmt)
    ensures
        check_stmt(s, st) == ({
        match st {
            SpecStmt::Func(f) => map_outcome(check_func(s, f), |x: TFunc| TStmt::Func(x)),
            SpecStmt::Struct(x) => map_outcome(check_struct(s, x), |x: TStruct| TStmt::Struct(x)),
            SpecStmt::Let(l) => map_outcome(check_let(s, l), |x: TLet| TStmt::Let(x)),
            SpecStmt::Var(l) => map_outcome(check_let(s, l), |x: TLet| TStmt::Var(x)),
            SpecStmt::Type(t) => (s, error("not implemented yet"@, t.name.span)),
            SpecStmt::Expr(e) => map_outcome(check_expr(s, e), |x: TExpr| TStmt::Expr(x)),
        }
        }),
{
    reveal(check_expr); reveal(check_func); reveal(check_let); reveal(check_stmt);
}

pub proof fn unfold_check_stmts(s: SymState, ss: Seq<SpecStmt>)
    ensures
        check_stmts(s, ss) == ({
        if ss.len() == 0 {
            (s, Outcome::Done(seq![]))
        } else {
            let (s1, o) = check_stmts(s, ss.drop_last());
            match o {
                Outcome::Done(v) => map_outcome(check_stmt(s1, ss.last()), |t: TStmt| v.push(t)),
                Outcome::Error(e) => (s1, Outcome::Error(e)),
                Outcome::Bug => (s1, Outcome::Bug),
            }
        }
        }),
{
    reveal(check_stmt); reveal(check_stmts);
}

pub proof fn unfold_check_func(s: SymState, f: SpecFuncStmt)
    ensures
        check_func(s, f) == ({
        let name = f.name.value@;
        if f.params.len() > 0 && f.params[0].ty is None {
            (s, Outcome::Bug)
        } else {
            let first = if f.params.len() > 0 {
                match resolve_ty(f.params[0].ty->Some_0) {
                    Ok(t) => Ok(Some(t)),
                    Err(e) => Err(e),
                }
            } else {
                Ok(None)
            };
            match first {
                Err(e) => (s, Outcome::Error(e)),
                Ok(first) => match lookup_func(s, name, first) {
                    None => (s, error("function `"@ + name + "` is not declared"@, f.name.span)),
                    Some(sym) => {
                        let n = if f.params.len() < sym.params.len() { f.params.len() } else { sym.params.len() };
                        let (s2, po) = define_params(enter_func(s), f.params, sym.params, n);
                        match po {
                            Outcome::Done(params) => {
                                let (s3, bo) = check_block(s2, f.body);
                                match bo {
                                    Outcome::Done(body) => {
                                        let s4 = exit_scope(s3);
                                        match expect_eq(sym.ret, body.ty, body.span, "type mismatch for function `"@ + name + "` return type"@) {
                                            Some(e) => (s4, Outcome::Error(e)),
                                            None => (s4, Outcome::Done(TFunc { id: sym.id, params, ret_ty: sym.ret, body })),
                                        }
                                    },
                                    Outcome::Error(e) => (s3, Outcome::Error(e)),
                                    Outcome::Bug => (s3, Outcome::Bug),
                                }
                            },
                            Outcome::Error(e) => (s2, Outcome::Error(e)),
                            Outcome::Bug => (s2, Outcome::Bug),
                        }
                    },
                },
            }
        }
        }),
{
    reveal(check_block); reveal(check_func); reveal(resolve_ty);
}

pub proof fn unfold_check_let(s: SymState, l: SpecLetStmt)
    ensures
        check_let(s, l) == ({
        let (s1, vo) = check_expr(s, l.value);
        match vo {
            Outcome::Done(v) => match binding_ty(l.ty, v, l.name) {
                Err(e) => (s1, Outcome::Error(e)),
                Ok(t) => {
                    let (s2, r) = bind_var(s1, l.name, t);
                    match r {
                        Outcome::Done(id) => (s2, Outcome::Done(TLet { id, value: v, annot_ty: t, ty: SemTy::Unit })),
                        Outcome::Error(e) => (s2, Outcome::Error(e)),
                        Outcome::Bug => (s2, Outcome::Bug),
                    }
                },
            },
            Outcome::Error(e) => (s1, Outcome::Error(e)),
            Outcome::Bug => (s1, Outcome::Bug),
        }
        }),
{
    reveal(check_expr); reveal(check_let);
}

pub proof fn unfold_check_block(s: SymState, b: SpecBlock)
    ensures
        check_block(s, b) == ({
        let (s1, o) = check_stmts(enter_scope(s), b.stmts);
        match o {
            Outcome::Done(ts) => (exit_scope(s1), Outcome::Done(TBlock { stmts: ts, ty: block_ty(ts), span: b.span })),
            Outcome::Error(e) => (s1, Outcome::Error(e)),
            Outcome::Bug => (s1, Outcome::Bug),
        }
        }),
{
    reveal(check_block); reveal(check_stmts);
}

pub proof fn unfold_check_exprs(s: SymState, es: Seq<SpecExpr>)
    ensures
        check_exprs(s, es) == ({
        if es.len() == 0 {
            (s, Outcome::Done(seq![]))
        } else {
            let (s1, o) = check_exprs(s, es.drop_last());
            match o {
                Outcome::Done(v) => map_outcome(check_expr(s1, es.last()), |t: TExpr| v.push(t)),
                Outcome::Error(e) => (s1, Outcome::Error(e)),
                Outcome::Bug => (s1, Outcome::Bug),
            }
        }
        }),
{
    reveal(check_expr); reveal(check_exprs);
}

pub proof fn unfold_check_expr(s: SymState, e: SpecExpr)
    ensures
        check_expr(s, e) == ({
        match e.kind {
            SpecExprKind::Literal(l) => (s, Outcome::Done(TExpr { kind: TExprKind::Literal(l), ty: literal_ty(l) })),
            SpecExprKind::Block(b) => map_outcome(check_block(s, b), |tb: TBlock| TExpr { kind: TExprKind::Block(tb), ty: tb.ty }),
            SpecExprKind::Identifier(id) => match lookup_var(s, id.value@) {
                None => (s, error("cannot find `"@ + id.value@ + "` in this scope"@, id.span)),
                Some(v) => (s, Outcome::Done(TExpr { kind: TExprKind::Var { id: v.id }, ty: v.ty })),
            },
            SpecExprKind::BinaryOp { op, left, right } => {
                let (s1, lo) = check_expr(s, *left);
                match lo {
                    Outcome::Done(l) => {
                        let (s2, ro) = check_expr(s1, *right);
                        match ro {
                            Outcome::Done(r) => binary_of(s2, op, l, r, left.span),
                            Outcome::Error(err) => (s2, Outcome::Error(err)),
                            Outcome::Bug => (s2, Outcome::Bug),
                        }
                    },
                    Outcome::Error(err) => (s1, Outcome::Error(err)),
                    Outcome::Bug => (s1, Outcome::Bug),
                }
            },
            SpecExprKind::Call { callee, args } => {
                let (s1, ao) = check_exprs(s, args);
                match ao {
                    Outcome::Done(targs) => call_of(s1, *callee, targs),
                    Outcome::Error(err) => (s1, Outcome::Error(err)),
                    Outcome::Bug => (s1, Outcome::Bug),
                }
            },
            _ => (s, Outcome::Done(TExpr { kind: TExprKind::Error, ty: SemTy::Unit })),
        }
        }),
{
    reveal(check_block); reveal(check_expr); reveal(check_exprs);
}

pub proof fn unfold_resolve_ty(t: SpecTy)
    ensures
        resolve_ty(t) == ({
        match t {
            SpecTy::Named { name, args } => if args.len() > 0 {
                Err(SemErr { message: "generic types are not supported yet"@, span: name.span })
            } else if name.value@ == "Int"@ {
                Ok(SemTy::Int)
            } else if name.value@ == "Float"@ {
                Ok(SemTy::Float)
            } else if name.value@ == "Bool"@ {
                Ok(SemTy::Bool)
            } else {
                Err(SemErr { message: "unknown type `"@ + name.value@ + "`"@, span: name.span })
            },
            SpecTy::Array(inner) => match resolve_ty(*inner) {
                Ok(it) => Ok(SemTy::Array(Box::new(it))),
                Err(e) => Err(e),
            },
            SpecTy::Func { params, ret } => match resolve_tys(params) {
                Err(e) => Err(e),
                Ok(ps) => match ret {
                    None => Ok(SemTy::Func { params: ps, ret: Box::new(SemTy::Unit) }),
                    Some(r) => match resolve_ty(*r) {
                        Ok(rt) => Ok(SemTy::Func { params: ps, ret: Box::new(rt) }),
                        Err(e) => Err(e),
                    },
                },
            },
        }
        }),
{
    reveal(resolve_ty); reveal(resolve_tys);
}

pub proof fn unfold_resolve_tys(ts: Seq<SpecTy>)
    ensures
        resolve_tys(ts) == ({
        if ts.len() == 0 {
            Ok(seq![])
        } else {
            match resolve_tys(ts.drop_last()) {
                Err(e) => Err(e),
                Ok(v) => match resolve_ty(ts.last()) {
                    Ok(t) => Ok(v.push(t)),
                    Err(e) => Err(e),
                },
            }
        }
        }),
{
    reveal(resolve_ty); reveal(resolve_tys);
}


// ---- what the second pass leaves alone ----

/// `t` has the declarations of `s` and its scopes; with `inner`, the innermost scope may
/// have gained variables.
pub open spec fn keeps(s: SymState, t: SymState, inner: bool) -> bool {
    &&& t.funcs == s.funcs
    &&& t.struct_ids == s.struct_ids
    &&& t.scopes.len() == s.scopes.len()
    &&& forall|i: int| 0 <= i < s.scopes.len() && (!inner || i < s.scopes.len() - 1) ==> #[trigger] t.scopes[i] == s.scopes[i]
}

proof fn lemma_keeps_trans(a: SymState, b: SymState, c: SymState, x: bool, y: bool)
    requires
        keeps(a, b, x),
        keeps(b, c, y),
    ensures
        keeps(a, c, x || y),
{
    assert forall|i: int| 0 <= i < a.scopes.len() && (!(x || y) || i < a.scopes.len() - 1) implies #[trigger] c.scopes[i] == a.scopes[i] by {
        assert(c.scopes[i] == b.scopes[i]);
    }
}

proof fn lemma_keeps_weaken(a: SymState, b: SymState)
    requires
        keeps(a, b, false),
    ensures
        keeps(a, b, true),
{
}

/// Entering a scope, keeping the outer ones, and leaving it again restores the scopes.
proof fn lemma_keeps_scope_closed(s: SymState, t: SymState)
    requires
        keeps(enter_scope(s), t, true),
    ensures
        keeps(s, exit_scope(t), false),
{
    let s1 = enter_scope(s);
    assert forall|i: int| 0 <= i < s.scopes.len() implies #[trigger] exit_scope(t).scopes[i] == s.scopes[i] by {
        assert(t.scopes[i] == s1.scopes[i]);
    }
}

proof fn lemma_keeps_bind_var(s: SymState, name: Identifier, ty: SemTy)
    requires
        bind_var(s, name, ty).1 is Done,
    ensures
        keeps(s, bind_var(s, name, ty).0, true),
{
}

proof fn lemma_keeps_define_params(s: SymState, ps: Seq<SpecParam>, tys: Seq<SemTy>, n: nat)
    requires
        define_params(s, ps, tys, n).1 is Done,
    ensures
        keeps(s, define_params(s, ps, tys, n).0, true),
    decreases n,
{
    if n > 0 {
        let (s1, o) = define_params(s, ps, tys, (n - 1) as nat);
        lemma_keeps_define_params(s, ps, tys, (n - 1) as nat);
        lemma_keeps_bind_var(s1, ps[n - 1].name, tys[n - 1]);
        lemma_keeps_trans(s, s1, define_params(s, ps, tys, n).0, true, true);
    }
}

proof fn lemma_keeps_struct(s: SymState, st: SpecStructStmt)
    requires
        check_struct(s, st).1 is Done,
    ensures
        keeps(s, check_struct(s, st).0, false),
{
}

proof fn lemma_keeps_stmt(s: SymState, st: SpecStmt)
    requires
        check_stmt(s, st).1 is Done,
    ensures
        keeps(s, check_stmt(s, st).0, true),
    decreases st,
{
    unfold_check_stmt(s, st);
    match st {
        SpecStmt::Func(f) => { law_check_func_keeps(s, f); },
        SpecStmt::Struct(x) => { lemma_keeps_struct(s, x); },
        SpecStmt::Let(l) => { lemma_keeps_let(s, l); },
        SpecStmt::Var(l) => { lemma_keeps_let(s, l); },
        SpecStmt::Type(_) => {},
        SpecStmt::Expr(e) => { law_check_expr_keeps(s, e); },
    }
}

/// Checking statements leaves the declarations and the outer scopes as they were; only
/// the innermost scope may gain variables.
pub proof fn law_check_stmts_keeps(s: SymState, ss: Seq<SpecStmt>)
    requires
        check_stmts(s, ss).1 is Done,
    ensures
        keeps(s, check_stmts(s, ss).0, true),
    decreases ss,
{
    unfold_check_stmts(s, ss);
    if ss.len() > 0 {
        let (s1, o) = check_stmts(s, ss.drop_last());
        law_check_stmts_keeps(s, ss.drop_last());
        lemma_keeps_stmt(s1, ss.last());
        lemma_keeps_trans(s, s1, check_stmts(s, ss).0, true, true);
    }
}

/// Checking a function body leaves the declarations and the scopes around it as they
/// were.
pub proof fn law_check_func_keeps(s: SymState, f: SpecFuncStmt)
    requires
        check_func(s, f).1 is Done,
    ensures
        keeps(s, check_func(s, f).0, false),
    decreases f,
{
    unfold_check_func(s, f);
    let name = f.name.value@;
    let first = if f.params.len() > 0 {
        match resolve_ty(f.params[0].ty->Some_0) {
            Ok(t) => Ok(Some(t)),
            Err(e) => Err(e),
        }
    } else {
        Ok(None)
    };
    let sym = lookup_func(s, name, first->Ok_0)->Some_0;
    let n = if f.params.len() < sym.params.len() { f.params.len() } else { sym.params.len() };
    let s1 = enter_func(s);
    let s2 = define_params(s1, f.params, sym.params, n).0;
    let s3 = check_block(s2, f.body).0;
    lemma_keeps_define_params(s1, f.params, sym.params, n);
    law_check_block_keeps(s2, f.body);
    lemma_keeps_weaken(s2, s3);
    lemma_keeps_trans(s1, s2, s3, true, true);
    assert(enter_scope(s).scopes == s1.scopes);
    assert forall|i: int| 0 <= i < s.scopes.len() implies #[trigger] exit_scope(s3).scopes[i] == s.scopes[i] by {
        assert(s3.scopes[i] == s1.scopes[i]);
    }
}

proof fn lemma_keeps_let(s: SymState, l: SpecLetStmt)
    requires
        check_let(s, l).1 is Done,
    ensures
        keeps(s, check_let(s, l).0, true),
    decreases l,
{
    unfold_check_let(s, l);
    let (s1, vo) = check_expr(s, l.value);
    law_check_expr_keeps(s, l.value);
    let v = vo->Done_0;
    let t = binding_ty(l.ty, v, l.name)->Ok_0;
    lemma_keeps_bind_var(s1, l.name, t);
    lemma_keeps_trans(s, s1, bind_var(s1, l.name, t).0, false, true);
}

/// Checking a block leaves the declarations and the scopes as they were: its variables
/// are gone once it is checked.
pub proof fn law_check_block_keeps(s: SymState, b: SpecBlock)
    requires
        check_block(s, b).1 is Done,
    ensures
        keeps(s, check_block(s, b).0, false),
    decreases b,
{
    unfold_check_block(s, b);
    law_check_stmts_keeps(enter_scope(s), b.stmts);
    lemma_keeps_scope_closed(s, check_stmts(enter_scope(s), b.stmts).0);
}

/// Checking expressions leaves the declarations and the scopes as they were.
pub proof fn law_check_exprs_keeps(s: SymState, es: Seq<SpecExpr>)
    requires
        check_exprs(s, es).1 is Done,
    ensures
        keeps(s, check_exprs(s, es).0, false),
    decreases es,
{
    unfold_check_exprs(s, es);
    if es.len() > 0 {
        let (s1, o) = check_exprs(s, es.drop_last());
        law_check_exprs_keeps(s, es.drop_last());
        law_check_expr_keeps(s1, es.last());
        lemma_keeps_trans(s, s1, check_exprs(s, es).0, false, false);
    }
}

/// Checking an expression leaves the declarations and the variables in scope as they
/// were.
pub proof fn law_check_expr_keeps(s: SymState, e: SpecExpr)
    requires
        check_expr(s, e).1 is Done,
    ensures
        keeps(s, check_expr(s, e).0, false),
    decreases e,
{
    unfold_check_expr(s, e);
    match e.kind {
        SpecExprKind::Block(b) => { law_check_block_keeps(s, b); },
        SpecExprKind::BinaryOp { op, left, right } => {
            let (s1, lo) = check_expr(s, *left);
            law_check_expr_keeps(s, *left);
            law_check_expr_keeps(s1, *right);
            lemma_keeps_trans(s, s1, check_expr(s1, *right).0, false, false);
        },
        SpecExprKind::Call { callee, args } => { law_check_exprs_keeps(s, args); },
        _ => {},
    }
}


// ---- the number of arguments of a call ----

/// With no mismatch among the first `n` arguments, each of them has its parameter's type.
proof fn lemma_first_mismatch_none(params: Seq<SemTy>, args: Seq<TExpr>, n: nat, span: Span, context: Seq<char>)
    requires
        first_mismatch(params, args, n, span, context) is None,
    ensures
        forall|i: int| 0 <= i < n ==> #[trigger] args[i].ty == params[i],
    decreases n,
{
    if n > 0 {
        lemma_first_mismatch_none(params, args, (n - 1) as nat, span, context);
    }
}

/// Checking expressions gives one checked expression for each.
pub proof fn law_check_exprs_len(s: SymState, es: Seq<SpecExpr>)
    ensures
        check_exprs(s, es).1 matches Outcome::Done(ts) ==> ts.len() == es.len(),
    decreases es,
{
    unfold_check_exprs(s, es);
    if es.len() > 0 {
        law_check_exprs_len(s, es.drop_last());
    }
}

/// A call is accepted only with exactly as many arguments as the function found has
/// parameters, each argument of its parameter's type. The checked call holds the
/// checked arguments, its callee has the function's type, and the call has the
/// function's return type. A function found with another number of parameters refuses
/// the call.
pub proof fn law_call_arity(s: SymState, callee: SpecExpr, targs: Seq<TExpr>)
    ensures
        call_of(s, callee, targs).1 matches Outcome::Done(x) ==> {
            &&& x.kind matches TExprKind::Call { callee: f, args, ty }
            &&& args == targs
            &&& f.ty matches SemTy::Func { params, ret }
            &&& params.len() == args.len()
            &&& forall|i: int| 0 <= i < args.len() ==> #[trigger] args[i].ty == params[i]
            &&& *ret == ty
            &&& x.ty == ty
        },
        callee.kind matches SpecExprKind::Identifier(id)
            && lookup_func(s, id.value@, if targs.len() > 0 { Some(targs[0].ty) } else { None }) matches Some(sym)
            && targs.len() != sym.params.len()
            ==> call_of(s, callee, targs).1 is Error,
{
    if call_of(s, callee, targs).1 is Done {
        let id = callee.kind->Identifier_0;
        let name = id.value@;
        let first = if targs.len() > 0 { Some(targs[0].ty) } else { None };
        let sym = lookup_func(s, name, first)->Some_0;
        lemma_first_mismatch_none(sym.params, targs, targs.len(), callee.span, "type mismatch in call to `"@ + name + "`"@);
    }
}

/// A checked call expression has one argument for each argument written, and exactly
/// as many as its callee has parameters.
pub proof fn law_checked_call_arity(s: SymState, e: SpecExpr)
    requires
        e.kind is Call,
    ensures
        check_expr(s, e).1 matches Outcome::Done(x) ==> {
            &&& x.kind matches TExprKind::Call { callee: f, args, ty }
            &&& args.len() == e.kind->Call_args.len()
            &&& f.ty matches SemTy::Func { params, ret }
            &&& params.len() == args.len()
        },
{
    unfold_check_expr(s, e);
    let es = e.kind->Call_args;
    law_check_exprs_len(s, es);
    let (s1, ao) = check_exprs(s, es);
    if ao is Done {
        law_call_arity(s1, *e.kind->Call_callee, ao->Done_0);
    }
}


/// The checked expression `e` is well typed: an integer literal is an `Int` and a
/// boolean one a `Bool`; a block has the type of its last statement when that is an
/// expression, else `Unit`; an operation has the
/// type that its operator gives its operands' types; and every call passes exactly as
/// many arguments as its callee's type has parameters, each of its parameter's type, and
/// has the callee's return type. The same holds of every part of `e`.
pub open spec fn well_typed(e: TExpr) -> bool
    decreases e,
{
    match e.kind {
        TExprKind::Literal(l) => e.ty == (match l { Literal::Int(_) => SemTy::Int, Literal::Bool(_) => SemTy::Bool }),
        TExprKind::Block(b) => {
            &&& e.ty == b.ty
            &&& b.ty == (if b.stmts.len() > 0 && b.stmts.last() is Expr { b.stmts.last()->Expr_0.ty } else { SemTy::Unit })
            &&& well_typed_stmts(b.stmts)
        },
        TExprKind::BinaryOp { op, left, right, ty } => {
            &&& e.ty == ty
            &&& bin_op_result(op, left.ty, right.ty) == Some(ty)
            &&& well_typed(*left)
            &&& well_typed(*right)
        },
        TExprKind::UnaryOp { operand, .. } => well_typed(*operand),
        TExprKind::Call { callee, args, ty } => {
            &&& callee.ty matches SemTy::Func { params, ret } && params.len() == args.len()
                && (forall|i: int| 0 <= i < args.len() ==> #[trigger] args[i].ty == params[i])
                && *ret == ty
            &&& e.ty == ty
            &&& well_typed(*callee)
            &&& well_typed_all(args)
        },
        TExprKind::StructLit { fields, .. } => well_typed_all(fields),
        _ => true,
    }
}

pub open spec fn well_typed_all(es: Seq<TExpr>) -> bool
    decreases es,
{
    if es.len() == 0 {
        true
    } else {
        well_typed_all(es.drop_last()) && well_typed(es.last())
    }
}

pub open spec fn well_typed_stmt(st: TStmt) -> bool
    decreases st,
{
    match st {
        TStmt::Func(f) => {
            &&& f.body.ty == f.ret_ty
            &&& f.body.ty == (if f.body.stmts.len() > 0 && f.body.stmts.last() is Expr { f.body.stmts.last()->Expr_0.ty } else { SemTy::Unit })
            &&& well_typed_stmts(f.body.stmts)
        },
        TStmt::Struct(_) => true,
        TStmt::Let(l) => l.annot_ty == l.value.ty && well_typed(l.value),
        TStmt::Var(l) => l.annot_ty == l.value.ty && well_typed(l.value),
        TStmt::Expr(e) => well_typed(e),
    }
}

pub open spec fn well_typed_stmts(ss: Seq<TStmt>) -> bool
    decreases ss,
{
    if ss.len() == 0 {
        true
    } else {
        well_typed_stmts(ss.drop_last()) && well_typed_stmt(ss.last())
    }
}

proof fn lemma_well_typed_stmts(s: SymState, ss: Seq<SpecStmt>)
    requires
        check_stmts(s, ss).1 is Done,
    ensures
        well_typed_stmts(check_stmts(s, ss).1->Done_0),
    decreases ss,
{
    unfold_check_stmts(s, ss);
    if ss.len() > 0 {
        let (s1, o) = check_stmts(s, ss.drop_last());
        lemma_well_typed_stmts(s, ss.drop_last());
        lemma_well_typed_stmt(s1, ss.last());
        let v = o->Done_0;
        let t = check_stmt(s1, ss.last()).1->Done_0;
        assert(v.push(t).drop_last() =~= v);
    }
}

proof fn lemma_well_typed_stmt(s: SymState, st: SpecStmt)
    requires
        check_stmt(s, st).1 is Done,
    ensures
        well_typed_stmt(check_stmt(s, st).1->Done_0),
    decreases st,
{
    unfold_check_stmt(s, st);
    match st {
        SpecStmt::Func(f) => { lemma_well_typed_func(s, f); },
        SpecStmt::Let(l) => { lemma_well_typed_let(s, l); },
        SpecStmt::Var(l) => { lemma_well_typed_let(s, l); },
        SpecStmt::Expr(e) => { lemma_well_typed_expr(s, e); },
        _ => {},
    }
}

proof fn lemma_well_typed_func(s: SymState, f: SpecFuncStmt)
    requires
        check_func(s, f).1 is Done,
    ensures
        well_typed_stmt(TStmt::Func(check_func(s, f).1->Done_0)),
    decreases f,
{
    unfold_check_func(s, f);
    let name = f.name.value@;
    let first = if f.params.len() > 0 {
        match resolve_ty(f.params[0].ty->Some_0) {
            Ok(t) => Ok(Some(t)),
            Err(e) => Err(e),
        }
    } else {
        Ok(None)
    };
    let sym = lookup_func(s, name, first->Ok_0)->Some_0;
    let n = if f.params.len() < sym.params.len() { f.params.len() } else { sym.params.len() };
    let s2 = define_params(enter_func(s), f.params, sym.params, n).0;
    lemma_well_typed_block(s2, f.body);
}

proof fn lemma_well_typed_let(s: SymState, l: SpecLetStmt)
    requires
        check_let(s, l).1 is Done,
    ensures
        check_let(s, l).1->Done_0.annot_ty == check_let(s, l).1->Done_0.value.ty,
        well_typed(check_let(s, l).1->Done_0.value),
    decreases l,
{
    unfold_check_let(s, l);
    lemma_well_typed_expr(s, l.value);
}

proof fn lemma_well_typed_block(s: SymState, b: SpecBlock)
    requires
        check_block(s, b).1 is Done,
    ensures
        check_block(s, b).1->Done_0.ty == block_ty(check_block(s, b).1->Done_0.stmts),
        well_typed_stmts(check_block(s, b).1->Done_0.stmts),
    decreases b,
{
    unfold_check_block(s, b);
    lemma_well_typed_stmts(enter_scope(s), b.stmts);
}

proof fn lemma_well_typed_exprs(s: SymState, es: Seq<SpecExpr>)
    requires
        check_exprs(s, es).1 is Done,
    ensures
        well_typed_all(check_exprs(s, es).1->Done_0),
    decreases es,
{
    unfold_check_exprs(s, es);
    if es.len() > 0 {
        let (s1, o) = check_exprs(s, es.drop_last());
        lemma_well_typed_exprs(s, es.drop_last());
        lemma_well_typed_expr(s1, es.last());
        let v = o->Done_0;
        let t = check_expr(s1, es.last()).1->Done_0;
        assert(v.push(t).drop_last() =~= v);
    }
}

proof fn lemma_well_typed_expr(s: SymState, e: SpecExpr)
    requires
        check_expr(s, e).1 is Done,
    ensures
        well_typed(check_expr(s, e).1->Done_0),
    decreases e,
{
    unfold_check_expr(s, e);
    match e.kind {
        SpecExprKind::Block(b) => { lemma_well_typed_block(s, b); },
        SpecExprKind::BinaryOp { op, left, right } => {
            let (s1, lo) = check_expr(s, *left);
            lemma_well_typed_expr(s, *left);
            lemma_well_typed_expr(s1, *right);
        },
        SpecExprKind::Call { callee, args } => {
            lemma_well_typed_exprs(s, args);
            let (s1, ao) = check_exprs(s, args);
            law_call_arity(s1, *callee, ao->Done_0);
            assert(well_typed(*check_expr(s, e).1->Done_0.kind->Call_callee));
        },
        _ => {},
    }
}

/// A program that checks is well typed at every depth: in particular every call passes
/// exactly as many arguments as its callee has parameters, each of its parameter's type;
/// every operation has the type its operator gives; every `let` value has its annotated
/// type; and every function body has the declared return type.
pub proof fn law_checked_program_well_typed(p: SpecProgram)
    ensures
        check_program(p) matches Outcome::Done(ts) ==> well_typed_stmts(ts),
{
    let (s1, o) = register_stmts(empty_state(), p.stmts);
    if o is Done && check_stmts(s1, p.stmts).1 is Done {
        lemma_well_typed_stmts(s1, p.stmts);
    }
}

} // verus!
