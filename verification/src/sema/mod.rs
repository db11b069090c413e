//! Semantic checking: names are resolved and every expression gets its type.
pub mod ty;
pub mod tast;
pub mod symbols;
pub mod rules;
pub mod finish;
pub mod order;

use vstd::prelude::*;
use crate::common::ast::Literal;
use crate::common::span::Span;
use crate::parser::ast;
use crate::parser::ast::SpecTy;
use crate::parser::ast::{
    SpecFuncStmt, SpecLetStmt, SpecStructStmt, block_view, expr_view, exprs_view, fields_view,
    opt_ty_view, params_view, stmt_view, stmts_view, ty_view, tys_view,
};
use crate::parser::text;
use crate::text::push_decimal;
use ty::{Ty, SemTy, sem_tys, duplicate_all, bin_op_ty};
use symbols::{SymbolTable, SymState, empty_state, func_sym, var_sym};
use rules::{
    Outcome, SemErr, binding_ty, block_ty, check_block, check_expr, check_exprs, check_func,
    check_let, check_program, check_stmt, check_stmts, check_struct, define_params, expect_eq,
    first_mismatch, register_stmt, register_stmts, resolve_fields, resolve_params, resolve_ret,
    resolve_ty, resolve_tys, lemma_check_exprs_stop, lemma_check_stmts_stop,
    lemma_define_params_stop, lemma_first_mismatch_stop, lemma_register_stmts_stop,
    lemma_resolve_fields_stop, lemma_resolve_params_stop, lemma_resolve_tys_stop,
    unfold_check_block, unfold_check_expr, unfold_check_exprs, unfold_check_func, unfold_check_let,
    unfold_check_stmt, unfold_check_stmts, unfold_resolve_ty, unfold_resolve_tys,
};
use tast::{TExpr, TExprKind, param_slots, field_slots, texprs, tstmts};

verus! {

/// The checker: its symbol table.
pub struct Sema {
    sym_table: SymbolTable,
}

/// A checking error: its message and the source it points to.
#[derive(Debug)]
pub struct SemaError {
    pub message: String,
    pub span: Span,
}

impl View for SemaError {
    type V = SemErr;

    open spec fn view(&self) -> SemErr {
        SemErr { message: self.message@, span: self.span }
    }
}

/// An executable result agrees with a checker outcome and the state after it.
pub open spec fn agrees<T, V>(r: Result<T, SemaError>, o: (SymState, Outcome<V>), after: SymState, view: spec_fn(T) -> V) -> bool {
    match o.1 {
        Outcome::Done(v) => r is Ok && view(r->Ok_0) == v && after == o.0,
        Outcome::Error(e) => r is Err && r->Err_0@ == e,
        Outcome::Bug => false,
    }
}

/// An executable result agrees with a result of the rules.
pub open spec fn res_agrees<T, V>(r: Result<T, SemaError>, o: Result<V, SemErr>, view: spec_fn(T) -> V) -> bool {
    match o {
        Ok(v) => r is Ok && view(r->Ok_0) == v,
        Err(e) => r is Err && r->Err_0@ == e,
    }
}

pub open spec fn func_view(f: ast::FuncStmt) -> SpecFuncStmt {
    SpecFuncStmt { name: f.name, params: params_view(f.params@), ret: opt_ty_view(f.ret), body: block_view(f.body) }
}

pub open spec fn let_view(l: ast::LetStmt) -> SpecLetStmt {
    SpecLetStmt { name: l.name, ty: opt_ty_view(l.ty), value: expr_view(l.value) }
}

pub open spec fn var_view(l: ast::VarStmt) -> SpecLetStmt {
    SpecLetStmt { name: l.name, ty: opt_ty_view(l.ty), value: expr_view(l.value) }
}

pub open spec fn struct_view(st: ast::StructStmt) -> SpecStructStmt {
    SpecStructStmt { name: st.name, ty_params: st.ty_params@, fields: fields_view(st.fields@) }
}

/// Checks a parsed program. Declarations come first, so a function may call one
/// declared below it.
pub fn check(ast: ast::Program) -> (r: Result<tast::Program, SemaError>)
    requires
        !(check_program(ast@) is Bug),
    ensures
        match check_program(ast@) {
            Outcome::Done(v) => r is Ok && r->Ok_0@ == v,
            Outcome::Error(e) => r is Err && r->Err_0@ == e,
            Outcome::Bug => false,
        },
{
    let mut sema = Sema::new();
    sema.check_program(&ast)
}

impl Sema {
    fn new() -> (s: Self)
        ensures
            s.sym_table@ == empty_state(),
    {
        Sema { sym_table: SymbolTable::new() }
    }

    fn err(&self, message: String, span: Span) -> (e: SemaError)
        ensures
            e@ == (SemErr { message: message@, span }),
    {
        SemaError { message, span }
    }

    /// An error unless the two types are the same.
    fn expect_eq(&self, expected: &Ty, got: &Ty, span: Span, context: String) -> (r: Result<(), SemaError>)
        ensures
            match expect_eq(expected@, got@, span, context@) {
                None => r is Ok,
                Some(e) => r is Err && r->Err_0@ == e,
            },
    {
        if !expected.same(got) {
            let mut m = context;
            m.append(": expected `");
            m.append(expected.debug_text().as_str());
            m.append("`, got `");
            m.append(got.debug_text().as_str());
            m.append("`");
            return Err(self.err(m, span));
        }
        Ok(())
    }

    /// The type a type expression names.
    #[verifier::loop_isolation(false)]
    fn resolve_ty(&self, ty: &ast::Ty) -> (r: Result<Ty, SemaError>)
        ensures
            res_agrees(r, resolve_ty(ty_view(*ty)), |t: Ty| t@),
        decreases ty,
    {
        proof { unfold_resolve_ty(ty_view(*ty)); }
        match ty {
            ast::Ty::Named { name, args } => {
                proof { assert(tys_view(args@).len() == args@.len()); }
                if args.len() > 0 {
                    return Err(self.err(text("generic types are not supported yet"), name.span));
                }
                if name.value == String::from_str("Int") {
                    Ok(Ty::Int)
                } else if name.value == String::from_str("Float") {
                    Ok(Ty::Float)
                } else if name.value == String::from_str("Bool") {
                    Ok(Ty::Bool)
                } else {
                    let mut m = text("unknown type `");
                    m.append(name.value.as_str());
                    m.append("`");
                    Err(self.err(m, name.span))
                }
            },
            ast::Ty::Array(inner) => match self.resolve_ty(inner) {
                Ok(t) => Ok(Ty::Array(Box::new(t))),
                Err(e) => Err(e),
            },
            ast::Ty::Func { params, ret } => {
                let ghost ps = tys_view(params@);
                let mut out: Vec<Ty> = Vec::new();
                let mut i: usize = 0;
                proof { assert(ps.take(0) =~= Seq::<SpecTy>::empty()); assert(sem_tys(out@) =~= Seq::<SemTy>::empty()); unfold_resolve_tys(ps.take(0)); }
                while i < params.len()
                    invariant
                        i <= params@.len(),
                        ps == tys_view(params@),
                        resolve_tys(ps.take(i as int)) == Ok::<Seq<SemTy>, SemErr>(sem_tys(out@)),
                    decreases params@.len() - i,
                {
                    proof {
                        assert(decreases_to!(*ty => params@[i as int]));
                        assert(ps.take(i + 1).drop_last() =~= ps.take(i as int));
                        unfold_resolve_tys(ps.take(i + 1));
                        assert(ps.take(i + 1).last() == ty_view(params@[i as int]));
                    }
                    match self.resolve_ty(&params[i]) {
                        Ok(t) => {
                            let ghost before = out@;
                            out.push(t);
                            proof { assert(sem_tys(out@) =~= sem_tys(before).push(t@)); }
                        },
                        Err(e) => {
                            proof { lemma_resolve_tys_stop(ps, i + 1); }
                            return Err(e);
                        },
                    }
                    i = i + 1;
                }
                proof { assert(ps.take(params@.len() as int) =~= ps); }
                match ret {
                    None => {
                        let t = Ty::Func { params: out, ret: Box::new(Ty::Unit) };
                        proof {
                            assert(ty::sem_ty(Ty::Unit) == SemTy::Unit);
                            assert(t@ == SemTy::Func { params: sem_tys(out@), ret: Box::new(SemTy::Unit) });
                        }
                        Ok(t)
                    },
                    Some(r) => match self.resolve_ty(r) {
                        Ok(rt) => {
                            proof {
                                assert(ty_view(*ty) == SpecTy::Func { params: ps, ret: Some(Box::new(ty_view(**r))) });
                                assert(resolve_ty(ty_view(**r)) == Ok::<SemTy, SemErr>(rt@));
                            }
                            let t = Ty::Func { params: out, ret: Box::new(rt) };
                            proof {
                                assert(t@ == SemTy::Func { params: sem_tys(out@), ret: Box::new(rt@) });
                                assert(resolve_tys(ps) == Ok::<Seq<SemTy>, SemErr>(sem_tys(out@)));
                                assert(resolve_ty(ty_view(*ty)) == Ok::<SemTy, SemErr>(t@));
                            }
                            Ok(t)
                        },
                        Err(e) => Err(e),
                    },
                }
            },
        }
    }

    /// The declared return type, `Unit` when there is none.
    fn resolve_ret(&self, ret: &Option<ast::Ty>) -> (r: Result<Ty, SemaError>)
        ensures
            res_agrees(r, resolve_ret(opt_ty_view(*ret)), |t: Ty| t@),
    {
        match ret {
            Some(t) => self.resolve_ty(t),
            None => Ok(Ty::Unit),
        }
    }

    /// The parameter types of a declaration; an unannotated parameter is `Infer`.
    #[verifier::loop_isolation(false)]
    fn resolve_params_ty(&self, func: &ast::FuncStmt) -> (r: Result<Vec<Ty>, SemaError>)
        ensures
            res_agrees(r, resolve_params(params_view(func.params@)), |v: Vec<Ty>| sem_tys(v@)),
    {
        let ghost ps = params_view(func.params@);
        let mut params_ty: Vec<Ty> = Vec::new();
        let mut i: usize = 0;
        proof { assert(ps.take(0) =~= Seq::<ast::SpecParam>::empty()); assert(sem_tys(params_ty@) =~= Seq::<SemTy>::empty()); }
        while i < func.params.len()
            invariant
                i <= func.params@.len(),
                ps == params_view(func.params@),
                resolve_params(ps.take(i as int)) == Ok::<Seq<SemTy>, SemErr>(sem_tys(params_ty@)),
            decreases func.params@.len() - i,
        {
            proof {
                assert(ps.take(i + 1).drop_last() =~= ps.take(i as int));
                assert(ps.take(i + 1).last() == ps[i as int]);
            }
            let ghost before = params_ty@;
            match &func.params[i].ty {
                Some(t) => match self.resolve_ty(t) {
                    Ok(t) => {
                        params_ty.push(t);
                        proof { assert(sem_tys(params_ty@) =~= sem_tys(before).push(t@)); }
                    },
                    Err(e) => {
                        proof { lemma_resolve_params_stop(ps, i + 1); }
                        return Err(e);
                    },
                },
                None => {
                    params_ty.push(Ty::Infer);
                    proof { assert(sem_tys(params_ty@) =~= sem_tys(before).push(SemTy::Infer)); }
                },
            }
            i = i + 1;
        }
        proof { assert(ps.take(func.params@.len() as int) =~= ps); }
        Ok(params_ty)
    }

    /// Declares one top-level statement (the first pass).
    fn register_stmt(&mut self, stmt: &ast::Stmt) -> (r: Result<(), SemaError>)
        ensures
            agrees(r, register_stmt(old(self).sym_table@, stmt_view(*stmt)), final(self).sym_table@, |u: ()| u),
    {
        match stmt {
            ast::Stmt::Func(func) => {
                let params_ty = match self.resolve_params_ty(func) {
                    Ok(p) => p,
                    Err(e) => { return Err(e); },
                };
                let ret = match self.resolve_ret(&func.ret) {
                    Ok(t) => t,
                    Err(e) => { return Err(e); },
                };
                match self.sym_table.define_func(func.name.value.as_str(), params_ty, ret) {
                    Ok(()) => Ok(()),
                    Err(m) => Err(self.err(m, func.name.span)),
                }
            },
            ast::Stmt::Struct(struc) => {
                if struc.ty_params.len() > 0 {
                    return Err(self.err(text("generic structs are not supported yet"), struc.name.span));
                }
                match self.sym_table.define_struct(struc.name.value.as_str()) {
                    Ok(_) => Ok(()),
                    Err(m) => Err(self.err(m, struc.name.span)),
                }
            },
            ast::Stmt::Let(s) => Err(self.err(text("top level should not contain let statement"), s.name.span)),
            ast::Stmt::Var(s) => Err(self.err(text("top level should not contain var statement"), s.name.span)),
            ast::Stmt::Type(s) => Err(self.err(text("not implemented yet"), s.name.span)),
            ast::Stmt::Expr(e) => Err(self.err(text("top level should not contain expression"), e.span)),
        }
    }

    /// Declares the top-level items in order (the first pass).
    #[verifier::loop_isolation(false)]
    fn register_all(&mut self, ast: &ast::Program) -> (r: Result<(), SemaError>)
        ensures
            agrees(r, register_stmts(old(self).sym_table@, stmts_view(ast.stmts@)), final(self).sym_table@, |u: ()| u),
    {
        let ghost s0 = self.sym_table@;
        let ghost ss = stmts_view(ast.stmts@);
        let mut i: usize = 0;
        proof { assert(ss.take(0) =~= Seq::<ast::SpecStmt>::empty()); }
        while i < ast.stmts.len()
            invariant
                i <= ast.stmts@.len(),
                register_stmts(s0, ss.take(i as int)) == (self.sym_table@, Outcome::<()>::Done(())),
            decreases ast.stmts@.len() - i,
        {
            proof {
                assert(ss.take(i + 1).drop_last() =~= ss.take(i as int));
                assert(ss.take(i + 1).last() == stmt_view(ast.stmts@[i as int]));
            }
            match self.register_stmt(&ast.stmts[i]) {
                Ok(()) => {},
                Err(e) => {
                    proof { lemma_register_stmts_stop(s0, ss, i + 1); }
                    return Err(e);
                },
            }
            i = i + 1;
        }
        proof { assert(ss.take(ast.stmts@.len() as int) =~= ss); }
        Ok(())
    }

    /// Declares every top-level item, then checks each statement.
    #[verifier::loop_isolation(false)]
    fn check_program(&mut self, ast: &ast::Program) -> (r: Result<tast::Program, SemaError>)
        requires
            old(self).sym_table@ == empty_state(),
            !(check_program(ast@) is Bug),
        ensures
            match check_program(ast@) {
                Outcome::Done(v) => r is Ok && r->Ok_0@ == v,
                Outcome::Error(e) => r is Err && r->Err_0@ == e,
                Outcome::Bug => false,
            },
    {
        let ghost ss = stmts_view(ast.stmts@);
        match self.register_all(ast) {
            Ok(()) => {},
            Err(e) => { return Err(e); },
        }
        let ghost s1 = self.sym_table@;
        let mut stmts: Vec<tast::Stmt> = Vec::new();
        let mut j: usize = 0;
        proof {
            assert(ss.take(0) =~= Seq::<ast::SpecStmt>::empty());
            assert(tstmts(stmts@) =~= Seq::<tast::TStmt>::empty());
            unfold_check_stmts(self.sym_table@, ss.take(0));
        }
        while j < ast.stmts.len()
            invariant
                j <= ast.stmts@.len(),
                ss == stmts_view(ast.stmts@),
                register_stmts(empty_state(), ss) == (s1, Outcome::<()>::Done(())),
                !(check_stmts(s1, ss).1 is Bug),
                check_stmts(s1, ss.take(j as int)) == (self.sym_table@, Outcome::Done(tstmts(stmts@))),
            decreases ast.stmts@.len() - j,
        {
            proof {
                assert(ss.take(j + 1).drop_last() =~= ss.take(j as int));
                unfold_check_stmts(s1, ss.take(j + 1));
                assert(ss.take(j + 1).last() == stmt_view(ast.stmts@[j as int]));
                if check_stmts(s1, ss.take(j + 1)).1 is Bug {
                    lemma_check_stmts_stop(s1, ss, j + 1);
                }
            }
            match self.check_stmt(&ast.stmts[j]) {
                Ok(t) => {
                    let ghost before = stmts@;
                    stmts.push(t);
                    proof { assert(tstmts(stmts@) =~= tstmts(before).push(t@)); }
                },
                Err(e) => {
                    proof { lemma_check_stmts_stop(s1, ss, j + 1); }
                    return Err(e);
                },
            }
            j = j + 1;
        }
        proof { assert(ss.take(ast.stmts@.len() as int) =~= ss); }
        Ok(tast::Program { stmts })
    }

    fn check_stmt(&mut self, stmt: &ast::Stmt) -> (r: Result<tast::Stmt, SemaError>)
        requires
            !(check_stmt(old(self).sym_table@, stmt_view(*stmt)).1 is Bug),
        ensures
            agrees(r, check_stmt(old(self).sym_table@, stmt_view(*stmt)), final(self).sym_table@, |t: tast::Stmt| t@),
        decreases stmt, 2nat,
    {
        proof { unfold_check_stmt(self.sym_table@, stmt_view(*stmt)); }
        match stmt {
            ast::Stmt::Func(func) => match self.check_func(func) {
                Ok(f) => Ok(tast::Stmt::Func(f)),
                Err(e) => Err(e),
            },
            ast::Stmt::Struct(struc) => match self.check_struct(struc) {
                Ok(s) => Ok(tast::Stmt::Struct(s)),
                Err(e) => Err(e),
            },
            ast::Stmt::Let(let_stmt) => match self.check_let(let_stmt) {
                Ok(l) => Ok(tast::Stmt::Let(l)),
                Err(e) => Err(e),
            },
            ast::Stmt::Var(var_stmt) => match self.check_var(var_stmt) {
                Ok(v) => Ok(tast::Stmt::Var(v)),
                Err(e) => Err(e),
            },
            ast::Stmt::Type(type_stmt) => Err(self.err(text("not implemented yet"), type_stmt.name.span)),
            ast::Stmt::Expr(expr) => match self.check_expr(expr) {
                Ok(e) => Ok(tast::Stmt::Expr(e)),
                Err(e) => Err(e),
            },
        }
    }
}

impl Sema {
    #[verifier::loop_isolation(false)]
    fn check_func(&mut self, func: &ast::FuncStmt) -> (r: Result<tast::Func, SemaError>)
        requires
            !(check_func(old(self).sym_table@, func_view(*func)).1 is Bug),
        ensures
            agrees(r, check_func(old(self).sym_table@, func_view(*func)), final(self).sym_table@, |f: tast::Func| tast::TFunc {
                id: f.id.0, params: param_slots(f.params@), ret_ty: f.ret_ty@, body: f.body@,
            }),
        decreases func, 2nat,
    {
        proof { unfold_check_func(self.sym_table@, func_view(*func)); }
        let ghost fv = func_view(*func);
        let ghost s0 = self.sym_table@;
        let name = &func.name.value;
        let first_param_ty: Option<Ty> = if func.params.len() > 0 {
            proof { assert(fv.params[0] == ast::param_view(func.params@[0])); }
            match &func.params[0].ty {
                Some(t) => match self.resolve_ty(t) {
                    Ok(t) => Some(t),
                    Err(e) => { return Err(e); },
                },
                None => {
                    proof { assert(false); }
                    return Err(self.err(String::new(), func.name.span));
                },
            }
        } else {
            None
        };
        let (id, params_ty, ret_ty) = match self.sym_table.lookup_func(name.as_str(), first_param_ty) {
            Some(sym) => (sym.id, duplicate_all(&sym.params_ty), sym.ret_ty.duplicate()),
            None => {
                let mut m = text("function `");
                m.append(name.as_str());
                m.append("` is not declared");
                return Err(self.err(m, func.name.span));
            },
        };
        let ghost ptys = sem_tys(params_ty@);
        proof { assert(ptys.len() == params_ty@.len()); }
        self.sym_table.enter_func();
        let ghost s1 = self.sym_table@;
        let n = if func.params.len() < params_ty.len() { func.params.len() } else { params_ty.len() };
        let mut params: Vec<tast::Param> = Vec::new();
        let mut i: usize = 0;
        proof { assert(param_slots(params@) =~= Seq::<tast::TSlot>::empty()); }
        while i < n
            invariant
                i <= n <= func.params@.len(),
                n <= params_ty@.len(),
                ptys == sem_tys(params_ty@),
                fv == func_view(*func),
                !(define_params(s1, fv.params, ptys, n as nat).1 is Bug),
                define_params(s1, fv.params, ptys, i as nat) == (self.sym_table@, Outcome::Done(param_slots(params@))),
            decreases n - i,
        {
            proof {
                assert(fv.params[i as int] == ast::param_view(func.params@[i as int]));
                if define_params(s1, fv.params, ptys, (i + 1) as nat).1 is Bug {
                    lemma_define_params_stop(s1, fv.params, ptys, (i + 1) as nat, n as nat);
                }
            }
            let ty = params_ty[i].duplicate();
            match self.sym_table.define_var(func.params[i].name.value.as_str(), ty) {
                Ok(vid) => {
                    let ghost before = params@;
                    params.push(tast::Param { id: vid, ty: params_ty[i].duplicate() });
                    proof { assert(param_slots(params@) =~= param_slots(before).push(tast::TSlot { id: vid.0, ty: ptys[i as int] })); }
                },
                Err(m) => {
                    proof { lemma_define_params_stop(s1, fv.params, ptys, (i + 1) as nat, n as nat); }
                    return Err(self.err(m, func.params[i].name.span));
                },
            }
            i = i + 1;
        }
        let body = match self.check_block(&func.body) {
            Ok(b) => b,
            Err(e) => { return Err(e); },
        };
        self.sym_table.exit_func();
        let mut context = text("type mismatch for function `");
        context.append(name.as_str());
        context.append("` return type");
        match self.expect_eq(&ret_ty, &body.ty, body.span, context) {
            Ok(()) => {},
            Err(e) => { return Err(e); },
        }
        Ok(tast::Func { id, params, ret_ty, body })
    }

    #[verifier::loop_isolation(false)]
    fn check_struct(&mut self, struc: &ast::StructStmt) -> (r: Result<tast::Struct, SemaError>)
        requires
            !(check_struct(old(self).sym_table@, struct_view(*struc)).1 is Bug),
        ensures
            agrees(r, check_struct(old(self).sym_table@, struct_view(*struc)), final(self).sym_table@, |st: tast::Struct| tast::TStruct {
                id: st.id.0, fields: field_slots(st.fields@), ty: st.ty@,
            }),
    {
        let ghost fv = fields_view(struc.fields@);
        let mut fields: Vec<(String, Ty)> = Vec::new();
        let mut i: usize = 0;
        proof {
            assert(fv.take(0) =~= Seq::<ast::SpecStructField>::empty());
            assert(fields@.map_values(|f: (String, Ty)| (f.0@, f.1@)) =~= Seq::<(Seq<char>, SemTy)>::empty());
        }
        while i < struc.fields.len()
            invariant
                i <= struc.fields@.len(),
                fv == fields_view(struc.fields@),
                resolve_fields(fv.take(i as int)) == Ok::<Seq<(Seq<char>, SemTy)>, SemErr>(fields@.map_values(|f: (String, Ty)| (f.0@, f.1@))),
            decreases struc.fields@.len() - i,
        {
            proof {
                assert(fv.take(i + 1).drop_last() =~= fv.take(i as int));
                assert(fv.take(i + 1).last() == ast::field_view(struc.fields@[i as int]));
            }
            match self.resolve_ty(&struc.fields[i].ty) {
                Ok(t) => {
                    let ghost before = fields@;
                    fields.push((struc.fields[i].name.value.clone(), t));
                    proof {
                        assert(fields@.map_values(|f: (String, Ty)| (f.0@, f.1@)) =~= before.map_values(|f: (String, Ty)| (f.0@, f.1@)).push((struc.fields@[i as int].name.value@, t@)));
                    }
                },
                Err(e) => {
                    proof { lemma_resolve_fields_stop(fv, i + 1); }
                    return Err(e);
                },
            }
            i = i + 1;
        }
        proof { assert(fv.take(struc.fields@.len() as int) =~= fv); }
        let id = match self.sym_table.define_struct_fields(struc.name.value.as_str(), fields.as_slice()) {
            Ok(id) => id,
            Err(m) => { return Err(self.err(m, struc.name.span)); },
        };
        let ghost fs = fields@.map_values(|f: (String, Ty)| (f.0@, f.1@));
        let mut tfields: Vec<tast::StructField> = Vec::new();
        let mut j: usize = 0;
        proof { assert(field_slots(tfields@) =~= rules::field_slots_of(fs).take(0)); }
        while j < fields.len()
            invariant
                j <= fields@.len(),
                fs == fields@.map_values(|f: (String, Ty)| (f.0@, f.1@)),
                field_slots(tfields@) == rules::field_slots_of(fs).take(j as int),
            decreases fields@.len() - j,
        {
            let ghost before = tfields@;
            tfields.push(tast::StructField { id: tast::StructFieldId(j as u64), ty: fields[j].1.duplicate() });
            proof {
                assert(fields@[j as int].1@ == fs[j as int].1);
                assert(field_slots(tfields@) =~= rules::field_slots_of(fs).take(j + 1));
            }
            j = j + 1;
        }
        proof { assert(rules::field_slots_of(fs).take(fields@.len() as int) =~= rules::field_slots_of(fs)); }
        Ok(tast::Struct { id, fields: tfields, ty: Ty::Unit })
    }

    /// The type of a binding: its annotation, which must match the value, or the value's type.
    fn binding_ty(&self, annot: &Option<ast::Ty>, value_ty: &Ty, name: &ast::Identifier, Ghost(value): Ghost<TExpr>) -> (r: Result<Ty, SemaError>)
        requires
            value.ty == value_ty@,
        ensures
            res_agrees(r, binding_ty(opt_ty_view(*annot), value, *name), |t: Ty| t@),
    {
        match annot {
            Some(annot) => {
                let annot_ty = match self.resolve_ty(annot) {
                    Ok(t) => t,
                    Err(e) => { return Err(e); },
                };
                let mut context = text("type mismatch for `");
                context.append(name.value.as_str());
                context.append("`");
                match self.expect_eq(&annot_ty, value_ty, name.span, context) {
                    Ok(()) => Ok(annot_ty),
                    Err(e) => Err(e),
                }
            },
            None => Ok(value_ty.duplicate()),
        }
    }

    fn check_let(&mut self, let_stmt: &ast::LetStmt) -> (r: Result<tast::Let, SemaError>)
        requires
            !(check_let(old(self).sym_table@, let_view(*let_stmt)).1 is Bug),
        ensures
            agrees(r, check_let(old(self).sym_table@, let_view(*let_stmt)), final(self).sym_table@, |l: tast::Let| tast::TLet {
                id: l.id.0, value: l.value@, annot_ty: l.annot_ty@, ty: l.ty@,
            }),
        decreases let_stmt, 2nat,
    {
        proof { unfold_check_let(self.sym_table@, let_view(*let_stmt)); }
        let value = match self.check_expr(&let_stmt.value) {
            Ok(v) => v,
            Err(e) => { return Err(e); },
        };
        let annot_ty = match self.binding_ty(&let_stmt.ty, &value.ty, &let_stmt.name, Ghost(value@)) {
            Ok(t) => t,
            Err(e) => { return Err(e); },
        };
        match self.sym_table.define_var(let_stmt.name.value.as_str(), annot_ty.duplicate()) {
            Ok(id) => Ok(tast::Let { id, value, annot_ty, ty: Ty::Unit }),
            Err(m) => Err(self.err(m, let_stmt.name.span)),
        }
    }

    fn check_var(&mut self, var_stmt: &ast::VarStmt) -> (r: Result<tast::Var, SemaError>)
        requires
            !(check_let(old(self).sym_table@, var_view(*var_stmt)).1 is Bug),
        ensures
            agrees(r, check_let(old(self).sym_table@, var_view(*var_stmt)), final(self).sym_table@, |l: tast::Var| tast::TLet {
                id: l.id.0, value: l.value@, annot_ty: l.annot_ty@, ty: l.ty@,
            }),
        decreases var_stmt, 2nat,
    {
        proof { unfold_check_let(self.sym_table@, var_view(*var_stmt)); }
        let value = match self.check_expr(&var_stmt.value) {
            Ok(v) => v,
            Err(e) => { return Err(e); },
        };
        let annot_ty = match self.binding_ty(&var_stmt.ty, &value.ty, &var_stmt.name, Ghost(value@)) {
            Ok(t) => t,
            Err(e) => { return Err(e); },
        };
        match self.sym_table.define_var(var_stmt.name.value.as_str(), annot_ty.duplicate()) {
            Ok(id) => Ok(tast::Var { id, value, annot_ty, ty: Ty::Unit }),
            Err(m) => Err(self.err(m, var_stmt.name.span)),
        }
    }

    #[verifier::loop_isolation(false)]
    fn check_block(&mut self, block: &ast::Block) -> (r: Result<tast::Block, SemaError>)
        requires
            !(check_block(old(self).sym_table@, block_view(*block)).1 is Bug),
        ensures
            agrees(r, check_block(old(self).sym_table@, block_view(*block)), final(self).sym_table@, |b: tast::Block| b@),
        decreases block, 2nat,
    {
        proof { unfold_check_block(self.sym_table@, block_view(*block)); }
        let span = block.span;
        self.sym_table.enter_scope();
        let ghost s1 = self.sym_table@;
        let ghost ss = stmts_view(block.stmts@);
        let mut stmts: Vec<tast::Stmt> = Vec::new();
        let mut i: usize = 0;
        proof {
            assert(ss.take(0) =~= Seq::<ast::SpecStmt>::empty());
            assert(tstmts(stmts@) =~= Seq::<tast::TStmt>::empty());
            unfold_check_stmts(self.sym_table@, ss.take(0));
        }
        while i < block.stmts.len()
            invariant
                i <= block.stmts@.len(),
                ss == stmts_view(block.stmts@),
                !(check_stmts(s1, ss).1 is Bug),
                check_stmts(s1, ss.take(i as int)) == (self.sym_table@, Outcome::Done(tstmts(stmts@))),
            decreases block.stmts@.len() - i,
        {
            proof {
                assert(decreases_to!(*block => block.stmts@[i as int]));
                assert(ss.take(i + 1).drop_last() =~= ss.take(i as int));
                assert(ss.take(i + 1).last() == stmt_view(block.stmts@[i as int]));
                unfold_check_stmts(s1, ss.take(i + 1));
                if check_stmts(s1, ss.take(i + 1)).1 is Bug {
                    lemma_check_stmts_stop(s1, ss, i + 1);
                }
            }
            match self.check_stmt(&block.stmts[i]) {
                Ok(t) => {
                    let ghost before = stmts@;
                    stmts.push(t);
                    proof { assert(tstmts(stmts@) =~= tstmts(before).push(t@)); }
                },
                Err(e) => {
                    proof { lemma_check_stmts_stop(s1, ss, i + 1); }
                    return Err(e);
                },
            }
            i = i + 1;
        }
        proof { assert(ss.take(block.stmts@.len() as int) =~= ss); }
        self.sym_table.exit_scope();
        let ty = if stmts.len() > 0 {
            match &stmts[stmts.len() - 1] {
                tast::Stmt::Expr(e) => e.ty.duplicate(),
                _ => Ty::Unit,
            }
        } else {
            Ty::Unit
        };
        proof {
            assert(tstmts(stmts@).len() == stmts@.len());
            if stmts@.len() > 0 {
                assert(tstmts(stmts@).last() == tast::tstmt(stmts@.last()));
            }
            assert(ty@ == block_ty(tstmts(stmts@)));
        }
        Ok(tast::Block { stmts, ty, span })
    }

    fn check_expr(&mut self, expr: &ast::Expr) -> (r: Result<tast::Expr, SemaError>)
        requires
            !(check_expr(old(self).sym_table@, expr_view(*expr)).1 is Bug),
        ensures
            agrees(r, check_expr(old(self).sym_table@, expr_view(*expr)), final(self).sym_table@, |e: tast::Expr| e@),
        decreases expr, 2nat,
    {
        proof { unfold_check_expr(self.sym_table@, expr_view(*expr)); }
        match &expr.kind {
            ast::ExprKind::Literal(lit) => {
                let ty = match lit {
                    Literal::Int(_) => Ty::Int,
                    Literal::Bool(_) => Ty::Bool,
                };
                Ok(tast::Expr { kind: tast::ExprKind::Literal(*lit), ty })
            },
            ast::ExprKind::Block(block) => match self.check_block(block) {
                Ok(b) => {
                    let ty = b.ty.duplicate();
                    Ok(tast::Expr { kind: tast::ExprKind::Block(b), ty })
                },
                Err(e) => Err(e),
            },
            ast::ExprKind::Identifier(identifier) => match self.sym_table.lookup_var(identifier.value.as_str()) {
                Some(var_symbol) => Ok(tast::Expr { kind: tast::ExprKind::Var { id: var_symbol.id }, ty: var_symbol.ty.duplicate() }),
                None => {
                    let mut m = text("cannot find `");
                    m.append(identifier.value.as_str());
                    m.append("` in this scope");
                    Err(self.err(m, identifier.span))
                },
            },
            ast::ExprKind::BinaryOp { .. } => match self.check_binaryop(expr) {
                Ok(b) => {
                    let ty = b.ty.duplicate();
                    Ok(tast::Expr { kind: tast::ExprKind::BinaryOp(b), ty })
                },
                Err(e) => Err(e),
            },
            ast::ExprKind::Call { .. } => match self.check_call(expr) {
                Ok(c) => {
                    let ty = c.ty.duplicate();
                    Ok(tast::Expr { kind: tast::ExprKind::Call(c), ty })
                },
                Err(e) => Err(e),
            },
            _ => Ok(tast::Expr { kind: tast::ExprKind::Error, ty: Ty::Unit }),
        }
    }

    fn check_binaryop(&mut self, expr: &ast::Expr) -> (r: Result<tast::BinaryOp, SemaError>)
        requires
            expr.kind is BinaryOp,
            !(check_expr(old(self).sym_table@, expr_view(*expr)).1 is Bug),
        ensures
            agrees(r, check_expr(old(self).sym_table@, expr_view(*expr)), final(self).sym_table@, |b: tast::BinaryOp| TExpr {
                kind: TExprKind::BinaryOp { op: b.op, left: Box::new(b.left@), right: Box::new(b.right@), ty: b.ty@ },
                ty: b.ty@,
            }),
        decreases expr, 1nat,
    {
        proof { unfold_check_expr(self.sym_table@, expr_view(*expr)); }
        let (op, left_ast, right_ast) = match &expr.kind {
            ast::ExprKind::BinaryOp { op, left, right } => (*op, left, right),
            _ => {
                proof { assert(false); }
                return Err(self.err(String::new(), expr.span));
            },
        };
        let span = left_ast.span;
        let left = match self.check_expr(left_ast) {
            Ok(l) => l,
            Err(e) => { return Err(e); },
        };
        let right = match self.check_expr(right_ast) {
            Ok(r) => r,
            Err(e) => { return Err(e); },
        };
        match bin_op_ty(op, &left.ty, &right.ty) {
            Some(ty) => Ok(tast::BinaryOp { op, left: Box::new(left), right: Box::new(right), ty }),
            None => {
                let mut m = text("invalid binary operation: `");
                m.append(left.ty.debug_text().as_str());
                m.append("` ");
                m.append(op.symbol());
                m.append(" `");
                m.append(right.ty.debug_text().as_str());
                m.append("`");
                Err(self.err(m, span))
            },
        }
    }

    #[verifier::loop_isolation(false)]
    fn check_call(&mut self, expr: &ast::Expr) -> (r: Result<tast::Call, SemaError>)
        requires
            expr.kind is Call,
            !(check_expr(old(self).sym_table@, expr_view(*expr)).1 is Bug),
        ensures
            agrees(r, check_expr(old(self).sym_table@, expr_view(*expr)), final(self).sym_table@, |c: tast::Call| TExpr {
                kind: TExprKind::Call { callee: Box::new(c.callee@), args: texprs(c.args@), ty: c.ty@ },
                ty: c.ty@,
            }),
        decreases expr, 1nat,
    {
        proof { unfold_check_expr(self.sym_table@, expr_view(*expr)); }
        let (callee, args_ast) = match &expr.kind {
            ast::ExprKind::Call { callee, args } => (callee, args),
            _ => {
                proof { assert(false); }
                return Err(self.err(String::new(), expr.span));
            },
        };
        let ghost s0 = self.sym_table@;
        let ghost es = exprs_view(args_ast@);
        let mut args: Vec<tast::Expr> = Vec::new();
        let mut i: usize = 0;
        proof {
            assert(es.take(0) =~= Seq::<ast::SpecExpr>::empty());
            assert(texprs(args@) =~= Seq::<TExpr>::empty());
            unfold_check_exprs(s0, es.take(0));
        }
        while i < args_ast.len()
            invariant
                i <= args_ast@.len(),
                es == exprs_view(args_ast@),
                !(check_exprs(s0, es).1 is Bug),
                check_exprs(s0, es.take(i as int)) == (self.sym_table@, Outcome::Done(texprs(args@))),
            decreases args_ast@.len() - i,
        {
            proof {
                assert(decreases_to!(*expr => args_ast@[i as int]));
                assert(es.take(i + 1).drop_last() =~= es.take(i as int));
                unfold_check_exprs(s0, es.take(i + 1));
                assert(es.take(i + 1).last() == expr_view(args_ast@[i as int]));
                if check_exprs(s0, es.take(i + 1)).1 is Bug {
                    lemma_check_exprs_stop(s0, es, i + 1);
                }
            }
            match self.check_expr(&args_ast[i]) {
                Ok(a) => {
                    let ghost before = args@;
                    args.push(a);
                    proof { assert(texprs(args@) =~= texprs(before).push(a@)); }
                },
                Err(e) => {
                    proof { lemma_check_exprs_stop(s0, es, i + 1); }
                    return Err(e);
                },
            }
            i = i + 1;
        }
        proof { assert(es.take(args_ast@.len() as int) =~= es); }
        let ghost targs = texprs(args@);
        match &callee.kind {
            ast::ExprKind::Identifier(identifier) => {
                proof { assert(expr_view(**callee).kind == ast::SpecExprKind::Identifier(*identifier)); }
                let name = &identifier.value;
                let first_param_ty: Option<Ty> = if args.len() > 0 { Some(args[0].ty.duplicate()) } else { None };
                let (id, params_ty, ret_ty) = match self.sym_table.lookup_func(name.as_str(), first_param_ty) {
                    Some(sym) => (sym.id, duplicate_all(&sym.params_ty), sym.ret_ty.duplicate()),
                    None => {
                        let mut m = text("cannot find function `");
                        m.append(name.as_str());
                        m.append("`");
                        return Err(self.err(m, identifier.span));
                    },
                };
                let ghost ptys = sem_tys(params_ty@);
                proof { assert(ptys.len() == params_ty@.len()); }
                if args.len() != params_ty.len() {
                    let mut m = text("function `");
                    m.append(name.as_str());
                    m.append("` expects ");
                    push_decimal(&mut m, params_ty.len() as u64);
                    m.append(" argument(s), got ");
                    push_decimal(&mut m, args.len() as u64);
                    return Err(self.err(m, callee.span));
                }
                let mut context = text("type mismatch in call to `");
                context.append(name.as_str());
                context.append("`");
                let mut j: usize = 0;
                while j < args.len()
                    invariant
                        j <= args@.len() == params_ty@.len(),
                        ptys == sem_tys(params_ty@),
                        targs == texprs(args@),
                        first_mismatch(ptys, targs, j as nat, callee.span, context@) is None,
                    decreases args@.len() - j,
                {
                    match self.expect_eq(&params_ty[j], &args[j].ty, callee.span, context.clone()) {
                        Ok(()) => {},
                        Err(e) => {
                            proof { lemma_first_mismatch_stop(ptys, targs, (j + 1) as nat, args@.len() as nat, callee.span, context@); }
                            return Err(e);
                        },
                    }
                    j = j + 1;
                }
                let callee_expr = tast::Expr {
                    kind: tast::ExprKind::Func { id },
                    ty: Ty::Func { params: params_ty, ret: Box::new(ret_ty.duplicate()) },
                };
                Ok(tast::Call { callee: Box::new(callee_expr), args, ty: ret_ty })
            },
            _ => {
                proof { assert(!(expr_view(**callee).kind is Identifier)); }
                Err(self.err(text("only call on identifier is supported"), callee.span))
            },
        }
    }
}

} // verus!
