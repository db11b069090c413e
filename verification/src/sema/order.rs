//! The order of the top-level statements does not decide whether a program checks: every
//! declaration is made before any body is checked, and a body's check depends on what is
//! declared, not on the numbers the declarations got.
use vstd::prelude::*;
use crate::parser::ast::{SpecBlock, SpecExpr, SpecExprKind, SpecFuncStmt, SpecLetStmt, SpecParam, SpecStmt, SpecStructStmt};
use super::ty::SemTy;
use crate::parser::ast::SpecProgram;
use super::symbols::{
    define_func, FuncSym, SymState, empty_state, enter_func, enter_scope, exit_scope, find, first_ty, get, lemma_find,
    lemma_find_push, lookup_func, pascal_case, snake_case,
};
use super::finish::{declares_func, lemma_register, lemma_register_declares};
use super::rules::{
    Outcome, SemErr, bind_var, binding_ty, block_ty, call_of, check_block, check_expr, check_exprs,
    check_func, check_let, check_stmt, check_stmts, check_struct, define_params, first_mismatch,
    check_program, law_check_stmts_keeps, register_stmt, register_stmts, resolve_params, resolve_ret,
    resolve_ty, unfold_check_block, unfold_check_expr, unfold_check_exprs, unfold_check_func,
    unfold_check_let, unfold_check_stmt, unfold_check_stmts,
};
use super::tast::{TExpr, TStmt};

verus! {

/// Two lookups find the same signature, or both find nothing.
pub open spec fn same_sig(a: Option<FuncSym>, b: Option<FuncSym>) -> bool {
    match (a, b) {
        (Some(x), Some(y)) => x.params == y.params && x.ret == y.ret,
        (None, None) => true,
        _ => false,
    }
}

/// `s` and `t` declare the same functions (numbers aside) and struct names, and have the
/// same scopes.
pub open spec fn same_decls(s: SymState, t: SymState) -> bool {
    &&& forall|n: Seq<char>, f: Option<SemTy>| #![trigger lookup_func(s, n, f)] #![trigger lookup_func(t, n, f)]
            same_sig(lookup_func(s, n, f), lookup_func(t, n, f))
    &&& forall|n: Seq<char>| #![trigger get(s.struct_ids, n)] #![trigger get(t.struct_ids, n)]
            (get(s.struct_ids, n) is Some) == (get(t.struct_ids, n) is Some)
    &&& s.scopes == t.scopes
}

/// As `same_decls`, with the same next variable number too.
pub open spec fn alike(s: SymState, t: SymState) -> bool {
    same_decls(s, t) && s.local_id == t.local_id
}

/// Two outcomes end alike: values of the same shape, the same error, or both at the bug.
pub open spec fn same_end<A, B>(a: Outcome<A>, b: Outcome<A>, shape: spec_fn(A) -> B) -> bool {
    match (a, b) {
        (Outcome::Done(x), Outcome::Done(y)) => shape(x) == shape(y),
        (Outcome::Error(e1), Outcome::Error(e2)) => e1 == e2,
        (Outcome::Bug, Outcome::Bug) => true,
        _ => false,
    }
}

/// Two checks end alike and, when done, leave alike states.
pub open spec fn parallel<A, B>(a: (SymState, Outcome<A>), b: (SymState, Outcome<A>), shape: spec_fn(A) -> B) -> bool {
    &&& same_end(a.1, b.1, shape)
    &&& a.1 is Done ==> alike(a.0, b.0)
}

pub open spec fn stmt_shape(t: TStmt) -> Option<SemTy> {
    if t is Expr { Some(t->Expr_0.ty) } else { None }
}

pub open spec fn stmts_shape(v: Seq<TStmt>) -> Seq<Option<SemTy>> {
    v.map_values(|t: TStmt| stmt_shape(t))
}

pub open spec fn exprs_shape(v: Seq<TExpr>) -> Seq<SemTy> {
    v.map_values(|e: TExpr| e.ty)
}

proof fn lemma_block_ty_shape(v: Seq<TStmt>, w: Seq<TStmt>)
    requires
        stmts_shape(v) == stmts_shape(w),
    ensures
        block_ty(v) == block_ty(w),
{
    assert(v.len() == stmts_shape(v).len() && w.len() == stmts_shape(w).len());
    if v.len() > 0 {
        assert(stmts_shape(v)[v.len() - 1] == stmts_shape(w)[w.len() - 1]);
    }
}

proof fn lemma_first_mismatch_shape(params: Seq<SemTy>, a: Seq<TExpr>, b: Seq<TExpr>, n: nat, span: crate::common::span::Span, context: Seq<char>)
    requires
        n <= a.len(),
        exprs_shape(a) == exprs_shape(b),
    ensures
        first_mismatch(params, a, n, span, context) == first_mismatch(params, b, n, span, context),
    decreases n,
{
    if n > 0 {
        lemma_first_mismatch_shape(params, a, b, (n - 1) as nat, span, context);
        assert(a.len() == exprs_shape(a).len() && b.len() == exprs_shape(b).len());
        assert(exprs_shape(a)[n - 1] == a[n - 1].ty);
        assert(exprs_shape(b)[n - 1] == b[n - 1].ty);
    }
}

/// States that keep the declarations of two that declare the same, and share scopes,
/// declare the same.
proof fn lemma_same_decls_frame(s: SymState, t: SymState, s2: SymState, t2: SymState)
    requires
        same_decls(s, t),
        s2.funcs == s.funcs,
        t2.funcs == t.funcs,
        s2.struct_ids == s.struct_ids,
        t2.struct_ids == t.struct_ids,
        s2.scopes == t2.scopes,
    ensures
        same_decls(s2, t2),
{
    assert forall|m: Seq<char>, g: Option<SemTy>| #![trigger lookup_func(s2, m, g)] #![trigger lookup_func(t2, m, g)]
        same_sig(lookup_func(s2, m, g), lookup_func(t2, m, g)) by {
        assert(same_sig(lookup_func(s, m, g), lookup_func(t, m, g)));
    }
    assert forall|m: Seq<char>| #![trigger get(s2.struct_ids, m)] #![trigger get(t2.struct_ids, m)]
        (get(s2.struct_ids, m) is Some) == (get(t2.struct_ids, m) is Some) by {
        assert((get(s.struct_ids, m) is Some) == (get(t.struct_ids, m) is Some));
    }
}

proof fn lemma_bind_var_alike(s: SymState, t: SymState, name: crate::parser::ast::Identifier, ty: SemTy)
    requires
        alike(s, t),
    ensures
        parallel(bind_var(s, name, ty), bind_var(t, name, ty), |id: u64| id),
{
    let s2 = bind_var(s, name, ty).0;
    let t2 = bind_var(t, name, ty).0;
    if bind_var(s, name, ty).1 is Done {
        lemma_same_decls_frame(s, t, s2, t2);
    }
}

proof fn lemma_define_params_alike(s: SymState, t: SymState, ps: Seq<SpecParam>, tys: Seq<SemTy>, n: nat)
    requires
        alike(s, t),
    ensures
        parallel(define_params(s, ps, tys, n), define_params(t, ps, tys, n), |v: Seq<super::tast::TSlot>| v),
    decreases n,
{
    if n > 0 {
        lemma_define_params_alike(s, t, ps, tys, (n - 1) as nat);
        let (s1, o1) = define_params(s, ps, tys, (n - 1) as nat);
        let (t1, o2) = define_params(t, ps, tys, (n - 1) as nat);
        if o1 is Done {
            lemma_bind_var_alike(s1, t1, ps[n - 1].name, tys[n - 1]);
        }
    }
}

proof fn lemma_struct_alike(s: SymState, t: SymState, st: SpecStructStmt)
    requires
        same_decls(s, t),
    ensures
        same_end(check_struct(s, st).1, check_struct(t, st).1, |x: super::tast::TStruct| ()),
        check_struct(s, st).1 is Done ==> same_decls(check_struct(s, st).0, check_struct(t, st).0)
            && check_struct(s, st).0.local_id == s.local_id && check_struct(t, st).0.local_id == t.local_id,
{
    assert((get(s.struct_ids, st.name.value@) is Some) == (get(t.struct_ids, st.name.value@) is Some));
    let s1 = check_struct(s, st).0;
    let t1 = check_struct(t, st).0;
    assert forall|n: Seq<char>, f: Option<SemTy>| #![trigger lookup_func(s1, n, f)] #![trigger lookup_func(t1, n, f)]
        same_sig(lookup_func(s1, n, f), lookup_func(t1, n, f)) by {
        assert(same_sig(lookup_func(s, n, f), lookup_func(t, n, f)));
    }
    assert forall|n: Seq<char>| #![trigger get(s1.struct_ids, n)] #![trigger get(t1.struct_ids, n)]
        (get(s1.struct_ids, n) is Some) == (get(t1.struct_ids, n) is Some) by {
        assert((get(s.struct_ids, n) is Some) == (get(t.struct_ids, n) is Some));
    }
}

proof fn lemma_alike_stmt(s: SymState, t: SymState, st: SpecStmt)
    requires
        alike(s, t),
    ensures
        parallel(check_stmt(s, st), check_stmt(t, st), |x: TStmt| stmt_shape(x)),
    decreases st,
{
    unfold_check_stmt(s, st);
    unfold_check_stmt(t, st);
    match st {
        SpecStmt::Func(f) => { law_func_alike(s, t, f); },
        SpecStmt::Struct(x) => { lemma_struct_alike(s, t, x); },
        SpecStmt::Let(l) => { lemma_alike_let(s, t, l); },
        SpecStmt::Var(l) => { lemma_alike_let(s, t, l); },
        SpecStmt::Type(_) => {},
        SpecStmt::Expr(e) => { lemma_alike_expr(s, t, e); },
    }
}

proof fn lemma_alike_stmts(s: SymState, t: SymState, ss: Seq<SpecStmt>)
    requires
        alike(s, t),
    ensures
        parallel(check_stmts(s, ss), check_stmts(t, ss), |v: Seq<TStmt>| stmts_shape(v)),
    decreases ss,
{
    unfold_check_stmts(s, ss);
    unfold_check_stmts(t, ss);
    if ss.len() > 0 {
        lemma_alike_stmts(s, t, ss.drop_last());
        let (s1, o1) = check_stmts(s, ss.drop_last());
        let (t1, o2) = check_stmts(t, ss.drop_last());
        if o1 is Done {
            lemma_alike_stmt(s1, t1, ss.last());
            let v = o1->Done_0;
            let w = o2->Done_0;
            if check_stmt(s1, ss.last()).1 is Done {
                let x = check_stmt(s1, ss.last()).1->Done_0;
                let y = check_stmt(t1, ss.last()).1->Done_0;
                assert(stmts_shape(v.push(x)) =~= stmts_shape(v).push(stmt_shape(x)));
                assert(stmts_shape(w.push(y)) =~= stmts_shape(w).push(stmt_shape(y)));
            }
        }
    }
}

/// A function body checks alike in two states that declare the same, whatever the next
/// variable number: the body starts its own numbering.
pub proof fn law_func_alike(s: SymState, t: SymState, f: SpecFuncStmt)
    requires
        same_decls(s, t),
    ensures
        parallel(check_func(s, f), check_func(t, f), |x: super::tast::TFunc| ()),
    decreases f,
{
    unfold_check_func(s, f);
    unfold_check_func(t, f);
    let name = f.name.value@;
    let first = if f.params.len() > 0 {
        match resolve_ty(f.params[0].ty->Some_0) {
            Ok(ty) => Ok(Some(ty)),
            Err(e) => Err(e),
        }
    } else {
        Ok(None)
    };
    if !(f.params.len() > 0 && f.params[0].ty is None) && first is Ok {
        let fst = first->Ok_0;
        assert(same_sig(lookup_func(s, name, fst), lookup_func(t, name, fst)));
        match lookup_func(s, name, fst) {
            Some(sym) => {
                let sym2 = lookup_func(t, name, fst)->Some_0;
                let n = if f.params.len() < sym.params.len() { f.params.len() } else { sym.params.len() };
                let s1 = enter_func(s);
                let t1 = enter_func(t);
                assert(alike(s1, t1)) by {
                    assert forall|m: Seq<char>, g: Option<SemTy>| #![trigger lookup_func(s1, m, g)] #![trigger lookup_func(t1, m, g)]
                        same_sig(lookup_func(s1, m, g), lookup_func(t1, m, g)) by {
                        assert(same_sig(lookup_func(s, m, g), lookup_func(t, m, g)));
                    }
                    assert forall|m: Seq<char>| #![trigger get(s1.struct_ids, m)] #![trigger get(t1.struct_ids, m)]
                        (get(s1.struct_ids, m) is Some) == (get(t1.struct_ids, m) is Some) by {
                        assert((get(s.struct_ids, m) is Some) == (get(t.struct_ids, m) is Some));
                    }
                }
                lemma_define_params_alike(s1, t1, f.params, sym.params, n);
                let (s2, po) = define_params(s1, f.params, sym.params, n);
                let (t2, qo) = define_params(t1, f.params, sym.params, n);
                if po is Done {
                    lemma_alike_block(s2, t2, f.body);
                    let (s3, bo) = check_block(s2, f.body);
                    let (t3, co) = check_block(t2, f.body);
                    if bo is Done {
                        let s4 = exit_scope(s3);
                        let t4 = exit_scope(t3);
                        assert(alike(s4, t4)) by {
                            assert forall|m: Seq<char>, g: Option<SemTy>| #![trigger lookup_func(s4, m, g)] #![trigger lookup_func(t4, m, g)]
                                same_sig(lookup_func(s4, m, g), lookup_func(t4, m, g)) by {
                                assert(same_sig(lookup_func(s3, m, g), lookup_func(t3, m, g)));
                            }
                            assert forall|m: Seq<char>| #![trigger get(s4.struct_ids, m)] #![trigger get(t4.struct_ids, m)]
                                (get(s4.struct_ids, m) is Some) == (get(t4.struct_ids, m) is Some) by {
                                assert((get(s3.struct_ids, m) is Some) == (get(t3.struct_ids, m) is Some));
                            }
                        }
                    }
                }
            },
            None => {},
        }
    }
}

proof fn lemma_alike_let(s: SymState, t: SymState, l: SpecLetStmt)
    requires
        alike(s, t),
    ensures
        parallel(check_let(s, l), check_let(t, l), |x: super::tast::TLet| ()),
    decreases l,
{
    unfold_check_let(s, l);
    unfold_check_let(t, l);
    lemma_alike_expr(s, t, l.value);
    let (s1, vo) = check_expr(s, l.value);
    let (t1, wo) = check_expr(t, l.value);
    if vo is Done {
        let v = vo->Done_0;
        let w = wo->Done_0;
        assert(binding_ty(l.ty, v, l.name) == binding_ty(l.ty, w, l.name));
        if binding_ty(l.ty, v, l.name) is Ok {
            lemma_bind_var_alike(s1, t1, l.name, binding_ty(l.ty, v, l.name)->Ok_0);
        }
    }
}

proof fn lemma_alike_block(s: SymState, t: SymState, b: SpecBlock)
    requires
        alike(s, t),
    ensures
        parallel(check_block(s, b), check_block(t, b), |x: super::tast::TBlock| (x.ty, x.span)),
    decreases b,
{
    unfold_check_block(s, b);
    unfold_check_block(t, b);
    let s0 = enter_scope(s);
    let t0 = enter_scope(t);
    assert(alike(s0, t0)) by {
        assert forall|m: Seq<char>, g: Option<SemTy>| #![trigger lookup_func(s0, m, g)] #![trigger lookup_func(t0, m, g)]
            same_sig(lookup_func(s0, m, g), lookup_func(t0, m, g)) by {
            assert(same_sig(lookup_func(s, m, g), lookup_func(t, m, g)));
        }
        assert forall|m: Seq<char>| #![trigger get(s0.struct_ids, m)] #![trigger get(t0.struct_ids, m)]
            (get(s0.struct_ids, m) is Some) == (get(t0.struct_ids, m) is Some) by {
            assert((get(s.struct_ids, m) is Some) == (get(t.struct_ids, m) is Some));
        }
    }
    lemma_alike_stmts(s0, t0, b.stmts);
    let (s1, o1) = check_stmts(s0, b.stmts);
    let (t1, o2) = check_stmts(t0, b.stmts);
    if o1 is Done {
        lemma_block_ty_shape(o1->Done_0, o2->Done_0);
        let s2 = exit_scope(s1);
        let t2 = exit_scope(t1);
        assert(alike(s2, t2)) by {
            assert forall|m: Seq<char>, g: Option<SemTy>| #![trigger lookup_func(s2, m, g)] #![trigger lookup_func(t2, m, g)]
                same_sig(lookup_func(s2, m, g), lookup_func(t2, m, g)) by {
                assert(same_sig(lookup_func(s1, m, g), lookup_func(t1, m, g)));
            }
            assert forall|m: Seq<char>| #![trigger get(s2.struct_ids, m)] #![trigger get(t2.struct_ids, m)]
                (get(s2.struct_ids, m) is Some) == (get(t2.struct_ids, m) is Some) by {
                assert((get(s1.struct_ids, m) is Some) == (get(t1.struct_ids, m) is Some));
            }
        }
    }
}

proof fn lemma_alike_exprs(s: SymState, t: SymState, es: Seq<SpecExpr>)
    requires
        alike(s, t),
    ensures
        parallel(check_exprs(s, es), check_exprs(t, es), |v: Seq<TExpr>| exprs_shape(v)),
    decreases es,
{
    unfold_check_exprs(s, es);
    unfold_check_exprs(t, es);
    if es.len() > 0 {
        lemma_alike_exprs(s, t, es.drop_last());
        let (s1, o1) = check_exprs(s, es.drop_last());
        let (t1, o2) = check_exprs(t, es.drop_last());
        if o1 is Done {
            lemma_alike_expr(s1, t1, es.last());
            let v = o1->Done_0;
            let w = o2->Done_0;
            if check_expr(s1, es.last()).1 is Done {
                let x = check_expr(s1, es.last()).1->Done_0;
                let y = check_expr(t1, es.last()).1->Done_0;
                assert(exprs_shape(v.push(x)) =~= exprs_shape(v).push(x.ty));
                assert(exprs_shape(w.push(y)) =~= exprs_shape(w).push(y.ty));
            }
        }
    }
}

proof fn lemma_call_alike(s: SymState, t: SymState, callee: SpecExpr, a: Seq<TExpr>, b: Seq<TExpr>)
    requires
        alike(s, t),
        exprs_shape(a) == exprs_shape(b),
    ensures
        parallel(call_of(s, callee, a), call_of(t, callee, b), |x: TExpr| x.ty),
{
    assert(a.len() == exprs_shape(a).len() && b.len() == exprs_shape(b).len());
    if a.len() > 0 {
        assert(exprs_shape(a)[0] == a[0].ty);
        assert(exprs_shape(b)[0] == b[0].ty);
    }
    match callee.kind {
        SpecExprKind::Identifier(ident) => {
            let first = if a.len() > 0 { Some(a[0].ty) } else { None };
            assert(same_sig(lookup_func(s, ident.value@, first), lookup_func(t, ident.value@, first)));
            match lookup_func(s, ident.value@, first) {
                Some(sym) => {
                    lemma_first_mismatch_shape(sym.params, a, b, a.len(), callee.span, "type mismatch in call to `"@ + ident.value@ + "`"@);
                },
                None => {},
            }
        },
        _ => {},
    }
}

proof fn lemma_alike_expr(s: SymState, t: SymState, e: SpecExpr)
    requires
        alike(s, t),
    ensures
        parallel(check_expr(s, e), check_expr(t, e), |x: TExpr| x.ty),
    decreases e,
{
    unfold_check_expr(s, e);
    unfold_check_expr(t, e);
    match e.kind {
        SpecExprKind::Block(b) => { lemma_alike_block(s, t, b); },
        SpecExprKind::BinaryOp { op, left, right } => {
            lemma_alike_expr(s, t, *left);
            let (s1, lo) = check_expr(s, *left);
            let (t1, mo) = check_expr(t, *left);
            if lo is Done {
                lemma_alike_expr(s1, t1, *right);
            }
        },
        SpecExprKind::Call { callee, args } => {
            lemma_alike_exprs(s, t, args);
            let (s1, ao) = check_exprs(s, args);
            let (t1, bo) = check_exprs(t, args);
            if ao is Done {
                lemma_call_alike(s1, t1, *callee, ao->Done_0, bo->Done_0);
            }
        },
        _ => {},
    }
}

// ---- the first pass does not depend on the order ----

/// The key a function is declared under.
pub open spec fn func_key(f: SpecFuncStmt) -> (Seq<char>, Option<SemTy>) {
    (f.name.value@, first_ty(resolve_params(f.params)->Ok_0))
}

/// A top-level statement that can be declared on its own.
pub open spec fn stmt_ok(st: SpecStmt) -> bool {
    match st {
        SpecStmt::Func(f) => resolve_params(f.params) is Ok && resolve_ret(f.ret) is Ok && snake_case(f.name.value@),
        SpecStmt::Struct(x) => x.ty_params.len() == 0 && pascal_case(x.name.value@),
        _ => false,
    }
}

/// Two declarations under one key.
pub open spec fn clash(a: SpecStmt, b: SpecStmt) -> bool {
    ||| a is Func && b is Func && func_key(a->Func_0) == func_key(b->Func_0)
    ||| a is Struct && b is Struct && a->Struct_0.name.value@ == b->Struct_0.name.value@
}

/// The first pass succeeds: each statement can be declared and no two share a key.
pub open spec fn registrable(ss: Seq<SpecStmt>) -> bool {
    &&& forall|i: int| 0 <= i < ss.len() ==> stmt_ok(#[trigger] ss[i])
    &&& forall|i: int, j: int| 0 <= i < j < ss.len() ==> !clash(#[trigger] ss[i], #[trigger] ss[j])
}

/// Every function found in `t` is declared by a function statement of `ss`.
pub open spec fn funcs_from(t: SymState, ss: Seq<SpecStmt>) -> bool {
    forall|n: Seq<char>, fst: Option<SemTy>| #[trigger] lookup_func(t, n, fst) is Some ==>
        exists|i: int| 0 <= i < ss.len() && #[trigger] ss[i] is Func && func_key(ss[i]->Func_0) == (n, fst)
}

/// Every struct name found in `t` is declared by a struct statement of `ss`.
pub open spec fn structs_from(t: SymState, ss: Seq<SpecStmt>) -> bool {
    forall|n: Seq<char>| #[trigger] get(t.struct_ids, n) is Some ==>
        exists|i: int| 0 <= i < ss.len() && #[trigger] ss[i] is Struct && ss[i]->Struct_0.name.value@ == n
}

/// The facts of the first pass over `ss`, when it succeeds.
pub open spec fn register_facts(ss: Seq<SpecStmt>) -> bool {
    (register_stmts(empty_state(), ss).1 is Done) == registrable(ss)
        && (register_stmts(empty_state(), ss).1 is Done ==> {
            let t = register_stmts(empty_state(), ss).0;
            funcs_from(t, ss) && structs_from(t, ss)
        })
}

proof fn lemma_from_after_func(s1: SymState, t: SymState, ss: Seq<SpecStmt>, x: ((Seq<char>, Option<SemTy>), FuncSym))
    requires
        ss.len() > 0,
        funcs_from(s1, ss.drop_last()),
        structs_from(s1, ss.drop_last()),
        t == (SymState { funcs: s1.funcs.push(x), ..s1 }),
        ss.last() is Func,
        x.0 == func_key(ss.last()->Func_0),
    ensures
        funcs_from(t, ss),
        structs_from(t, ss),
{
    let init = ss.drop_last();
    let k = ss.len() - 1;
    assert(ss.last() == ss[k]);
    assert forall|n: Seq<char>, fst: Option<SemTy>| #[trigger] lookup_func(t, n, fst) is Some implies
        exists|i: int| 0 <= i < ss.len() && #[trigger] ss[i] is Func && func_key(ss[i]->Func_0) == (n, fst) by {
        lemma_find_push(s1.funcs, x, (n, fst));
        if lookup_func(s1, n, fst) is Some {
            let i = choose|i: int| 0 <= i < init.len() && #[trigger] init[i] is Func && func_key(init[i]->Func_0) == (n, fst);
            assert(ss[i] == init[i]);
        } else {
            assert(ss[k] is Func && func_key(ss[k]->Func_0) == (n, fst));
        }
    }
    assert forall|n: Seq<char>| #[trigger] get(t.struct_ids, n) is Some implies
        exists|i: int| 0 <= i < ss.len() && #[trigger] ss[i] is Struct && ss[i]->Struct_0.name.value@ == n by {
        let i = choose|i: int| 0 <= i < init.len() && #[trigger] init[i] is Struct && init[i]->Struct_0.name.value@ == n;
        assert(ss[i] == init[i]);
    }
}

proof fn lemma_from_after_struct(s1: SymState, t: SymState, ss: Seq<SpecStmt>, y: (Seq<char>, u64))
    requires
        ss.len() > 0,
        funcs_from(s1, ss.drop_last()),
        structs_from(s1, ss.drop_last()),
        t == (SymState { struct_ids: s1.struct_ids.push(y), ..s1 }),
        ss.last() is Struct,
        y.0 == ss.last()->Struct_0.name.value@,
    ensures
        funcs_from(t, ss),
        structs_from(t, ss),
{
    let init = ss.drop_last();
    let k = ss.len() - 1;
    assert(ss.last() == ss[k]);
    assert forall|n: Seq<char>, fst: Option<SemTy>| #[trigger] lookup_func(t, n, fst) is Some implies
        exists|i: int| 0 <= i < ss.len() && #[trigger] ss[i] is Func && func_key(ss[i]->Func_0) == (n, fst) by {
        assert(lookup_func(s1, n, fst) is Some);
        let i = choose|i: int| 0 <= i < init.len() && #[trigger] init[i] is Func && func_key(init[i]->Func_0) == (n, fst);
        assert(ss[i] == init[i]);
    }
    assert forall|n: Seq<char>| #[trigger] get(t.struct_ids, n) is Some implies
        exists|i: int| 0 <= i < ss.len() && #[trigger] ss[i] is Struct && ss[i]->Struct_0.name.value@ == n by {
        lemma_find_push(s1.struct_ids, y, n);
        if get(s1.struct_ids, n) is Some {
            let i = choose|i: int| 0 <= i < init.len() && #[trigger] init[i] is Struct && init[i]->Struct_0.name.value@ == n;
            assert(ss[i] == init[i]);
        } else {
            assert(ss[k] is Struct && ss[k]->Struct_0.name.value@ == n);
        }
    }
}

#[verifier::rlimit(40)]
#[verifier::spinoff_prover]
proof fn lemma_register_step_func(ss: Seq<SpecStmt>)
    requires
        ss.len() > 0,
        ss.last() is Func,
        register_facts(ss.drop_last()),
        register_stmts(empty_state(), ss.drop_last()).1 is Done,
    ensures
        register_facts(ss),
{
    let e = empty_state();
    let init = ss.drop_last();
    let k = ss.len() - 1;
    let f = ss.last()->Func_0;
    assert(ss.last() == ss[k]);
    assert forall|i: int| 0 <= i < init.len() implies #[trigger] init[i] == ss[i] by {}
    let (s1, o) = register_stmts(e, init);
    lemma_register_declares(e, init);
    assert(register_stmts(e, ss) == register_stmt(s1, ss[k]));
    if !stmt_ok(ss[k]) {
        assert(!(register_stmt(s1, ss[k]).1 is Done));
    } else {
        let ps = resolve_params(f.params)->Ok_0;
        let r = resolve_ret(f.ret)->Ok_0;
        let key = func_key(f);
        lemma_find(s1.funcs, key);
        assert(register_stmt(s1, ss[k]) == (match define_func(s1, f.name.value@, ps, r).1 {
            Ok(_) => (define_func(s1, f.name.value@, ps, r).0, Outcome::Done(())),
            Err(m) => (define_func(s1, f.name.value@, ps, r).0, super::rules::error(m, f.name.span)),
        }));
        if exists|i: int| 0 <= i < init.len() && #[trigger] init[i] is Func && func_key(init[i]->Func_0) == key {
            let i = choose|i: int| 0 <= i < init.len() && #[trigger] init[i] is Func && func_key(init[i]->Func_0) == key;
            assert(declares_func(s1, init[i]->Func_0));
            assert(find(s1.funcs, key) is Some);
            assert(!(register_stmt(s1, ss[k]).1 is Done));
            assert(clash(ss[i], ss[k]));
        } else {
            assert(lookup_func(s1, key.0, key.1) is None);
            assert(find(s1.funcs, key) is None);
            assert(register_stmts(e, ss).0 == SymState { funcs: s1.funcs.push((key, FuncSym { id: s1.funcs.len() as u64, params: ps, ret: r })), ..s1 });
            assert forall|i: int, j: int| 0 <= i < j < ss.len() implies !clash(#[trigger] ss[i], #[trigger] ss[j]) by {
                if j < k {
                    assert(init[i] == ss[i] && init[j] == ss[j]);
                } else {
                    assert(init[i] == ss[i]);
                }
            }
            assert forall|i: int| 0 <= i < ss.len() implies stmt_ok(#[trigger] ss[i]) by {
                if i < k {
                    assert(init[i] == ss[i]);
                }
            }
            let x = (key, FuncSym { id: s1.funcs.len() as u64, params: ps, ret: r });
            lemma_from_after_func(s1, register_stmts(e, ss).0, ss, x);
        }
    }
}

#[verifier::rlimit(40)]
#[verifier::spinoff_prover]
proof fn lemma_register_step_struct(ss: Seq<SpecStmt>)
    requires
        ss.len() > 0,
        ss.last() is Struct,
        register_facts(ss.drop_last()),
        register_stmts(empty_state(), ss.drop_last()).1 is Done,
    ensures
        register_facts(ss),
{
    let e = empty_state();
    let init = ss.drop_last();
    let k = ss.len() - 1;
    let x = ss.last()->Struct_0;
    assert(ss.last() == ss[k]);
    assert forall|i: int| 0 <= i < init.len() implies #[trigger] init[i] == ss[i] by {}
    let (s1, o) = register_stmts(e, init);
    lemma_register(e, init);
    assert(register_stmts(e, ss) == register_stmt(s1, ss[k]));
    if !stmt_ok(ss[k]) {
        assert(!(register_stmt(s1, ss[k]).1 is Done));
    } else {
        let name = x.name.value@;
        lemma_find(s1.struct_ids, name);
        if exists|i: int| 0 <= i < init.len() && #[trigger] init[i] is Struct && init[i]->Struct_0.name.value@ == name {
            let i = choose|i: int| 0 <= i < init.len() && #[trigger] init[i] is Struct && init[i]->Struct_0.name.value@ == name;
            assert(get(s1.struct_ids, name) is Some);
            assert(!(register_stmt(s1, ss[k]).1 is Done));
            assert(clash(ss[i], ss[k]));
        } else {
            assert(get(s1.struct_ids, name) is None);
            assert(register_stmts(e, ss).0 == SymState { struct_ids: s1.struct_ids.push((name, s1.struct_ids.len() as u64)), ..s1 });
            assert forall|i: int, j: int| 0 <= i < j < ss.len() implies !clash(#[trigger] ss[i], #[trigger] ss[j]) by {
                if j < k {
                    assert(init[i] == ss[i] && init[j] == ss[j]);
                } else {
                    assert(init[i] == ss[i]);
                }
            }
            assert forall|i: int| 0 <= i < ss.len() implies stmt_ok(#[trigger] ss[i]) by {
                if i < k {
                    assert(init[i] == ss[i]);
                }
            }
            lemma_from_after_struct(s1, register_stmts(e, ss).0, ss, (name, s1.struct_ids.len() as u64));
        }
    }
}

proof fn lemma_register_char(ss: Seq<SpecStmt>)
    ensures
        register_facts(ss),
    decreases ss.len(),
{
    let e = empty_state();
    if ss.len() == 0 {
        assert forall|n: Seq<char>, fst: Option<SemTy>| #[trigger] lookup_func(e, n, fst) is None by {}
        assert forall|n: Seq<char>| #[trigger] get(e.struct_ids, n) is None by {}
    } else {
        let init = ss.drop_last();
        let k = ss.len() - 1;
        assert(ss.last() == ss[k]);
        lemma_register_char(init);
        assert forall|i: int| 0 <= i < init.len() implies #[trigger] init[i] == ss[i] by {}
        if register_stmts(e, init).1 is Done {
            if ss.last() is Func {
                lemma_register_step_func(ss);
            } else if ss.last() is Struct {
                lemma_register_step_struct(ss);
            } else {
                assert(!stmt_ok(ss[k]));
            }
        } else {
            if registrable(ss) {
                assert forall|i: int, j: int| 0 <= i < j < init.len() implies !clash(#[trigger] init[i], #[trigger] init[j]) by {
                    assert(init[i] == ss[i] && init[j] == ss[j]);
                }
                assert forall|i: int| 0 <= i < init.len() implies stmt_ok(#[trigger] init[i]) by {
                    assert(init[i] == ss[i]);
                }
            }
        }
    }
}

/// `b` holds the statements of `a` in another order: `b[i]` is `a[f(i)]`, and `g` undoes `f`.
pub open spec fn reorders(a: Seq<SpecStmt>, b: Seq<SpecStmt>, f: spec_fn(int) -> int, g: spec_fn(int) -> int) -> bool {
    &&& a.len() == b.len()
    &&& forall|i: int| 0 <= i < b.len() ==> 0 <= #[trigger] f(i) < a.len() && b[i] == a[f(i)] && g(f(i)) == i
    &&& forall|j: int| 0 <= j < a.len() ==> 0 <= #[trigger] g(j) < b.len() && f(g(j)) == j
}

proof fn lemma_reorders_back(a: Seq<SpecStmt>, b: Seq<SpecStmt>, f: spec_fn(int) -> int, g: spec_fn(int) -> int)
    requires
        reorders(a, b, f, g),
    ensures
        reorders(b, a, g, f),
{
    assert forall|j: int| 0 <= j < a.len() implies 0 <= #[trigger] g(j) < b.len() && a[j] == b[g(j)] && f(g(j)) == j by {
        assert(b[g(j)] == a[f(g(j))]);
    }
}

proof fn lemma_registrable_reorder(a: Seq<SpecStmt>, b: Seq<SpecStmt>, f: spec_fn(int) -> int, g: spec_fn(int) -> int)
    requires
        reorders(a, b, f, g),
        registrable(a),
    ensures
        registrable(b),
{
    assert forall|i: int| 0 <= i < b.len() implies stmt_ok(#[trigger] b[i]) by {
        assert(b[i] == a[f(i)]);
    }
    assert forall|i: int, j: int| 0 <= i < j < b.len() implies !clash(#[trigger] b[i], #[trigger] b[j]) by {
        assert(b[i] == a[f(i)] && b[j] == a[f(j)]);
        assert(f(i) != f(j));
        if f(i) < f(j) {
            assert(!clash(a[f(i)], a[f(j)]));
        } else {
            assert(!clash(a[f(j)], a[f(i)]));
        }
    }
}

/// After the first pass on two orders of one list, the states declare the same.
proof fn lemma_register_reorder(a: Seq<SpecStmt>, b: Seq<SpecStmt>, f: spec_fn(int) -> int, g: spec_fn(int) -> int)
    requires
        reorders(a, b, f, g),
        register_stmts(empty_state(), a).1 is Done,
        register_stmts(empty_state(), b).1 is Done,
    ensures
        same_decls(register_stmts(empty_state(), a).0, register_stmts(empty_state(), b).0),
{
    let sa = register_stmts(empty_state(), a).0;
    let sb = register_stmts(empty_state(), b).0;
    lemma_reorders_back(a, b, f, g);
    lemma_register_char(a);
    lemma_register_char(b);
    lemma_register_declares(empty_state(), a);
    lemma_register_declares(empty_state(), b);
    lemma_register(empty_state(), a);
    lemma_register(empty_state(), b);
    assert forall|n: Seq<char>, fst: Option<SemTy>| #![trigger lookup_func(sa, n, fst)] #![trigger lookup_func(sb, n, fst)]
        same_sig(lookup_func(sa, n, fst), lookup_func(sb, n, fst)) by {
        if lookup_func(sa, n, fst) is Some {
            let i = choose|i: int| 0 <= i < a.len() && #[trigger] a[i] is Func && func_key(a[i]->Func_0) == (n, fst);
            assert(b[g(i)] == a[i]);
            assert(declares_func(sa, a[i]->Func_0));
            assert(declares_func(sb, b[g(i)]->Func_0));
        } else if lookup_func(sb, n, fst) is Some {
            let j = choose|j: int| 0 <= j < b.len() && #[trigger] b[j] is Func && func_key(b[j]->Func_0) == (n, fst);
            assert(a[f(j)] == b[j]);
            assert(declares_func(sa, a[f(j)]->Func_0));
        }
    }
    assert forall|n: Seq<char>| #![trigger get(sa.struct_ids, n)] #![trigger get(sb.struct_ids, n)]
        (get(sa.struct_ids, n) is Some) == (get(sb.struct_ids, n) is Some) by {
        if get(sa.struct_ids, n) is Some {
            let i = choose|i: int| 0 <= i < a.len() && #[trigger] a[i] is Struct && a[i]->Struct_0.name.value@ == n;
            assert(b[g(i)] == a[i]);
            assert(b[g(i)] is Struct);
        }
        if get(sb.struct_ids, n) is Some {
            let j = choose|j: int| 0 <= j < b.len() && #[trigger] b[j] is Struct && b[j]->Struct_0.name.value@ == n;
            assert(a[f(j)] == b[j]);
            assert(a[f(j)] is Struct);
        }
    }
}

// ---- the second pass checks each statement on its own ----

/// A top-level function or struct checks the same in two states that declare the same.
proof fn lemma_top_stmt_alike(s: SymState, t: SymState, st: SpecStmt)
    requires
        same_decls(s, t),
        st is Func || st is Struct,
    ensures
        (check_stmt(s, st).1 is Done) == (check_stmt(t, st).1 is Done),
{
    unfold_check_stmt(s, st);
    unfold_check_stmt(t, st);
    match st {
        SpecStmt::Func(f) => { law_func_alike(s, t, f); },
        SpecStmt::Struct(x) => { lemma_struct_alike(s, t, x); },
        _ => {},
    }
}

/// At the top level, the statements check exactly when each checks on its own from the
/// starting state.
proof fn lemma_top_stmts(s: SymState, ss: Seq<SpecStmt>)
    requires
        s.scopes.len() == 0,
        forall|i: int| 0 <= i < ss.len() ==> #[trigger] ss[i] is Func || ss[i] is Struct,
    ensures
        (check_stmts(s, ss).1 is Done) == (forall|i: int| 0 <= i < ss.len() ==> (#[trigger] check_stmt(s, ss[i])).1 is Done),
    decreases ss.len(),
{
    unfold_check_stmts(s, ss);
    if ss.len() > 0 {
        let init = ss.drop_last();
        let k = ss.len() - 1;
        assert forall|i: int| 0 <= i < init.len() implies #[trigger] init[i] is Func || init[i] is Struct by {
            assert(init[i] == ss[i]);
        }
        lemma_top_stmts(s, init);
        let (s1, o) = check_stmts(s, init);
        if o is Done {
            law_check_stmts_keeps(s, init);
            assert(s1.scopes =~= s.scopes);
            lemma_same_decls_frame(s, s, s1, s);
            assert(ss.last() == ss[k]);
            lemma_top_stmt_alike(s1, s, ss[k]);
            if check_stmt(s, ss[k]).1 is Done {
                assert forall|i: int| 0 <= i < ss.len() implies (#[trigger] check_stmt(s, ss[i])).1 is Done by {
                    if i < k {
                        assert(init[i] == ss[i]);
                    }
                }
            }
        } else {
            if forall|i: int| 0 <= i < ss.len() ==> (#[trigger] check_stmt(s, ss[i])).1 is Done {
                assert forall|i: int| 0 <= i < init.len() implies (#[trigger] check_stmt(s, init[i])).1 is Done by {
                    assert(init[i] == ss[i]);
                }
            }
        }
    }
}

proof fn lemma_same_decls_refl(s: SymState)
    ensures
        same_decls(s, s),
{
}

/// Reordering the top-level statements of a program does not change whether it checks:
/// every declaration is made before any body is checked.
pub proof fn law_check_program_order(p: SpecProgram, q: SpecProgram, f: spec_fn(int) -> int, g: spec_fn(int) -> int)
    requires
        reorders(p.stmts, q.stmts, f, g),
    ensures
        (check_program(p) is Done) == (check_program(q) is Done),
{
    let a = p.stmts;
    let b = q.stmts;
    lemma_reorders_back(a, b, f, g);
    lemma_register_char(a);
    lemma_register_char(b);
    if registrable(a) {
        lemma_registrable_reorder(a, b, f, g);
    }
    if registrable(b) {
        lemma_registrable_reorder(b, a, g, f);
    }
    let (sa, oa) = register_stmts(empty_state(), a);
    let (sb, ob) = register_stmts(empty_state(), b);
    if oa is Done {
        lemma_register(empty_state(), a);
        lemma_register(empty_state(), b);
        lemma_register_reorder(a, b, f, g);
        assert forall|i: int| 0 <= i < a.len() implies #[trigger] a[i] is Func || a[i] is Struct by {
            assert(stmt_ok(a[i]));
        }
        assert forall|i: int| 0 <= i < b.len() implies #[trigger] b[i] is Func || b[i] is Struct by {
            assert(stmt_ok(b[i]));
        }
        lemma_top_stmts(sa, a);
        lemma_top_stmts(sb, b);
        assert forall|i: int| 0 <= i < a.len() implies
            (#[trigger] check_stmt(sa, a[i])).1 is Done == check_stmt(sb, a[i]).1 is Done by {
            lemma_top_stmt_alike(sa, sb, a[i]);
        }
        if forall|i: int| 0 <= i < a.len() ==> (#[trigger] check_stmt(sa, a[i])).1 is Done {
            assert forall|j: int| 0 <= j < b.len() implies (#[trigger] check_stmt(sb, b[j])).1 is Done by {
                assert(b[j] == a[f(j)]);
                assert(check_stmt(sa, a[f(j)]).1 is Done);
            }
        }
        if forall|j: int| 0 <= j < b.len() ==> (#[trigger] check_stmt(sb, b[j])).1 is Done {
            assert forall|i: int| 0 <= i < a.len() implies (#[trigger] check_stmt(sa, a[i])).1 is Done by {
                assert(a[i] == b[g(i)]);
                assert(check_stmt(sb, b[g(i)]).1 is Done);
            }
        }
    }
}

} // verus!
