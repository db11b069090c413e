//! When the checker returns: it stops only at its own bug, and this names the programs
//! on which that cannot happen.
use vstd::prelude::*;
use crate::parser::ast;
use crate::parser::ast::{
    SpecBlock, SpecExpr, SpecExprKind, SpecFuncStmt, SpecLetStmt, SpecProgram, SpecStmt, block_view, expr_view,
    exprs_view, params_view, stmt_view, stmts_view,
};
use super::ty::SemTy;
use super::symbols::{
    SymState, define_func, empty_state, enter_scope, first_ty, get, law_define_func_keeps_others,
    law_define_func_then_lookup, lemma_find, lemma_find_push, lookup_func, funcs_keyed,
    law_table_keeps_keyed, law_lookup_func_key,
};
use super::rules::{expect_eq, first_mismatch};
use super::tast::TExpr;
use crate::common::span::Span;
use super::rules::{
    Outcome, bind_var, check_block, check_expr, check_exprs, check_func, check_let,
    check_program, check_stmt, check_stmts, check_struct, define_params, keeps,
    law_check_expr_keeps, law_check_exprs_keeps, law_check_stmts_keeps, register_stmt,
    register_stmts, resolve_params, resolve_ret, resolve_ty, unfold_check_block, unfold_check_expr, unfold_check_exprs,
    unfold_check_func, unfold_check_let, unfold_check_stmt, unfold_check_stmts,
};

verus! {

/// `a + b` when both are known.
pub open spec fn both(a: Option<nat>, b: Option<nat>) -> Option<nat> {
    match (a, b) {
        (Some(x), Some(y)) => Some(x + y),
        _ => None,
    }
}

/// How many variables the checker may declare in `st`, or `None` when it reaches a
/// struct declaration not named in `names` or a function whose first parameter has no
/// type.
pub open spec fn need_stmt(names: Set<Seq<char>>, st: SpecStmt) -> Option<nat>
    decreases st,
{
    match st {
        SpecStmt::Func(f) => need_func(names, f),
        SpecStmt::Struct(x) => if names.contains(x.name.value@) { Some(0) } else { None },
        SpecStmt::Let(l) => both(need_expr(names, l.value), Some(1)),
        SpecStmt::Var(l) => both(need_expr(names, l.value), Some(1)),
        SpecStmt::Type(_) => Some(0),
        SpecStmt::Expr(e) => need_expr(names, e),
    }
}

pub open spec fn need_func(names: Set<Seq<char>>, f: SpecFuncStmt) -> Option<nat>
    decreases f,
{
    if f.params.len() > 0 && f.params[0].ty is None {
        None
    } else {
        both(Some(f.params.len()), need_block(names, f.body))
    }
}

pub open spec fn need_stmts(names: Set<Seq<char>>, ss: Seq<SpecStmt>) -> Option<nat>
    decreases ss,
{
    if ss.len() == 0 {
        Some(0)
    } else {
        both(need_stmts(names, ss.drop_last()), need_stmt(names, ss.last()))
    }
}

pub open spec fn need_block(names: Set<Seq<char>>, b: SpecBlock) -> Option<nat>
    decreases b,
{
    need_stmts(names, b.stmts)
}

pub open spec fn need_expr(names: Set<Seq<char>>, e: SpecExpr) -> Option<nat>
    decreases e,
{
    match e.kind {
        SpecExprKind::Block(b) => need_block(names, b),
        SpecExprKind::BinaryOp { left, right, .. } => both(need_expr(names, *left), need_expr(names, *right)),
        SpecExprKind::Call { args, .. } => need_exprs(names, args),
        _ => Some(0),
    }
}

pub open spec fn need_exprs(names: Set<Seq<char>>, es: Seq<SpecExpr>) -> Option<nat>
    decreases es,
{
    if es.len() == 0 {
        Some(0)
    } else {
        both(need_exprs(names, es.drop_last()), need_expr(names, es.last()))
    }
}

/// The names of the top-level struct declarations.
pub open spec fn top_struct_names(ss: Seq<SpecStmt>) -> Set<Seq<char>> {
    Set::new(|n: Seq<char>| exists|i: int| 0 <= i < ss.len() && #[trigger] ss[i] is Struct && ss[i]->Struct_0.name.value@ == n)
}

/// Every name of `names` is a declared struct.
pub open spec fn registered(s: SymState, names: Set<Seq<char>>) -> bool {
    forall|n: Seq<char>| #[trigger] names.contains(n) ==> get(s.struct_ids, n) is Some
}

/// A statement that needs an open scope: a variable declaration.
pub open spec fn declares_var(st: SpecStmt) -> bool {
    st is Let || st is Var
}

/// Where the checker can reach its bug within budget: never.
pub open spec fn within_budget(s: SymState, need: Option<nat>) -> bool {
    need matches Some(k) && s.local_id + k < u64::MAX
}

pub open spec fn bounded(s: SymState, t: SymState, need: Option<nat>) -> bool {
    t.local_id <= s.local_id + need->Some_0
}

proof fn lemma_registered_keeps(s: SymState, t: SymState, names: Set<Seq<char>>, inner: bool)
    requires
        registered(s, names),
        keeps(s, t, inner),
    ensures
        registered(t, names),
{
}

proof fn lemma_define_params_finish(s: SymState, ps: Seq<crate::parser::ast::SpecParam>, tys: Seq<SemTy>, n: nat)
    requires
        s.scopes.len() > 0,
        s.local_id + n < u64::MAX,
    ensures
        !(define_params(s, ps, tys, n).1 is Bug),
        define_params(s, ps, tys, n).1 is Done ==> define_params(s, ps, tys, n).0.local_id == s.local_id + n
            && define_params(s, ps, tys, n).0.scopes.len() == s.scopes.len()
            && define_params(s, ps, tys, n).0.struct_ids == s.struct_ids,
    decreases n,
{
    if n > 0 {
        lemma_define_params_finish(s, ps, tys, (n - 1) as nat);
    }
}

proof fn lemma_finish_stmt(s: SymState, names: Set<Seq<char>>, st: SpecStmt)
    requires
        within_budget(s, need_stmt(names, st)),
        registered(s, names),
        declares_var(st) ==> s.scopes.len() > 0,
    ensures
        !(check_stmt(s, st).1 is Bug),
        check_stmt(s, st).1 is Done ==> bounded(s, check_stmt(s, st).0, need_stmt(names, st)),
    decreases st,
{
    unfold_check_stmt(s, st);
    match st {
        SpecStmt::Func(f) => { lemma_finish_func(s, names, f); },
        SpecStmt::Struct(x) => {},
        SpecStmt::Let(l) => { lemma_finish_let(s, names, l); },
        SpecStmt::Var(l) => { lemma_finish_let(s, names, l); },
        SpecStmt::Type(_) => {},
        SpecStmt::Expr(e) => { lemma_finish_expr(s, names, e); },
    }
}

proof fn lemma_finish_stmts(s: SymState, names: Set<Seq<char>>, ss: Seq<SpecStmt>)
    requires
        within_budget(s, need_stmts(names, ss)),
        registered(s, names),
        s.scopes.len() > 0 || forall|i: int| 0 <= i < ss.len() ==> !declares_var(#[trigger] ss[i]),
    ensures
        !(check_stmts(s, ss).1 is Bug),
        check_stmts(s, ss).1 is Done ==> bounded(s, check_stmts(s, ss).0, need_stmts(names, ss)),
    decreases ss,
{
    unfold_check_stmts(s, ss);
    if ss.len() > 0 {
        let init = ss.drop_last();
        assert forall|i: int| 0 <= i < init.len() implies (s.scopes.len() > 0 || !declares_var(#[trigger] init[i])) by {
            assert(init[i] == ss[i]);
        }
        lemma_finish_stmts(s, names, init);
        let (s1, o) = check_stmts(s, init);
        if o is Done {
            law_check_stmts_keeps(s, init);
            lemma_registered_keeps(s, s1, names, true);
            assert(ss.last() == ss[ss.len() - 1]);
            lemma_finish_stmt(s1, names, ss.last());
        }
    }
}

proof fn lemma_finish_func(s: SymState, names: Set<Seq<char>>, f: SpecFuncStmt)
    requires
        within_budget(s, need_func(names, f)),
        registered(s, names),
    ensures
        !(check_func(s, f).1 is Bug),
        check_func(s, f).1 is Done ==> bounded(s, check_func(s, f).0, need_func(names, f)),
    decreases f,
{
    unfold_check_func(s, f);
    let name = f.name.value@;
    let first = if f.params.len() > 0 {
        match resolve_ty(f.params[0].ty->Some_0) {
            Ok(t) => Ok(Some(t)),
            Err(e) => Err(e),
        }
    } else {
        Ok(None)
    };
    if first is Ok {
        match super::symbols::lookup_func(s, name, first->Ok_0) {
            Some(sym) => {
                let n = if f.params.len() < sym.params.len() { f.params.len() } else { sym.params.len() };
                let s1 = super::symbols::enter_func(s);
                lemma_define_params_finish(s1, f.params, sym.params, n);
                let (s2, po) = define_params(s1, f.params, sym.params, n);
                if po is Done {
                    assert(registered(s2, names));
                    lemma_finish_block(s2, names, f.body);
                }
            },
            None => {},
        }
    }
}

proof fn lemma_finish_let(s: SymState, names: Set<Seq<char>>, l: SpecLetStmt)
    requires
        within_budget(s, both(need_expr(names, l.value), Some(1))),
        registered(s, names),
        s.scopes.len() > 0,
    ensures
        !(check_let(s, l).1 is Bug),
        check_let(s, l).1 is Done ==> bounded(s, check_let(s, l).0, both(need_expr(names, l.value), Some(1))),
    decreases l,
{
    unfold_check_let(s, l);
    lemma_finish_expr(s, names, l.value);
    let (s1, vo) = check_expr(s, l.value);
    if vo is Done {
        law_check_expr_keeps(s, l.value);
    }
}

proof fn lemma_finish_block(s: SymState, names: Set<Seq<char>>, b: SpecBlock)
    requires
        within_budget(s, need_block(names, b)),
        registered(s, names),
    ensures
        !(check_block(s, b).1 is Bug),
        check_block(s, b).1 is Done ==> bounded(s, check_block(s, b).0, need_block(names, b)),
    decreases b,
{
    unfold_check_block(s, b);
    lemma_finish_stmts(enter_scope(s), names, b.stmts);
}

proof fn lemma_finish_exprs(s: SymState, names: Set<Seq<char>>, es: Seq<SpecExpr>)
    requires
        within_budget(s, need_exprs(names, es)),
        registered(s, names),
    ensures
        !(check_exprs(s, es).1 is Bug),
        check_exprs(s, es).1 is Done ==> bounded(s, check_exprs(s, es).0, need_exprs(names, es)),
    decreases es,
{
    unfold_check_exprs(s, es);
    if es.len() > 0 {
        lemma_finish_exprs(s, names, es.drop_last());
        let (s1, o) = check_exprs(s, es.drop_last());
        if o is Done {
            law_check_exprs_keeps(s, es.drop_last());
            lemma_finish_expr(s1, names, es.last());
        }
    }
}

proof fn lemma_finish_expr(s: SymState, names: Set<Seq<char>>, e: SpecExpr)
    requires
        within_budget(s, need_expr(names, e)),
        registered(s, names),
    ensures
        !(check_expr(s, e).1 is Bug),
        check_expr(s, e).1 is Done ==> bounded(s, check_expr(s, e).0, need_expr(names, e)),
    decreases e,
{
    unfold_check_expr(s, e);
    match e.kind {
        SpecExprKind::Block(b) => { lemma_finish_block(s, names, b); },
        SpecExprKind::BinaryOp { op, left, right } => {
            lemma_finish_expr(s, names, *left);
            let (s1, lo) = check_expr(s, *left);
            if lo is Done {
                law_check_expr_keeps(s, *left);
                lemma_finish_expr(s1, names, *right);
            }
        },
        SpecExprKind::Call { callee, args } => { lemma_finish_exprs(s, names, args); },
        _ => {},
    }
}

/// The first pass keeps the scopes and numbering, declares every top-level struct, and
/// succeeds only when every top-level statement is a function or a struct.
pub(crate) proof fn lemma_register(s: SymState, ss: Seq<SpecStmt>)
    ensures
        !(register_stmts(s, ss).1 is Bug),
        register_stmts(s, ss).1 is Done ==> {
            let t = register_stmts(s, ss).0;
            &&& t.scopes == s.scopes
            &&& t.local_id == s.local_id
            &&& forall|i: int| 0 <= i < ss.len() ==> !declares_var(#[trigger] ss[i])
            &&& forall|i: int| 0 <= i < ss.len() && #[trigger] ss[i] is Struct ==> get(t.struct_ids, ss[i]->Struct_0.name.value@) is Some
        },
    decreases ss.len(),
{
    if ss.len() > 0 {
        let init = ss.drop_last();
        lemma_register(s, init);
        let (s1, o) = register_stmts(s, init);
        if o is Done {
            let t = register_stmts(s, ss).0;
            let last = ss.last();
            if register_stmt(s1, last).1 is Done {
                assert forall|i: int| 0 <= i < ss.len() && #[trigger] ss[i] is Struct implies get(t.struct_ids, ss[i]->Struct_0.name.value@) is Some by {
                    let n = ss[i]->Struct_0.name.value@;
                    match last {
                        SpecStmt::Struct(x) => {
                            let id = s1.struct_ids.len() as u64;
                            lemma_find_push(s1.struct_ids, (x.name.value@, id), n);
                            lemma_find(s1.struct_ids.push((x.name.value@, id)), n);
                            if i < ss.len() - 1 {
                                assert(init[i] == ss[i]);
                            }
                        },
                        _ => {
                            if i < ss.len() - 1 {
                                assert(init[i] == ss[i]);
                            }
                        },
                    }
                }
                assert forall|i: int| 0 <= i < ss.len() implies !declares_var(#[trigger] ss[i]) by {
                    if i < ss.len() - 1 {
                        assert(init[i] == ss[i]);
                    }
                }
            }
        }
    }
}

/// The function statement `f` is declared in `s` under its name and the type of its first
/// parameter, with its resolved signature.
pub open spec fn declares_func(s: SymState, f: SpecFuncStmt) -> bool {
    &&& resolve_params(f.params) is Ok
    &&& resolve_ret(f.ret) is Ok
    &&& lookup_func(s, f.name.value@, first_ty(resolve_params(f.params)->Ok_0)) matches Some(sym)
        && sym.params == resolve_params(f.params)->Ok_0 && sym.ret == resolve_ret(f.ret)->Ok_0
}

pub(crate) proof fn lemma_register_declares(s: SymState, ss: Seq<SpecStmt>)
    requires
        register_stmts(s, ss).1 is Done,
    ensures
        forall|i: int| 0 <= i < ss.len() && #[trigger] ss[i] is Func ==> declares_func(register_stmts(s, ss).0, ss[i]->Func_0),
    decreases ss.len(),
{
    if ss.len() > 0 {
        let init = ss.drop_last();
        let (s1, o) = register_stmts(s, init);
        lemma_register_declares(s, init);
        let t = register_stmts(s, ss).0;
        assert forall|i: int| 0 <= i < ss.len() && #[trigger] ss[i] is Func implies declares_func(t, ss[i]->Func_0) by {
            let g = ss[i]->Func_0;
            match ss.last() {
                SpecStmt::Func(f) => {
                    let ps = resolve_params(f.params)->Ok_0;
                    let r = resolve_ret(f.ret)->Ok_0;
                    if i < ss.len() - 1 {
                        assert(init[i] == ss[i]);
                        let gps = resolve_params(g.params)->Ok_0;
                        lemma_find(s1.funcs, (f.name.value@, first_ty(ps)));
                        lemma_find(s1.funcs, (g.name.value@, first_ty(gps)));
                        law_define_func_keeps_others(s1, f.name.value@, ps, r, g.name.value@, first_ty(gps));
                    } else {
                        law_define_func_then_lookup(s1, f.name.value@, ps, r);
                    }
                },
                _ => {
                    if i < ss.len() - 1 {
                        assert(init[i] == ss[i]);
                    }
                },
            }
        }
    }
}

/// Before any body is checked, every top-level function is declared under its name and
/// the type of its first parameter with its signature, and every top-level struct name is
/// declared. Checking bodies changes neither (`law_check_func_keeps`), so a body may call
/// a function declared below it.
pub proof fn law_first_pass_declares_all(p: SpecProgram)
    requires
        register_stmts(empty_state(), p.stmts).1 is Done,
    ensures
        forall|i: int| 0 <= i < p.stmts.len() && #[trigger] p.stmts[i] is Func
            ==> declares_func(register_stmts(empty_state(), p.stmts).0, p.stmts[i]->Func_0),
        forall|i: int| 0 <= i < p.stmts.len() && #[trigger] p.stmts[i] is Struct
            ==> get(register_stmts(empty_state(), p.stmts).0.struct_ids, p.stmts[i]->Struct_0.name.value@) is Some,
{
    lemma_register_declares(empty_state(), p.stmts);
    lemma_register(empty_state(), p.stmts);
}

/// The checker returns a result, never stopping at its own bug, on every program whose
/// struct declarations in blocks are named by top-level ones, whose functions type their
/// first parameter, and which declares fewer than `u64::MAX` variables.
pub proof fn law_check_program_finishes(p: SpecProgram)
    requires
        need_stmts(top_struct_names(p.stmts), p.stmts) matches Some(k) && k < u64::MAX,
    ensures
        !(check_program(p) is Bug),
{
    let names = top_struct_names(p.stmts);
    lemma_register(empty_state(), p.stmts);
    let (s1, o) = register_stmts(empty_state(), p.stmts);
    if o is Done {
        assert forall|n: Seq<char>| #[trigger] names.contains(n) implies get(s1.struct_ids, n) is Some by {
            let i = choose|i: int| 0 <= i < p.stmts.len() && #[trigger] p.stmts[i] is Struct && p.stmts[i]->Struct_0.name.value@ == n;
        }
        lemma_finish_stmts(s1, names, p.stmts);
    }
}

// ---- testing the condition ----

/// A need below `u64::MAX`, as a machine integer.
pub open spec fn cap(o: Option<nat>) -> Option<u64> {
    match o {
        Some(k) => if k < u64::MAX { Some(k as u64) } else { None },
        None => None,
    }
}

/// The set of the names in `v`.
pub open spec fn name_set(v: Seq<String>) -> Set<Seq<char>> {
    Set::new(|n: Seq<char>| exists|i: int| 0 <= i < v.len() && #[trigger] v[i]@ == n)
}

fn add_cap(a: Option<u64>, b: Option<u64>) -> (r: Option<u64>)
    ensures
        r == (match (a, b) {
            (Some(x), Some(y)) => if x + y < u64::MAX { Some((x + y) as u64) } else { None },
            _ => None,
        }),
{
    match (a, b) {
        (Some(x), Some(y)) => if x < u64::MAX - y { Some(x + y) } else { None },
        _ => None,
    }
}

proof fn lemma_cap_both(a: Option<nat>, b: Option<nat>)
    ensures
        cap(both(a, b)) == (match (cap(a), cap(b)) {
            (Some(x), Some(y)) => if x + y < u64::MAX { Some((x + y) as u64) } else { None },
            _ => None,
        }),
{
}

fn has_name(names: &Vec<String>, n: &String) -> (r: bool)
    ensures
        r == name_set(names@).contains(n@),
{
    let mut i: usize = 0;
    while i < names.len()
        invariant
            i <= names@.len(),
            forall|j: int| 0 <= j < i ==> names@[j]@ != n@,
        decreases names@.len() - i,
    {
        if names[i] == *n {
            return true;
        }
        i = i + 1;
    }
    false
}

fn need_stmt_of(names: &Vec<String>, st: &ast::Stmt) -> (r: Option<u64>)
    ensures
        r == cap(need_stmt(name_set(names@), stmt_view(*st))),
    decreases st,
{
    let ghost ns = name_set(names@);
    match st {
        ast::Stmt::Func(f) => {
            let ghost fv = SpecFuncStmt { name: f.name, params: params_view(f.params@), ret: ast::opt_ty_view(f.ret), body: block_view(f.body) };
            if f.params.len() > 0 {
                proof { assert(fv.params[0] == ast::param_view(f.params@[0])); }
                if f.params[0].ty.is_none() {
                    return None;
                }
            }
            let body = need_block_of(names, &f.body);
            proof { lemma_cap_both(Some(f.params@.len() as nat), need_block(ns, fv.body)); }
            add_cap(Some(f.params.len() as u64), body)
        },
        ast::Stmt::Struct(x) => if has_name(names, &x.name.value) { Some(0) } else { None },
        ast::Stmt::Let(l) => {
            let v = need_expr_of(names, &l.value);
            proof { lemma_cap_both(need_expr(ns, expr_view(l.value)), Some(1)); }
            add_cap(v, Some(1))
        },
        ast::Stmt::Var(l) => {
            let v = need_expr_of(names, &l.value);
            proof { lemma_cap_both(need_expr(ns, expr_view(l.value)), Some(1)); }
            add_cap(v, Some(1))
        },
        ast::Stmt::Type(_) => Some(0),
        ast::Stmt::Expr(e) => need_expr_of(names, e),
    }
}

#[verifier::loop_isolation(false)]
fn need_stmts_of(names: &Vec<String>, stmts: &Vec<ast::Stmt>) -> (r: Option<u64>)
    ensures
        r == cap(need_stmts(name_set(names@), stmts_view(stmts@))),
    decreases stmts,
{
    let ghost ns = name_set(names@);
    let ghost ss = stmts_view(stmts@);
    let mut acc: Option<u64> = Some(0);
    let mut i: usize = 0;
    proof { assert(ss.take(0) =~= Seq::<SpecStmt>::empty()); }
    while i < stmts.len()
        invariant
            i <= stmts@.len(),
            acc == cap(need_stmts(ns, ss.take(i as int))),
        decreases stmts@.len() - i,
    {
        proof {
            assert(decreases_to!(stmts => stmts@[i as int]));
            assert(ss.take(i + 1).drop_last() =~= ss.take(i as int));
            assert(ss.take(i + 1).last() == stmt_view(stmts@[i as int]));
            lemma_cap_both(need_stmts(ns, ss.take(i as int)), need_stmt(ns, stmt_view(stmts@[i as int])));
        }
        let x = need_stmt_of(names, &stmts[i]);
        acc = add_cap(acc, x);
        i = i + 1;
    }
    proof { assert(ss.take(stmts@.len() as int) =~= ss); }
    acc
}

fn need_block_of(names: &Vec<String>, b: &ast::Block) -> (r: Option<u64>)
    ensures
        r == cap(need_block(name_set(names@), block_view(*b))),
    decreases b,
{
    need_stmts_of(names, &b.stmts)
}

fn need_expr_of(names: &Vec<String>, e: &ast::Expr) -> (r: Option<u64>)
    ensures
        r == cap(need_expr(name_set(names@), expr_view(*e))),
    decreases e,
{
    let ghost ns = name_set(names@);
    match &e.kind {
        ast::ExprKind::Block(b) => need_block_of(names, b),
        ast::ExprKind::BinaryOp { left, right, .. } => {
            let l = need_expr_of(names, left);
            let r = need_expr_of(names, right);
            proof { lemma_cap_both(need_expr(ns, expr_view(**left)), need_expr(ns, expr_view(**right))); }
            add_cap(l, r)
        },
        ast::ExprKind::Call { args, .. } => need_exprs_of(names, args),
        _ => Some(0),
    }
}

#[verifier::loop_isolation(false)]
fn need_exprs_of(names: &Vec<String>, args: &Vec<ast::Expr>) -> (r: Option<u64>)
    ensures
        r == cap(need_exprs(name_set(names@), exprs_view(args@))),
    decreases args,
{
    let ghost ns = name_set(names@);
    let ghost es = exprs_view(args@);
    let mut acc: Option<u64> = Some(0);
    let mut i: usize = 0;
    proof { assert(es.take(0) =~= Seq::<SpecExpr>::empty()); }
    while i < args.len()
        invariant
            i <= args@.len(),
            acc == cap(need_exprs(ns, es.take(i as int))),
        decreases args@.len() - i,
    {
        proof {
            assert(decreases_to!(args => args@[i as int]));
            assert(es.take(i + 1).drop_last() =~= es.take(i as int));
            assert(es.take(i + 1).last() == expr_view(args@[i as int]));
            lemma_cap_both(need_exprs(ns, es.take(i as int)), need_expr(ns, expr_view(args@[i as int])));
        }
        let x = need_expr_of(names, &args[i]);
        acc = add_cap(acc, x);
        i = i + 1;
    }
    proof { assert(es.take(args@.len() as int) =~= es); }
    acc
}

/// The names of the top-level struct declarations.
fn top_struct_names_of(stmts: &Vec<ast::Stmt>) -> (r: Vec<String>)
    ensures
        name_set(r@) == top_struct_names(stmts_view(stmts@)),
{
    let ghost ss = stmts_view(stmts@);
    let mut out: Vec<String> = Vec::new();
    let mut i: usize = 0;
    while i < stmts.len()
        invariant
            i <= stmts@.len(),
            ss == stmts_view(stmts@),
            name_set(out@) == Set::new(|n: Seq<char>| exists|j: int| 0 <= j < i && #[trigger] ss[j] is Struct && ss[j]->Struct_0.name.value@ == n),
        decreases stmts@.len() - i,
    {
        let ghost before = out@;
        proof { assert(ss[i as int] == stmt_view(stmts@[i as int])); }
        match &stmts[i] {
            ast::Stmt::Struct(x) => {
                out.push(x.name.value.clone());
            },
            _ => {},
        }
        proof {
            let target = Set::new(|n: Seq<char>| exists|j: int| 0 <= j < i + 1 && #[trigger] ss[j] is Struct && ss[j]->Struct_0.name.value@ == n);
            assert forall|n: Seq<char>| name_set(out@).contains(n) <==> target.contains(n) by {
                if name_set(out@).contains(n) {
                    let k = choose|k: int| 0 <= k < out@.len() && #[trigger] out@[k]@ == n;
                    if k < before.len() {
                        assert(before[k] == out@[k]);
                        assert(name_set(before).contains(n));
                    }
                }
                if target.contains(n) {
                    let j = choose|j: int| 0 <= j < i + 1 && #[trigger] ss[j] is Struct && ss[j]->Struct_0.name.value@ == n;
                    if j < i {
                        assert(name_set(before).contains(n));
                        let k = choose|k: int| 0 <= k < before.len() && #[trigger] before[k]@ == n;
                        assert(out@[k] == before[k]);
                    } else {
                        assert(out@[before.len() as int]@ == n);
                    }
                }
                if name_set(before).contains(n) {
                    let k = choose|k: int| 0 <= k < before.len() && #[trigger] before[k]@ == n;
                    assert(out@[k] == before[k]);
                }
            }
            assert(name_set(out@) =~= target);
        }
        i = i + 1;
    }
    proof { assert(name_set(out@) =~= top_struct_names(ss)); }
    out
}

/// Whether the checker is sure to return on `ast`: every struct declared in a block is
/// named by a top-level one, every function types its first parameter, and fewer than
/// `u64::MAX` variables are declared.
pub fn check_finishes(ast: &ast::Program) -> (r: bool)
    ensures
        r == (need_stmts(top_struct_names(ast@.stmts), ast@.stmts) matches Some(k) && k < u64::MAX),
        r ==> !(check_program(ast@) is Bug),
{
    let names = top_struct_names_of(&ast.stmts);
    let n = need_stmts_of(&names, &ast.stmts);
    proof {
        if n is Some {
            law_check_program_finishes(ast@);
        }
    }
    n.is_some()
}

/// The first pass files every function under the type of its first parameter.
pub proof fn law_first_pass_keyed(s: SymState, ss: Seq<SpecStmt>)
    requires
        funcs_keyed(s),
    ensures
        funcs_keyed(register_stmts(s, ss).0),
    decreases ss.len(),
{
    if ss.len() > 0 {
        law_first_pass_keyed(s, ss.drop_last());
        let s1 = register_stmts(s, ss.drop_last()).0;
        match ss.last() {
            SpecStmt::Func(f) => {
                if resolve_params(f.params) is Ok && resolve_ret(f.ret) is Ok {
                    law_table_keeps_keyed(s1, f.name.value@, resolve_params(f.params)->Ok_0, resolve_ret(f.ret)->Ok_0, SemTy::Unit, seq![]);
                }
            },
            SpecStmt::Struct(x) => {
                law_table_keeps_keyed(s1, x.name.value@, seq![], SemTy::Unit, SemTy::Unit, seq![]);
            },
            _ => {},
        }
    }
}

/// In a call, the function is found under the type of the first argument, so in a table
/// that files functions by their first parameter type the first argument always has the
/// type of the first parameter: a type mismatch is reported on a later argument.
pub proof fn law_call_first_arg_fits(s: SymState, name: Seq<char>, args: Seq<TExpr>, span: Span, context: Seq<char>)
    requires
        funcs_keyed(s),
        args.len() > 0,
        lookup_func(s, name, Some(args[0].ty)) is Some,
    ensures
        first_mismatch(lookup_func(s, name, Some(args[0].ty))->Some_0.params, args, 1, span, context) is None,
{
    law_lookup_func_key(s, name, Some(args[0].ty));
    let sym = lookup_func(s, name, Some(args[0].ty))->Some_0;
    assert(sym.params.len() > 0);
    assert(expect_eq(sym.params[0], args[0].ty, span, context) is None);
    assert(first_mismatch(sym.params, args, 0, span, context) is None);
    assert(first_mismatch(sym.params, args, 1, span, context) == expect_eq(sym.params[0], args[0].ty, span, context));
}

} // verus!
