use quasm::common::span::{Pos, Span};
use quasm::lexer::lex;
use quasm::parser::parse;
use quasm::sema::check;
use quasm::sema::tast::{ExprKind, FuncId, Program, Stmt, VarId};
use quasm::sema::ty::Ty;
use quasm::sema::SemaError;

fn check_src(src: &str) -> Result<Program, SemaError> {
    let (tokens, errors) = lex(src);
    assert!(errors.is_empty());
    let ast = parse(tokens).unwrap();
    check(ast)
}

fn check_err(src: &str) -> SemaError {
    match check_src(src) {
        Ok(_) => panic!("expected a checking error"),
        Err(e) => e,
    }
}

fn span(l1: u32, c1: u32, l2: u32, c2: u32) -> Span {
    Span { start: Pos { line: l1, column: c1 }, end: Pos { line: l2, column: c2 } }
}

#[test]
fn check_functions_and_calls() {
    let program = check_src(
        "func add(a: Int, b: Int) => Int {\n    a + b\n}\nfunc main() => Int {\n    let x = add(1, 2)\n    x * 2\n}\n",
    ).unwrap();
    assert_eq!(program.stmts.len(), 2);
    match &program.stmts[0] {
        Stmt::Func(f) => {
            assert_eq!(f.id, FuncId(0));
            assert_eq!(f.params.len(), 2);
            assert_eq!(f.params[0].id, VarId(0));
            assert_eq!(f.params[1].id, VarId(1));
            assert_eq!(f.ret_ty, Ty::Int);
            assert_eq!(f.body.ty, Ty::Int);
        },
        _ => panic!("expected a function"),
    }
    match &program.stmts[1] {
        Stmt::Func(f) => {
            assert_eq!(f.id, FuncId(1));
            assert_eq!(f.body.stmts.len(), 2);
            match &f.body.stmts[0] {
                Stmt::Let(l) => {
                    // numbering starts again in each function
                    assert_eq!(l.id, VarId(0));
                    assert_eq!(l.annot_ty, Ty::Int);
                    assert_eq!(l.ty, Ty::Unit);
                    match &l.value.kind {
                        ExprKind::Call(c) => {
                            assert_eq!(c.ty, Ty::Int);
                            assert_eq!(c.args.len(), 2);
                            assert!(matches!(c.callee.kind, ExprKind::Func { id: FuncId(0) }));
                            assert_eq!(c.callee.ty, Ty::Func { params: vec![Ty::Int, Ty::Int], ret: Box::new(Ty::Int) });
                        },
                        _ => panic!("expected a call"),
                    }
                },
                _ => panic!("expected a let"),
            }
            match &f.body.stmts[1] {
                Stmt::Expr(e) => {
                    assert_eq!(e.ty, Ty::Int);
                    match &e.kind {
                        ExprKind::BinaryOp(b) => {
                            assert!(matches!(b.left.kind, ExprKind::Var { id: VarId(0) }));
                        },
                        _ => panic!("expected a binary operation"),
                    }
                },
                _ => panic!("expected an expression"),
            }
        },
        _ => panic!("expected a function"),
    }
}

#[test]
fn check_call_before_declaration() {
    assert!(check_src("func f() => Int {\n    g(true)\n}\nfunc g(b: Bool) => Int {\n    1\n}\n").is_ok());
}

#[test]
fn check_overloads_by_first_parameter() {
    let program = check_src("func f(a: Int) {\n}\nfunc f(b: Bool) {\n}\nfunc main() {\n    f(true)\n}\n").unwrap();
    match &program.stmts[2] {
        Stmt::Func(m) => match &m.body.stmts[0] {
            Stmt::Expr(e) => match &e.kind {
                ExprKind::Call(c) => assert!(matches!(c.callee.kind, ExprKind::Func { id: FuncId(1) })),
                _ => panic!("expected a call"),
            },
            _ => panic!("expected an expression"),
        },
        _ => panic!("expected a function"),
    }
}

#[test]
fn check_struct_fields_are_numbered() {
    let program = check_src("struct Point {\n    x: Int\n    y: func(Bool) => Int\n}\n").unwrap();
    match &program.stmts[0] {
        Stmt::Struct(s) => {
            assert_eq!(s.id.0, 0);
            assert_eq!(s.fields.len(), 2);
            assert_eq!(s.fields[1].id.0, 1);
            assert_eq!(s.fields[1].ty, Ty::Func { params: vec![Ty::Bool], ret: Box::new(Ty::Int) });
            assert_eq!(s.ty, Ty::Unit);
        },
        _ => panic!("expected a struct"),
    }
}

#[test]
fn check_block_scopes_shadow() {
    let program = check_src("func f() => Int {\n    let x = 1\n    {\n        let x = true\n    }\n    x\n}\n").unwrap();
    match &program.stmts[0] {
        Stmt::Func(f) => {
            assert_eq!(f.body.ty, Ty::Int);
            match &f.body.stmts[2] {
                Stmt::Expr(e) => assert!(matches!(e.kind, ExprKind::Var { id: VarId(0) })),
                _ => panic!("expected an expression"),
            }
        },
        _ => panic!("expected a function"),
    }
}

#[test]
fn check_function_types() {
    assert!(check_src("func f(a: Int, g: func(Int) => Bool) => func(Int) => Bool {\n    g\n}\n").is_ok());
}

#[test]
fn check_unchecked_expressions_are_unit() {
    let program = check_src("func f() {\n    !true\n}\n").unwrap();
    match &program.stmts[0] {
        Stmt::Func(f) => {
            assert_eq!(f.body.ty, Ty::Unit);
            match &f.body.stmts[0] {
                Stmt::Expr(e) => assert!(matches!(e.kind, ExprKind::Error)),
                _ => panic!("expected an expression"),
            }
        },
        _ => panic!("expected a function"),
    }
}

#[test]
fn check_error_function_name_case() {
    let e = check_err("func Add() {\n}\n");
    assert_eq!(e.message, "function `Add` must be snake_case");
    assert_eq!(e.span, span(1, 6, 1, 9));
}

#[test]
fn check_error_duplicate_function() {
    let e = check_err("func f(a: Int) {\n}\nfunc f(b: Int) {\n}\n");
    assert_eq!(e.message, "function `f(Int...)` is already defined");
    assert_eq!(e.span, span(3, 6, 3, 7));
    let e = check_err("func g() {\n}\nfunc g() {\n}\n");
    assert_eq!(e.message, "function `g` is already defined");
}

#[test]
fn check_error_struct_name_case() {
    let e = check_err("struct point {\n    x: Int\n}\n");
    assert_eq!(e.message, "struct `point` must be PascalCase");
}

#[test]
fn check_error_duplicate_struct() {
    let e = check_err("struct P {\n    x: Int\n}\nstruct P {\n    y: Int\n}\n");
    assert_eq!(e.message, "struct P is already defined");
    assert_eq!(e.span, span(4, 8, 4, 9));
}

#[test]
fn check_error_duplicate_field() {
    let e = check_err("struct P {\n    x: Int\n    x: Bool\n}\n");
    assert_eq!(e.message, "field `x` is already defined");
    assert_eq!(e.span, span(1, 8, 1, 9));
}

#[test]
fn check_error_generic_struct() {
    let e = check_err("struct P(t) {\n    x: Int\n}\n");
    assert_eq!(e.message, "generic structs are not supported yet");
}

#[test]
fn check_error_top_level_statements() {
    assert_eq!(check_err("let x = 1\n").message, "top level should not contain let statement");
    assert_eq!(check_err("1 + 2\n").message, "top level should not contain expression");
    assert_eq!(check_err("type T {\n    A\n}\n").message, "not implemented yet");
}

#[test]
fn check_error_types() {
    let e = check_err("func f(a: Str) {\n}\n");
    assert_eq!(e.message, "unknown type `Str`");
    assert_eq!(e.span, span(1, 11, 1, 14));
    let e = check_err("func f(a: List(Int)) {\n}\n");
    assert_eq!(e.message, "generic types are not supported yet");
}

#[test]
fn check_error_unknown_variable() {
    let e = check_err("func f() {\n    y\n}\n");
    assert_eq!(e.message, "cannot find `y` in this scope");
    assert_eq!(e.span, span(2, 5, 2, 6));
}

#[test]
fn check_error_block_variable_out_of_scope() {
    let e = check_err("func f() {\n    {\n        let y = 1\n    }\n    y\n}\n");
    assert_eq!(e.message, "cannot find `y` in this scope");
}

#[test]
fn check_error_binary_operation() {
    let e = check_err("func f() {\n    1 + true\n}\n");
    assert_eq!(e.message, "invalid binary operation: `Int` + `Bool`");
    assert_eq!(e.span, span(2, 5, 2, 6));
    let e = check_err("func f() {\n    true < false\n}\n");
    assert_eq!(e.message, "invalid binary operation: `Bool` < `Bool`");
}

#[test]
fn check_error_argument_count() {
    let e = check_err("func f(a: Int) => Int {\n    a\n}\nfunc main() {\n    f(1, 2)\n}\n");
    assert_eq!(e.message, "function `f` expects 1 argument(s), got 2");
    assert_eq!(e.span, span(5, 5, 5, 6));
}

#[test]
fn check_error_argument_type() {
    let e = check_err("func g(a: Int, b: Int) {\n}\nfunc f() {\n    g(1, true)\n}\n");
    assert_eq!(e.message, "type mismatch in call to `g`: expected `Int`, got `Bool`");
}

#[test]
fn check_error_unknown_function() {
    let e = check_err("func f() {\n    h(1)\n}\n");
    assert_eq!(e.message, "cannot find function `h`");
    // the first argument's type is part of what finds a function
    let e = check_err("func g(a: Int) {\n}\nfunc f() {\n    g(true)\n}\n");
    assert_eq!(e.message, "cannot find function `g`");
}

#[test]
fn check_error_call_of_non_identifier() {
    let e = check_err("func f() {\n    f()(1)\n}\n");
    assert_eq!(e.message, "only call on identifier is supported");
}

#[test]
fn check_error_return_type() {
    let e = check_err("func f() => Int {\n    true\n}\n");
    assert_eq!(e.message, "type mismatch for function `f` return type: expected `Int`, got `Bool`");
    assert_eq!(e.span, span(1, 17, 3, 2));
}

#[test]
fn check_error_let_annotation() {
    let e = check_err("func f() {\n    let x: Int = true\n}\n");
    assert_eq!(e.message, "type mismatch for `x`: expected `Int`, got `Bool`");
    assert_eq!(e.span, span(2, 9, 2, 10));
}

#[test]
fn check_error_variable_names() {
    assert_eq!(check_err("func f() {\n    let X = 1\n}\n").message, "variable `X` must be snake_case");
    assert_eq!(check_err("func f() {\n    let x = 1\n    let x = 2\n}\n").message, "variable `x` is already defined");
    assert_eq!(check_err("func f(a: Int, a: Int) {\n}\n").message, "variable `a` is already defined");
}

#[test]
fn check_error_nested_function_not_declared() {
    let e = check_err("func f() {\n    func g() {\n    }\n}\n");
    assert_eq!(e.message, "function `g` is not declared");
}

#[test]
fn check_finishes_on_declared_structs() {
    let ok = "struct P {\n    x: Int\n}\nfunc f() {\n    struct P {\n        y: Bool\n    }\n}\n";
    let (tokens, _) = lex(ok);
    let ast = parse(tokens).unwrap();
    assert!(quasm::sema::finish::check_finishes(&ast));
    assert!(check(ast).is_ok());

    let stops = "func f() {\n    struct Q {\n        y: Bool\n    }\n}\n";
    let (tokens, _) = lex(stops);
    let ast = parse(tokens).unwrap();
    assert!(!quasm::sema::finish::check_finishes(&ast));
}

#[test]
fn check_result_does_not_depend_on_order() {
    let f = "func f() => Int {\n    g(true)\n}\n";
    let g = "func g(b: Bool) => Int {\n    1\n}\n";
    let p = "struct P {\n    x: Int\n}\n";
    assert!(check_src(&format!("{f}{g}{p}")).is_ok());
    assert!(check_src(&format!("{p}{g}{f}")).is_ok());
    assert!(check_src(&format!("{g}{p}{f}")).is_ok());
    let bad = "func h() {\n    g(1)\n}\n";
    assert!(check_src(&format!("{bad}{g}")).is_err());
    assert!(check_src(&format!("{g}{bad}")).is_err());
}

#[test]
fn parse_type_arrow_return() {
    let program = check_src("func f(x: Int) => Int {\n    x\n}\n").unwrap();
    match &program.stmts[0] {
        Stmt::Func(f) => assert_eq!(f.ret_ty, Ty::Int),
        _ => panic!("expected a function"),
    }
}
