use quasm::common::ast::{BinOpKind, Literal};
use quasm::common::span::{Pos, Span};
use quasm::lexer::lex;
use quasm::parser::ast::{ExprKind, Program, Stmt, Ty};
use quasm::parser::{parse, ParseError, Parser};

fn parse_src(src: &str) -> Result<Program, ParseError> {
    let (tokens, errors) = lex(src);
    assert!(errors.is_empty());
    parse(tokens)
}

fn parse_err(src: &str) -> ParseError {
    match parse_src(src) {
        Ok(_) => panic!("expected a parse error"),
        Err(e) => e,
    }
}

#[test]
fn parse_function_declaration() {
    let program = parse_src("func add(a: Int, b: Int) => Int {\n    a + b\n}\n").unwrap();
    assert_eq!(program.stmts.len(), 1);
    match &program.stmts[0] {
        Stmt::Func(f) => {
            assert_eq!(f.name.value, "add");
            assert_eq!(f.name.span, Span { start: Pos { line: 1, column: 6 }, end: Pos { line: 1, column: 9 } });
            assert_eq!(f.params.len(), 2);
            assert_eq!(f.params[1].name.value, "b");
            match &f.ret {
                Some(Ty::Named { name, args }) => {
                    assert_eq!(name.value, "Int");
                    assert!(args.is_empty());
                },
                _ => panic!("expected a named return type"),
            }
            assert_eq!(f.body.stmts.len(), 1);
            assert_eq!(f.body.span, Span { start: Pos { line: 1, column: 33 }, end: Pos { line: 3, column: 2 } });
            match &f.body.stmts[0] {
                Stmt::Expr(e) => match &e.kind {
                    ExprKind::BinaryOp { op, .. } => assert_eq!(*op, BinOpKind::Add),
                    _ => panic!("expected a binary operation"),
                },
                _ => panic!("expected an expression statement"),
            }
        },
        _ => panic!("expected a function"),
    }
}

#[test]
fn parse_precedence_of_operators() {
    let program = parse_src("1 + 2 * 3").unwrap();
    match &program.stmts[0] {
        Stmt::Expr(e) => match &e.kind {
            ExprKind::BinaryOp { op, left, right } => {
                assert_eq!(*op, BinOpKind::Add);
                assert!(matches!(left.kind, ExprKind::Literal(Literal::Int(1))));
                assert!(matches!(right.kind, ExprKind::BinaryOp { op: BinOpKind::Mul, .. }));
            },
            _ => panic!("expected a binary operation"),
        },
        _ => panic!("expected an expression statement"),
    }
}

#[test]
fn parse_let_with_annotation() {
    let program = parse_src("let x: func(Int) => Bool = y").unwrap();
    match &program.stmts[0] {
        Stmt::Let(l) => {
            assert_eq!(l.name.value, "x");
            match &l.ty {
                Some(Ty::Func { params, ret }) => {
                    assert_eq!(params.len(), 1);
                    match ret.as_deref() {
                        Some(Ty::Named { name, .. }) => {
                            assert_eq!(name.value, "Bool");
                            assert_eq!(name.span, Span { start: Pos { line: 1, column: 21 }, end: Pos { line: 1, column: 25 } });
                        },
                        _ => panic!("expected a named return type"),
                    }
                },
                _ => panic!("expected a function type"),
            }
            assert!(matches!(l.value.kind, ExprKind::Identifier(_)));
        },
        _ => panic!("expected a let statement"),
    }
}

#[test]
fn parse_empty_program() {
    let program = parse_src("\n\n").unwrap();
    assert!(program.stmts.is_empty());
}

#[test]
fn parse_error_param_without_type() {
    let e = parse_err("func f(a) {}");
    assert_eq!(e.message, "expected type annotation for parameter");
    assert_eq!(e.span, Span { start: Pos { line: 1, column: 9 }, end: Pos { line: 1, column: 10 } });
}

#[test]
fn parse_error_expected_identifier() {
    let e = parse_err("let 5 = 1");
    assert_eq!(e.message, "expected identifier, got Int(5)");
    assert_eq!(e.span, Span { start: Pos { line: 1, column: 5 }, end: Pos { line: 1, column: 6 } });
}

#[test]
fn parse_error_expected_token() {
    let e = parse_err("func f(a: Int {}");
    assert_eq!(e.message, "expected RParen, got LBrace");
}

#[test]
fn parse_error_list_split_over_lines() {
    let e = parse_err("foo(1,\n 2)");
    assert_eq!(e.message, "arguments must all be on the same line; use a newline after '(' for multiline style");
}

#[test]
fn parse_error_leading_comma() {
    let e = parse_err("foo(1\n, 2)");
    assert_eq!(e.message, "comma must follow a argument on the same line, not precede it on the next line");
}

#[test]
fn parse_multiline_list() {
    let program = parse_src("foo(\n    1,\n    2\n)\n").unwrap();
    match &program.stmts[0] {
        Stmt::Expr(e) => match &e.kind {
            ExprKind::Call { args, .. } => assert_eq!(args.len(), 2),
            _ => panic!("expected a call"),
        },
        _ => panic!("expected an expression statement"),
    }
}

#[test]
fn parse_error_closing_on_its_own_line() {
    let e = parse_err("foo(\n    1)\n");
    assert_eq!(e.message, "closing RParen must be on its own line in multiline style");
}

#[test]
fn parse_error_newline_after_statement() {
    let e = parse_err("func f() {\n    1 2\n}\n");
    assert_eq!(e.message, "expected newline after statement, got Int(2)");
}

#[test]
fn parse_error_empty_type_arguments() {
    let e = parse_err("let x: List() = 1");
    assert_eq!(e.message, "type argument list cannot be empty");
}

#[test]
fn parse_error_expected_expression() {
    let e = parse_err("let x = )");
    assert_eq!(e.message, "expected expression, got RParen");
}

#[test]
fn parser_new_then_parse_program() {
    let (tokens, _) = lex("struct P {\n    x: Int\n}\n");
    let mut p = Parser::new(tokens);
    let program = p.parse_program().unwrap();
    match &program.stmts[0] {
        Stmt::Struct(s) => {
            assert_eq!(s.name.value, "P");
            assert_eq!(s.fields.len(), 1);
            assert_eq!(s.fields[0].name.value, "x");
        },
        _ => panic!("expected a struct"),
    }
}
