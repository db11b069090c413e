//! The grammar of the language, as functions from a token sequence and a
//! position to a syntax tree and the position after it.
use vstd::prelude::*;
use crate::common::ast::{BinOpKind, Literal, UnaryOpKind};
use crate::common::span::{Pos, Span};
use crate::lexer::Token;
use crate::lexer::token::{TokenKind, kind_eq, kind_text};
use super::ast::{
    Identifier, SpecBlock, SpecExpr, SpecExprKind, SpecFuncStmt, SpecLetStmt, SpecMatchArm, SpecParam,
    SpecPattern, SpecPatternKind, SpecProgram, SpecStmt, SpecStructField, SpecStructStmt, SpecTy,
    SpecTypeStmt, SpecTypeVariant,
};

verus! {

/// An error of the grammar: a message and where it points.
pub struct SpecError {
    pub message: Seq<char>,
    pub span: Span,
}

/// A parse result: the tree and the position after it, or an error.
pub type SRes<T> = Result<(T, int), SpecError>;

/// An item of a delimited list.
pub enum SpecElem {
    Expr(SpecExpr),
    Param(SpecParam),
    Pattern(SpecPattern),
    Ty(SpecTy),
    Ident(Identifier),
    Stmt(SpecStmt),
    Arm(SpecMatchArm),
    Variant(SpecTypeVariant),
    Field(SpecStructField),
}

/// Which item a delimited list holds.
#[derive(Clone, Copy, PartialEq, Eq, Structural)]
pub enum ElemKind {
    Expr,
    /// A parameter with an optional type.
    Param,
    /// A parameter that must have a type.
    FuncParam,
    Pattern,
    /// A pattern, or `..` with an optional name.
    PatternOrRest,
    Ty,
    Ident,
    Stmt,
    Arm,
    Variant,
    Field,
}

// ---- tokens ----

/// The kind of the token at `p`; `Eof` past the end.
pub open spec fn kind_at(t: Seq<Token>, p: int) -> TokenKind {
    if 0 <= p < t.len() { t[p].kind } else { TokenKind::Eof }
}

/// Whether a token of this kind can start a primary expression.
pub open spec fn starts_primary(k: TokenKind) -> bool {
    k is Int || k is True || k is False || k is LParen || k is LBracket || k is LBrace || k is If
        || k is Match || k is VerBar || k is Or || k is Identifier
}

pub open spec fn is_at(t: Seq<Token>, p: int, k: TokenKind) -> bool {
    kind_eq(kind_at(t, p), k)
}

/// One token further, but not past the end.
pub open spec fn adv(t: Seq<Token>, p: int) -> int {
    if p < t.len() { p + 1 } else { p }
}

/// Not at the end, nor at `k`.
pub open spec fn before(t: Seq<Token>, p: int, k: TokenKind) -> bool {
    !is_at(t, p, TokenKind::Eof) && !is_at(t, p, k)
}

/// The first position at or after `p` that does not hold a newline.
pub open spec fn skip_nl(t: Seq<Token>, p: int) -> int
    decreases t.len() - p,
{
    if 0 <= p < t.len() && kind_eq(t[p].kind, TokenKind::Newline) {
        skip_nl(t, p + 1)
    } else {
        p
    }
}

pub proof fn lemma_skip_nl(t: Seq<Token>, p: int)
    requires
        0 <= p <= t.len(),
    ensures
        p <= skip_nl(t, p) <= t.len(),
        !is_at(t, skip_nl(t, p), TokenKind::Newline),
    decreases t.len() - p,
{
    if p < t.len() && kind_eq(t[p].kind, TokenKind::Newline) {
        lemma_skip_nl(t, p + 1);
    }
}

/// The span of the token at `p`, or of the last token past the end.
pub open spec fn cur_span(t: Seq<Token>, p: int) -> Span {
    if p < t.len() { t[p].span } else { t[t.len() - 1].span }
}

/// Where the token before `p` ends.
pub open spec fn prev_end(t: Seq<Token>, p: int) -> Pos {
    if p >= 1 { t[p - 1].span.end } else { t[0].span.end }
}

pub open spec fn span_from(t: Seq<Token>, start: Pos, p: int) -> Span {
    Span { start, end: prev_end(t, p) }
}

pub open spec fn err_at(t: Seq<Token>, p: int, message: Seq<char>) -> SpecError {
    SpecError { message, span: cur_span(t, p) }
}

/// `prefix, got <kind>`
pub open spec fn got(prefix: Seq<char>, k: TokenKind) -> Seq<char> {
    prefix + ", got "@ + kind_text(k)
}

pub open spec fn consume(t: Seq<Token>, p: int, k: TokenKind) -> Result<int, SpecError> {
    if is_at(t, p, k) {
        Ok(adv(t, p))
    } else {
        Err(err_at(t, p, got("expected "@ + kind_text(k), kind_at(t, p))))
    }
}

pub open spec fn expect_newline(t: Seq<Token>, p: int, context: Seq<char>) -> Result<int, SpecError> {
    match kind_at(t, p) {
        TokenKind::Newline | TokenKind::RBrace | TokenKind::Eof => Ok(skip_nl(t, p)),
        other => Err(err_at(t, p, got("expected newline after "@ + context, other))),
    }
}

pub open spec fn ident(t: Seq<Token>, p: int) -> SRes<Identifier> {
    match kind_at(t, p) {
        TokenKind::Identifier(value) => Ok((Identifier { value, span: cur_span(t, p) }, adv(t, p))),
        other => Err(err_at(t, p, got("expected identifier"@, other))),
    }
}

/// An error that no parse of a position inside the tokens produces.
pub open spec fn stalled() -> SpecError {
    SpecError { message: Seq::empty(), span: Span { start: Pos { line: 0, column: 0 }, end: Pos { line: 0, column: 0 } } }
}

/// `r`, when its position lies in `lo..=hi`.
pub open spec fn within<T>(r: SRes<T>, lo: int, hi: int) -> SRes<T> {
    match r {
        Ok((v, p)) => if lo <= p <= hi { r } else { Err(stalled()) },
        Err(e) => Err(e),
    }
}

pub open spec fn binary(op: BinOpKind, l: SpecExpr, r: SpecExpr) -> SpecExpr {
    SpecExpr { kind: SpecExprKind::BinaryOp { op, left: Box::new(l), right: Box::new(r) }, span: Span { start: l.span.start, end: r.span.end } }
}

// ---- list items ----

pub open spec fn elems_exprs(s: Seq<SpecElem>) -> Seq<SpecExpr> {
    Seq::new(s.len(), |i: int| match s[i] { SpecElem::Expr(e) => e, _ => arbitrary() })
}

pub open spec fn elems_params(s: Seq<SpecElem>) -> Seq<SpecParam> {
    Seq::new(s.len(), |i: int| match s[i] { SpecElem::Param(e) => e, _ => arbitrary() })
}

pub open spec fn elems_patterns(s: Seq<SpecElem>) -> Seq<SpecPattern> {
    Seq::new(s.len(), |i: int| match s[i] { SpecElem::Pattern(e) => e, _ => arbitrary() })
}

pub open spec fn elems_tys(s: Seq<SpecElem>) -> Seq<SpecTy> {
    Seq::new(s.len(), |i: int| match s[i] { SpecElem::Ty(e) => e, _ => arbitrary() })
}

pub open spec fn elems_idents(s: Seq<SpecElem>) -> Seq<Identifier> {
    Seq::new(s.len(), |i: int| match s[i] { SpecElem::Ident(e) => e, _ => arbitrary() })
}

pub open spec fn elems_stmts(s: Seq<SpecElem>) -> Seq<SpecStmt> {
    Seq::new(s.len(), |i: int| match s[i] { SpecElem::Stmt(e) => e, _ => arbitrary() })
}

pub open spec fn elems_arms(s: Seq<SpecElem>) -> Seq<SpecMatchArm> {
    Seq::new(s.len(), |i: int| match s[i] { SpecElem::Arm(e) => e, _ => arbitrary() })
}

pub open spec fn elems_variants(s: Seq<SpecElem>) -> Seq<SpecTypeVariant> {
    Seq::new(s.len(), |i: int| match s[i] { SpecElem::Variant(e) => e, _ => arbitrary() })
}

pub open spec fn elems_fields(s: Seq<SpecElem>) -> Seq<SpecStructField> {
    Seq::new(s.len(), |i: int| match s[i] { SpecElem::Field(e) => e, _ => arbitrary() })
}

/// Number of `..` patterns in `s`.
pub open spec fn rest_count(s: Seq<SpecPattern>) -> nat
    decreases s.len(),
{
    if s.len() == 0 {
        0
    } else {
        rest_count(s.drop_last()) + if s.last().kind is Rest { 1nat } else { 0nat }
    }
}

// ---- the grammar ----

/// A comma separated list between `open` and `close`. When `open` is followed by a
/// newline the list is multiline: items may be followed by newlines and `close` must be
/// on its own line; otherwise all items must be on one line.
#[verifier::opaque]
pub open spec fn comma_list(t: Seq<Token>, p: int, open: TokenKind, close: TokenKind, label: Seq<char>, kind: ElemKind) -> SRes<Seq<SpecElem>>
    decreases t.len() - p, 1nat,
{
    match consume(t, p, open) {
        Err(e) => Err(e),
        Ok(p1) => {
            let multiline = is_at(t, p1, TokenKind::Newline);
            if 0 <= p < t.len() {
                proof { lemma_skip_nl(t, p1); }
                comma_items(t, skip_nl(t, p1), close, label, kind, multiline, seq![])
            } else {
                Err(stalled())
            }
        },
    }
}

#[verifier::opaque]
pub open spec fn comma_items(t: Seq<Token>, p: int, close: TokenKind, label: Seq<char>, kind: ElemKind, multiline: bool, acc: Seq<SpecElem>) -> SRes<Seq<SpecElem>>
    decreases t.len() - p, 30nat,
{
    if before(t, p, close) {
        match within(item(t, p, kind), p, t.len() as int) {
            Err(e) => Err(e),
            Ok((it, p1)) => {
                let acc2 = acc.push(it);
                if !is_at(t, p1, TokenKind::Comma) {
                    if multiline && !is_at(t, p1, TokenKind::Newline) {
                        Err(err_at(t, p1, "closing "@ + kind_text(close) + " must be on its own line in multiline style"@))
                    } else {
                        comma_close(t, p1, close, label, acc2)
                    }
                } else {
                    let p3 = p1 + 1;
                    if multiline {
                        proof { lemma_skip_nl(t, p3); }
                        comma_items(t, skip_nl(t, p3), close, label, kind, multiline, acc2)
                    } else if is_at(t, p3, TokenKind::Newline) {
                        Err(err_at(t, p3, label + "s must all be on the same line; use a newline after '(' for multiline style"@))
                    } else {
                        comma_items(t, p3, close, label, kind, multiline, acc2)
                    }
                }
            },
        }
    } else {
        comma_close(t, p, close, label, acc)
    }
}

pub open spec fn comma_close(t: Seq<Token>, p: int, close: TokenKind, label: Seq<char>, acc: Seq<SpecElem>) -> SRes<Seq<SpecElem>> {
    let p1 = skip_nl(t, p);
    if is_at(t, p1, TokenKind::Comma) {
        Err(err_at(t, p1, "comma must follow a "@ + label + " on the same line, not precede it on the next line"@))
    } else {
        match consume(t, p1, close) {
            Ok(p2) => Ok((acc, p2)),
            Err(e) => Err(e),
        }
    }
}

/// A `{ ... }` body of newline separated items.
#[verifier::opaque]
pub open spec fn braced_list(t: Seq<Token>, p: int, label: Seq<char>, kind: ElemKind) -> SRes<Seq<SpecElem>>
    decreases t.len() - p, 1nat,
{
    match consume(t, p, TokenKind::LBrace) {
        Err(e) => Err(e),
        Ok(p1) => {
            if 0 <= p <= t.len() {
                proof { lemma_skip_nl(t, p1); }
                braced_items(t, skip_nl(t, p1), label, kind, seq![])
            } else {
                Err(stalled())
            }
        },
    }
}

#[verifier::opaque]
pub open spec fn braced_items(t: Seq<Token>, p: int, label: Seq<char>, kind: ElemKind, acc: Seq<SpecElem>) -> SRes<Seq<SpecElem>>
    decreases t.len() - p, 30nat,
{
    if before(t, p, TokenKind::RBrace) {
        match within(item(t, p, kind), p + 1, t.len() as int) {
            Err(e) => Err(e),
            Ok((it, p1)) => match expect_newline(t, p1, label) {
                Err(e) => Err(e),
                Ok(p2) => {
                    proof { lemma_skip_nl(t, p1); }
                    braced_items(t, p2, label, kind, acc.push(it))
                },
            },
        }
    } else {
        match consume(t, p, TokenKind::RBrace) {
            Ok(p1) => Ok((acc, p1)),
            Err(e) => Err(e),
        }
    }
}

/// One list item of the given kind.
#[verifier::opaque]
pub open spec fn item(t: Seq<Token>, p: int, kind: ElemKind) -> SRes<SpecElem>
    decreases t.len() - p, 29nat,
{
    match kind {
        ElemKind::Expr => match expr(t, p) {
            Ok((e, p1)) => Ok((SpecElem::Expr(e), p1)),
            Err(e) => Err(e),
        },
        ElemKind::Param => match param(t, p) {
            Ok((e, p1)) => Ok((SpecElem::Param(e), p1)),
            Err(e) => Err(e),
        },
        ElemKind::FuncParam => match param(t, p) {
            Ok((e, p1)) => if e.ty is None {
                Err(err_at(t, p1, "expected type annotation for parameter"@))
            } else {
                Ok((SpecElem::Param(e), p1))
            },
            Err(e) => Err(e),
        },
        ElemKind::Pattern => match pattern(t, p) {
            Ok((e, p1)) => Ok((SpecElem::Pattern(e), p1)),
            Err(e) => Err(e),
        },
        ElemKind::PatternOrRest => if !is_at(t, p, TokenKind::DotDot) {
            match pattern(t, p) {
                Ok((e, p1)) => Ok((SpecElem::Pattern(e), p1)),
                Err(e) => Err(e),
            }
        } else {
            let start = cur_span(t, p).start;
            let q = adv(t, p);
            if kind_at(t, q) is Identifier {
                match ident(t, q) {
                    Ok((name, q2)) => Ok((SpecElem::Pattern(SpecPattern { kind: SpecPatternKind::Rest(Some(name)), span: span_from(t, start, q2) }), q2)),
                    Err(e) => Err(e),
                }
            } else {
                Ok((SpecElem::Pattern(SpecPattern { kind: SpecPatternKind::Rest(None), span: span_from(t, start, q) }), q))
            }
        },
        ElemKind::Ty => match ty(t, p) {
            Ok((e, p1)) => Ok((SpecElem::Ty(e), p1)),
            Err(e) => Err(e),
        },
        ElemKind::Ident => match ident(t, p) {
            Ok((e, p1)) => Ok((SpecElem::Ident(e), p1)),
            Err(e) => Err(e),
        },
        ElemKind::Stmt => match stmt(t, p) {
            Ok((e, p1)) => Ok((SpecElem::Stmt(e), p1)),
            Err(e) => Err(e),
        },
        ElemKind::Arm => match match_arm(t, p) {
            Ok((e, p1)) => Ok((SpecElem::Arm(e), p1)),
            Err(e) => Err(e),
        },
        ElemKind::Variant => match type_variant(t, p) {
            Ok((e, p1)) => Ok((SpecElem::Variant(e), p1)),
            Err(e) => Err(e),
        },
        ElemKind::Field => match struct_field(t, p) {
            Ok((e, p1)) => Ok((SpecElem::Field(e), p1)),
            Err(e) => Err(e),
        },
    }
}

// ---- types ----

#[verifier::opaque]
pub open spec fn ty(t: Seq<Token>, p: int) -> SRes<SpecTy>
    decreases t.len() - p, 2nat,
{
    match kind_at(t, p) {
        TokenKind::LBracket => {
            let q = adv(t, p);
            match within(ty(t, q), q, t.len() as int) {
                Err(e) => Err(e),
                Ok((inner, p1)) => match consume(t, p1, TokenKind::RBracket) {
                    Err(e) => Err(e),
                    Ok(p2) => Ok((SpecTy::Array(Box::new(inner)), p2)),
                },
            }
        },
        TokenKind::Func => {
            let q = adv(t, p);
            match within(comma_list(t, q, TokenKind::LParen, TokenKind::RParen, "parameter type"@, ElemKind::Ty), q, t.len() as int) {
                Err(e) => Err(e),
                Ok((params, p1)) => if is_at(t, p1, TokenKind::Arrow) {
                    let q2 = adv(t, p1);
                    match within(ty(t, q2), q2, t.len() as int) {
                        Err(e) => Err(e),
                        Ok((r, p2)) => Ok((SpecTy::Func { params: elems_tys(params), ret: Some(Box::new(r)) }, p2)),
                    }
                } else {
                    Ok((SpecTy::Func { params: elems_tys(params), ret: None }, p1))
                },
            }
        },
        TokenKind::Identifier(_) => match ident(t, p) {
            Err(e) => Err(e),
            Ok((name, p1)) => if is_at(t, p1, TokenKind::LParen) {
                match within(comma_list(t, p1, TokenKind::LParen, TokenKind::RParen, "type argument"@, ElemKind::Ty), p1, t.len() as int) {
                    Err(e) => Err(e),
                    Ok((args, p2)) => if args.len() == 0 {
                        Err(err_at(t, p2, "type argument list cannot be empty"@))
                    } else {
                        Ok((SpecTy::Named { name, args: elems_tys(args) }, p2))
                    },
                }
            } else {
                Ok((SpecTy::Named { name, args: seq![] }, p1))
            },
        },
        other => Err(err_at(t, p, got("expected type"@, other))),
    }
}

/// `: Type`, or nothing.
#[verifier::opaque]
pub open spec fn type_annotation(t: Seq<Token>, p: int) -> SRes<Option<SpecTy>>
    decreases t.len() - p, 1nat,
{
    if !is_at(t, p, TokenKind::Colon) {
        Ok((None, p))
    } else {
        let q = adv(t, p);
        match within(ty(t, q), q, t.len() as int) {
            Err(e) => Err(e),
            Ok((ty, p1)) => Ok((Some(ty), p1)),
        }
    }
}

/// The type parameters of a type or struct declaration.
#[verifier::opaque]
pub open spec fn ty_params(t: Seq<Token>, p: int) -> SRes<Seq<Identifier>>
    decreases t.len() - p, 2nat,
{
    if !is_at(t, p, TokenKind::LParen) {
        Ok((seq![], p))
    } else {
        match within(comma_list(t, p, TokenKind::LParen, TokenKind::RParen, "type parameter"@, ElemKind::Ident), p, t.len() as int) {
            Err(e) => Err(e),
            Ok((ps, p1)) => if ps.len() == 0 {
                Err(err_at(t, p1, "type parameter list cannot be empty"@))
            } else {
                Ok((elems_idents(ps), p1))
            },
        }
    }
}

#[verifier::opaque]
pub open spec fn param(t: Seq<Token>, p: int) -> SRes<SpecParam>
    decreases t.len() - p, 2nat,
{
    match ident(t, p) {
        Err(e) => Err(e),
        Ok((name, p1)) => if p1 > p {
            match type_annotation(t, p1) {
                Err(e) => Err(e),
                Ok((ty, p2)) => Ok((SpecParam { name, ty }, p2)),
            }
        } else {
            Err(stalled())
        },
    }
}

// ---- statements ----

#[verifier::opaque]
pub open spec fn stmt(t: Seq<Token>, p: int) -> SRes<SpecStmt>
    decreases t.len() - p, 28nat,
{
    match kind_at(t, p) {
        TokenKind::Func => match func_decl(t, p) {
            Ok((s, p1)) => Ok((SpecStmt::Func(s), p1)),
            Err(e) => Err(e),
        },
        TokenKind::Let => match let_stmt(t, p) {
            Ok((s, p1)) => Ok((SpecStmt::Let(s), p1)),
            Err(e) => Err(e),
        },
        TokenKind::Type => match type_decl(t, p) {
            Ok((s, p1)) => Ok((SpecStmt::Type(s), p1)),
            Err(e) => Err(e),
        },
        TokenKind::Struct => match struct_decl(t, p) {
            Ok((s, p1)) => Ok((SpecStmt::Struct(s), p1)),
            Err(e) => Err(e),
        },
        _ => match expr(t, p) {
            Ok((e, p1)) => Ok((SpecStmt::Expr(e), p1)),
            Err(e) => Err(e),
        },
    }
}

#[verifier::opaque]
pub open spec fn func_decl(t: Seq<Token>, p: int) -> SRes<SpecFuncStmt>
    decreases t.len() - p, 1nat,
{
    match consume(t, p, TokenKind::Func) {
        Err(e) => Err(e),
        Ok(q) => if p < q <= t.len() {
            match ident(t, q) {
                Err(e) => Err(e),
                Ok((name, p1)) => match within(comma_list(t, p1, TokenKind::LParen, TokenKind::RParen, "parameter"@, ElemKind::FuncParam), p1, t.len() as int) {
                    Err(e) => Err(e),
                    Ok((params, p2)) => {
                        let r: SRes<Option<SpecTy>> = if is_at(t, p2, TokenKind::Arrow) {
                            let q2 = adv(t, p2);
                            match within(ty(t, q2), q2, t.len() as int) {
                                Err(e) => Err(e),
                                Ok((rt, p3)) => Ok((Some(rt), p3)),
                            }
                        } else {
                            Ok((None, p2))
                        };
                        match r {
                            Err(e) => Err(e),
                            Ok((ret, p3)) => if p3 >= q {
                                match within(block(t, p3), p3, t.len() as int) {
                                    Err(e) => Err(e),
                                    Ok((body, p4)) => Ok((SpecFuncStmt { name, params: elems_params(params), ret, body }, p4)),
                                }
                            } else {
                                Err(stalled())
                            },
                        }
                    },
                },
            }
        } else {
            Err(stalled())
        },
    }
}

#[verifier::opaque]
pub open spec fn let_stmt(t: Seq<Token>, p: int) -> SRes<SpecLetStmt>
    decreases t.len() - p, 1nat,
{
    match consume(t, p, TokenKind::Let) {
        Err(e) => Err(e),
        Ok(q) => if p < q <= t.len() {
            match ident(t, q) {
                Err(e) => Err(e),
                Ok((name, p1)) => match within(type_annotation(t, p1), p1, t.len() as int) {
                    Err(e) => Err(e),
                    Ok((ty, p2)) => match consume(t, p2, TokenKind::Eq) {
                        Err(e) => Err(e),
                        Ok(p3) => if p3 >= q {
                            match within(expr(t, p3), p3, t.len() as int) {
                                Err(e) => Err(e),
                                Ok((value, p4)) => Ok((SpecLetStmt { name, ty, value }, p4)),
                            }
                        } else {
                            Err(stalled())
                        },
                    },
                },
            }
        } else {
            Err(stalled())
        },
    }
}

#[verifier::opaque]
pub open spec fn type_decl(t: Seq<Token>, p: int) -> SRes<SpecTypeStmt>
    decreases t.len() - p, 1nat,
{
    match consume(t, p, TokenKind::Type) {
        Err(e) => Err(e),
        Ok(q) => if p < q <= t.len() {
            match ident(t, q) {
                Err(e) => Err(e),
                Ok((name, p1)) => match within(ty_params(t, p1), p1, t.len() as int) {
                    Err(e) => Err(e),
                    Ok((tps, p2)) => match within(braced_list(t, p2, "variant"@, ElemKind::Variant), p2, t.len() as int) {
                        Err(e) => Err(e),
                        Ok((vs, p3)) => Ok((SpecTypeStmt { name, ty_params: tps, variants: elems_variants(vs) }, p3)),
                    },
                },
            }
        } else {
            Err(stalled())
        },
    }
}

#[verifier::opaque]
pub open spec fn type_variant(t: Seq<Token>, p: int) -> SRes<SpecTypeVariant>
    decreases t.len() - p, 2nat,
{
    match ident(t, p) {
        Err(e) => Err(e),
        Ok((name, p1)) => if p1 > p && is_at(t, p1, TokenKind::LParen) {
            match within(comma_list(t, p1, TokenKind::LParen, TokenKind::RParen, "type field"@, ElemKind::Ty), p1, t.len() as int) {
                Err(e) => Err(e),
                Ok((fs, p2)) => Ok((SpecTypeVariant { name, ty_fields: elems_tys(fs) }, p2)),
            }
        } else {
            Ok((SpecTypeVariant { name, ty_fields: seq![] }, p1))
        },
    }
}

#[verifier::opaque]
pub open spec fn struct_decl(t: Seq<Token>, p: int) -> SRes<SpecStructStmt>
    decreases t.len() - p, 1nat,
{
    match consume(t, p, TokenKind::Struct) {
        Err(e) => Err(e),
        Ok(q) => if p < q <= t.len() {
            match ident(t, q) {
                Err(e) => Err(e),
                Ok((name, p1)) => match within(ty_params(t, p1), p1, t.len() as int) {
                    Err(e) => Err(e),
                    Ok((tps, p2)) => match within(braced_list(t, p2, "field"@, ElemKind::Field), p2, t.len() as int) {
                        Err(e) => Err(e),
                        Ok((fs, p3)) => Ok((SpecStructStmt { name, ty_params: tps, fields: elems_fields(fs) }, p3)),
                    },
                },
            }
        } else {
            Err(stalled())
        },
    }
}

#[verifier::opaque]
pub open spec fn struct_field(t: Seq<Token>, p: int) -> SRes<SpecStructField>
    decreases t.len() - p, 2nat,
{
    match ident(t, p) {
        Err(e) => Err(e),
        Ok((name, p1)) => match consume(t, p1, TokenKind::Colon) {
            Err(e) => Err(e),
            Ok(p2) => if p < p2 <= t.len() {
                match within(ty(t, p2), p2, t.len() as int) {
                    Err(e) => Err(e),
                    Ok((ty, p3)) => Ok((SpecStructField { name, ty }, p3)),
                }
            } else {
                Err(stalled())
            },
        },
    }
}

/// `{ statements }`
#[verifier::opaque]
pub open spec fn block(t: Seq<Token>, p: int) -> SRes<SpecBlock>
    decreases t.len() - p, 3nat,
{
    let start = cur_span(t, p).start;
    match within(braced_list(t, p, "statement"@, ElemKind::Stmt), p, t.len() as int) {
        Err(e) => Err(e),
        Ok((ss, p1)) => Ok((SpecBlock { stmts: elems_stmts(ss), span: span_from(t, start, p1) }, p1)),
    }
}

/// Statements up to the end of the input.
#[verifier::opaque]
pub open spec fn program_items(t: Seq<Token>, p: int, acc: Seq<SpecStmt>) -> SRes<Seq<SpecStmt>>
    decreases t.len() - p,
{
    if 0 <= p <= t.len() && !is_at(t, p, TokenKind::Eof) {
        match within(stmt(t, p), p + 1, t.len() as int) {
            Err(e) => Err(e),
            Ok((s, p1)) => {
                proof { lemma_skip_nl(t, p1); }
                program_items(t, skip_nl(t, p1), acc.push(s))
            },
        }
    } else {
        Ok((acc, p))
    }
}

pub open spec fn program(t: Seq<Token>) -> SRes<SpecProgram> {
    match program_items(t, skip_nl(t, 0), seq![]) {
        Ok((ss, p)) => Ok((SpecProgram { stmts: ss }, p)),
        Err(e) => Err(e),
    }
}

// ---- expressions ----

#[verifier::opaque]
pub open spec fn expr(t: Seq<Token>, p: int) -> SRes<SpecExpr>
    decreases t.len() - p, 20nat,
{
    or_expr(t, p)
}

#[verifier::opaque]
pub open spec fn or_expr(t: Seq<Token>, p: int) -> SRes<SpecExpr>
    decreases t.len() - p, 19nat,
{
    match within(and_expr(t, p), p, t.len() as int) {
        Err(e) => Err(e),
        Ok((l, p1)) => or_tail(t, l, p1),
    }
}

#[verifier::opaque]
pub open spec fn or_tail(t: Seq<Token>, l: SpecExpr, p: int) -> SRes<SpecExpr>
    decreases t.len() - p, 0nat,
{
    if is_at(t, p, TokenKind::Or) && 0 <= p < t.len() {
        match within(and_expr(t, p + 1), p + 1, t.len() as int) {
            Err(e) => Err(e),
            Ok((r, p2)) => or_tail(t, binary(BinOpKind::Or, l, r), p2),
        }
    } else {
        Ok((l, p))
    }
}

#[verifier::opaque]
pub open spec fn and_expr(t: Seq<Token>, p: int) -> SRes<SpecExpr>
    decreases t.len() - p, 17nat,
{
    match within(equality(t, p), p, t.len() as int) {
        Err(e) => Err(e),
        Ok((l, p1)) => and_tail(t, l, p1),
    }
}

#[verifier::opaque]
pub open spec fn and_tail(t: Seq<Token>, l: SpecExpr, p: int) -> SRes<SpecExpr>
    decreases t.len() - p, 0nat,
{
    if is_at(t, p, TokenKind::And) && 0 <= p < t.len() {
        match within(equality(t, p + 1), p + 1, t.len() as int) {
            Err(e) => Err(e),
            Ok((r, p2)) => and_tail(t, binary(BinOpKind::And, l, r), p2),
        }
    } else {
        Ok((l, p))
    }
}

pub open spec fn equality_op(k: TokenKind) -> Option<BinOpKind> {
    match k {
        TokenKind::EqEq => Some(BinOpKind::EqEq),
        TokenKind::BangEq => Some(BinOpKind::NotEq),
        _ => None,
    }
}

pub open spec fn comparison_op(k: TokenKind) -> Option<BinOpKind> {
    match k {
        TokenKind::Lt => Some(BinOpKind::Lt),
        TokenKind::Gt => Some(BinOpKind::Gt),
        TokenKind::LtEq => Some(BinOpKind::LtEq),
        TokenKind::GtEq => Some(BinOpKind::GtEq),
        _ => None,
    }
}

pub open spec fn additive_op(k: TokenKind) -> Option<BinOpKind> {
    match k {
        TokenKind::Plus => Some(BinOpKind::Add),
        TokenKind::Minus => Some(BinOpKind::Sub),
        _ => None,
    }
}

pub open spec fn multiplicative_op(k: TokenKind) -> Option<BinOpKind> {
    match k {
        TokenKind::Asterisk => Some(BinOpKind::Mul),
        TokenKind::Slash => Some(BinOpKind::Div),
        _ => None,
    }
}

#[verifier::opaque]
pub open spec fn equality(t: Seq<Token>, p: int) -> SRes<SpecExpr>
    decreases t.len() - p, 15nat,
{
    match within(comparison(t, p), p, t.len() as int) {
        Err(e) => Err(e),
        Ok((l, p1)) => equality_tail(t, l, p1),
    }
}

#[verifier::opaque]
pub open spec fn equality_tail(t: Seq<Token>, l: SpecExpr, p: int) -> SRes<SpecExpr>
    decreases t.len() - p, 0nat,
{
    match equality_op(kind_at(t, p)) {
        Some(op) => if 0 <= p < t.len() {
            match within(comparison(t, p + 1), p + 1, t.len() as int) {
                Err(e) => Err(e),
                Ok((r, p2)) => equality_tail(t, binary(op, l, r), p2),
            }
        } else {
            Err(stalled())
        },
        None => Ok((l, p)),
    }
}

#[verifier::opaque]
pub open spec fn comparison(t: Seq<Token>, p: int) -> SRes<SpecExpr>
    decreases t.len() - p, 13nat,
{
    match within(additive(t, p), p, t.len() as int) {
        Err(e) => Err(e),
        Ok((l, p1)) => comparison_tail(t, l, p1),
    }
}

#[verifier::opaque]
pub open spec fn comparison_tail(t: Seq<Token>, l: SpecExpr, p: int) -> SRes<SpecExpr>
    decreases t.len() - p, 0nat,
{
    match comparison_op(kind_at(t, p)) {
        Some(op) => if 0 <= p < t.len() {
            match within(additive(t, p + 1), p + 1, t.len() as int) {
                Err(e) => Err(e),
                Ok((r, p2)) => comparison_tail(t, binary(op, l, r), p2),
            }
        } else {
            Err(stalled())
        },
        None => Ok((l, p)),
    }
}

#[verifier::opaque]
pub open spec fn additive(t: Seq<Token>, p: int) -> SRes<SpecExpr>
    decreases t.len() - p, 11nat,
{
    match within(multiplicative(t, p), p, t.len() as int) {
        Err(e) => Err(e),
        Ok((l, p1)) => additive_tail(t, l, p1),
    }
}

#[verifier::opaque]
pub open spec fn additive_tail(t: Seq<Token>, l: SpecExpr, p: int) -> SRes<SpecExpr>
    decreases t.len() - p, 0nat,
{
    match additive_op(kind_at(t, p)) {
        Some(op) => if 0 <= p < t.len() {
            match within(multiplicative(t, p + 1), p + 1, t.len() as int) {
                Err(e) => Err(e),
                Ok((r, p2)) => additive_tail(t, binary(op, l, r), p2),
            }
        } else {
            Err(stalled())
        },
        None => Ok((l, p)),
    }
}

#[verifier::opaque]
pub open spec fn multiplicative(t: Seq<Token>, p: int) -> SRes<SpecExpr>
    decreases t.len() - p, 9nat,
{
    match within(unary(t, p), p, t.len() as int) {
        Err(e) => Err(e),
        Ok((l, p1)) => multiplicative_tail(t, l, p1),
    }
}

#[verifier::opaque]
pub open spec fn multiplicative_tail(t: Seq<Token>, l: SpecExpr, p: int) -> SRes<SpecExpr>
    decreases t.len() - p, 0nat,
{
    match multiplicative_op(kind_at(t, p)) {
        Some(op) => if 0 <= p < t.len() {
            match within(unary(t, p + 1), p + 1, t.len() as int) {
                Err(e) => Err(e),
                Ok((r, p2)) => multiplicative_tail(t, binary(op, l, r), p2),
            }
        } else {
            Err(stalled())
        },
        None => Ok((l, p)),
    }
}

#[verifier::opaque]
pub open spec fn unary(t: Seq<Token>, p: int) -> SRes<SpecExpr>
    decreases t.len() - p, 7nat,
{
    let op = match kind_at(t, p) {
        TokenKind::Minus => Some(UnaryOpKind::Neg),
        TokenKind::Bang => Some(UnaryOpKind::Not),
        _ => None,
    };
    match op {
        None => postfix(t, p),
        Some(op) => if 0 <= p < t.len() {
            let start = cur_span(t, p).start;
            match within(unary(t, p + 1), p + 1, t.len() as int) {
                Err(e) => Err(e),
                Ok((operand, p2)) => Ok((
                    SpecExpr { kind: SpecExprKind::UnaryOp { op, operand: Box::new(operand) }, span: Span { start, end: operand.span.end } },
                    p2,
                )),
            }
        } else {
            Err(stalled())
        },
    }
}

#[verifier::opaque]
pub open spec fn postfix(t: Seq<Token>, p: int) -> SRes<SpecExpr>
    decreases t.len() - p, 6nat,
{
    match within(primary(t, p), p, t.len() as int) {
        Err(e) => Err(e),
        Ok((e, p1)) => postfix_tail(t, e, p1),
    }
}

#[verifier::opaque]
pub open spec fn postfix_tail(t: Seq<Token>, e: SpecExpr, p: int) -> SRes<SpecExpr>
    decreases t.len() - p, 5nat,
{
    if 0 <= p < t.len() {
        match kind_at(t, p) {
            TokenKind::Dot => match ident(t, p + 1) {
                Err(err) => Err(err),
                Ok((field, p2)) => if p < p2 <= t.len() {
                    postfix_tail(t, SpecExpr {
                        kind: SpecExprKind::FieldAccess { base: Box::new(e), field },
                        span: Span { start: e.span.start, end: field.span.end },
                    }, p2)
                } else {
                    Err(stalled())
                },
            },
            TokenKind::LParen => match within(comma_list(t, p, TokenKind::LParen, TokenKind::RParen, "argument"@, ElemKind::Expr), p + 1, t.len() as int) {
                Err(err) => Err(err),
                Ok((args, p2)) => postfix_tail(t, SpecExpr {
                    kind: SpecExprKind::Call { callee: Box::new(e), args: elems_exprs(args) },
                    span: span_from(t, e.span.start, p2),
                }, p2),
            },
            TokenKind::LBracket => match within(expr(t, p + 1), p + 1, t.len() as int) {
                Err(err) => Err(err),
                Ok((index, p2)) => match consume(t, p2, TokenKind::RBracket) {
                    Err(err) => Err(err),
                    Ok(p3) => if p < p3 <= t.len() {
                        postfix_tail(t, SpecExpr {
                            kind: SpecExprKind::Index { base: Box::new(e), index: Box::new(index) },
                            span: span_from(t, e.span.start, p3),
                        }, p3)
                    } else {
                        Err(stalled())
                    },
                },
            },
            _ => Ok((e, p)),
        }
    } else {
        Ok((e, p))
    }
}

pub open spec fn literal_expr(t: Seq<Token>, p: int, l: Literal) -> SRes<SpecExpr> {
    Ok((SpecExpr { kind: SpecExprKind::Literal(l), span: cur_span(t, p) }, adv(t, p)))
}

#[verifier::opaque]
pub open spec fn primary(t: Seq<Token>, p: int) -> SRes<SpecExpr>
    decreases t.len() - p, 4nat,
{
    if 0 <= p < t.len() {
        match kind_at(t, p) {
            TokenKind::Int(v) => literal_expr(t, p, Literal::Int(v)),
            TokenKind::True => literal_expr(t, p, Literal::Bool(true)),
            TokenKind::False => literal_expr(t, p, Literal::Bool(false)),
            TokenKind::LParen => {
                proof { lemma_skip_nl(t, p + 1); }
                let q = skip_nl(t, p + 1);
                match within(expr(t, q), q, t.len() as int) {
                    Err(e) => Err(e),
                    Ok((e, p1)) => match consume(t, skip_nl(t, p1), TokenKind::RParen) {
                        Err(err) => Err(err),
                        Ok(p2) => Ok((e, p2)),
                    },
                }
            },
            TokenKind::LBracket => {
                let start = cur_span(t, p).start;
                match within(comma_list(t, p, TokenKind::LBracket, TokenKind::RBracket, "element"@, ElemKind::Expr), p, t.len() as int) {
                    Err(e) => Err(e),
                    Ok((es, p1)) => Ok((SpecExpr { kind: SpecExprKind::Array(elems_exprs(es)), span: span_from(t, start, p1) }, p1)),
                }
            },
            TokenKind::LBrace => match within(block(t, p), p, t.len() as int) {
                Err(e) => Err(e),
                Ok((b, p1)) => Ok((SpecExpr { kind: SpecExprKind::Block(b), span: b.span }, p1)),
            },
            TokenKind::If => if_expr(t, cur_span(t, p).start, p + 1),
            TokenKind::Match => match_expr(t, p),
            TokenKind::VerBar | TokenKind::Or => closure(t, p),
            TokenKind::Identifier(_) => match ident(t, p) {
                Err(e) => Err(e),
                Ok((id, p1)) => Ok((SpecExpr { kind: SpecExprKind::Identifier(id), span: id.span }, p1)),
            },
            other => Err(err_at(t, p, got("expected expression"@, other))),
        }
    } else {
        Err(err_at(t, p, got("expected expression"@, TokenKind::Eof)))
    }
}

/// The rest of an `if`/`elif` expression, after the keyword that started at `start`.
#[verifier::opaque]
pub open spec fn if_expr(t: Seq<Token>, start: Pos, p: int) -> SRes<SpecExpr>
    decreases t.len() - p, 21nat,
{
    match within(expr(t, p), p, t.len() as int) {
        Err(e) => Err(e),
        Ok((condition, p1)) => match within(block(t, p1), p1, t.len() as int) {
            Err(e) => Err(e),
            Ok((then_block, p2)) => {
                let r: SRes<Option<SpecExpr>> = if is_at(t, p2, TokenKind::Elif) && p2 < t.len() {
                    match within(if_expr(t, cur_span(t, p2).start, p2 + 1), p2 + 1, t.len() as int) {
                        Err(e) => Err(e),
                        Ok((e, p3)) => Ok((Some(e), p3)),
                    }
                } else if is_at(t, p2, TokenKind::Else) && p2 < t.len() {
                    match within(block(t, p2 + 1), p2 + 1, t.len() as int) {
                        Err(e) => Err(e),
                        Ok((b, p3)) => Ok((Some(SpecExpr { kind: SpecExprKind::Block(b), span: b.span }), p3)),
                    }
                } else {
                    Ok((None, p2))
                };
                match r {
                    Err(e) => Err(e),
                    Ok((else_expr, p3)) => {
                        let end = match else_expr {
                            Some(e) => e.span.end,
                            None => then_block.span.end,
                        };
                        Ok((
                            SpecExpr {
                                kind: SpecExprKind::If {
                                    condition: Box::new(condition),
                                    then_block,
                                    else_branch: match else_expr {
                                        Some(e) => Some(Box::new(e)),
                                        None => None,
                                    },
                                },
                                span: Span { start, end },
                            },
                            p3,
                        ))
                    },
                }
            },
        },
    }
}

#[verifier::opaque]
pub open spec fn closure(t: Seq<Token>, p: int) -> SRes<SpecExpr>
    decreases t.len() - p, 3nat,
{
    let start = cur_span(t, p).start;
    let params: SRes<Seq<SpecParam>> = if is_at(t, p, TokenKind::Or) {
        Ok((seq![], adv(t, p)))
    } else {
        match within(comma_list(t, p, TokenKind::VerBar, TokenKind::VerBar, "parameter"@, ElemKind::Param), p, t.len() as int) {
            Err(e) => Err(e),
            Ok((ps, p1)) => Ok((elems_params(ps), p1)),
        }
    };
    match params {
        Err(e) => Err(e),
        Ok((params, p1)) => if p <= p1 <= t.len() {
            let r: SRes<Option<SpecTy>> = if is_at(t, p1, TokenKind::Arrow) {
                let q = adv(t, p1);
                match within(ty(t, q), q, t.len() as int) {
                    Err(e) => Err(e),
                    Ok((rt, p2)) => Ok((Some(rt), p2)),
                }
            } else {
                Ok((None, p1))
            };
            match r {
                Err(e) => Err(e),
                Ok((ret, p2)) => match consume(t, p2, TokenKind::FatArrow) {
                    Err(e) => Err(e),
                    Ok(p3) => if p < p3 <= t.len() {
                        match within(expr(t, p3), p3, t.len() as int) {
                            Err(e) => Err(e),
                            Ok((body, p4)) => Ok((
                                SpecExpr { kind: SpecExprKind::Closure { params, ret, body: Box::new(body) }, span: Span { start, end: body.span.end } },
                                p4,
                            )),
                        }
                    } else {
                        Err(stalled())
                    },
                },
            }
        } else {
            Err(stalled())
        },
    }
}

#[verifier::opaque]
pub open spec fn match_expr(t: Seq<Token>, p: int) -> SRes<SpecExpr>
    decreases t.len() - p, 1nat,
{
    let start = cur_span(t, p).start;
    match consume(t, p, TokenKind::Match) {
        Err(e) => Err(e),
        Ok(q) => if p < q <= t.len() {
            match within(expr(t, q), q, t.len() as int) {
                Err(e) => Err(e),
                Ok((subject, p1)) => match within(braced_list(t, p1, "match arm"@, ElemKind::Arm), p1, t.len() as int) {
                    Err(e) => Err(e),
                    Ok((arms, p2)) => Ok((
                        SpecExpr { kind: SpecExprKind::Match { subject: Box::new(subject), arms: elems_arms(arms) }, span: span_from(t, start, p2) },
                        p2,
                    )),
                },
            }
        } else {
            Err(stalled())
        },
    }
}

#[verifier::opaque]
pub open spec fn match_arm(t: Seq<Token>, p: int) -> SRes<SpecMatchArm>
    decreases t.len() - p, 5nat,
{
    match within(pattern(t, p), p, t.len() as int) {
        Err(e) => Err(e),
        Ok((pat, p1)) => {
            let g: SRes<Option<SpecExpr>> = if is_at(t, p1, TokenKind::If) && p1 < t.len() {
                match within(expr(t, p1 + 1), p1 + 1, t.len() as int) {
                    Err(e) => Err(e),
                    Ok((g, p2)) => Ok((Some(g), p2)),
                }
            } else {
                Ok((None, p1))
            };
            match g {
                Err(e) => Err(e),
                Ok((guard, p2)) => match consume(t, p2, TokenKind::FatArrow) {
                    Err(e) => Err(e),
                    Ok(p3) => if p < p3 <= t.len() {
                        match within(expr(t, p3), p3, t.len() as int) {
                            Err(e) => Err(e),
                            Ok((body, p4)) => Ok((SpecMatchArm { pattern: pat, guard, body }, p4)),
                        }
                    } else {
                        Err(stalled())
                    },
                },
            }
        },
    }
}

// ---- patterns ----

#[verifier::opaque]
pub open spec fn pattern(t: Seq<Token>, p: int) -> SRes<SpecPattern>
    decreases t.len() - p, 4nat,
{
    match within(single_pattern(t, p), p, t.len() as int) {
        Err(e) => Err(e),
        Ok((first, p1)) => if !is_at(t, p1, TokenKind::VerBar) {
            Ok((first, p1))
        } else {
            match pattern_alts(t, p1, seq![first]) {
                Err(e) => Err(e),
                Ok((alts, p2)) => Ok((SpecPattern { kind: SpecPatternKind::Or(alts), span: Span { start: alts[0].span.start, end: alts.last().span.end } }, p2)),
            }
        },
    }
}

#[verifier::opaque]
pub open spec fn pattern_alts(t: Seq<Token>, p: int, acc: Seq<SpecPattern>) -> SRes<Seq<SpecPattern>>
    decreases t.len() - p, 0nat,
{
    if is_at(t, p, TokenKind::VerBar) && 0 <= p < t.len() {
        match within(single_pattern(t, p + 1), p + 1, t.len() as int) {
            Err(e) => Err(e),
            Ok((pt, p2)) => pattern_alts(t, p2, acc.push(pt)),
        }
    } else {
        Ok((acc, p))
    }
}

pub open spec fn literal_pattern(t: Seq<Token>, p: int, l: Literal) -> SRes<SpecPattern> {
    Ok((SpecPattern { kind: SpecPatternKind::Literal(l), span: cur_span(t, p) }, adv(t, p)))
}

#[verifier::opaque]
pub open spec fn single_pattern(t: Seq<Token>, p: int) -> SRes<SpecPattern>
    decreases t.len() - p, 3nat,
{
    match kind_at(t, p) {
        TokenKind::Int(v) => literal_pattern(t, p, Literal::Int(v)),
        TokenKind::True => literal_pattern(t, p, Literal::Bool(true)),
        TokenKind::False => literal_pattern(t, p, Literal::Bool(false)),
        TokenKind::Minus => {
            let start = cur_span(t, p).start;
            let q = adv(t, p);
            match kind_at(t, q) {
                TokenKind::Int(v) => {
                    let q2 = adv(t, q);
                    Ok((SpecPattern { kind: SpecPatternKind::Literal(Literal::Int(-v as i64)), span: span_from(t, start, q2) }, q2))
                },
                other => Err(err_at(t, q, got("expected numeric literal after '-' in pattern"@, other))),
            }
        },
        TokenKind::Identifier(_) => match ident(t, p) {
            Err(e) => Err(e),
            Ok((name, p1)) => if name.value@ == "_"@ {
                Ok((SpecPattern { kind: SpecPatternKind::Wildcard, span: name.span }, p1))
            } else if is_at(t, p1, TokenKind::LParen) && p < p1 {
                match within(comma_list(t, p1, TokenKind::LParen, TokenKind::RParen, "pattern"@, ElemKind::Pattern), p1, t.len() as int) {
                    Err(e) => Err(e),
                    Ok((args, p2)) => Ok((
                        SpecPattern { kind: SpecPatternKind::Constructor { name, args: elems_patterns(args) }, span: span_from(t, name.span.start, p2) },
                        p2,
                    )),
                }
            } else {
                Ok((SpecPattern { kind: SpecPatternKind::Identifier(name), span: name.span }, p1))
            },
        },
        TokenKind::LBracket => array_pattern(t, p),
        other => Err(err_at(t, p, got("expected pattern"@, other))),
    }
}

#[verifier::opaque]
pub open spec fn array_pattern(t: Seq<Token>, p: int) -> SRes<SpecPattern>
    decreases t.len() - p, 2nat,
{
    let start = cur_span(t, p).start;
    match within(comma_list(t, p, TokenKind::LBracket, TokenKind::RBracket, "pattern"@, ElemKind::PatternOrRest), p, t.len() as int) {
        Err(e) => Err(e),
        Ok((es, p1)) => {
            let pats = elems_patterns(es);
            if rest_count(pats) > 1 {
                Err(err_at(t, p1, "array pattern can have at most one rest pattern '..'"@))
            } else if rest_count(pats) == 1 && !(pats.len() > 0 && pats.last().kind is Rest) {
                Err(err_at(t, p1, "rest pattern '..' must be the last element of an array pattern"@))
            } else {
                Ok((SpecPattern { kind: SpecPatternKind::Array(pats), span: span_from(t, start, p1) }, p1))
            }
        },
    }
}

// ---- one step of each grammar function ----

pub proof fn unfold_comma_list(t: Seq<Token>, p: int, open: TokenKind, close: TokenKind, label: Seq<char>, kind: ElemKind)
    ensures
        comma_list(t, p, open, close, label, kind) == ({
            match consume(t, p, open) {
                Err(e) => Err(e),
                Ok(p1) => {
                    let multiline = is_at(t, p1, TokenKind::Newline);
                    if 0 <= p < t.len() {
                        comma_items(t, skip_nl(t, p1), close, label, kind, multiline, seq![])
                    } else {
                        Err(stalled())
                    }
                },
            }
        }),
{
    reveal(comma_list); reveal(comma_items);
}

pub proof fn unfold_comma_items(t: Seq<Token>, p: int, close: TokenKind, label: Seq<char>, kind: ElemKind, multiline: bool, acc: Seq<SpecElem>)
    ensures
        comma_items(t, p, close, label, kind, multiline, acc) == ({
            if before(t, p, close) {
                match within(item(t, p, kind), p, t.len() as int) {
                    Err(e) => Err(e),
                    Ok((it, p1)) => {
                        let acc2 = acc.push(it);
                        if !is_at(t, p1, TokenKind::Comma) {
                            if multiline && !is_at(t, p1, TokenKind::Newline) {
                                Err(err_at(t, p1, "closing "@ + kind_text(close) + " must be on its own line in multiline style"@))
                            } else {
                                comma_close(t, p1, close, label, acc2)
                            }
                        } else {
                            let p3 = p1 + 1;
                            if multiline {
                                comma_items(t, skip_nl(t, p3), close, label, kind, multiline, acc2)
                            } else if is_at(t, p3, TokenKind::Newline) {
                                Err(err_at(t, p3, label + "s must all be on the same line; use a newline after '(' for multiline style"@))
                            } else {
                                comma_items(t, p3, close, label, kind, multiline, acc2)
                            }
                        }
                    },
                }
            } else {
                comma_close(t, p, close, label, acc)
            }
        }),
{
    reveal(comma_items); reveal(item);
}

pub proof fn unfold_braced_list(t: Seq<Token>, p: int, label: Seq<char>, kind: ElemKind)
    ensures
        braced_list(t, p, label, kind) == ({
            match consume(t, p, TokenKind::LBrace) {
                Err(e) => Err(e),
                Ok(p1) => {
                    if 0 <= p <= t.len() {
                        braced_items(t, skip_nl(t, p1), label, kind, seq![])
                    } else {
                        Err(stalled())
                    }
                },
            }
        }),
{
    reveal(braced_list); reveal(braced_items);
}

pub proof fn unfold_braced_items(t: Seq<Token>, p: int, label: Seq<char>, kind: ElemKind, acc: Seq<SpecElem>)
    ensures
        braced_items(t, p, label, kind, acc) == ({
            if before(t, p, TokenKind::RBrace) {
                match within(item(t, p, kind), p + 1, t.len() as int) {
                    Err(e) => Err(e),
                    Ok((it, p1)) => match expect_newline(t, p1, label) {
                        Err(e) => Err(e),
                        Ok(p2) => {
                            braced_items(t, p2, label, kind, acc.push(it))
                        },
                    },
                }
            } else {
                match consume(t, p, TokenKind::RBrace) {
                    Ok(p1) => Ok((acc, p1)),
                    Err(e) => Err(e),
                }
            }
        }),
{
    reveal(braced_items); reveal(item);
}

pub proof fn unfold_item(t: Seq<Token>, p: int, kind: ElemKind)
    ensures
        item(t, p, kind) == ({
            match kind {
                ElemKind::Expr => match expr(t, p) {
                    Ok((e, p1)) => Ok((SpecElem::Expr(e), p1)),
                    Err(e) => Err(e),
                },
                ElemKind::Param => match param(t, p) {
                    Ok((e, p1)) => Ok((SpecElem::Param(e), p1)),
                    Err(e) => Err(e),
                },
                ElemKind::FuncParam => match param(t, p) {
                    Ok((e, p1)) => if e.ty is None {
                        Err(err_at(t, p1, "expected type annotation for parameter"@))
                    } else {
                        Ok((SpecElem::Param(e), p1))
                    },
                    Err(e) => Err(e),
                },
                ElemKind::Pattern => match pattern(t, p) {
                    Ok((e, p1)) => Ok((SpecElem::Pattern(e), p1)),
                    Err(e) => Err(e),
                },
                ElemKind::PatternOrRest => if !is_at(t, p, TokenKind::DotDot) {
                    match pattern(t, p) {
                        Ok((e, p1)) => Ok((SpecElem::Pattern(e), p1)),
                        Err(e) => Err(e),
                    }
                } else {
                    let start = cur_span(t, p).start;
                    let q = adv(t, p);
                    if kind_at(t, q) is Identifier {
                        match ident(t, q) {
                            Ok((name, q2)) => Ok((SpecElem::Pattern(SpecPattern { kind: SpecPatternKind::Rest(Some(name)), span: span_from(t, start, q2) }), q2)),
                            Err(e) => Err(e),
                        }
                    } else {
                        Ok((SpecElem::Pattern(SpecPattern { kind: SpecPatternKind::Rest(None), span: span_from(t, start, q) }), q))
                    }
                },
                ElemKind::Ty => match ty(t, p) {
                    Ok((e, p1)) => Ok((SpecElem::Ty(e), p1)),
                    Err(e) => Err(e),
                },
                ElemKind::Ident => match ident(t, p) {
                    Ok((e, p1)) => Ok((SpecElem::Ident(e), p1)),
                    Err(e) => Err(e),
                },
                ElemKind::Stmt => match stmt(t, p) {
                    Ok((e, p1)) => Ok((SpecElem::Stmt(e), p1)),
                    Err(e) => Err(e),
                },
                ElemKind::Arm => match match_arm(t, p) {
                    Ok((e, p1)) => Ok((SpecElem::Arm(e), p1)),
                    Err(e) => Err(e),
                },
                ElemKind::Variant => match type_variant(t, p) {
                    Ok((e, p1)) => Ok((SpecElem::Variant(e), p1)),
                    Err(e) => Err(e),
                },
                ElemKind::Field => match struct_field(t, p) {
                    Ok((e, p1)) => Ok((SpecElem::Field(e), p1)),
                    Err(e) => Err(e),
                },
            }
        }),
{
    reveal(item); reveal(ty); reveal(param); reveal(stmt); reveal(type_variant); reveal(struct_field); reveal(expr); reveal(match_arm); reveal(pattern);
}

pub proof fn unfold_ty(t: Seq<Token>, p: int)
    ensures
        ty(t, p) == ({
            match kind_at(t, p) {
                TokenKind::LBracket => {
                    let q = adv(t, p);
                    match within(ty(t, q), q, t.len() as int) {
                        Err(e) => Err(e),
                        Ok((inner, p1)) => match consume(t, p1, TokenKind::RBracket) {
                            Err(e) => Err(e),
                            Ok(p2) => Ok((SpecTy::Array(Box::new(inner)), p2)),
                        },
                    }
                },
                TokenKind::Func => {
                    let q = adv(t, p);
                    match within(comma_list(t, q, TokenKind::LParen, TokenKind::RParen, "parameter type"@, ElemKind::Ty), q, t.len() as int) {
                        Err(e) => Err(e),
                        Ok((params, p1)) => if is_at(t, p1, TokenKind::Arrow) {
                            let q2 = adv(t, p1);
                            match within(ty(t, q2), q2, t.len() as int) {
                                Err(e) => Err(e),
                                Ok((r, p2)) => Ok((SpecTy::Func { params: elems_tys(params), ret: Some(Box::new(r)) }, p2)),
                            }
                        } else {
                            Ok((SpecTy::Func { params: elems_tys(params), ret: None }, p1))
                        },
                    }
                },
                TokenKind::Identifier(_) => match ident(t, p) {
                    Err(e) => Err(e),
                    Ok((name, p1)) => if is_at(t, p1, TokenKind::LParen) {
                        match within(comma_list(t, p1, TokenKind::LParen, TokenKind::RParen, "type argument"@, ElemKind::Ty), p1, t.len() as int) {
                            Err(e) => Err(e),
                            Ok((args, p2)) => if args.len() == 0 {
                                Err(err_at(t, p2, "type argument list cannot be empty"@))
                            } else {
                                Ok((SpecTy::Named { name, args: elems_tys(args) }, p2))
                            },
                        }
                    } else {
                        Ok((SpecTy::Named { name, args: seq![] }, p1))
                    },
                },
                other => Err(err_at(t, p, got("expected type"@, other))),
            }
        }),
{
    reveal(ty); reveal(comma_list);
}

pub proof fn unfold_type_annotation(t: Seq<Token>, p: int)
    ensures
        type_annotation(t, p) == ({
            if !is_at(t, p, TokenKind::Colon) {
                Ok((None, p))
            } else {
                let q = adv(t, p);
                match within(ty(t, q), q, t.len() as int) {
                    Err(e) => Err(e),
                    Ok((ty, p1)) => Ok((Some(ty), p1)),
                }
            }
        }),
{
    reveal(type_annotation); reveal(ty);
}

pub proof fn unfold_ty_params(t: Seq<Token>, p: int)
    ensures
        ty_params(t, p) == ({
            if !is_at(t, p, TokenKind::LParen) {
                Ok((seq![], p))
            } else {
                match within(comma_list(t, p, TokenKind::LParen, TokenKind::RParen, "type parameter"@, ElemKind::Ident), p, t.len() as int) {
                    Err(e) => Err(e),
                    Ok((ps, p1)) => if ps.len() == 0 {
                        Err(err_at(t, p1, "type parameter list cannot be empty"@))
                    } else {
                        Ok((elems_idents(ps), p1))
                    },
                }
            }
        }),
{
    reveal(ty_params); reveal(comma_list);
}

pub proof fn unfold_param(t: Seq<Token>, p: int)
    ensures
        param(t, p) == ({
            match ident(t, p) {
                Err(e) => Err(e),
                Ok((name, p1)) => if p1 > p {
                    match type_annotation(t, p1) {
                        Err(e) => Err(e),
                        Ok((ty, p2)) => Ok((SpecParam { name, ty }, p2)),
                    }
                } else {
                    Err(stalled())
                },
            }
        }),
{
    reveal(param); reveal(type_annotation);
}

pub proof fn unfold_stmt(t: Seq<Token>, p: int)
    ensures
        stmt(t, p) == ({
            match kind_at(t, p) {
                TokenKind::Func => match func_decl(t, p) {
                    Ok((s, p1)) => Ok((SpecStmt::Func(s), p1)),
                    Err(e) => Err(e),
                },
                TokenKind::Let => match let_stmt(t, p) {
                    Ok((s, p1)) => Ok((SpecStmt::Let(s), p1)),
                    Err(e) => Err(e),
                },
                TokenKind::Type => match type_decl(t, p) {
                    Ok((s, p1)) => Ok((SpecStmt::Type(s), p1)),
                    Err(e) => Err(e),
                },
                TokenKind::Struct => match struct_decl(t, p) {
                    Ok((s, p1)) => Ok((SpecStmt::Struct(s), p1)),
                    Err(e) => Err(e),
                },
                _ => match expr(t, p) {
                    Ok((e, p1)) => Ok((SpecStmt::Expr(e), p1)),
                    Err(e) => Err(e),
                },
            }
        }),
{
    reveal(stmt); reveal(func_decl); reveal(let_stmt); reveal(type_decl); reveal(struct_decl); reveal(expr);
}

pub proof fn unfold_func_decl(t: Seq<Token>, p: int)
    ensures
        func_decl(t, p) == ({
            match consume(t, p, TokenKind::Func) {
                Err(e) => Err(e),
                Ok(q) => if p < q <= t.len() {
                    match ident(t, q) {
                        Err(e) => Err(e),
                        Ok((name, p1)) => match within(comma_list(t, p1, TokenKind::LParen, TokenKind::RParen, "parameter"@, ElemKind::FuncParam), p1, t.len() as int) {
                            Err(e) => Err(e),
                            Ok((params, p2)) => {
                                let r: SRes<Option<SpecTy>> = if is_at(t, p2, TokenKind::Arrow) {
                                    let q2 = adv(t, p2);
                                    match within(ty(t, q2), q2, t.len() as int) {
                                        Err(e) => Err(e),
                                        Ok((rt, p3)) => Ok((Some(rt), p3)),
                                    }
                                } else {
                                    Ok((None, p2))
                                };
                                match r {
                                    Err(e) => Err(e),
                                    Ok((ret, p3)) => if p3 >= q {
                                        match within(block(t, p3), p3, t.len() as int) {
                                            Err(e) => Err(e),
                                            Ok((body, p4)) => Ok((SpecFuncStmt { name, params: elems_params(params), ret, body }, p4)),
                                        }
                                    } else {
                                        Err(stalled())
                                    },
                                }
                            },
                        },
                    }
                } else {
                    Err(stalled())
                },
            }
        }),
{
    reveal(func_decl); reveal(comma_list); reveal(ty); reveal(block);
}

pub proof fn unfold_let_stmt(t: Seq<Token>, p: int)
    ensures
        let_stmt(t, p) == ({
            match consume(t, p, TokenKind::Let) {
                Err(e) => Err(e),
                Ok(q) => if p < q <= t.len() {
                    match ident(t, q) {
                        Err(e) => Err(e),
                        Ok((name, p1)) => match within(type_annotation(t, p1), p1, t.len() as int) {
                            Err(e) => Err(e),
                            Ok((ty, p2)) => match consume(t, p2, TokenKind::Eq) {
                                Err(e) => Err(e),
                                Ok(p3) => if p3 >= q {
                                    match within(expr(t, p3), p3, t.len() as int) {
                                        Err(e) => Err(e),
                                        Ok((value, p4)) => Ok((SpecLetStmt { name, ty, value }, p4)),
                                    }
                                } else {
                                    Err(stalled())
                                },
                            },
                        },
                    }
                } else {
                    Err(stalled())
                },
            }
        }),
{
    reveal(let_stmt); reveal(type_annotation); reveal(expr);
}

pub proof fn unfold_type_decl(t: Seq<Token>, p: int)
    ensures
        type_decl(t, p) == ({
            match consume(t, p, TokenKind::Type) {
                Err(e) => Err(e),
                Ok(q) => if p < q <= t.len() {
                    match ident(t, q) {
                        Err(e) => Err(e),
                        Ok((name, p1)) => match within(ty_params(t, p1), p1, t.len() as int) {
                            Err(e) => Err(e),
                            Ok((tps, p2)) => match within(braced_list(t, p2, "variant"@, ElemKind::Variant), p2, t.len() as int) {
                                Err(e) => Err(e),
                                Ok((vs, p3)) => Ok((SpecTypeStmt { name, ty_params: tps, variants: elems_variants(vs) }, p3)),
                            },
                        },
                    }
                } else {
                    Err(stalled())
                },
            }
        }),
{
    reveal(type_decl); reveal(braced_list); reveal(ty_params);
}

pub proof fn unfold_type_variant(t: Seq<Token>, p: int)
    ensures
        type_variant(t, p) == ({
            match ident(t, p) {
                Err(e) => Err(e),
                Ok((name, p1)) => if p1 > p && is_at(t, p1, TokenKind::LParen) {
                    match within(comma_list(t, p1, TokenKind::LParen, TokenKind::RParen, "type field"@, ElemKind::Ty), p1, t.len() as int) {
                        Err(e) => Err(e),
                        Ok((fs, p2)) => Ok((SpecTypeVariant { name, ty_fields: elems_tys(fs) }, p2)),
                    }
                } else {
                    Ok((SpecTypeVariant { name, ty_fields: seq![] }, p1))
                },
            }
        }),
{
    reveal(type_variant); reveal(comma_list);
}

pub proof fn unfold_struct_decl(t: Seq<Token>, p: int)
    ensures
        struct_decl(t, p) == ({
            match consume(t, p, TokenKind::Struct) {
                Err(e) => Err(e),
                Ok(q) => if p < q <= t.len() {
                    match ident(t, q) {
                        Err(e) => Err(e),
                        Ok((name, p1)) => match within(ty_params(t, p1), p1, t.len() as int) {
                            Err(e) => Err(e),
                            Ok((tps, p2)) => match within(braced_list(t, p2, "field"@, ElemKind::Field), p2, t.len() as int) {
                                Err(e) => Err(e),
                                Ok((fs, p3)) => Ok((SpecStructStmt { name, ty_params: tps, fields: elems_fields(fs) }, p3)),
                            },
                        },
                    }
                } else {
                    Err(stalled())
                },
            }
        }),
{
    reveal(struct_decl); reveal(braced_list); reveal(ty_params);
}

pub proof fn unfold_struct_field(t: Seq<Token>, p: int)
    ensures
        struct_field(t, p) == ({
            match ident(t, p) {
                Err(e) => Err(e),
                Ok((name, p1)) => match consume(t, p1, TokenKind::Colon) {
                    Err(e) => Err(e),
                    Ok(p2) => if p < p2 <= t.len() {
                        match within(ty(t, p2), p2, t.len() as int) {
                            Err(e) => Err(e),
                            Ok((ty, p3)) => Ok((SpecStructField { name, ty }, p3)),
                        }
                    } else {
                        Err(stalled())
                    },
                },
            }
        }),
{
    reveal(struct_field); reveal(ty);
}

pub proof fn unfold_block(t: Seq<Token>, p: int)
    ensures
        block(t, p) == ({
            let start = cur_span(t, p).start;
            match within(braced_list(t, p, "statement"@, ElemKind::Stmt), p, t.len() as int) {
                Err(e) => Err(e),
                Ok((ss, p1)) => Ok((SpecBlock { stmts: elems_stmts(ss), span: span_from(t, start, p1) }, p1)),
            }
        }),
{
    reveal(block); reveal(braced_list);
}

pub proof fn unfold_program_items(t: Seq<Token>, p: int, acc: Seq<SpecStmt>)
    ensures
        program_items(t, p, acc) == ({
            if 0 <= p <= t.len() && !is_at(t, p, TokenKind::Eof) {
                match within(stmt(t, p), p + 1, t.len() as int) {
                    Err(e) => Err(e),
                    Ok((s, p1)) => {
                        program_items(t, skip_nl(t, p1), acc.push(s))
                    },
                }
            } else {
                Ok((acc, p))
            }
        }),
{
    reveal(program_items); reveal(stmt);
}

pub proof fn unfold_expr(t: Seq<Token>, p: int)
    ensures
        expr(t, p) == ({
            or_expr(t, p)
        }),
{
    reveal(expr); reveal(or_expr);
}

pub proof fn unfold_or_expr(t: Seq<Token>, p: int)
    ensures
        or_expr(t, p) == ({
            match within(and_expr(t, p), p, t.len() as int) {
                Err(e) => Err(e),
                Ok((l, p1)) => or_tail(t, l, p1),
            }
        }),
{
    reveal(or_expr); reveal(or_tail); reveal(and_expr);
}

pub proof fn unfold_or_tail(t: Seq<Token>, l: SpecExpr, p: int)
    ensures
        or_tail(t, l, p) == ({
            if is_at(t, p, TokenKind::Or) && 0 <= p < t.len() {
                match within(and_expr(t, p + 1), p + 1, t.len() as int) {
                    Err(e) => Err(e),
                    Ok((r, p2)) => or_tail(t, binary(BinOpKind::Or, l, r), p2),
                }
            } else {
                Ok((l, p))
            }
        }),
{
    reveal(or_tail); reveal(and_expr);
}

pub proof fn unfold_and_expr(t: Seq<Token>, p: int)
    ensures
        and_expr(t, p) == ({
            match within(equality(t, p), p, t.len() as int) {
                Err(e) => Err(e),
                Ok((l, p1)) => and_tail(t, l, p1),
            }
        }),
{
    reveal(and_expr); reveal(and_tail); reveal(equality);
}

pub proof fn unfold_and_tail(t: Seq<Token>, l: SpecExpr, p: int)
    ensures
        and_tail(t, l, p) == ({
            if is_at(t, p, TokenKind::And) && 0 <= p < t.len() {
                match within(equality(t, p + 1), p + 1, t.len() as int) {
                    Err(e) => Err(e),
                    Ok((r, p2)) => and_tail(t, binary(BinOpKind::And, l, r), p2),
                }
            } else {
                Ok((l, p))
            }
        }),
{
    reveal(and_tail); reveal(equality);
}

pub proof fn unfold_equality(t: Seq<Token>, p: int)
    ensures
        equality(t, p) == ({
            match within(comparison(t, p), p, t.len() as int) {
                Err(e) => Err(e),
                Ok((l, p1)) => equality_tail(t, l, p1),
            }
        }),
{
    reveal(equality); reveal(equality_tail); reveal(comparison);
}

pub proof fn unfold_equality_tail(t: Seq<Token>, l: SpecExpr, p: int)
    ensures
        equality_tail(t, l, p) == ({
            match equality_op(kind_at(t, p)) {
                Some(op) => if 0 <= p < t.len() {
                    match within(comparison(t, p + 1), p + 1, t.len() as int) {
                        Err(e) => Err(e),
                        Ok((r, p2)) => equality_tail(t, binary(op, l, r), p2),
                    }
                } else {
                    Err(stalled())
                },
                None => Ok((l, p)),
            }
        }),
{
    reveal(equality_tail); reveal(comparison);
}

pub proof fn unfold_comparison(t: Seq<Token>, p: int)
    ensures
        comparison(t, p) == ({
            match within(additive(t, p), p, t.len() as int) {
                Err(e) => Err(e),
                Ok((l, p1)) => comparison_tail(t, l, p1),
            }
        }),
{
    reveal(comparison); reveal(comparison_tail); reveal(additive);
}

pub proof fn unfold_comparison_tail(t: Seq<Token>, l: SpecExpr, p: int)
    ensures
        comparison_tail(t, l, p) == ({
            match comparison_op(kind_at(t, p)) {
                Some(op) => if 0 <= p < t.len() {
                    match within(additive(t, p + 1), p + 1, t.len() as int) {
                        Err(e) => Err(e),
                        Ok((r, p2)) => comparison_tail(t, binary(op, l, r), p2),
                    }
                } else {
                    Err(stalled())
                },
                None => Ok((l, p)),
            }
        }),
{
    reveal(comparison_tail); reveal(additive);
}

pub proof fn unfold_additive(t: Seq<Token>, p: int)
    ensures
        additive(t, p) == ({
            match within(multiplicative(t, p), p, t.len() as int) {
                Err(e) => Err(e),
                Ok((l, p1)) => additive_tail(t, l, p1),
            }
        }),
{
    reveal(additive); reveal(additive_tail); reveal(multiplicative);
}

pub proof fn unfold_additive_tail(t: Seq<Token>, l: SpecExpr, p: int)
    ensures
        additive_tail(t, l, p) == ({
            match additive_op(kind_at(t, p)) {
                Some(op) => if 0 <= p < t.len() {
                    match within(multiplicative(t, p + 1), p + 1, t.len() as int) {
                        Err(e) => Err(e),
                        Ok((r, p2)) => additive_tail(t, binary(op, l, r), p2),
                    }
                } else {
                    Err(stalled())
                },
                None => Ok((l, p)),
            }
        }),
{
    reveal(additive_tail); reveal(multiplicative);
}

pub proof fn unfold_multiplicative(t: Seq<Token>, p: int)
    ensures
        multiplicative(t, p) == ({
            match within(unary(t, p), p, t.len() as int) {
                Err(e) => Err(e),
                Ok((l, p1)) => multiplicative_tail(t, l, p1),
            }
        }),
{
    reveal(multiplicative); reveal(multiplicative_tail); reveal(unary);
}

pub proof fn unfold_multiplicative_tail(t: Seq<Token>, l: SpecExpr, p: int)
    ensures
        multiplicative_tail(t, l, p) == ({
            match multiplicative_op(kind_at(t, p)) {
                Some(op) => if 0 <= p < t.len() {
                    match within(unary(t, p + 1), p + 1, t.len() as int) {
                        Err(e) => Err(e),
                        Ok((r, p2)) => multiplicative_tail(t, binary(op, l, r), p2),
                    }
                } else {
                    Err(stalled())
                },
                None => Ok((l, p)),
            }
        }),
{
    reveal(multiplicative_tail); reveal(unary);
}

pub proof fn unfold_unary(t: Seq<Token>, p: int)
    ensures
        unary(t, p) == ({
            let op = match kind_at(t, p) {
                TokenKind::Minus => Some(UnaryOpKind::Neg),
                TokenKind::Bang => Some(UnaryOpKind::Not),
                _ => None,
            };
            match op {
                None => postfix(t, p),
                Some(op) => if 0 <= p < t.len() {
                    let start = cur_span(t, p).start;
                    match within(unary(t, p + 1), p + 1, t.len() as int) {
                        Err(e) => Err(e),
                        Ok((operand, p2)) => Ok((
                            SpecExpr { kind: SpecExprKind::UnaryOp { op, operand: Box::new(operand) }, span: Span { start, end: operand.span.end } },
                            p2,
                        )),
                    }
                } else {
                    Err(stalled())
                },
            }
        }),
{
    reveal(unary); reveal(postfix);
}

pub proof fn unfold_postfix(t: Seq<Token>, p: int)
    ensures
        postfix(t, p) == ({
            match within(primary(t, p), p, t.len() as int) {
                Err(e) => Err(e),
                Ok((e, p1)) => postfix_tail(t, e, p1),
            }
        }),
{
    reveal(postfix); reveal(postfix_tail); reveal(primary);
}

pub proof fn unfold_postfix_tail(t: Seq<Token>, e: SpecExpr, p: int)
    ensures
        postfix_tail(t, e, p) == ({
            if 0 <= p < t.len() {
                match kind_at(t, p) {
                    TokenKind::Dot => match ident(t, p + 1) {
                        Err(err) => Err(err),
                        Ok((field, p2)) => if p < p2 <= t.len() {
                            postfix_tail(t, SpecExpr {
                                kind: SpecExprKind::FieldAccess { base: Box::new(e), field },
                                span: Span { start: e.span.start, end: field.span.end },
                            }, p2)
                        } else {
                            Err(stalled())
                        },
                    },
                    TokenKind::LParen => match within(comma_list(t, p, TokenKind::LParen, TokenKind::RParen, "argument"@, ElemKind::Expr), p + 1, t.len() as int) {
                        Err(err) => Err(err),
                        Ok((args, p2)) => postfix_tail(t, SpecExpr {
                            kind: SpecExprKind::Call { callee: Box::new(e), args: elems_exprs(args) },
                            span: span_from(t, e.span.start, p2),
                        }, p2),
                    },
                    TokenKind::LBracket => match within(expr(t, p + 1), p + 1, t.len() as int) {
                        Err(err) => Err(err),
                        Ok((index, p2)) => match consume(t, p2, TokenKind::RBracket) {
                            Err(err) => Err(err),
                            Ok(p3) => if p < p3 <= t.len() {
                                postfix_tail(t, SpecExpr {
                                    kind: SpecExprKind::Index { base: Box::new(e), index: Box::new(index) },
                                    span: span_from(t, e.span.start, p3),
                                }, p3)
                            } else {
                                Err(stalled())
                            },
                        },
                    },
                    _ => Ok((e, p)),
                }
            } else {
                Ok((e, p))
            }
        }),
{
    reveal(postfix_tail); reveal(comma_list); reveal(expr);
}

pub proof fn unfold_primary(t: Seq<Token>, p: int)
    ensures
        primary(t, p) == ({
            if 0 <= p < t.len() {
                match kind_at(t, p) {
                    TokenKind::Int(v) => literal_expr(t, p, Literal::Int(v)),
                    TokenKind::True => literal_expr(t, p, Literal::Bool(true)),
                    TokenKind::False => literal_expr(t, p, Literal::Bool(false)),
                    TokenKind::LParen => {
                        let q = skip_nl(t, p + 1);
                        match within(expr(t, q), q, t.len() as int) {
                            Err(e) => Err(e),
                            Ok((e, p1)) => match consume(t, skip_nl(t, p1), TokenKind::RParen) {
                                Err(err) => Err(err),
                                Ok(p2) => Ok((e, p2)),
                            },
                        }
                    },
                    TokenKind::LBracket => {
                        let start = cur_span(t, p).start;
                        match within(comma_list(t, p, TokenKind::LBracket, TokenKind::RBracket, "element"@, ElemKind::Expr), p, t.len() as int) {
                            Err(e) => Err(e),
                            Ok((es, p1)) => Ok((SpecExpr { kind: SpecExprKind::Array(elems_exprs(es)), span: span_from(t, start, p1) }, p1)),
                        }
                    },
                    TokenKind::LBrace => match within(block(t, p), p, t.len() as int) {
                        Err(e) => Err(e),
                        Ok((b, p1)) => Ok((SpecExpr { kind: SpecExprKind::Block(b), span: b.span }, p1)),
                    },
                    TokenKind::If => if_expr(t, cur_span(t, p).start, p + 1),
                    TokenKind::Match => match_expr(t, p),
                    TokenKind::VerBar | TokenKind::Or => closure(t, p),
                    TokenKind::Identifier(_) => match ident(t, p) {
                        Err(e) => Err(e),
                        Ok((id, p1)) => Ok((SpecExpr { kind: SpecExprKind::Identifier(id), span: id.span }, p1)),
                    },
                    other => Err(err_at(t, p, got("expected expression"@, other))),
                }
            } else {
                Err(err_at(t, p, got("expected expression"@, TokenKind::Eof)))
            }
        }),
{
    reveal(primary); reveal(comma_list); reveal(block); reveal(expr); reveal(if_expr); reveal(closure); reveal(match_expr);
}

pub proof fn unfold_if_expr(t: Seq<Token>, start: Pos, p: int)
    ensures
        if_expr(t, start, p) == ({
            match within(expr(t, p), p, t.len() as int) {
                Err(e) => Err(e),
                Ok((condition, p1)) => match within(block(t, p1), p1, t.len() as int) {
                    Err(e) => Err(e),
                    Ok((then_block, p2)) => {
                        let r: SRes<Option<SpecExpr>> = if is_at(t, p2, TokenKind::Elif) && p2 < t.len() {
                            match within(if_expr(t, cur_span(t, p2).start, p2 + 1), p2 + 1, t.len() as int) {
                                Err(e) => Err(e),
                                Ok((e, p3)) => Ok((Some(e), p3)),
                            }
                        } else if is_at(t, p2, TokenKind::Else) && p2 < t.len() {
                            match within(block(t, p2 + 1), p2 + 1, t.len() as int) {
                                Err(e) => Err(e),
                                Ok((b, p3)) => Ok((Some(SpecExpr { kind: SpecExprKind::Block(b), span: b.span }), p3)),
                            }
                        } else {
                            Ok((None, p2))
                        };
                        match r {
                            Err(e) => Err(e),
                            Ok((else_expr, p3)) => {
                                let end = match else_expr {
                                    Some(e) => e.span.end,
                                    None => then_block.span.end,
                                };
                                Ok((
                                    SpecExpr {
                                        kind: SpecExprKind::If {
                                            condition: Box::new(condition),
                                            then_block,
                                            else_branch: match else_expr {
                                                Some(e) => Some(Box::new(e)),
                                                None => None,
                                            },
                                        },
                                        span: Span { start, end },
                                    },
                                    p3,
                                ))
                            },
                        }
                    },
                },
            }
        }),
{
    reveal(if_expr); reveal(block); reveal(expr);
}

pub proof fn unfold_closure(t: Seq<Token>, p: int)
    ensures
        closure(t, p) == ({
            let start = cur_span(t, p).start;
            let params: SRes<Seq<SpecParam>> = if is_at(t, p, TokenKind::Or) {
                Ok((seq![], adv(t, p)))
            } else {
                match within(comma_list(t, p, TokenKind::VerBar, TokenKind::VerBar, "parameter"@, ElemKind::Param), p, t.len() as int) {
                    Err(e) => Err(e),
                    Ok((ps, p1)) => Ok((elems_params(ps), p1)),
                }
            };
            match params {
                Err(e) => Err(e),
                Ok((params, p1)) => if p <= p1 <= t.len() {
                    let r: SRes<Option<SpecTy>> = if is_at(t, p1, TokenKind::Arrow) {
                        let q = adv(t, p1);
                        match within(ty(t, q), q, t.len() as int) {
                            Err(e) => Err(e),
                            Ok((rt, p2)) => Ok((Some(rt), p2)),
                        }
                    } else {
                        Ok((None, p1))
                    };
                    match r {
                        Err(e) => Err(e),
                        Ok((ret, p2)) => match consume(t, p2, TokenKind::FatArrow) {
                            Err(e) => Err(e),
                            Ok(p3) => if p < p3 <= t.len() {
                                match within(expr(t, p3), p3, t.len() as int) {
                                    Err(e) => Err(e),
                                    Ok((body, p4)) => Ok((
                                        SpecExpr { kind: SpecExprKind::Closure { params, ret, body: Box::new(body) }, span: Span { start, end: body.span.end } },
                                        p4,
                                    )),
                                }
                            } else {
                                Err(stalled())
                            },
                        },
                    }
                } else {
                    Err(stalled())
                },
            }
        }),
{
    reveal(closure); reveal(comma_list); reveal(ty); reveal(expr);
}

pub proof fn unfold_match_expr(t: Seq<Token>, p: int)
    ensures
        match_expr(t, p) == ({
            let start = cur_span(t, p).start;
            match consume(t, p, TokenKind::Match) {
                Err(e) => Err(e),
                Ok(q) => if p < q <= t.len() {
                    match within(expr(t, q), q, t.len() as int) {
                        Err(e) => Err(e),
                        Ok((subject, p1)) => match within(braced_list(t, p1, "match arm"@, ElemKind::Arm), p1, t.len() as int) {
                            Err(e) => Err(e),
                            Ok((arms, p2)) => Ok((
                                SpecExpr { kind: SpecExprKind::Match { subject: Box::new(subject), arms: elems_arms(arms) }, span: span_from(t, start, p2) },
                                p2,
                            )),
                        },
                    }
                } else {
                    Err(stalled())
                },
            }
        }),
{
    reveal(match_expr); reveal(braced_list); reveal(expr);
}

pub proof fn unfold_match_arm(t: Seq<Token>, p: int)
    ensures
        match_arm(t, p) == ({
            match within(pattern(t, p), p, t.len() as int) {
                Err(e) => Err(e),
                Ok((pat, p1)) => {
                    let g: SRes<Option<SpecExpr>> = if is_at(t, p1, TokenKind::If) && p1 < t.len() {
                        match within(expr(t, p1 + 1), p1 + 1, t.len() as int) {
                            Err(e) => Err(e),
                            Ok((g, p2)) => Ok((Some(g), p2)),
                        }
                    } else {
                        Ok((None, p1))
                    };
                    match g {
                        Err(e) => Err(e),
                        Ok((guard, p2)) => match consume(t, p2, TokenKind::FatArrow) {
                            Err(e) => Err(e),
                            Ok(p3) => if p < p3 <= t.len() {
                                match within(expr(t, p3), p3, t.len() as int) {
                                    Err(e) => Err(e),
                                    Ok((body, p4)) => Ok((SpecMatchArm { pattern: pat, guard, body }, p4)),
                                }
                            } else {
                                Err(stalled())
                            },
                        },
                    }
                },
            }
        }),
{
    reveal(match_arm); reveal(expr); reveal(pattern);
}

pub proof fn unfold_pattern(t: Seq<Token>, p: int)
    ensures
        pattern(t, p) == ({
            match within(single_pattern(t, p), p, t.len() as int) {
                Err(e) => Err(e),
                Ok((first, p1)) => if !is_at(t, p1, TokenKind::VerBar) {
                    Ok((first, p1))
                } else {
                    match pattern_alts(t, p1, seq![first]) {
                        Err(e) => Err(e),
                        Ok((alts, p2)) => Ok((SpecPattern { kind: SpecPatternKind::Or(alts), span: Span { start: alts[0].span.start, end: alts.last().span.end } }, p2)),
                    }
                },
            }
        }),
{
    reveal(pattern); reveal(pattern_alts); reveal(single_pattern);
}

pub proof fn unfold_pattern_alts(t: Seq<Token>, p: int, acc: Seq<SpecPattern>)
    ensures
        pattern_alts(t, p, acc) == ({
            if is_at(t, p, TokenKind::VerBar) && 0 <= p < t.len() {
                match within(single_pattern(t, p + 1), p + 1, t.len() as int) {
                    Err(e) => Err(e),
                    Ok((pt, p2)) => pattern_alts(t, p2, acc.push(pt)),
                }
            } else {
                Ok((acc, p))
            }
        }),
{
    reveal(pattern_alts); reveal(single_pattern);
}

pub proof fn unfold_single_pattern(t: Seq<Token>, p: int)
    ensures
        single_pattern(t, p) == ({
            match kind_at(t, p) {
                TokenKind::Int(v) => literal_pattern(t, p, Literal::Int(v)),
                TokenKind::True => literal_pattern(t, p, Literal::Bool(true)),
                TokenKind::False => literal_pattern(t, p, Literal::Bool(false)),
                TokenKind::Minus => {
                    let start = cur_span(t, p).start;
                    let q = adv(t, p);
                    match kind_at(t, q) {
                        TokenKind::Int(v) => {
                            let q2 = adv(t, q);
                            Ok((SpecPattern { kind: SpecPatternKind::Literal(Literal::Int(-v as i64)), span: span_from(t, start, q2) }, q2))
                        },
                        other => Err(err_at(t, q, got("expected numeric literal after '-' in pattern"@, other))),
                    }
                },
                TokenKind::Identifier(_) => match ident(t, p) {
                    Err(e) => Err(e),
                    Ok((name, p1)) => if name.value@ == "_"@ {
                        Ok((SpecPattern { kind: SpecPatternKind::Wildcard, span: name.span }, p1))
                    } else if is_at(t, p1, TokenKind::LParen) && p < p1 {
                        match within(comma_list(t, p1, TokenKind::LParen, TokenKind::RParen, "pattern"@, ElemKind::Pattern), p1, t.len() as int) {
                            Err(e) => Err(e),
                            Ok((args, p2)) => Ok((
                                SpecPattern { kind: SpecPatternKind::Constructor { name, args: elems_patterns(args) }, span: span_from(t, name.span.start, p2) },
                                p2,
                            )),
                        }
                    } else {
                        Ok((SpecPattern { kind: SpecPatternKind::Identifier(name), span: name.span }, p1))
                    },
                },
                TokenKind::LBracket => array_pattern(t, p),
                other => Err(err_at(t, p, got("expected pattern"@, other))),
            }
        }),
{
    reveal(single_pattern); reveal(comma_list); reveal(array_pattern);
}

pub proof fn unfold_array_pattern(t: Seq<Token>, p: int)
    ensures
        array_pattern(t, p) == ({
            let start = cur_span(t, p).start;
            match within(comma_list(t, p, TokenKind::LBracket, TokenKind::RBracket, "pattern"@, ElemKind::PatternOrRest), p, t.len() as int) {
                Err(e) => Err(e),
                Ok((es, p1)) => {
                    let pats = elems_patterns(es);
                    if rest_count(pats) > 1 {
                        Err(err_at(t, p1, "array pattern can have at most one rest pattern '..'"@))
                    } else if rest_count(pats) == 1 && !(pats.len() > 0 && pats.last().kind is Rest) {
                        Err(err_at(t, p1, "rest pattern '..' must be the last element of an array pattern"@))
                    } else {
                        Ok((SpecPattern { kind: SpecPatternKind::Array(pats), span: span_from(t, start, p1) }, p1))
                    }
                },
            }
        }),
{
    reveal(array_pattern); reveal(comma_list);
}

// ---- which operator each token stands for ----

/// `or` joins with `Or`: at an `or` token the tail takes the next operand and goes on
/// with an `Or` node over what came before and that operand; elsewhere it stops.
pub proof fn law_or_operator(t: Seq<Token>, l: SpecExpr, p: int)
    requires
        0 <= p < t.len(),
    ensures
        ({
            let r = within(and_expr(t, p + 1), p + 1, t.len() as int);
            &&& kind_at(t, p) is Or ==> or_tail(t, l, p) == (match r {
                Err(e) => Err(e),
                Ok((x, q)) => or_tail(t, SpecExpr {
                    kind: SpecExprKind::BinaryOp { op: BinOpKind::Or, left: Box::new(l), right: Box::new(x) },
                    span: Span { start: l.span.start, end: x.span.end },
                }, q),
            })
            &&& !(kind_at(t, p) is Or) ==> or_tail(t, l, p) == Ok::<(SpecExpr, int), SpecError>((l, p))
        }),
{
    unfold_or_tail(t, l, p);
}

/// `and` joins with `And`, in the same way.
pub proof fn law_and_operator(t: Seq<Token>, l: SpecExpr, p: int)
    requires
        0 <= p < t.len(),
    ensures
        ({
            let r = within(equality(t, p + 1), p + 1, t.len() as int);
            &&& kind_at(t, p) is And ==> and_tail(t, l, p) == (match r {
                Err(e) => Err(e),
                Ok((x, q)) => and_tail(t, SpecExpr {
                    kind: SpecExprKind::BinaryOp { op: BinOpKind::And, left: Box::new(l), right: Box::new(x) },
                    span: Span { start: l.span.start, end: x.span.end },
                }, q),
            })
            &&& !(kind_at(t, p) is And) ==> and_tail(t, l, p) == Ok::<(SpecExpr, int), SpecError>((l, p))
        }),
{
    unfold_and_tail(t, l, p);
}

/// `==` joins with `EqEq` and `!=` with `NotEq`; any other token ends the chain.
pub proof fn law_equality_operators(t: Seq<Token>, l: SpecExpr, p: int)
    requires
        0 <= p < t.len(),
    ensures
        ({
            let r = within(comparison(t, p + 1), p + 1, t.len() as int);
            &&& kind_at(t, p) is EqEq ==> equality_tail(t, l, p) == (match r {
                Err(e) => Err(e),
                Ok((x, q)) => equality_tail(t, SpecExpr {
                    kind: SpecExprKind::BinaryOp { op: BinOpKind::EqEq, left: Box::new(l), right: Box::new(x) },
                    span: Span { start: l.span.start, end: x.span.end },
                }, q),
            })
            &&& kind_at(t, p) is BangEq ==> equality_tail(t, l, p) == (match r {
                Err(e) => Err(e),
                Ok((x, q)) => equality_tail(t, SpecExpr {
                    kind: SpecExprKind::BinaryOp { op: BinOpKind::NotEq, left: Box::new(l), right: Box::new(x) },
                    span: Span { start: l.span.start, end: x.span.end },
                }, q),
            })
            &&& !(kind_at(t, p) is EqEq || kind_at(t, p) is BangEq) ==> equality_tail(t, l, p) == Ok::<(SpecExpr, int), SpecError>((l, p))
        }),
{
    unfold_equality_tail(t, l, p);
}

/// `<`, `>`, `<=` and `>=` join with `Lt`, `Gt`, `LtEq` and `GtEq`; any other token ends
/// the chain.
pub proof fn law_comparison_operators(t: Seq<Token>, l: SpecExpr, p: int)
    requires
        0 <= p < t.len(),
    ensures
        ({
            let r = within(additive(t, p + 1), p + 1, t.len() as int);
            &&& kind_at(t, p) is Lt ==> comparison_tail(t, l, p) == (match r {
                Err(e) => Err(e),
                Ok((x, q)) => comparison_tail(t, SpecExpr {
                    kind: SpecExprKind::BinaryOp { op: BinOpKind::Lt, left: Box::new(l), right: Box::new(x) },
                    span: Span { start: l.span.start, end: x.span.end },
                }, q),
            })
            &&& kind_at(t, p) is Gt ==> comparison_tail(t, l, p) == (match r {
                Err(e) => Err(e),
                Ok((x, q)) => comparison_tail(t, SpecExpr {
                    kind: SpecExprKind::BinaryOp { op: BinOpKind::Gt, left: Box::new(l), right: Box::new(x) },
                    span: Span { start: l.span.start, end: x.span.end },
                }, q),
            })
            &&& kind_at(t, p) is LtEq ==> comparison_tail(t, l, p) == (match r {
                Err(e) => Err(e),
                Ok((x, q)) => comparison_tail(t, SpecExpr {
                    kind: SpecExprKind::BinaryOp { op: BinOpKind::LtEq, left: Box::new(l), right: Box::new(x) },
                    span: Span { start: l.span.start, end: x.span.end },
                }, q),
            })
            &&& kind_at(t, p) is GtEq ==> comparison_tail(t, l, p) == (match r {
                Err(e) => Err(e),
                Ok((x, q)) => comparison_tail(t, SpecExpr {
                    kind: SpecExprKind::BinaryOp { op: BinOpKind::GtEq, left: Box::new(l), right: Box::new(x) },
                    span: Span { start: l.span.start, end: x.span.end },
                }, q),
            })
            &&& !(kind_at(t, p) is Lt || kind_at(t, p) is Gt || kind_at(t, p) is LtEq || kind_at(t, p) is GtEq)
                ==> comparison_tail(t, l, p) == Ok::<(SpecExpr, int), SpecError>((l, p))
        }),
{
    unfold_comparison_tail(t, l, p);
}

/// `+` joins with `Add` and `-` with `Sub`: `a - b` is the difference of `a` and `b`.
/// Any other token ends the chain.
pub proof fn law_additive_operators(t: Seq<Token>, l: SpecExpr, p: int)
    requires
        0 <= p < t.len(),
    ensures
        ({
            let r = within(multiplicative(t, p + 1), p + 1, t.len() as int);
            &&& kind_at(t, p) is Plus ==> additive_tail(t, l, p) == (match r {
                Err(e) => Err(e),
                Ok((x, q)) => additive_tail(t, SpecExpr {
                    kind: SpecExprKind::BinaryOp { op: BinOpKind::Add, left: Box::new(l), right: Box::new(x) },
                    span: Span { start: l.span.start, end: x.span.end },
                }, q),
            })
            &&& kind_at(t, p) is Minus ==> additive_tail(t, l, p) == (match r {
                Err(e) => Err(e),
                Ok((x, q)) => additive_tail(t, SpecExpr {
                    kind: SpecExprKind::BinaryOp { op: BinOpKind::Sub, left: Box::new(l), right: Box::new(x) },
                    span: Span { start: l.span.start, end: x.span.end },
                }, q),
            })
            &&& !(kind_at(t, p) is Plus || kind_at(t, p) is Minus) ==> additive_tail(t, l, p) == Ok::<(SpecExpr, int), SpecError>((l, p))
        }),
{
    unfold_additive_tail(t, l, p);
}

/// `*` joins with `Mul` and `/` with `Div`; any other token ends the chain.
pub proof fn law_multiplicative_operators(t: Seq<Token>, l: SpecExpr, p: int)
    requires
        0 <= p < t.len(),
    ensures
        ({
            let r = within(unary(t, p + 1), p + 1, t.len() as int);
            &&& kind_at(t, p) is Asterisk ==> multiplicative_tail(t, l, p) == (match r {
                Err(e) => Err(e),
                Ok((x, q)) => multiplicative_tail(t, SpecExpr {
                    kind: SpecExprKind::BinaryOp { op: BinOpKind::Mul, left: Box::new(l), right: Box::new(x) },
                    span: Span { start: l.span.start, end: x.span.end },
                }, q),
            })
            &&& kind_at(t, p) is Slash ==> multiplicative_tail(t, l, p) == (match r {
                Err(e) => Err(e),
                Ok((x, q)) => multiplicative_tail(t, SpecExpr {
                    kind: SpecExprKind::BinaryOp { op: BinOpKind::Div, left: Box::new(l), right: Box::new(x) },
                    span: Span { start: l.span.start, end: x.span.end },
                }, q),
            })
            &&& !(kind_at(t, p) is Asterisk || kind_at(t, p) is Slash) ==> multiplicative_tail(t, l, p) == Ok::<(SpecExpr, int), SpecError>((l, p))
        }),
{
    unfold_multiplicative_tail(t, l, p);
}

/// A leading `-` negates and a leading `!` inverts: at a `-` token the operand that
/// follows is wrapped in a `Neg` node, at a `!` token in a `Not` node, each spanning from
/// the operator to the end of the operand; at any other token it is a postfix expression.
pub proof fn law_unary_operators(t: Seq<Token>, p: int)
    requires
        0 <= p < t.len(),
    ensures
        ({
            let r = within(unary(t, p + 1), p + 1, t.len() as int);
            let start = cur_span(t, p).start;
            &&& kind_at(t, p) is Minus ==> unary(t, p) == (match r {
                Err(e) => Err(e),
                Ok((x, q)) => Ok((SpecExpr {
                    kind: SpecExprKind::UnaryOp { op: UnaryOpKind::Neg, operand: Box::new(x) },
                    span: Span { start, end: x.span.end },
                }, q)),
            })
            &&& kind_at(t, p) is Bang ==> unary(t, p) == (match r {
                Err(e) => Err(e),
                Ok((x, q)) => Ok((SpecExpr {
                    kind: SpecExprKind::UnaryOp { op: UnaryOpKind::Not, operand: Box::new(x) },
                    span: Span { start, end: x.span.end },
                }, q)),
            })
            &&& !(kind_at(t, p) is Minus || kind_at(t, p) is Bang) ==> unary(t, p) == postfix(t, p)
        }),
{
    unfold_unary(t, p);
}

} // verus!
