pub mod ast;
pub mod grammar;
mod expr;
mod stmt;
mod ty;

use vstd::prelude::*;
use crate::common::span::{Pos, Span};
use crate::lexer::Token;
use crate::lexer::token::{TokenKind, kind_eq};
use ast::{
    Expr, Identifier, MatchArm, Param, Pattern, Program, Stmt, StructField, Ty, TypeVariant, arm_view,
    arms_view, expr_view, exprs_view, field_view, fields_view, param_view, params_view, pattern_view,
    patterns_view, stmt_view, stmts_view, ty_view, tys_view, variant_view, variants_view, SpecProgram,
};
use grammar::{
    ElemKind, SRes, SpecElem, elems_arms, elems_exprs, elems_fields, elems_idents,
    elems_params, elems_patterns, elems_stmts, elems_tys, elems_variants,
};

verus! {

/// A recursive descent parser over a token sequence.
pub struct Parser {
    pub(crate) tokens: Vec<Token>,
    pub(crate) pos: usize,
}

/// A syntax error: what was expected and where.
#[derive(Debug)]
pub struct ParseError {
    pub message: String,
    pub span: Span,
}

/// No `-` is followed by the integer token `i64::MIN`: a pattern negates the integer
/// after a `-`, which for that value would overflow.
pub open spec fn no_min_int(t: Seq<Token>) -> bool {
    forall|i: int| 0 <= i && i + 1 < t.len() && (#[trigger] t[i]).kind is Minus
        ==> !(t[i + 1].kind matches TokenKind::Int(v) && v == i64::MIN)
}

/// The exec result `r`, with the parser now at `pos`, is the grammar's result `s`.
pub open spec fn outcome<T, V>(r: Result<T, ParseError>, s: SRes<V>, pos: int, view: spec_fn(T) -> V) -> bool {
    match s {
        Ok((v, p)) => r is Ok && view(r->Ok_0) == v && pos == p,
        Err(e) => r is Err && r->Err_0.message@ == e.message && r->Err_0.span == e.span,
    }
}

/// An item of a delimited list.
pub enum Elem {
    Expr(Expr),
    Param(Param),
    Pattern(Pattern),
    Ty(Ty),
    Ident(Identifier),
    Stmt(Stmt),
    Arm(MatchArm),
    Variant(TypeVariant),
    Field(StructField),
}

pub open spec fn elem_view(e: Elem) -> SpecElem {
    match e {
        Elem::Expr(x) => SpecElem::Expr(expr_view(x)),
        Elem::Param(x) => SpecElem::Param(param_view(x)),
        Elem::Pattern(x) => SpecElem::Pattern(pattern_view(x)),
        Elem::Ty(x) => SpecElem::Ty(ty_view(x)),
        Elem::Ident(x) => SpecElem::Ident(x),
        Elem::Stmt(x) => SpecElem::Stmt(stmt_view(x)),
        Elem::Arm(x) => SpecElem::Arm(arm_view(x)),
        Elem::Variant(x) => SpecElem::Variant(variant_view(x)),
        Elem::Field(x) => SpecElem::Field(field_view(x)),
    }
}

pub open spec fn elems_view(s: Seq<Elem>) -> Seq<SpecElem> {
    Seq::new(s.len(), |i: int| elem_view(s[i]))
}

/// `e` is the variant that items of `kind` are.
pub open spec fn elem_fits(e: Elem, kind: ElemKind) -> bool {
    match kind {
        ElemKind::Expr => e is Expr,
        ElemKind::Param | ElemKind::FuncParam => e is Param,
        ElemKind::Pattern | ElemKind::PatternOrRest => e is Pattern,
        ElemKind::Ty => e is Ty,
        ElemKind::Ident => e is Ident,
        ElemKind::Stmt => e is Stmt,
        ElemKind::Arm => e is Arm,
        ElemKind::Variant => e is Variant,
        ElemKind::Field => e is Field,
    }
}

pub open spec fn all_fit(s: Seq<Elem>, kind: ElemKind) -> bool {
    forall|i: int| 0 <= i < s.len() ==> elem_fits(#[trigger] s[i], kind)
}

/// The exec result `r` is the grammar's result `s`, wherever it ends.
pub open spec fn result_is<T, V>(r: Result<T, ParseError>, s: SRes<V>, view: spec_fn(T) -> V) -> bool {
    match s {
        Ok((v, p)) => r is Ok && view(r->Ok_0) == v,
        Err(e) => r is Err && r->Err_0.message@ == e.message && r->Err_0.span == e.span,
    }
}

/// Parses a token sequence into a program.
pub fn parse(tokens: Vec<Token>) -> (r: Result<Program, ParseError>)
    requires
        no_min_int(tokens@),
    ensures
        result_is(r, grammar::program(tokens@), |p: Program| p@),
{
    let mut parser = Parser::new(tokens);
    parser.parse_program()
}

impl Parser {
    /// The tokens being parsed.
    pub closed spec fn tokens_view(&self) -> Seq<Token> {
        self.tokens@
    }

    /// The position of the next token.
    pub closed spec fn position(&self) -> int {
        self.pos as int
    }

    /// The position lies within the tokens, of which there is at least one, and no `-` is
    /// followed by `i64::MIN`.
    pub(crate) open spec fn wf(&self) -> bool {
        &&& self.pos <= self.tokens@.len()
        &&& self.tokens@.len() > 0
        &&& no_min_int(self.tokens@)
    }

    /// A parser at the start of `tokens`.
    pub fn new(tokens: Vec<Token>) -> (r: Self)
        ensures
            r.tokens_view() == tokens@,
            r.position() == 0,
    {
        Self { tokens, pos: 0 }
    }

    /// Parses statements, separated by newlines, up to the end of the tokens.
    #[verifier::loop_isolation(false)]
    pub fn parse_program(&mut self) -> (r: Result<Program, ParseError>)
        requires
            old(self).position() == 0,
            no_min_int(old(self).tokens_view()),
        ensures
            final(self).tokens_view() == old(self).tokens_view(),
            result_is(r, grammar::program(old(self).tokens_view()), |p: Program| p@),
    {
        let ghost t = self.tokens@;
        let mut statements: Vec<Stmt> = Vec::new();
        self.skip_newlines();
        proof { grammar::lemma_skip_nl(t, 0); }
        let ghost p0 = self.pos as int;
        proof { assert(stmts_view(statements@) =~= Seq::<ast::SpecStmt>::empty()); }
        while !self.peek_is(TokenKind::Eof)
            invariant
                self.tokens@ == t,
                self.pos <= t.len(),
                no_min_int(t),
                grammar::program_items(t, p0, seq![]) == grammar::program_items(t, self.pos as int, stmts_view(statements@)),
            decreases t.len() - self.pos,
        {
            proof { grammar::unfold_program_items(self.tokens@, self.pos as int, stmts_view(statements@)); }
            let s = match self.parse_stmt() { Ok(v) => v, Err(e) => return Err(e) };
            let ghost sv = stmt_view(s);
            let ghost old_stmts = statements@;
            statements.push(s);
            proof {
                assert(stmts_view(statements@) =~= stmts_view(old_stmts).push(sv));
                grammar::lemma_skip_nl(t, self.pos as int);
            }
            self.skip_newlines();
        }
        proof { grammar::unfold_program_items(self.tokens@, self.pos as int, stmts_view(statements@)); }
        Ok(Program { stmts: statements })
    }

    pub(crate) fn peek(&self) -> (k: TokenKind)
        ensures
            k == grammar::kind_at(self.tokens@, self.pos as int),
    {
        if self.pos < self.tokens.len() {
            self.tokens[self.pos].kind.clone()
        } else {
            TokenKind::Eof
        }
    }

    pub(crate) fn advance(&mut self)
        requires
            old(self).pos <= old(self).tokens@.len(),
        ensures
            final(self).tokens@ == old(self).tokens@,
            final(self).pos == grammar::adv(old(self).tokens@, old(self).pos as int),
    {
        if self.pos < self.tokens.len() {
            self.pos += 1;
        }
    }

    pub(crate) fn peek_is(&self, kind: TokenKind) -> (r: bool)
        ensures
            r == grammar::is_at(self.tokens@, self.pos as int, kind),
    {
        if self.pos < self.tokens.len() {
            self.tokens[self.pos].kind == kind
        } else {
            TokenKind::Eof == kind
        }
    }

    pub(crate) fn peek_until(&self, kind: TokenKind) -> (r: bool)
        ensures
            r == grammar::before(self.tokens@, self.pos as int, kind),
    {
        !self.peek_is(TokenKind::Eof) && !self.peek_is(kind)
    }

    pub(crate) fn skip_newlines(&mut self)
        requires
            old(self).pos <= old(self).tokens@.len(),
        ensures
            final(self).tokens@ == old(self).tokens@,
            final(self).pos == grammar::skip_nl(old(self).tokens@, old(self).pos as int),
    {
        while self.peek_is(TokenKind::Newline)
            invariant
                self.tokens@ == old(self).tokens@,
                self.pos <= self.tokens@.len(),
                grammar::skip_nl(self.tokens@, old(self).pos as int) == grammar::skip_nl(self.tokens@, self.pos as int),
            decreases self.tokens@.len() - self.pos,
        {
            self.advance();
        }
    }

    pub(crate) fn consume(&mut self, expected: TokenKind) -> (r: Result<(), ParseError>)
        requires
            old(self).wf(),
        ensures
            final(self).tokens@ == old(self).tokens@,
            final(self).wf(),
            match grammar::consume(old(self).tokens@, old(self).pos as int, expected) {
                Ok(p) => r is Ok && final(self).pos == p,
                Err(e) => r is Err && r->Err_0.message@ == e.message && r->Err_0.span == e.span,
            },
            r is Err ==> final(self).pos == old(self).pos,
    {
        let k = self.peek();
        if k == expected {
            self.advance();
            Ok(())
        } else {
            let mut m = String::new();
            m.append("expected ");
            m.append(expected.debug_text().as_str());
            Err(self.err(self.got(m, &k)))
        }
    }

    /// `prefix, got <kind>`
    pub(crate) fn got(&self, prefix: String, k: &TokenKind) -> (m: String)
        ensures
            m@ == grammar::got(prefix@, *k),
    {
        let mut m = prefix;
        m.append(", got ");
        m.append(k.debug_text().as_str());
        m
    }

    pub(crate) fn cur_span(&self) -> (s: Span)
        requires
            self.tokens@.len() > 0,
        ensures
            s == grammar::cur_span(self.tokens@, self.pos as int),
    {
        let i = if self.pos < self.tokens.len() - 1 { self.pos } else { self.tokens.len() - 1 };
        self.tokens[i].span
    }

    pub(crate) fn prev_end(&self) -> (p: Pos)
        requires
            self.tokens@.len() > 0,
            self.pos <= self.tokens@.len(),
        ensures
            p == grammar::prev_end(self.tokens@, self.pos as int),
    {
        let i = if self.pos >= 1 { self.pos - 1 } else { 0 };
        self.tokens[i].span.end
    }

    pub(crate) fn span_from(&self, start: Pos) -> (s: Span)
        requires
            self.tokens@.len() > 0,
            self.pos <= self.tokens@.len(),
        ensures
            s == grammar::span_from(self.tokens@, start, self.pos as int),
    {
        Span { start, end: self.prev_end() }
    }

    pub(crate) fn err(&self, message: String) -> (e: ParseError)
        requires
            self.tokens@.len() > 0,
        ensures
            e.message@ == message@,
            e.span == grammar::cur_span(self.tokens@, self.pos as int),
    {
        ParseError { message, span: self.cur_span() }
    }

    pub(crate) fn expect_newline(&mut self, context: &str) -> (r: Result<(), ParseError>)
        requires
            old(self).wf(),
        ensures
            final(self).tokens@ == old(self).tokens@,
            final(self).wf(),
            match grammar::expect_newline(old(self).tokens@, old(self).pos as int, context@) {
                Ok(p) => r is Ok && final(self).pos == p,
                Err(e) => r is Err && r->Err_0.message@ == e.message && r->Err_0.span == e.span,
            },
            r is Err ==> final(self).pos == old(self).pos,
    {
        let k = self.peek();
        match k {
            TokenKind::Newline | TokenKind::RBrace | TokenKind::Eof => {},
            other => {
                let mut m = String::new();
                m.append("expected newline after ");
                m.append(context);
                return Err(self.err(self.got(m, &other)));
            },
        }
        proof { grammar::lemma_skip_nl(self.tokens@, self.pos as int); }
        self.skip_newlines();
        Ok(())
    }
}


/// The items of `v`, all of which are `Elem::Expr`.
fn into_exprs(v: Vec<Elem>) -> (r: Vec<Expr>)
    requires
        forall|i: int| 0 <= i < v@.len() ==> #[trigger] v@[i] is Expr,
    ensures
        exprs_view(r@) == elems_exprs(elems_view(v@)),
{
    let ghost orig = v@;
    let mut v = v;
    let mut out: Vec<Expr> = Vec::new();
    while v.len() > 0
        invariant
            orig.len() == out@.len() + v@.len(),
            v@ == orig.subrange(out@.len() as int, orig.len() as int),
            forall|i: int| 0 <= i < orig.len() ==> #[trigger] orig[i] is Expr,
            exprs_view(out@) == elems_exprs(elems_view(orig)).take(out@.len() as int),
        decreases v@.len(),
    {
        let e = v.remove(0);
        let ghost k = out@.len() as int;
        assert(e == orig[k]);
        match e {
            Elem::Expr(x) => {
                out.push(x);
                assert(exprs_view(out@) == elems_exprs(elems_view(orig)).take(k + 1));
            },
            _ => {
                assert(false);
            },
        }
    }
    assert(elems_exprs(elems_view(orig)).take(out@.len() as int) == elems_exprs(elems_view(orig)));
    out
}

/// The items of `v`, all of which are `Elem::Param`.
fn into_params(v: Vec<Elem>) -> (r: Vec<Param>)
    requires
        forall|i: int| 0 <= i < v@.len() ==> #[trigger] v@[i] is Param,
    ensures
        params_view(r@) == elems_params(elems_view(v@)),
{
    let ghost orig = v@;
    let mut v = v;
    let mut out: Vec<Param> = Vec::new();
    while v.len() > 0
        invariant
            orig.len() == out@.len() + v@.len(),
            v@ == orig.subrange(out@.len() as int, orig.len() as int),
            forall|i: int| 0 <= i < orig.len() ==> #[trigger] orig[i] is Param,
            params_view(out@) == elems_params(elems_view(orig)).take(out@.len() as int),
        decreases v@.len(),
    {
        let e = v.remove(0);
        let ghost k = out@.len() as int;
        assert(e == orig[k]);
        match e {
            Elem::Param(x) => {
                out.push(x);
                assert(params_view(out@) == elems_params(elems_view(orig)).take(k + 1));
            },
            _ => {
                assert(false);
            },
        }
    }
    assert(elems_params(elems_view(orig)).take(out@.len() as int) == elems_params(elems_view(orig)));
    out
}

/// The items of `v`, all of which are `Elem::Pattern`.
fn into_patterns(v: Vec<Elem>) -> (r: Vec<Pattern>)
    requires
        forall|i: int| 0 <= i < v@.len() ==> #[trigger] v@[i] is Pattern,
    ensures
        patterns_view(r@) == elems_patterns(elems_view(v@)),
{
    let ghost orig = v@;
    let mut v = v;
    let mut out: Vec<Pattern> = Vec::new();
    while v.len() > 0
        invariant
            orig.len() == out@.len() + v@.len(),
            v@ == orig.subrange(out@.len() as int, orig.len() as int),
            forall|i: int| 0 <= i < orig.len() ==> #[trigger] orig[i] is Pattern,
            patterns_view(out@) == elems_patterns(elems_view(orig)).take(out@.len() as int),
        decreases v@.len(),
    {
        let e = v.remove(0);
        let ghost k = out@.len() as int;
        assert(e == orig[k]);
        match e {
            Elem::Pattern(x) => {
                out.push(x);
                assert(patterns_view(out@) == elems_patterns(elems_view(orig)).take(k + 1));
            },
            _ => {
                assert(false);
            },
        }
    }
    assert(elems_patterns(elems_view(orig)).take(out@.len() as int) == elems_patterns(elems_view(orig)));
    out
}

/// The items of `v`, all of which are `Elem::Ty`.
fn into_tys(v: Vec<Elem>) -> (r: Vec<Ty>)
    requires
        forall|i: int| 0 <= i < v@.len() ==> #[trigger] v@[i] is Ty,
    ensures
        tys_view(r@) == elems_tys(elems_view(v@)),
{
    let ghost orig = v@;
    let mut v = v;
    let mut out: Vec<Ty> = Vec::new();
    while v.len() > 0
        invariant
            orig.len() == out@.len() + v@.len(),
            v@ == orig.subrange(out@.len() as int, orig.len() as int),
            forall|i: int| 0 <= i < orig.len() ==> #[trigger] orig[i] is Ty,
            tys_view(out@) == elems_tys(elems_view(orig)).take(out@.len() as int),
        decreases v@.len(),
    {
        let e = v.remove(0);
        let ghost k = out@.len() as int;
        assert(e == orig[k]);
        match e {
            Elem::Ty(x) => {
                out.push(x);
                assert(tys_view(out@) == elems_tys(elems_view(orig)).take(k + 1));
            },
            _ => {
                assert(false);
            },
        }
    }
    assert(elems_tys(elems_view(orig)).take(out@.len() as int) == elems_tys(elems_view(orig)));
    out
}

/// The items of `v`, all of which are `Elem::Ident`.
fn into_idents(v: Vec<Elem>) -> (r: Vec<Identifier>)
    requires
        forall|i: int| 0 <= i < v@.len() ==> #[trigger] v@[i] is Ident,
    ensures
        r@ == elems_idents(elems_view(v@)),
{
    let ghost orig = v@;
    let mut v = v;
    let mut out: Vec<Identifier> = Vec::new();
    while v.len() > 0
        invariant
            orig.len() == out@.len() + v@.len(),
            v@ == orig.subrange(out@.len() as int, orig.len() as int),
            forall|i: int| 0 <= i < orig.len() ==> #[trigger] orig[i] is Ident,
            out@ == elems_idents(elems_view(orig)).take(out@.len() as int),
        decreases v@.len(),
    {
        let e = v.remove(0);
        let ghost k = out@.len() as int;
        assert(e == orig[k]);
        match e {
            Elem::Ident(x) => {
                out.push(x);
                assert(out@ == elems_idents(elems_view(orig)).take(k + 1));
            },
            _ => {
                assert(false);
            },
        }
    }
    assert(elems_idents(elems_view(orig)).take(out@.len() as int) == elems_idents(elems_view(orig)));
    out
}

/// The items of `v`, all of which are `Elem::Stmt`.
fn into_stmts(v: Vec<Elem>) -> (r: Vec<Stmt>)
    requires
        forall|i: int| 0 <= i < v@.len() ==> #[trigger] v@[i] is Stmt,
    ensures
        stmts_view(r@) == elems_stmts(elems_view(v@)),
{
    let ghost orig = v@;
    let mut v = v;
    let mut out: Vec<Stmt> = Vec::new();
    while v.len() > 0
        invariant
            orig.len() == out@.len() + v@.len(),
            v@ == orig.subrange(out@.len() as int, orig.len() as int),
            forall|i: int| 0 <= i < orig.len() ==> #[trigger] orig[i] is Stmt,
            stmts_view(out@) == elems_stmts(elems_view(orig)).take(out@.len() as int),
        decreases v@.len(),
    {
        let e = v.remove(0);
        let ghost k = out@.len() as int;
        assert(e == orig[k]);
        match e {
            Elem::Stmt(x) => {
                out.push(x);
                assert(stmts_view(out@) == elems_stmts(elems_view(orig)).take(k + 1));
            },
            _ => {
                assert(false);
            },
        }
    }
    assert(elems_stmts(elems_view(orig)).take(out@.len() as int) == elems_stmts(elems_view(orig)));
    out
}

/// The items of `v`, all of which are `Elem::Arm`.
fn into_arms(v: Vec<Elem>) -> (r: Vec<MatchArm>)
    requires
        forall|i: int| 0 <= i < v@.len() ==> #[trigger] v@[i] is Arm,
    ensures
        arms_view(r@) == elems_arms(elems_view(v@)),
{
    let ghost orig = v@;
    let mut v = v;
    let mut out: Vec<MatchArm> = Vec::new();
    while v.len() > 0
        invariant
            orig.len() == out@.len() + v@.len(),
            v@ == orig.subrange(out@.len() as int, orig.len() as int),
            forall|i: int| 0 <= i < orig.len() ==> #[trigger] orig[i] is Arm,
            arms_view(out@) == elems_arms(elems_view(orig)).take(out@.len() as int),
        decreases v@.len(),
    {
        let e = v.remove(0);
        let ghost k = out@.len() as int;
        assert(e == orig[k]);
        match e {
            Elem::Arm(x) => {
                out.push(x);
                assert(arms_view(out@) == elems_arms(elems_view(orig)).take(k + 1));
            },
            _ => {
                assert(false);
            },
        }
    }
    assert(elems_arms(elems_view(orig)).take(out@.len() as int) == elems_arms(elems_view(orig)));
    out
}

/// The items of `v`, all of which are `Elem::Variant`.
fn into_variants(v: Vec<Elem>) -> (r: Vec<TypeVariant>)
    requires
        forall|i: int| 0 <= i < v@.len() ==> #[trigger] v@[i] is Variant,
    ensures
        variants_view(r@) == elems_variants(elems_view(v@)),
{
    let ghost orig = v@;
    let mut v = v;
    let mut out: Vec<TypeVariant> = Vec::new();
    while v.len() > 0
        invariant
            orig.len() == out@.len() + v@.len(),
            v@ == orig.subrange(out@.len() as int, orig.len() as int),
            forall|i: int| 0 <= i < orig.len() ==> #[trigger] orig[i] is Variant,
            variants_view(out@) == elems_variants(elems_view(orig)).take(out@.len() as int),
        decreases v@.len(),
    {
        let e = v.remove(0);
        let ghost k = out@.len() as int;
        assert(e == orig[k]);
        match e {
            Elem::Variant(x) => {
                out.push(x);
                assert(variants_view(out@) == elems_variants(elems_view(orig)).take(k + 1));
            },
            _ => {
                assert(false);
            },
        }
    }
    assert(elems_variants(elems_view(orig)).take(out@.len() as int) == elems_variants(elems_view(orig)));
    out
}

/// The items of `v`, all of which are `Elem::Field`.
fn into_fields(v: Vec<Elem>) -> (r: Vec<StructField>)
    requires
        forall|i: int| 0 <= i < v@.len() ==> #[trigger] v@[i] is Field,
    ensures
        fields_view(r@) == elems_fields(elems_view(v@)),
{
    let ghost orig = v@;
    let mut v = v;
    let mut out: Vec<StructField> = Vec::new();
    while v.len() > 0
        invariant
            orig.len() == out@.len() + v@.len(),
            v@ == orig.subrange(out@.len() as int, orig.len() as int),
            forall|i: int| 0 <= i < orig.len() ==> #[trigger] orig[i] is Field,
            fields_view(out@) == elems_fields(elems_view(orig)).take(out@.len() as int),
        decreases v@.len(),
    {
        let e = v.remove(0);
        let ghost k = out@.len() as int;
        assert(e == orig[k]);
        match e {
            Elem::Field(x) => {
                out.push(x);
                assert(fields_view(out@) == elems_fields(elems_view(orig)).take(k + 1));
            },
            _ => {
                assert(false);
            },
        }
    }
    assert(elems_fields(elems_view(orig)).take(out@.len() as int) == elems_fields(elems_view(orig)));
    out
}


/// A string with the characters of `s`.
pub(crate) fn text(s: &str) -> (r: String)
    ensures
        r@ == s@,
{
    let mut r = String::new();
    r.append(s);
    r
}

impl Parser {
    /// Parses a comma separated list between `open` and `close`. A newline right after
    /// `open` makes the list multiline: then each item may be followed by newlines and
    /// `close` must stand on its own line; otherwise all items must be on one line.
    #[verifier::loop_isolation(false)]
    pub(crate) fn parse_comma_list(&mut self, open: TokenKind, close: TokenKind, label: &str, kind: ElemKind) -> (r: Result<Vec<Elem>, ParseError>)
        requires
            old(self).wf(),
            !(open is Eof),
        ensures
            final(self).tokens@ == old(self).tokens@,
            final(self).wf(),
            outcome(r, grammar::comma_list(old(self).tokens@, old(self).pos as int, open, close, label@, kind), final(self).pos as int, |v: Vec<Elem>| elems_view(v@)),
            r is Ok ==> all_fit(r->Ok_0@, kind) && old(self).pos < final(self).pos,
        decreases old(self).tokens@.len() - old(self).pos, 1nat,
    {
        proof { grammar::unfold_comma_list(self.tokens@, self.pos as int, open, close, label@, kind); }
        let ghost t = self.tokens@;
        let ghost p0 = self.pos as int;
        let ghost total = grammar::comma_list(t, p0, open, close, label@, kind);
        match self.consume(open) { Ok(v) => v, Err(e) => return Err(e) };
        let multiline = self.peek_is(TokenKind::Newline);
        proof { grammar::lemma_skip_nl(t, self.pos as int); }
        self.skip_newlines();
        let mut items: Vec<Elem> = Vec::new();
        proof { assert(elems_view(items@) =~= Seq::<SpecElem>::empty()); }
        loop
            invariant
                self.tokens@ == t,
                t == old(self).tokens@,
                p0 == old(self).pos as int,
                self.wf(),
                p0 < self.pos,
                all_fit(items@, kind),
                total == grammar::comma_items(t, self.pos as int, close, label@, kind, multiline, elems_view(items@)),
            decreases t.len() - self.pos,
        {
            proof { grammar::unfold_comma_items(self.tokens@, self.pos as int, close, label@, kind, multiline, elems_view(items@)); }
            if !self.peek_until(close.clone()) {
                break;
            }
            let it = match self.parse_item(kind) { Ok(v) => v, Err(e) => return Err(e) };
            let ghost iv = elem_view(it);
            let ghost old_items = items@;
            items.push(it);
            proof {
                assert(elems_view(items@) =~= elems_view(old_items).push(iv));
            }
            if !self.peek_is(TokenKind::Comma) {
                if multiline && !self.peek_is(TokenKind::Newline) {
                    let mut m = text("closing ");
                    m.append(close.debug_text().as_str());
                    m.append(" must be on its own line in multiline style");
                    return Err(self.err(m));
                }
                break;
            }
            match self.consume(TokenKind::Comma) { Ok(v) => v, Err(e) => return Err(e) };
            if multiline {
                proof { grammar::lemma_skip_nl(t, self.pos as int); }
                self.skip_newlines();
            } else if self.peek_is(TokenKind::Newline) {
                let mut m = text(label);
                m.append("s must all be on the same line; use a newline after '(' for multiline style");
                return Err(self.err(m));
            }
        }
        proof { grammar::lemma_skip_nl(t, self.pos as int); }
        self.skip_newlines();
        if self.peek_is(TokenKind::Comma) {
            let mut m = text("comma must follow a ");
            m.append(label);
            m.append(" on the same line, not precede it on the next line");
            return Err(self.err(m));
        }
        match self.consume(close) { Ok(v) => v, Err(e) => return Err(e) };
        Ok(items)
    }

    /// Parses a `{...}` body of newline separated items.
    #[verifier::loop_isolation(false)]
    pub(crate) fn parse_braced_list(&mut self, label: &str, kind: ElemKind) -> (r: Result<Vec<Elem>, ParseError>)
        requires
            old(self).wf(),
        ensures
            final(self).tokens@ == old(self).tokens@,
            final(self).wf(),
            outcome(r, grammar::braced_list(old(self).tokens@, old(self).pos as int, label@, kind), final(self).pos as int, |v: Vec<Elem>| elems_view(v@)),
            r is Ok ==> all_fit(r->Ok_0@, kind) && old(self).pos < final(self).pos,
        decreases old(self).tokens@.len() - old(self).pos, 1nat,
    {
        proof { grammar::unfold_braced_list(self.tokens@, self.pos as int, label@, kind); }
        let ghost t = self.tokens@;
        let ghost p0 = self.pos as int;
        let ghost total = grammar::braced_list(t, p0, label@, kind);
        match self.consume(TokenKind::LBrace) { Ok(v) => v, Err(e) => return Err(e) };
        proof { grammar::lemma_skip_nl(t, self.pos as int); }
        self.skip_newlines();
        let mut items: Vec<Elem> = Vec::new();
        proof { assert(elems_view(items@) =~= Seq::<SpecElem>::empty()); }
        while self.peek_until(TokenKind::RBrace)
            invariant
                self.tokens@ == t,
                t == old(self).tokens@,
                p0 == old(self).pos as int,
                self.wf(),
                p0 < self.pos,
                all_fit(items@, kind),
                total == grammar::braced_items(t, self.pos as int, label@, kind, elems_view(items@)),
            decreases t.len() - self.pos,
        {
            proof { grammar::unfold_braced_items(self.tokens@, self.pos as int, label@, kind, elems_view(items@)); }
            let it = match self.parse_item(kind) { Ok(v) => v, Err(e) => return Err(e) };
            let ghost iv = elem_view(it);
            let ghost old_items = items@;
            items.push(it);
            proof {
                assert(elems_view(items@) =~= elems_view(old_items).push(iv));
                grammar::lemma_skip_nl(t, self.pos as int);
            }
            match self.expect_newline(label) { Ok(v) => v, Err(e) => return Err(e) };
        }
        proof { grammar::unfold_braced_items(self.tokens@, self.pos as int, label@, kind, elems_view(items@)); }
        match self.consume(TokenKind::RBrace) { Ok(v) => v, Err(e) => return Err(e) };
        Ok(items)
    }

    /// Parses one list item of the given kind.
    pub(crate) fn parse_item(&mut self, kind: ElemKind) -> (r: Result<Elem, ParseError>)
        requires
            old(self).wf(),
        ensures
            final(self).tokens@ == old(self).tokens@,
            final(self).wf(),
            outcome(r, grammar::item(old(self).tokens@, old(self).pos as int, kind), final(self).pos as int, |e: Elem| elem_view(e)),
            r is Ok ==> elem_fits(r->Ok_0, kind) && old(self).pos < final(self).pos,
        decreases old(self).tokens@.len() - old(self).pos, 29nat,
    {
        proof { grammar::unfold_item(self.tokens@, self.pos as int, kind); }
        match kind {
            ElemKind::Expr => Ok(Elem::Expr(match self.parse_expr() { Ok(v) => v, Err(e) => return Err(e) })),
            ElemKind::Param => Ok(Elem::Param(match self.parse_param() { Ok(v) => v, Err(e) => return Err(e) })),
            ElemKind::FuncParam => {
                let param = match self.parse_param() { Ok(v) => v, Err(e) => return Err(e) };
                if param.ty.is_none() {
                    return Err(self.err(text("expected type annotation for parameter")));
                }
                Ok(Elem::Param(param))
            },
            ElemKind::Pattern => Ok(Elem::Pattern(match self.parse_pattern() { Ok(v) => v, Err(e) => return Err(e) })),
            ElemKind::PatternOrRest => {
                if !self.peek_is(TokenKind::DotDot) {
                    return Ok(Elem::Pattern(match self.parse_pattern() { Ok(v) => v, Err(e) => return Err(e) }));
                }
                let rest_start = self.cur_span().start;
                self.advance();
                let name = if matches!(self.peek(), TokenKind::Identifier(_)) {
                    Some(match self.parse_identifier() { Ok(v) => v, Err(e) => return Err(e) })
                } else {
                    None
                };
                Ok(Elem::Pattern(Pattern { kind: ast::PatternKind::Rest(name), span: self.span_from(rest_start) }))
            },
            ElemKind::Ty => Ok(Elem::Ty(match self.parse_type() { Ok(v) => v, Err(e) => return Err(e) })),
            ElemKind::Ident => Ok(Elem::Ident(match self.parse_identifier() { Ok(v) => v, Err(e) => return Err(e) })),
            ElemKind::Stmt => Ok(Elem::Stmt(match self.parse_stmt() { Ok(v) => v, Err(e) => return Err(e) })),
            ElemKind::Arm => Ok(Elem::Arm(match self.parse_match_arm() { Ok(v) => v, Err(e) => return Err(e) })),
            ElemKind::Variant => Ok(Elem::Variant(match self.parse_type_variant() { Ok(v) => v, Err(e) => return Err(e) })),
            ElemKind::Field => Ok(Elem::Field(match self.parse_struct_field() { Ok(v) => v, Err(e) => return Err(e) })),
        }
    }

    pub(crate) fn parse_identifier(&mut self) -> (r: Result<Identifier, ParseError>)
        requires
            old(self).wf(),
        ensures
            final(self).tokens@ == old(self).tokens@,
            final(self).wf(),
            outcome(r, grammar::ident(old(self).tokens@, old(self).pos as int), final(self).pos as int, |i: Identifier| i),
            r is Ok ==> old(self).pos < final(self).pos,
            r is Err ==> final(self).pos == old(self).pos,
    {
        match self.peek() {
            TokenKind::Identifier(value) => {
                let span = self.cur_span();
                self.advance();
                Ok(Identifier { value, span })
            },
            other => Err(self.err(self.got(text("expected identifier"), &other))),
        }
    }

    pub(crate) fn parse_param(&mut self) -> (r: Result<Param, ParseError>)
        requires
            old(self).wf(),
        ensures
            final(self).tokens@ == old(self).tokens@,
            final(self).wf(),
            outcome(r, grammar::param(old(self).tokens@, old(self).pos as int), final(self).pos as int, |x: Param| param_view(x)),
            r is Ok ==> old(self).pos < final(self).pos,
        decreases old(self).tokens@.len() - old(self).pos, 2nat,
    {
        proof { grammar::unfold_param(self.tokens@, self.pos as int); }
        let name = match self.parse_identifier() { Ok(v) => v, Err(e) => return Err(e) };
        let ty = match self.parse_type_annotation() { Ok(v) => v, Err(e) => return Err(e) };
        Ok(Param { name, ty })
    }
}

} // verus!
