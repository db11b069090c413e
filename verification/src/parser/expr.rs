use vstd::prelude::*;
use crate::common::ast::{BinOpKind, Literal, UnaryOpKind};
use crate::common::span::{Pos, Span};
use crate::lexer::token::TokenKind;
use super::{Parser, ParseError, Elem, elems_view, outcome, text, into_exprs, into_params, into_patterns, into_arms, no_min_int};
use super::ast::{
    Block, Expr, ExprKind, MatchArm, Pattern, PatternKind, arm_view, block_view, expr_view, exprs_view,
    params_view, pattern_view, patterns_view, opt_ty_view,
};
use super::grammar::{self, ElemKind, rest_count};

verus! {

/// Whether `s` is `_`.
fn is_underscore(s: &String) -> (r: bool)
    ensures
        r == (s@ == "_"@),
{
    proof { reveal_strlit("_"); }
    let t = s.as_str();
    if t.unicode_len() != 1 {
        return false;
    }
    let c = t.get_char(0);
    if c == '_' {
        assert(s@ == "_"@);
        true
    } else {
        false
    }
}

impl Parser {
    fn binary(op: BinOpKind, left: Expr, right: Expr) -> (r: Expr)
        ensures
            expr_view(r) == grammar::binary(op, expr_view(left), expr_view(right)),
    {
        let span = left.span.to(right.span);
        Expr { kind: ExprKind::BinaryOp { op, left: Box::new(left), right: Box::new(right) }, span }
    }

    fn literal_expr(&mut self, literal: Literal) -> (r: Expr)
        requires
            old(self).wf(),
        ensures
            final(self).tokens@ == old(self).tokens@,
            final(self).wf(),
            grammar::literal_expr(old(self).tokens@, old(self).pos as int, literal) == Ok::<(super::ast::SpecExpr, int), grammar::SpecError>((expr_view(r), final(self).pos as int)),
    {
        let span = self.cur_span();
        self.advance();
        Expr { kind: ExprKind::Literal(literal), span }
    }

    fn literal_pattern(&mut self, literal: Literal) -> (r: Pattern)
        requires
            old(self).wf(),
        ensures
            final(self).tokens@ == old(self).tokens@,
            final(self).wf(),
            grammar::literal_pattern(old(self).tokens@, old(self).pos as int, literal) == Ok::<(super::ast::SpecPattern, int), grammar::SpecError>((pattern_view(r), final(self).pos as int)),
    {
        let span = self.cur_span();
        self.advance();
        Pattern { kind: PatternKind::Literal(literal), span }
    }

    pub(crate) fn parse_expr(&mut self) -> (r: Result<Expr, ParseError>)
        requires
            old(self).wf(),
        ensures
            final(self).tokens@ == old(self).tokens@,
            final(self).wf(),
            outcome(r, grammar::expr(old(self).tokens@, old(self).pos as int), final(self).pos as int, |e: Expr| expr_view(e)),
            r is Ok ==> old(self).pos < final(self).pos,
        decreases old(self).tokens@.len() - old(self).pos, 20nat,
    {
        proof { grammar::unfold_expr(self.tokens@, self.pos as int); }
        self.parse_or()
    }

    #[verifier::loop_isolation(false)]
    fn parse_or(&mut self) -> (r: Result<Expr, ParseError>)
        requires
            old(self).wf(),
        ensures
            final(self).tokens@ == old(self).tokens@,
            final(self).wf(),
            outcome(r, grammar::or_expr(old(self).tokens@, old(self).pos as int), final(self).pos as int, |e: Expr| expr_view(e)),
            r is Ok ==> old(self).pos < final(self).pos,
        decreases old(self).tokens@.len() - old(self).pos, 19nat,
    {
        proof { grammar::unfold_or_expr(self.tokens@, self.pos as int); }
        let ghost t = self.tokens@;
        let ghost p0 = self.pos as int;
        let ghost total = grammar::or_expr(t, p0);
        let mut left = match self.parse_and() { Ok(v) => v, Err(e) => return Err(e) };
        while self.peek_is(TokenKind::Or)
            invariant
                self.tokens@ == t,
                t == old(self).tokens@,
                p0 == old(self).pos as int,
                self.wf(),
                p0 < self.pos,
                total == grammar::or_tail(t, expr_view(left), self.pos as int),
            decreases t.len() - self.pos,
        {
            proof { grammar::unfold_or_tail(self.tokens@, expr_view(left), self.pos as int); }
            self.advance();
            let right = match self.parse_and() { Ok(v) => v, Err(e) => return Err(e) };
            left = Self::binary(BinOpKind::Or, left, right);
        }
        proof { grammar::unfold_or_tail(self.tokens@, expr_view(left), self.pos as int); }
        Ok(left)
    }

    #[verifier::loop_isolation(false)]
    fn parse_and(&mut self) -> (r: Result<Expr, ParseError>)
        requires
            old(self).wf(),
        ensures
            final(self).tokens@ == old(self).tokens@,
            final(self).wf(),
            outcome(r, grammar::and_expr(old(self).tokens@, old(self).pos as int), final(self).pos as int, |e: Expr| expr_view(e)),
            r is Ok ==> old(self).pos < final(self).pos,
        decreases old(self).tokens@.len() - old(self).pos, 17nat,
    {
        proof { grammar::unfold_and_expr(self.tokens@, self.pos as int); }
        let ghost t = self.tokens@;
        let ghost p0 = self.pos as int;
        let ghost total = grammar::and_expr(t, p0);
        let mut left = match self.parse_equality() { Ok(v) => v, Err(e) => return Err(e) };
        while self.peek_is(TokenKind::And)
            invariant
                self.tokens@ == t,
                t == old(self).tokens@,
                p0 == old(self).pos as int,
                self.wf(),
                p0 < self.pos,
                total == grammar::and_tail(t, expr_view(left), self.pos as int),
            decreases t.len() - self.pos,
        {
            proof { grammar::unfold_and_tail(self.tokens@, expr_view(left), self.pos as int); }
            self.advance();
            let right = match self.parse_equality() { Ok(v) => v, Err(e) => return Err(e) };
            left = Self::binary(BinOpKind::And, left, right);
        }
        proof { grammar::unfold_and_tail(self.tokens@, expr_view(left), self.pos as int); }
        Ok(left)
    }

    #[verifier::loop_isolation(false)]
    fn parse_equality(&mut self) -> (r: Result<Expr, ParseError>)
        requires
            old(self).wf(),
        ensures
            final(self).tokens@ == old(self).tokens@,
            final(self).wf(),
            outcome(r, grammar::equality(old(self).tokens@, old(self).pos as int), final(self).pos as int, |e: Expr| expr_view(e)),
            r is Ok ==> old(self).pos < final(self).pos,
        decreases old(self).tokens@.len() - old(self).pos, 15nat,
    {
        proof { grammar::unfold_equality(self.tokens@, self.pos as int); }
        let ghost t = self.tokens@;
        let ghost p0 = self.pos as int;
        let ghost total = grammar::equality(t, p0);
        let mut left = match self.parse_comparison() { Ok(v) => v, Err(e) => return Err(e) };
        loop
            invariant
                self.tokens@ == t,
                t == old(self).tokens@,
                p0 == old(self).pos as int,
                self.wf(),
                p0 < self.pos,
                total == grammar::equality_tail(t, expr_view(left), self.pos as int),
            decreases t.len() - self.pos,
        {
            proof { grammar::unfold_equality_tail(self.tokens@, expr_view(left), self.pos as int); }
            let op = match self.peek() {
                TokenKind::EqEq => BinOpKind::EqEq,
                TokenKind::BangEq => BinOpKind::NotEq,
                _ => break,
            };
            self.advance();
            let right = match self.parse_comparison() { Ok(v) => v, Err(e) => return Err(e) };
            left = Self::binary(op, left, right);
        }
        Ok(left)
    }

    #[verifier::loop_isolation(false)]
    fn parse_comparison(&mut self) -> (r: Result<Expr, ParseError>)
        requires
            old(self).wf(),
        ensures
            final(self).tokens@ == old(self).tokens@,
            final(self).wf(),
            outcome(r, grammar::comparison(old(self).tokens@, old(self).pos as int), final(self).pos as int, |e: Expr| expr_view(e)),
            r is Ok ==> old(self).pos < final(self).pos,
        decreases old(self).tokens@.len() - old(self).pos, 13nat,
    {
        proof { grammar::unfold_comparison(self.tokens@, self.pos as int); }
        let ghost t = self.tokens@;
        let ghost p0 = self.pos as int;
        let ghost total = grammar::comparison(t, p0);
        let mut left = match self.parse_additive() { Ok(v) => v, Err(e) => return Err(e) };
        loop
            invariant
                self.tokens@ == t,
                t == old(self).tokens@,
                p0 == old(self).pos as int,
                self.wf(),
                p0 < self.pos,
                total == grammar::comparison_tail(t, expr_view(left), self.pos as int),
            decreases t.len() - self.pos,
        {
            proof { grammar::unfold_comparison_tail(self.tokens@, expr_view(left), self.pos as int); }
            let op = match self.peek() {
                TokenKind::Lt => BinOpKind::Lt,
                TokenKind::Gt => BinOpKind::Gt,
                TokenKind::LtEq => BinOpKind::LtEq,
                TokenKind::GtEq => BinOpKind::GtEq,
                _ => break,
            };
            self.advance();
            let right = match self.parse_additive() { Ok(v) => v, Err(e) => return Err(e) };
            left = Self::binary(op, left, right);
        }
        Ok(left)
    }

    #[verifier::loop_isolation(false)]
    fn parse_additive(&mut self) -> (r: Result<Expr, ParseError>)
        requires
            old(self).wf(),
        ensures
            final(self).tokens@ == old(self).tokens@,
            final(self).wf(),
            outcome(r, grammar::additive(old(self).tokens@, old(self).pos as int), final(self).pos as int, |e: Expr| expr_view(e)),
            r is Ok ==> old(self).pos < final(self).pos,
        decreases old(self).tokens@.len() - old(self).pos, 11nat,
    {
        proof { grammar::unfold_additive(self.tokens@, self.pos as int); }
        let ghost t = self.tokens@;
        let ghost p0 = self.pos as int;
        let ghost total = grammar::additive(t, p0);
        let mut left = match self.parse_multiplicative() { Ok(v) => v, Err(e) => return Err(e) };
        loop
            invariant
                self.tokens@ == t,
                t == old(self).tokens@,
                p0 == old(self).pos as int,
                self.wf(),
                p0 < self.pos,
                total == grammar::additive_tail(t, expr_view(left), self.pos as int),
            decreases t.len() - self.pos,
        {
            proof { grammar::unfold_additive_tail(self.tokens@, expr_view(left), self.pos as int); }
            let op = match self.peek() {
                TokenKind::Plus => BinOpKind::Add,
                TokenKind::Minus => BinOpKind::Sub,
                _ => break,
            };
            self.advance();
            let right = match self.parse_multiplicative() { Ok(v) => v, Err(e) => return Err(e) };
            left = Self::binary(op, left, right);
        }
        Ok(left)
    }

    #[verifier::loop_isolation(false)]
    fn parse_multiplicative(&mut self) -> (r: Result<Expr, ParseError>)
        requires
            old(self).wf(),
        ensures
            final(self).tokens@ == old(self).tokens@,
            final(self).wf(),
            outcome(r, grammar::multiplicative(old(self).tokens@, old(self).pos as int), final(self).pos as int, |e: Expr| expr_view(e)),
            r is Ok ==> old(self).pos < final(self).pos,
        decreases old(self).tokens@.len() - old(self).pos, 9nat,
    {
        proof { grammar::unfold_multiplicative(self.tokens@, self.pos as int); }
        let ghost t = self.tokens@;
        let ghost p0 = self.pos as int;
        let ghost total = grammar::multiplicative(t, p0);
        let mut left = match self.parse_unary() { Ok(v) => v, Err(e) => return Err(e) };
        loop
            invariant
                self.tokens@ == t,
                t == old(self).tokens@,
                p0 == old(self).pos as int,
                self.wf(),
                p0 < self.pos,
                total == grammar::multiplicative_tail(t, expr_view(left), self.pos as int),
            decreases t.len() - self.pos,
        {
            proof { grammar::unfold_multiplicative_tail(self.tokens@, expr_view(left), self.pos as int); }
            let op = match self.peek() {
                TokenKind::Asterisk => BinOpKind::Mul,
                TokenKind::Slash => BinOpKind::Div,
                _ => break,
            };
            self.advance();
            let right = match self.parse_unary() { Ok(v) => v, Err(e) => return Err(e) };
            left = Self::binary(op, left, right);
        }
        Ok(left)
    }

    fn parse_unary(&mut self) -> (r: Result<Expr, ParseError>)
        requires
            old(self).wf(),
        ensures
            final(self).tokens@ == old(self).tokens@,
            final(self).wf(),
            outcome(r, grammar::unary(old(self).tokens@, old(self).pos as int), final(self).pos as int, |e: Expr| expr_view(e)),
            r is Ok ==> old(self).pos < final(self).pos,
        decreases old(self).tokens@.len() - old(self).pos, 7nat,
    {
        proof { grammar::unfold_unary(self.tokens@, self.pos as int); }
        let op = match self.peek() {
            TokenKind::Minus => UnaryOpKind::Neg,
            TokenKind::Bang => UnaryOpKind::Not,
            _ => return self.parse_postfix(),
        };
        let start = self.cur_span().start;
        self.advance();
        let operand = match self.parse_unary() { Ok(v) => v, Err(e) => return Err(e) };
        let span = Span { start, end: operand.span.end };
        Ok(Expr { kind: ExprKind::UnaryOp { op, operand: Box::new(operand) }, span })
    }

    #[verifier::loop_isolation(false)]
    fn parse_postfix(&mut self) -> (r: Result<Expr, ParseError>)
        requires
            old(self).wf(),
        ensures
            final(self).tokens@ == old(self).tokens@,
            final(self).wf(),
            outcome(r, grammar::postfix(old(self).tokens@, old(self).pos as int), final(self).pos as int, |e: Expr| expr_view(e)),
            r is Ok ==> old(self).pos < final(self).pos,
        decreases old(self).tokens@.len() - old(self).pos, 6nat,
    {
        proof { grammar::unfold_postfix(self.tokens@, self.pos as int); }
        let ghost t = self.tokens@;
        let ghost p0 = self.pos as int;
        let ghost total = grammar::postfix(t, p0);
        let mut expr = match self.parse_primary() { Ok(v) => v, Err(e) => return Err(e) };
        loop
            invariant
                self.tokens@ == t,
                t == old(self).tokens@,
                p0 == old(self).pos as int,
                self.wf(),
                p0 < self.pos,
                total == grammar::postfix_tail(t, expr_view(expr), self.pos as int),
            decreases t.len() - self.pos,
        {
            proof { grammar::unfold_postfix_tail(self.tokens@, expr_view(expr), self.pos as int); }
            match self.peek() {
                TokenKind::Dot => {
                    self.advance();
                    let field = match self.parse_identifier() { Ok(v) => v, Err(e) => return Err(e) };
                    let span = expr.span.to(field.span);
                    expr = Expr { kind: ExprKind::FieldAccess { base: Box::new(expr), field }, span };
                },
                TokenKind::LParen => {
                    let args = match self.parse_call_args() { Ok(v) => v, Err(e) => return Err(e) };
                    let span = self.span_from(expr.span.start);
                    expr = Expr { kind: ExprKind::Call { callee: Box::new(expr), args }, span };
                },
                TokenKind::LBracket => {
                    self.advance();
                    let index = match self.parse_expr() { Ok(v) => v, Err(e) => return Err(e) };
                    match self.consume(TokenKind::RBracket) { Ok(v) => v, Err(e) => return Err(e) };
                    let span = self.span_from(expr.span.start);
                    expr = Expr { kind: ExprKind::Index { base: Box::new(expr), index: Box::new(index) }, span };
                },
                _ => break,
            }
        }
        Ok(expr)
    }

    fn parse_primary(&mut self) -> (r: Result<Expr, ParseError>)
        requires
            old(self).wf(),
        ensures
            final(self).tokens@ == old(self).tokens@,
            final(self).wf(),
            outcome(r, grammar::primary(old(self).tokens@, old(self).pos as int), final(self).pos as int, |e: Expr| expr_view(e)),
            r is Ok ==> old(self).pos < final(self).pos,
            !grammar::starts_primary(grammar::kind_at(old(self).tokens@, old(self).pos as int)) ==> final(self).pos == old(self).pos,
        decreases old(self).tokens@.len() - old(self).pos, 4nat,
    {
        proof { grammar::unfold_primary(self.tokens@, self.pos as int); }
        match self.peek() {
            TokenKind::Int(value) => Ok(self.literal_expr(Literal::Int(value))),
            TokenKind::True => Ok(self.literal_expr(Literal::Bool(true))),
            TokenKind::False => Ok(self.literal_expr(Literal::Bool(false))),
            TokenKind::LParen => {
                self.advance();
                proof { grammar::lemma_skip_nl(self.tokens@, self.pos as int); }
                self.skip_newlines();
                let expr = match self.parse_expr() { Ok(v) => v, Err(e) => return Err(e) };
                proof { grammar::lemma_skip_nl(self.tokens@, self.pos as int); }
                self.skip_newlines();
                match self.consume(TokenKind::RParen) { Ok(v) => v, Err(e) => return Err(e) };
                Ok(expr)
            },
            TokenKind::LBracket => {
                let start = self.cur_span().start;
                let elems = match self.parse_comma_list(TokenKind::LBracket, TokenKind::RBracket, "element", ElemKind::Expr) { Ok(v) => v, Err(e) => return Err(e) };
                let elems = into_exprs(elems);
                Ok(Expr { kind: ExprKind::Array(elems), span: self.span_from(start) })
            },
            TokenKind::LBrace => {
                let block = match self.parse_block() { Ok(v) => v, Err(e) => return Err(e) };
                let span = block.span;
                Ok(Expr { kind: ExprKind::Block(block), span })
            },
            TokenKind::If => {
                let start = self.cur_span().start;
                self.advance();
                self.parse_if_expr(start)
            },
            TokenKind::Match => self.parse_match_expr(),
            TokenKind::VerBar | TokenKind::Or => self.parse_closure(),
            TokenKind::Identifier(_) => {
                let ident = match self.parse_identifier() { Ok(v) => v, Err(e) => return Err(e) };
                let span = ident.span;
                Ok(Expr { kind: ExprKind::Identifier(ident), span })
            },
            other => Err(self.err(self.got(text("expected expression"), &other))),
        }
    }

    /// The rest of an `if` or `elif`, whose keyword started at `start` and has been consumed.
    fn parse_if_expr(&mut self, start: Pos) -> (r: Result<Expr, ParseError>)
        requires
            old(self).wf(),
        ensures
            final(self).tokens@ == old(self).tokens@,
            final(self).wf(),
            outcome(r, grammar::if_expr(old(self).tokens@, start, old(self).pos as int), final(self).pos as int, |e: Expr| expr_view(e)),
            r is Ok ==> old(self).pos < final(self).pos,
        decreases old(self).tokens@.len() - old(self).pos, 21nat,
    {
        proof { grammar::unfold_if_expr(self.tokens@, start, self.pos as int); }
        let condition = match self.parse_expr() { Ok(v) => v, Err(e) => return Err(e) };
        let then_block = match self.parse_block() { Ok(v) => v, Err(e) => return Err(e) };
        let else_branch = match self.peek() {
            TokenKind::Elif => {
                let elif_start = self.cur_span().start;
                self.advance();
                Some(Box::new(match self.parse_if_expr(elif_start) { Ok(v) => v, Err(e) => return Err(e) }))
            },
            TokenKind::Else => {
                self.advance();
                let block = match self.parse_block() { Ok(v) => v, Err(e) => return Err(e) };
                let span = block.span;
                Some(Box::new(Expr { kind: ExprKind::Block(block), span }))
            },
            _ => None,
        };
        let end = match &else_branch {
            Some(e) => e.span.end,
            None => then_block.span.end,
        };
        Ok(Expr { kind: ExprKind::If { condition: Box::new(condition), then_block, else_branch }, span: Span { start, end } })
    }

    fn parse_call_args(&mut self) -> (r: Result<Vec<Expr>, ParseError>)
        requires
            old(self).wf(),
        ensures
            final(self).tokens@ == old(self).tokens@,
            final(self).wf(),
            match grammar::comma_list(old(self).tokens@, old(self).pos as int, TokenKind::LParen, TokenKind::RParen, "argument"@, ElemKind::Expr) {
                Ok((v, p)) => r is Ok && exprs_view(r->Ok_0@) == grammar::elems_exprs(v) && final(self).pos == p,
                Err(e) => r is Err && r->Err_0.message@ == e.message && r->Err_0.span == e.span,
            },
            r is Ok ==> old(self).pos < final(self).pos,
        decreases old(self).tokens@.len() - old(self).pos, 2nat,
    {
        let args = match self.parse_comma_list(TokenKind::LParen, TokenKind::RParen, "argument", ElemKind::Expr) { Ok(v) => v, Err(e) => return Err(e) };
        Ok(into_exprs(args))
    }

    fn parse_closure(&mut self) -> (r: Result<Expr, ParseError>)
        requires
            old(self).wf(),
        ensures
            final(self).tokens@ == old(self).tokens@,
            final(self).wf(),
            outcome(r, grammar::closure(old(self).tokens@, old(self).pos as int), final(self).pos as int, |e: Expr| expr_view(e)),
            r is Ok ==> old(self).pos < final(self).pos,
        decreases old(self).tokens@.len() - old(self).pos, 3nat,
    {
        proof { grammar::unfold_closure(self.tokens@, self.pos as int); }
        let start = self.cur_span().start;
        // an `Or` token in place of the parameter list stands for no parameters
        let params = if self.peek_is(TokenKind::Or) {
            self.advance();
            let empty: Vec<super::ast::Param> = Vec::new();
            proof { assert(params_view(empty@) =~= Seq::<super::ast::SpecParam>::empty()); }
            empty
        } else {
            let ps = match self.parse_comma_list(TokenKind::VerBar, TokenKind::VerBar, "parameter", ElemKind::Param) { Ok(v) => v, Err(e) => return Err(e) };
            into_params(ps)
        };
        let ret = if self.peek_is(TokenKind::Arrow) {
            self.advance();
            Some(match self.parse_type() { Ok(v) => v, Err(e) => return Err(e) })
        } else {
            None
        };
        match self.consume(TokenKind::FatArrow) { Ok(v) => v, Err(e) => return Err(e) };
        let body = match self.parse_expr() { Ok(v) => v, Err(e) => return Err(e) };
        let span = Span { start, end: body.span.end };
        Ok(Expr { kind: ExprKind::Closure { params, ret, body: Box::new(body) }, span })
    }

    fn parse_match_expr(&mut self) -> (r: Result<Expr, ParseError>)
        requires
            old(self).wf(),
        ensures
            final(self).tokens@ == old(self).tokens@,
            final(self).wf(),
            outcome(r, grammar::match_expr(old(self).tokens@, old(self).pos as int), final(self).pos as int, |e: Expr| expr_view(e)),
            r is Ok ==> old(self).pos < final(self).pos,
        decreases old(self).tokens@.len() - old(self).pos, 1nat,
    {
        proof { grammar::unfold_match_expr(self.tokens@, self.pos as int); }
        let start = self.cur_span().start;
        match self.consume(TokenKind::Match) { Ok(v) => v, Err(e) => return Err(e) };
        let subject = match self.parse_expr() { Ok(v) => v, Err(e) => return Err(e) };
        let arms = match self.parse_braced_list("match arm", ElemKind::Arm) { Ok(v) => v, Err(e) => return Err(e) };
        let arms = into_arms(arms);
        Ok(Expr { kind: ExprKind::Match { subject: Box::new(subject), arms }, span: self.span_from(start) })
    }

    pub(crate) fn parse_match_arm(&mut self) -> (r: Result<MatchArm, ParseError>)
        requires
            old(self).wf(),
        ensures
            final(self).tokens@ == old(self).tokens@,
            final(self).wf(),
            outcome(r, grammar::match_arm(old(self).tokens@, old(self).pos as int), final(self).pos as int, |a: MatchArm| arm_view(a)),
            r is Ok ==> old(self).pos < final(self).pos,
        decreases old(self).tokens@.len() - old(self).pos, 5nat,
    {
        proof { grammar::unfold_match_arm(self.tokens@, self.pos as int); }
        let pattern = match self.parse_pattern() { Ok(v) => v, Err(e) => return Err(e) };
        let guard = if self.peek_is(TokenKind::If) {
            self.advance();
            Some(match self.parse_expr() { Ok(v) => v, Err(e) => return Err(e) })
        } else {
            None
        };
        match self.consume(TokenKind::FatArrow) { Ok(v) => v, Err(e) => return Err(e) };
        let body = match self.parse_expr() { Ok(v) => v, Err(e) => return Err(e) };
        Ok(MatchArm { pattern, guard, body })
    }

    #[verifier::loop_isolation(false)]
    pub(crate) fn parse_pattern(&mut self) -> (r: Result<Pattern, ParseError>)
        requires
            old(self).wf(),
        ensures
            final(self).tokens@ == old(self).tokens@,
            final(self).wf(),
            outcome(r, grammar::pattern(old(self).tokens@, old(self).pos as int), final(self).pos as int, |p: Pattern| pattern_view(p)),
            r is Ok ==> old(self).pos < final(self).pos,
        decreases old(self).tokens@.len() - old(self).pos, 4nat,
    {
        proof { grammar::unfold_pattern(self.tokens@, self.pos as int); }
        let ghost t = self.tokens@;
        let ghost p0 = self.pos as int;
        let first = match self.parse_single_pattern() { Ok(v) => v, Err(e) => return Err(e) };
        if !self.peek_is(TokenKind::VerBar) {
            return Ok(first);
        }
        let ghost total = grammar::pattern_alts(t, self.pos as int, seq![pattern_view(first)]);
        let mut alternatives: Vec<Pattern> = Vec::new();
        alternatives.push(first);
        proof { assert(patterns_view(alternatives@) == seq![pattern_view(alternatives@[0])]); }
        while self.peek_is(TokenKind::VerBar)
            invariant
                self.tokens@ == t,
                t == old(self).tokens@,
                p0 == old(self).pos as int,
                self.wf(),
                p0 < self.pos,
                alternatives.len() >= 1,
                total == grammar::pattern_alts(t, self.pos as int, patterns_view(alternatives@)),
            decreases t.len() - self.pos,
        {
            proof { grammar::unfold_pattern_alts(self.tokens@, self.pos as int, patterns_view(alternatives@)); }
            self.advance();
            let alt = match self.parse_single_pattern() { Ok(v) => v, Err(e) => return Err(e) };
            let ghost av = pattern_view(alt);
            let ghost old_alts = alternatives@;
            alternatives.push(alt);
            proof { assert(patterns_view(alternatives@) =~= patterns_view(old_alts).push(av)); }
        }
        proof { grammar::unfold_pattern_alts(self.tokens@, self.pos as int, patterns_view(alternatives@)); }
        let n = alternatives.len();
        let span = alternatives[0].span.to(alternatives[n - 1].span);
        Ok(Pattern { kind: PatternKind::Or(alternatives), span })
    }

    fn parse_single_pattern(&mut self) -> (r: Result<Pattern, ParseError>)
        requires
            old(self).wf(),
        ensures
            final(self).tokens@ == old(self).tokens@,
            final(self).wf(),
            outcome(r, grammar::single_pattern(old(self).tokens@, old(self).pos as int), final(self).pos as int, |p: Pattern| pattern_view(p)),
            r is Ok ==> old(self).pos < final(self).pos,
        decreases old(self).tokens@.len() - old(self).pos, 3nat,
    {
        proof { grammar::unfold_single_pattern(self.tokens@, self.pos as int); }
        match self.peek() {
            TokenKind::Int(value) => Ok(self.literal_pattern(Literal::Int(value))),
            TokenKind::True => Ok(self.literal_pattern(Literal::Bool(true))),
            TokenKind::False => Ok(self.literal_pattern(Literal::Bool(false))),
            TokenKind::Minus => {
                let start = self.cur_span().start;
                let ghost p0 = self.pos as int;
                proof { assert(self.tokens@[p0].kind is Minus); }
                self.advance();
                let literal = match self.peek() {
                    TokenKind::Int(value) => {
                        proof {
                            assert(self.pos < self.tokens@.len());
                            assert(self.pos == p0 + 1);
                            assert(!(self.tokens@[p0 + 1].kind matches TokenKind::Int(v) && v == i64::MIN));
                        }
                        Literal::Int(-value)
                    },
                    other => {
                        return Err(self.err(self.got(text("expected numeric literal after '-' in pattern"), &other)));
                    },
                };
                self.advance();
                Ok(Pattern { kind: PatternKind::Literal(literal), span: self.span_from(start) })
            },
            TokenKind::Identifier(_) => {
                let name = match self.parse_identifier() { Ok(v) => v, Err(e) => return Err(e) };
                let span = name.span;
                if is_underscore(&name.value) {
                    return Ok(Pattern { kind: PatternKind::Wildcard, span });
                }
                if self.peek_is(TokenKind::LParen) {
                    let args = match self.parse_comma_list(TokenKind::LParen, TokenKind::RParen, "pattern", ElemKind::Pattern) { Ok(v) => v, Err(e) => return Err(e) };
                    let args = into_patterns(args);
                    return Ok(Pattern { kind: PatternKind::Constructor { name, args }, span: self.span_from(span.start) });
                }
                Ok(Pattern { kind: PatternKind::Identifier(name), span })
            },
            TokenKind::LBracket => self.parse_array_pattern(),
            other => Err(self.err(self.got(text("expected pattern"), &other))),
        }
    }

    #[verifier::loop_isolation(false)]
    fn parse_array_pattern(&mut self) -> (r: Result<Pattern, ParseError>)
        requires
            old(self).wf(),
        ensures
            final(self).tokens@ == old(self).tokens@,
            final(self).wf(),
            outcome(r, grammar::array_pattern(old(self).tokens@, old(self).pos as int), final(self).pos as int, |p: Pattern| pattern_view(p)),
            r is Ok ==> old(self).pos < final(self).pos,
        decreases old(self).tokens@.len() - old(self).pos, 2nat,
    {
        proof { grammar::unfold_array_pattern(self.tokens@, self.pos as int); }
        let start = self.cur_span().start;
        let elements = match self.parse_comma_list(TokenKind::LBracket, TokenKind::RBracket, "pattern", ElemKind::PatternOrRest) { Ok(v) => v, Err(e) => return Err(e) };
        let elements = into_patterns(elements);
        let ghost pats = patterns_view(elements@);
        let mut rest_count: usize = 0;
        let mut i: usize = 0;
        while i < elements.len()
            invariant
                i <= elements@.len(),
                pats == patterns_view(elements@),
                rest_count == grammar::rest_count(pats.take(i as int)),
                rest_count <= i,
            decreases elements@.len() - i,
        {
            assert(pats.take(i + 1).drop_last() == pats.take(i as int));
            if matches!(elements[i].kind, PatternKind::Rest(_)) {
                rest_count = rest_count + 1;
            }
            i = i + 1;
        }
        assert(pats.take(i as int) == pats);
        if rest_count > 1 {
            return Err(self.err(text("array pattern can have at most one rest pattern '..'")));
        }
        let n = elements.len();
        if rest_count == 1 && !(n > 0 && matches!(elements[n - 1].kind, PatternKind::Rest(_))) {
            return Err(self.err(text("rest pattern '..' must be the last element of an array pattern")));
        }
        Ok(Pattern { kind: PatternKind::Array(elements), span: self.span_from(start) })
    }
}

} // verus!
