use vstd::prelude::*;
use crate::lexer::token::TokenKind;
use super::{Parser, ParseError, Elem, elems_view, outcome, text, into_tys, into_idents};
use super::ast::{Identifier, Ty, ty_view, tys_view, opt_ty_view};
use super::grammar::{self, ElemKind};

verus! {

impl Parser {
    /// `: Type`, or nothing.
    pub(crate) fn parse_type_annotation(&mut self) -> (r: Result<Option<Ty>, ParseError>)
        requires
            old(self).wf(),
        ensures
            final(self).tokens@ == old(self).tokens@,
            final(self).wf(),
            outcome(r, grammar::type_annotation(old(self).tokens@, old(self).pos as int), final(self).pos as int, |t: Option<Ty>| opt_ty_view(t)),
            r is Ok ==> old(self).pos <= final(self).pos,
        decreases old(self).tokens@.len() - old(self).pos, 1nat,
    {
        proof { grammar::unfold_type_annotation(self.tokens@, self.pos as int); }
        if !self.peek_is(TokenKind::Colon) {
            return Ok(None);
        }
        self.advance();
        let ghost t = self.tokens@;
        let ghost q = self.pos as int;
        let r = self.parse_type();
        match r {
            Ok(v) => {
                assert(grammar::within(grammar::ty(t, q), q, t.len() as int) == grammar::ty(t, q));
                Ok(Some(v))
            },
            Err(e) => Err(e),
        }
    }

    /// The type parameter list of a type or struct declaration.
    pub(crate) fn parse_ty_params(&mut self) -> (r: Result<Vec<Identifier>, ParseError>)
        requires
            old(self).wf(),
        ensures
            final(self).tokens@ == old(self).tokens@,
            final(self).wf(),
            outcome(r, grammar::ty_params(old(self).tokens@, old(self).pos as int), final(self).pos as int, |v: Vec<Identifier>| v@),
            r is Ok ==> old(self).pos <= final(self).pos,
        decreases old(self).tokens@.len() - old(self).pos, 2nat,
    {
        proof { grammar::unfold_ty_params(self.tokens@, self.pos as int); }
        if !self.peek_is(TokenKind::LParen) {
            return Ok(Vec::new());
        }
        let params = match self.parse_comma_list(TokenKind::LParen, TokenKind::RParen, "type parameter", ElemKind::Ident) { Ok(v) => v, Err(e) => return Err(e) };
        if params.len() == 0 {
            return Err(self.err(text("type parameter list cannot be empty")));
        }
        Ok(into_idents(params))
    }

    pub(crate) fn parse_type(&mut self) -> (r: Result<Ty, ParseError>)
        requires
            old(self).wf(),
        ensures
            final(self).tokens@ == old(self).tokens@,
            final(self).wf(),
            outcome(r, grammar::ty(old(self).tokens@, old(self).pos as int), final(self).pos as int, |t: Ty| ty_view(t)),
            r is Ok ==> old(self).pos < final(self).pos,
        decreases old(self).tokens@.len() - old(self).pos, 2nat,
    {
        proof { grammar::unfold_ty(self.tokens@, self.pos as int); }
        match self.peek() {
            TokenKind::LBracket => {
                self.advance();
                let inner = match self.parse_type() { Ok(v) => v, Err(e) => return Err(e) };
                match self.consume(TokenKind::RBracket) { Ok(v) => v, Err(e) => return Err(e) };
                Ok(Ty::Array(Box::new(inner)))
            },
            TokenKind::Func => {
                self.advance();
                let params = match self.parse_comma_list(TokenKind::LParen, TokenKind::RParen, "parameter type", ElemKind::Ty) { Ok(v) => v, Err(e) => return Err(e) };
                let params = into_tys(params);
                let ret = if self.peek_is(TokenKind::Arrow) {
                    self.advance();
                    Some(Box::new(match self.parse_type() { Ok(v) => v, Err(e) => return Err(e) }))
                } else {
                    None
                };
                Ok(Ty::Func { params, ret })
            },
            TokenKind::Identifier(_) => {
                let name = match self.parse_identifier() { Ok(v) => v, Err(e) => return Err(e) };
                let args = if self.peek_is(TokenKind::LParen) {
                    let args = match self.parse_comma_list(TokenKind::LParen, TokenKind::RParen, "type argument", ElemKind::Ty) { Ok(v) => v, Err(e) => return Err(e) };
                    if args.len() == 0 {
                        return Err(self.err(text("type argument list cannot be empty")));
                    }
                    into_tys(args)
                } else {
                    let empty: Vec<Ty> = Vec::new();
                    proof { assert(tys_view(empty@) =~= Seq::<super::ast::SpecTy>::empty()); }
                    empty
                };
                Ok(Ty::Named { name, args })
            },
            other => Err(self.err(self.got(text("expected type"), &other))),
        }
    }
}

} // verus!
