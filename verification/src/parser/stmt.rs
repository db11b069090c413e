use vstd::prelude::*;
use crate::lexer::token::TokenKind;
use super::{Parser, ParseError, Elem, elems_view, outcome, text, into_params, into_tys, into_stmts, into_variants, into_fields};
use super::ast::{
    Block, FuncStmt, LetStmt, Param, Stmt, StructField, StructStmt, TypeStmt, TypeVariant, block_view,
    field_view, fields_view, opt_ty_view, params_view, stmt_view, stmts_view, ty_view, tys_view,
    variant_view, variants_view, SpecFuncStmt, SpecLetStmt, SpecStructStmt, SpecTypeStmt,
};
use super::grammar::{self, ElemKind, elems_params};

verus! {

pub open spec fn func_view(f: FuncStmt) -> SpecFuncStmt {
    SpecFuncStmt { name: f.name, params: params_view(f.params@), ret: opt_ty_view(f.ret), body: block_view(f.body) }
}

pub open spec fn let_view(l: LetStmt) -> SpecLetStmt {
    SpecLetStmt { name: l.name, ty: opt_ty_view(l.ty), value: super::ast::expr_view(l.value) }
}

pub open spec fn type_stmt_view(t: TypeStmt) -> SpecTypeStmt {
    SpecTypeStmt { name: t.name, ty_params: t.ty_params@, variants: variants_view(t.variants@) }
}

pub open spec fn struct_stmt_view(t: StructStmt) -> SpecStructStmt {
    SpecStructStmt { name: t.name, ty_params: t.ty_params@, fields: fields_view(t.fields@) }
}

impl Parser {
    pub(crate) fn parse_stmt(&mut self) -> (r: Result<Stmt, ParseError>)
        requires
            old(self).wf(),
        ensures
            final(self).tokens@ == old(self).tokens@,
            final(self).wf(),
            outcome(r, grammar::stmt(old(self).tokens@, old(self).pos as int), final(self).pos as int, |s: Stmt| stmt_view(s)),
            r is Ok ==> old(self).pos < final(self).pos,
        decreases old(self).tokens@.len() - old(self).pos, 28nat,
    {
        proof { grammar::unfold_stmt(self.tokens@, self.pos as int); }
        match self.peek() {
            TokenKind::Func => Ok(Stmt::Func(match self.parse_func_decl() { Ok(v) => v, Err(e) => return Err(e) })),
            TokenKind::Let => Ok(Stmt::Let(match self.parse_let_statement() { Ok(v) => v, Err(e) => return Err(e) })),
            TokenKind::Type => Ok(Stmt::Type(match self.parse_type_decl() { Ok(v) => v, Err(e) => return Err(e) })),
            TokenKind::Struct => Ok(Stmt::Struct(match self.parse_struct_decl() { Ok(v) => v, Err(e) => return Err(e) })),
            _ => Ok(Stmt::Expr(match self.parse_expr() { Ok(v) => v, Err(e) => return Err(e) })),
        }
    }

    fn parse_func_decl(&mut self) -> (r: Result<FuncStmt, ParseError>)
        requires
            old(self).wf(),
        ensures
            final(self).tokens@ == old(self).tokens@,
            final(self).wf(),
            outcome(r, grammar::func_decl(old(self).tokens@, old(self).pos as int), final(self).pos as int, |s: FuncStmt| func_view(s)),
            r is Ok ==> old(self).pos < final(self).pos,
        decreases old(self).tokens@.len() - old(self).pos, 1nat,
    {
        proof { grammar::unfold_func_decl(self.tokens@, self.pos as int); }
        match self.consume(TokenKind::Func) { Ok(v) => v, Err(e) => return Err(e) };
        let name = match self.parse_identifier() { Ok(v) => v, Err(e) => return Err(e) };
        let params = match self.parse_func_params() { Ok(v) => v, Err(e) => return Err(e) };
        let ret = if self.peek_is(TokenKind::Arrow) {
            self.advance();
            Some(match self.parse_type() { Ok(v) => v, Err(e) => return Err(e) })
        } else {
            None
        };
        let body = match self.parse_block() { Ok(v) => v, Err(e) => return Err(e) };
        Ok(FuncStmt { name, params, ret, body })
    }

    fn parse_func_params(&mut self) -> (r: Result<Vec<Param>, ParseError>)
        requires
            old(self).wf(),
        ensures
            final(self).tokens@ == old(self).tokens@,
            final(self).wf(),
            match grammar::comma_list(old(self).tokens@, old(self).pos as int, TokenKind::LParen, TokenKind::RParen, "parameter"@, ElemKind::FuncParam) {
                Ok((v, p)) => r is Ok && params_view(r->Ok_0@) == elems_params(v) && final(self).pos == p,
                Err(e) => r is Err && r->Err_0.message@ == e.message && r->Err_0.span == e.span,
            },
            r is Ok ==> old(self).pos < final(self).pos,
        decreases old(self).tokens@.len() - old(self).pos, 2nat,
    {
        let params = match self.parse_comma_list(TokenKind::LParen, TokenKind::RParen, "parameter", ElemKind::FuncParam) { Ok(v) => v, Err(e) => return Err(e) };
        Ok(into_params(params))
    }

    fn parse_let_statement(&mut self) -> (r: Result<LetStmt, ParseError>)
        requires
            old(self).wf(),
        ensures
            final(self).tokens@ == old(self).tokens@,
            final(self).wf(),
            outcome(r, grammar::let_stmt(old(self).tokens@, old(self).pos as int), final(self).pos as int, |s: LetStmt| let_view(s)),
            r is Ok ==> old(self).pos < final(self).pos,
        decreases old(self).tokens@.len() - old(self).pos, 1nat,
    {
        proof { grammar::unfold_let_stmt(self.tokens@, self.pos as int); }
        match self.consume(TokenKind::Let) { Ok(v) => v, Err(e) => return Err(e) };
        let name = match self.parse_identifier() { Ok(v) => v, Err(e) => return Err(e) };
        let ty = match self.parse_type_annotation() { Ok(v) => v, Err(e) => return Err(e) };
        match self.consume(TokenKind::Eq) { Ok(v) => v, Err(e) => return Err(e) };
        let value = match self.parse_expr() { Ok(v) => v, Err(e) => return Err(e) };
        Ok(LetStmt { name, ty, value })
    }

    fn parse_type_decl(&mut self) -> (r: Result<TypeStmt, ParseError>)
        requires
            old(self).wf(),
        ensures
            final(self).tokens@ == old(self).tokens@,
            final(self).wf(),
            outcome(r, grammar::type_decl(old(self).tokens@, old(self).pos as int), final(self).pos as int, |s: TypeStmt| type_stmt_view(s)),
            r is Ok ==> old(self).pos < final(self).pos,
        decreases old(self).tokens@.len() - old(self).pos, 1nat,
    {
        proof { grammar::unfold_type_decl(self.tokens@, self.pos as int); }
        match self.consume(TokenKind::Type) { Ok(v) => v, Err(e) => return Err(e) };
        let name = match self.parse_identifier() { Ok(v) => v, Err(e) => return Err(e) };
        let ty_params = match self.parse_ty_params() { Ok(v) => v, Err(e) => return Err(e) };
        let variants = match self.parse_braced_list("variant", ElemKind::Variant) { Ok(v) => v, Err(e) => return Err(e) };
        Ok(TypeStmt { name, ty_params, variants: into_variants(variants) })
    }

    pub(crate) fn parse_type_variant(&mut self) -> (r: Result<TypeVariant, ParseError>)
        requires
            old(self).wf(),
        ensures
            final(self).tokens@ == old(self).tokens@,
            final(self).wf(),
            outcome(r, grammar::type_variant(old(self).tokens@, old(self).pos as int), final(self).pos as int, |v: TypeVariant| variant_view(v)),
            r is Ok ==> old(self).pos < final(self).pos,
        decreases old(self).tokens@.len() - old(self).pos, 2nat,
    {
        proof { grammar::unfold_type_variant(self.tokens@, self.pos as int); }
        let name = match self.parse_identifier() { Ok(v) => v, Err(e) => return Err(e) };
        let ty_fields = if self.peek_is(TokenKind::LParen) {
            let fields = match self.parse_comma_list(TokenKind::LParen, TokenKind::RParen, "type field", ElemKind::Ty) { Ok(v) => v, Err(e) => return Err(e) };
            into_tys(fields)
        } else {
            let empty: Vec<super::ast::Ty> = Vec::new();
            proof { assert(tys_view(empty@) =~= Seq::<super::ast::SpecTy>::empty()); }
            empty
        };
        Ok(TypeVariant { name, ty_fields })
    }

    fn parse_struct_decl(&mut self) -> (r: Result<StructStmt, ParseError>)
        requires
            old(self).wf(),
        ensures
            final(self).tokens@ == old(self).tokens@,
            final(self).wf(),
            outcome(r, grammar::struct_decl(old(self).tokens@, old(self).pos as int), final(self).pos as int, |s: StructStmt| struct_stmt_view(s)),
            r is Ok ==> old(self).pos < final(self).pos,
        decreases old(self).tokens@.len() - old(self).pos, 1nat,
    {
        proof { grammar::unfold_struct_decl(self.tokens@, self.pos as int); }
        match self.consume(TokenKind::Struct) { Ok(v) => v, Err(e) => return Err(e) };
        let name = match self.parse_identifier() { Ok(v) => v, Err(e) => return Err(e) };
        let ty_params = match self.parse_ty_params() { Ok(v) => v, Err(e) => return Err(e) };
        let fields = match self.parse_braced_list("field", ElemKind::Field) { Ok(v) => v, Err(e) => return Err(e) };
        Ok(StructStmt { name, ty_params, fields: into_fields(fields) })
    }

    pub(crate) fn parse_struct_field(&mut self) -> (r: Result<StructField, ParseError>)
        requires
            old(self).wf(),
        ensures
            final(self).tokens@ == old(self).tokens@,
            final(self).wf(),
            outcome(r, grammar::struct_field(old(self).tokens@, old(self).pos as int), final(self).pos as int, |f: StructField| field_view(f)),
            r is Ok ==> old(self).pos < final(self).pos,
        decreases old(self).tokens@.len() - old(self).pos, 2nat,
    {
        proof { grammar::unfold_struct_field(self.tokens@, self.pos as int); }
        let name = match self.parse_identifier() { Ok(v) => v, Err(e) => return Err(e) };
        match self.consume(TokenKind::Colon) { Ok(v) => v, Err(e) => return Err(e) };
        let ty = match self.parse_type() { Ok(v) => v, Err(e) => return Err(e) };
        Ok(StructField { name, ty })
    }

    /// `{ statements }`
    pub(crate) fn parse_block(&mut self) -> (r: Result<Block, ParseError>)
        requires
            old(self).wf(),
        ensures
            final(self).tokens@ == old(self).tokens@,
            final(self).wf(),
            outcome(r, grammar::block(old(self).tokens@, old(self).pos as int), final(self).pos as int, |b: Block| block_view(b)),
            r is Ok ==> old(self).pos < final(self).pos,
        decreases old(self).tokens@.len() - old(self).pos, 3nat,
    {
        proof { grammar::unfold_block(self.tokens@, self.pos as int); }
        let start = self.cur_span().start;
        let stmts = match self.parse_braced_list("statement", ElemKind::Stmt) { Ok(v) => v, Err(e) => return Err(e) };
        let stmts = into_stmts(stmts);
        Ok(Block { stmts, span: self.span_from(start) })
    }
}

} // verus!
