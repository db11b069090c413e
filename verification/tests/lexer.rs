use quasm::common::span::{LineMap, Pos, Span};
use quasm::lexer::lex;
use quasm::lexer::token::TokenKind;

fn kinds(src: &str) -> Vec<TokenKind> {
    let (tokens, errors) = lex(src);
    assert!(errors.is_empty());
    tokens.into_iter().map(|t| t.kind).collect()
}

fn ident(s: &str) -> TokenKind {
    TokenKind::Identifier(s.to_string())
}

#[test]
fn lex_function_header() {
    assert_eq!(
        kinds("func add(a: Int) => Int {"),
        vec![
            TokenKind::Func,
            ident("add"),
            TokenKind::LParen,
            ident("a"),
            TokenKind::Colon,
            ident("Int"),
            TokenKind::RParen,
            TokenKind::Arrow,
            ident("Int"),
            TokenKind::LBrace,
            TokenKind::Eof,
        ]
    );
}

#[test]
fn lex_keywords_and_identifiers() {
    assert_eq!(
        kinds("let var self struct type if elif else match and or true false letter _x"),
        vec![
            TokenKind::Let,
            TokenKind::Var,
            TokenKind::SelfTok,
            TokenKind::Struct,
            TokenKind::Type,
            TokenKind::If,
            ident("elif"),
            TokenKind::Else,
            TokenKind::Match,
            TokenKind::And,
            TokenKind::Or,
            TokenKind::True,
            TokenKind::False,
            ident("letter"),
            ident("_x"),
            TokenKind::Eof,
        ]
    );
}

#[test]
fn lex_operators_take_the_longest_match() {
    assert_eq!(
        kinds("== => = != ! <= < >= > -> - || |"),
        vec![
            TokenKind::EqEq,
            TokenKind::Arrow,
            TokenKind::Eq,
            TokenKind::BangEq,
            TokenKind::Bang,
            TokenKind::LtEq,
            TokenKind::Lt,
            TokenKind::GtEq,
            TokenKind::Gt,
            TokenKind::Minus,
            TokenKind::Gt,
            TokenKind::Minus,
            TokenKind::VerBar,
            TokenKind::VerBar,
            TokenKind::VerBar,
            TokenKind::Eof,
        ]
    );
}

#[test]
fn lex_brackets_and_dots_form_no_token() {
    let (tokens, errors) = lex("[a].b..");
    let messages: Vec<String> = errors.into_iter().map(|e| e.message).collect();
    assert_eq!(messages, vec!["`[`", "`]`", "`.`", "`.`", "`.`"]);
    let ks: Vec<TokenKind> = tokens.into_iter().map(|t| t.kind).collect();
    assert_eq!(ks, vec![ident("a"), ident("b"), TokenKind::Eof]);
}

#[test]
fn lex_integers_and_newlines() {
    assert_eq!(
        kinds("12 + 3\n// a comment\n9223372036854775807"),
        vec![
            TokenKind::Int(12),
            TokenKind::Plus,
            TokenKind::Int(3),
            TokenKind::Newline,
            TokenKind::Newline,
            TokenKind::Int(9223372036854775807),
            TokenKind::Eof,
        ]
    );
}

#[test]
fn lex_keeps_token_text_and_spans() {
    let (tokens, errors) = lex("let x = 42\n  y");
    assert!(errors.is_empty());
    assert_eq!(tokens.len(), 7);
    assert_eq!(tokens[1].literal, "x");
    assert_eq!(tokens[3].literal, "42");
    assert_eq!(tokens[3].span, Span { start: Pos { line: 1, column: 9 }, end: Pos { line: 1, column: 11 } });
    assert_eq!(tokens[5].literal, "y");
    assert_eq!(tokens[5].span, Span { start: Pos { line: 2, column: 3 }, end: Pos { line: 2, column: 4 } });
    // the end of input token sits at the end of the source, with no text
    assert_eq!(tokens[6].kind, TokenKind::Eof);
    assert_eq!(tokens[6].literal, "");
    assert_eq!(tokens[6].span, Span { start: Pos { line: 2, column: 4 }, end: Pos { line: 2, column: 4 } });
}

#[test]
fn lex_reports_unknown_characters() {
    let (tokens, errors) = lex("a @ b");
    assert_eq!(errors.len(), 1);
    assert_eq!(errors[0].message, "`@`");
    assert_eq!(errors[0].span, Span { start: Pos { line: 1, column: 3 }, end: Pos { line: 1, column: 4 } });
    let ks: Vec<TokenKind> = tokens.into_iter().map(|t| t.kind).collect();
    assert_eq!(ks, vec![ident("a"), ident("b"), TokenKind::Eof]);
}

#[test]
fn lex_reports_integer_overflow() {
    let (tokens, errors) = lex("9223372036854775808");
    assert_eq!(errors.len(), 1);
    assert_eq!(errors[0].message, "`9223372036854775808`");
    assert_eq!(tokens.len(), 1);
    assert_eq!(tokens[0].kind, TokenKind::Eof);
}

#[test]
fn lex_counts_columns_in_bytes() {
    let (tokens, errors) = lex("é x");
    assert_eq!(errors.len(), 1);
    assert_eq!(errors[0].message, "`é`");
    assert_eq!(errors[0].span, Span { start: Pos { line: 1, column: 1 }, end: Pos { line: 1, column: 3 } });
    assert_eq!(tokens[0].span, Span { start: Pos { line: 1, column: 4 }, end: Pos { line: 1, column: 5 } });
}

#[test]
fn lex_empty_source() {
    let (tokens, errors) = lex("");
    assert!(errors.is_empty());
    assert_eq!(tokens.len(), 1);
    assert_eq!(tokens[0].kind, TokenKind::Eof);
    assert_eq!(tokens[0].span, Span { start: Pos { line: 1, column: 1 }, end: Pos { line: 1, column: 1 } });
}

#[test]
fn line_map_positions() {
    let map = LineMap::new("ab\ncd\n\nx");
    assert_eq!(map.pos(0), Pos { line: 1, column: 1 });
    assert_eq!(map.pos(2), Pos { line: 1, column: 3 });
    assert_eq!(map.pos(3), Pos { line: 2, column: 1 });
    assert_eq!(map.pos(6), Pos { line: 3, column: 1 });
    assert_eq!(map.pos(7), Pos { line: 4, column: 1 });
    assert_eq!(map.pos(8), Pos { line: 4, column: 2 });
    assert_eq!(map.span(4..6), Span { start: Pos { line: 2, column: 2 }, end: Pos { line: 3, column: 1 } });
    assert_eq!(map.span(4..7).end, Pos { line: 4, column: 1 });
}

#[test]
fn span_text_and_join() {
    let a = Span { start: Pos { line: 1, column: 2 }, end: Pos { line: 1, column: 5 } };
    let b = Span { start: Pos { line: 3, column: 1 }, end: Pos { line: 3, column: 7 } };
    assert_eq!(a.to_text(), "1:2-5");
    assert_eq!(b.to_text(), "3:1-7");
    let ab = a.to(b);
    assert_eq!(ab, Span { start: Pos { line: 1, column: 2 }, end: Pos { line: 3, column: 7 } });
    assert_eq!(ab.to_text(), "1:2-3:7");
    assert_eq!(Pos { line: 12, column: 40 }.to_text(), "12:40");
}

#[test]
fn token_kind_text_matches_debug_format() {
    let kinds = vec![
        TokenKind::Func,
        TokenKind::SelfTok,
        TokenKind::RParen,
        TokenKind::FatArrow,
        TokenKind::Newline,
        TokenKind::Eof,
        TokenKind::Error,
        TokenKind::Int(0),
        TokenKind::Int(42),
        TokenKind::Int(-7),
        TokenKind::Int(i64::MAX),
        TokenKind::Int(i64::MIN),
        ident("b"),
        ident(""),
        ident("say \"hi\"\\ 'x'"),
        ident("tab\tline\nret\rnul\0"),
        ident("\u{1}\u{1f}\u{7f} é"),
    ];
    for k in kinds {
        assert_eq!(k.debug_text(), format!("{:?}", k));
    }
    assert_eq!(ident("b").debug_text(), "Identifier(\"b\")");
}
