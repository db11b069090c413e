pub mod token;

pub use token::TokenKind;

use vstd::prelude::*;
use vstd::string::StringSliceAdditionalSpecFns;
use crate::common::span::{LineMap, Span, Pos, pos_at, line_starts_of, starts_wf, lemma_line_index};
use crate::text::{chars_of, string_of, push_char};

verus! {

broadcast use vstd::utf8::char_is_scalar;

/// A token with the source text it was read from.
pub struct Token {
    pub kind: TokenKind,
    pub literal: String,
    pub span: Span,
}

/// A piece of input that forms no token.
pub struct LexError {
    pub span: Span,
    pub message: String,
}

// ---- the token grammar ----

/// Number of bytes in the UTF-8 encoding of `c`.
pub open spec fn utf8_width(c: char) -> nat {
    if (c as u32) < 0x80 {
        1
    } else if (c as u32) < 0x800 {
        2
    } else if (c as u32) < 0x10000 {
        3
    } else {
        4
    }
}

/// Number of bytes in the UTF-8 encoding of `cs`.
pub open spec fn utf8_len(cs: Seq<char>) -> nat
    decreases cs.len(),
{
    if cs.len() == 0 {
        0
    } else {
        utf8_width(cs[0]) + utf8_len(cs.drop_first())
    }
}

/// Byte offset of the character at index `i`.
pub open spec fn byte_offset(cs: Seq<char>, i: int) -> nat {
    utf8_len(cs.take(i))
}

/// Space, tab, carriage return and form feed are skipped.
pub open spec fn is_blank(c: char) -> bool {
    c == ' ' || c == '\t' || c == '\r' || (c as u32) == 0x0C
}

pub open spec fn is_digit(c: char) -> bool {
    0x30 <= (c as u32) <= 0x39
}

pub open spec fn is_ident_start(c: char) -> bool {
    (0x61 <= (c as u32) <= 0x7A) || (0x41 <= (c as u32) <= 0x5A) || c == '_'
}

pub open spec fn is_ident_char(c: char) -> bool {
    is_ident_start(c) || is_digit(c)
}

/// Classes of characters that form runs.
#[derive(Clone, Copy, PartialEq, Eq, Structural)]
pub enum CharClass {
    Blank,
    Digit,
    IdentChar,
    NotLineEnd,
}

pub open spec fn in_class(c: char, cls: CharClass) -> bool {
    match cls {
        CharClass::Blank => is_blank(c),
        CharClass::Digit => is_digit(c),
        CharClass::IdentChar => is_ident_char(c),
        CharClass::NotLineEnd => c != '\r' && c != '\n',
    }
}

/// The first index at or after `i` whose character is not in `cls`.
pub open spec fn run_end(cs: Seq<char>, i: int, cls: CharClass) -> int
    decreases cs.len() - i,
{
    if 0 <= i < cs.len() && in_class(cs[i], cls) {
        run_end(cs, i + 1, cls)
    } else {
        i
    }
}

/// The value of a run of decimal digits.
pub open spec fn digits_value(ds: Seq<char>) -> nat
    decreases ds.len(),
{
    if ds.len() == 0 {
        0
    } else {
        digits_value(ds.drop_last()) * 10 + ((ds.last() as u32) - 0x30) as nat
    }
}

/// The keyword spelled `text`, if any.
pub open spec fn keyword(text: Seq<char>) -> Option<TokenKind> {
    if text == "func"@ { Some(TokenKind::Func) }
    else if text == "let"@ { Some(TokenKind::Let) }
    else if text == "var"@ { Some(TokenKind::Var) }
    else if text == "self"@ { Some(TokenKind::SelfTok) }
    else if text == "struct"@ { Some(TokenKind::Struct) }
    else if text == "type"@ { Some(TokenKind::Type) }
    else if text == "interface"@ { Some(TokenKind::Interface) }
    else if text == "extend"@ { Some(TokenKind::Extend) }
    else if text == "with"@ { Some(TokenKind::With) }
    else if text == "if"@ { Some(TokenKind::If) }
    else if text == "else"@ { Some(TokenKind::Else) }
    else if text == "match"@ { Some(TokenKind::Match) }
    else if text == "for"@ { Some(TokenKind::For) }
    else if text == "in"@ { Some(TokenKind::In) }
    else if text == "while"@ { Some(TokenKind::While) }
    else if text == "return"@ { Some(TokenKind::Return) }
    else if text == "true"@ { Some(TokenKind::True) }
    else if text == "false"@ { Some(TokenKind::False) }
    else if text == "and"@ { Some(TokenKind::And) }
    else if text == "or"@ { Some(TokenKind::Or) }
    else { None }
}

/// The operator or punctuation token at `i` and its length in characters;
/// of two tokens that both match, the longer one.
pub open spec fn punct(cs: Seq<char>, i: int) -> Option<(TokenKind, int)> {
    let c = cs[i];
    let d = if i + 1 < cs.len() { cs[i + 1] } else { ' ' };
    if c == '=' && d == '=' { Some((TokenKind::EqEq, 2)) }
    else if c == '=' && d == '>' { Some((TokenKind::Arrow, 2)) }
    else if c == '!' && d == '=' { Some((TokenKind::BangEq, 2)) }
    else if c == '<' && d == '=' { Some((TokenKind::LtEq, 2)) }
    else if c == '>' && d == '=' { Some((TokenKind::GtEq, 2)) }
    else if c == '=' { Some((TokenKind::Eq, 1)) }
    else if c == '!' { Some((TokenKind::Bang, 1)) }
    else if c == '<' { Some((TokenKind::Lt, 1)) }
    else if c == '>' { Some((TokenKind::Gt, 1)) }
    else if c == '-' { Some((TokenKind::Minus, 1)) }
    else if c == '|' { Some((TokenKind::VerBar, 1)) }
    else if c == '+' { Some((TokenKind::Plus, 1)) }
    else if c == '*' { Some((TokenKind::Asterisk, 1)) }
    else if c == '/' { Some((TokenKind::Slash, 1)) }
    else if c == '(' { Some((TokenKind::LParen, 1)) }
    else if c == ')' { Some((TokenKind::RParen, 1)) }
    else if c == '{' { Some((TokenKind::LBrace, 1)) }
    else if c == '}' { Some((TokenKind::RBrace, 1)) }
    else if c == ',' { Some((TokenKind::Comma, 1)) }
    else if c == ':' { Some((TokenKind::Colon, 1)) }
    else if c == ';' { Some((TokenKind::Semicolon, 1)) }
    else { None }
}

/// What one step of the scanner finds.
pub enum Lexeme {
    /// Blanks or a comment.
    Skip,
    /// A token whose kind does not depend on its text.
    Fixed(TokenKind),
    /// An identifier; its text is the token's text.
    Ident,
    /// Input that forms no token.
    Bad,
}

/// The lexeme that starts at `i` and the index just past it.
pub open spec fn scan(cs: Seq<char>, i: int) -> (Lexeme, int) {
    let c = cs[i];
    if is_blank(c) {
        (Lexeme::Skip, run_end(cs, i + 1, CharClass::Blank))
    } else if c == '/' && i + 1 < cs.len() && cs[i + 1] == '/' {
        (Lexeme::Skip, run_end(cs, i + 2, CharClass::NotLineEnd))
    } else if c == '\n' {
        (Lexeme::Fixed(TokenKind::Newline), i + 1)
    } else if is_digit(c) {
        let j = run_end(cs, i + 1, CharClass::Digit);
        let v = digits_value(cs.subrange(i, j));
        if v <= i64::MAX {
            (Lexeme::Fixed(TokenKind::Int(v as i64)), j)
        } else {
            (Lexeme::Bad, j)
        }
    } else if is_ident_start(c) {
        let j = run_end(cs, i + 1, CharClass::IdentChar);
        match keyword(cs.subrange(i, j)) {
            Some(k) => (Lexeme::Fixed(k), j),
            None => (Lexeme::Ident, j),
        }
    } else {
        match punct(cs, i) {
            Some((k, n)) => (Lexeme::Fixed(k), i + n),
            None => (Lexeme::Bad, i + 1),
        }
    }
}

pub proof fn lemma_run_end(cs: Seq<char>, i: int, cls: CharClass)
    requires
        0 <= i <= cs.len(),
    ensures
        i <= run_end(cs, i, cls) <= cs.len(),
        forall|k: int| i <= k < run_end(cs, i, cls) ==> in_class(#[trigger] cs[k], cls),
        run_end(cs, i, cls) < cs.len() ==> !in_class(cs[run_end(cs, i, cls)], cls),
    decreases cs.len() - i,
{
    if i < cs.len() && in_class(cs[i], cls) {
        lemma_run_end(cs, i + 1, cls);
    }
}

pub proof fn lemma_scan_advances(cs: Seq<char>, i: int)
    requires
        0 <= i < cs.len(),
    ensures
        i < scan(cs, i).1 <= cs.len(),
{
    lemma_run_end(cs, i + 1, CharClass::Blank);
    lemma_run_end(cs, i + 1, CharClass::Digit);
    lemma_run_end(cs, i + 1, CharClass::IdentChar);
    if i + 2 <= cs.len() {
        lemma_run_end(cs, i + 2, CharClass::NotLineEnd);
    }
}

/// The tokens found from index `i` on: lexeme, first and one-past-last character index.
pub open spec fn lex_good(cs: Seq<char>, i: int) -> Seq<(Lexeme, int, int)>
    decreases cs.len() - i,
{
    if 0 <= i < cs.len() {
        let (lx, j) = scan(cs, i);
        proof { lemma_scan_advances(cs, i); }
        match lx {
            Lexeme::Skip => lex_good(cs, j),
            Lexeme::Bad => lex_good(cs, j),
            _ => seq![(lx, i, j)] + lex_good(cs, j),
        }
    } else {
        seq![]
    }
}

/// The pieces of input from index `i` on that form no token.
pub open spec fn lex_bad(cs: Seq<char>, i: int) -> Seq<(int, int)>
    decreases cs.len() - i,
{
    if 0 <= i < cs.len() {
        let (lx, j) = scan(cs, i);
        proof { lemma_scan_advances(cs, i); }
        match lx {
            Lexeme::Bad => seq![(i, j)] + lex_bad(cs, j),
            _ => lex_bad(cs, j),
        }
    } else {
        seq![]
    }
}

// ---- the operator and punctuation tokens ----

/// The token that each operator or punctuation character forms on its own.
pub open spec fn lone_char_token(c: char) -> Option<TokenKind> {
    if c == '+' { Some(TokenKind::Plus) }
    else if c == '-' { Some(TokenKind::Minus) }
    else if c == '*' { Some(TokenKind::Asterisk) }
    else if c == '/' { Some(TokenKind::Slash) }
    else if c == '<' { Some(TokenKind::Lt) }
    else if c == '>' { Some(TokenKind::Gt) }
    else if c == '=' { Some(TokenKind::Eq) }
    else if c == '!' { Some(TokenKind::Bang) }
    else if c == '|' { Some(TokenKind::VerBar) }
    else if c == '(' { Some(TokenKind::LParen) }
    else if c == ')' { Some(TokenKind::RParen) }
    else if c == '{' { Some(TokenKind::LBrace) }
    else if c == '}' { Some(TokenKind::RBrace) }
    else if c == ',' { Some(TokenKind::Comma) }
    else if c == ':' { Some(TokenKind::Colon) }
    else if c == ';' { Some(TokenKind::Semicolon) }
    else { None }
}

/// Whether `c` followed by `d` is read together: `==`, `=>`, `!=`, `<=`, `>=`, or the
/// `//` that starts a comment.
pub open spec fn reads_on(c: char, d: char) -> bool {
    ||| c == '=' && (d == '=' || d == '>')
    ||| (c == '!' || c == '<' || c == '>') && d == '='
    ||| c == '/' && d == '/'
}

/// An operator or punctuation character that the next character does not extend is a
/// token of its own kind, one character long, and never an error.
pub proof fn law_scan_lone_operator(cs: Seq<char>, i: int)
    requires
        0 <= i < cs.len(),
        lone_char_token(cs[i]) is Some,
        i + 1 < cs.len() ==> !reads_on(cs[i], cs[i + 1]),
    ensures
        scan(cs, i) == (Lexeme::Fixed(lone_char_token(cs[i])->Some_0), i + 1),
{
}

/// The two-character operators: `==`, `=>`, `!=`, `<=` and `>=`.
pub proof fn law_scan_two_char_operator(cs: Seq<char>, i: int)
    requires
        0 <= i,
        i + 1 < cs.len(),
    ensures
        cs[i] == '=' && cs[i + 1] == '=' ==> scan(cs, i) == (Lexeme::Fixed(TokenKind::EqEq), i + 2),
        cs[i] == '=' && cs[i + 1] == '>' ==> scan(cs, i) == (Lexeme::Fixed(TokenKind::Arrow), i + 2),
        cs[i] == '!' && cs[i + 1] == '=' ==> scan(cs, i) == (Lexeme::Fixed(TokenKind::BangEq), i + 2),
        cs[i] == '<' && cs[i + 1] == '=' ==> scan(cs, i) == (Lexeme::Fixed(TokenKind::LtEq), i + 2),
        cs[i] == '>' && cs[i + 1] == '=' ==> scan(cs, i) == (Lexeme::Fixed(TokenKind::GtEq), i + 2),
{
}

/// An input of one operator or punctuation character is read as that one token, with
/// nothing refused.
pub proof fn law_lex_lone_operator(cs: Seq<char>)
    requires
        cs.len() == 1,
        lone_char_token(cs[0]) is Some,
    ensures
        lex_good(cs, 0) == seq![(Lexeme::Fixed(lone_char_token(cs[0])->Some_0), 0int, 1int)],
        lex_bad(cs, 0) == Seq::<(int, int)>::empty(),
{
    law_scan_lone_operator(cs, 0);
    assert(lex_good(cs, 1) == Seq::<(Lexeme, int, int)>::empty());
    assert(lex_bad(cs, 1) == Seq::<(int, int)>::empty());
    assert(seq![(Lexeme::Fixed(lone_char_token(cs[0])->Some_0), 0int, 1int)] + Seq::<(Lexeme, int, int)>::empty()
        =~= seq![(Lexeme::Fixed(lone_char_token(cs[0])->Some_0), 0int, 1int)]);
}

/// An ASCII letter, an ASCII digit or `_`: what a word is made of.
pub open spec fn word_char(c: char) -> bool {
    ||| ('a' as u32) <= (c as u32) && (c as u32) <= ('z' as u32)
    ||| ('A' as u32) <= (c as u32) && (c as u32) <= ('Z' as u32)
    ||| ('0' as u32) <= (c as u32) && (c as u32) <= ('9' as u32)
    ||| c == '_'
}

/// Space, tab, carriage return and form feed.
pub open spec fn blank_char(c: char) -> bool {
    c == ' ' || c == '\t' || c == '\r' || (c as u32) == 0x0C
}

/// A word starts with an ASCII letter or `_` and runs over every following ASCII letter,
/// digit and `_`; it is an identifier unless it spells a keyword.
pub proof fn law_scan_word(cs: Seq<char>, i: int)
    requires
        0 <= i < cs.len(),
        word_char(cs[i]) && !(('0' as u32) <= (cs[i] as u32) && (cs[i] as u32) <= ('9' as u32)),
    ensures
        ({
            let j = scan(cs, i).1;
            &&& i < j <= cs.len()
            &&& forall|k: int| i <= k < j ==> word_char(#[trigger] cs[k])
            &&& j < cs.len() ==> !word_char(cs[j])
            &&& scan(cs, i).0 is Ident <==> keyword(cs.subrange(i, j)) is None
            &&& scan(cs, i).0 is Ident || scan(cs, i).0 is Fixed
        }),
{
    lemma_run_end(cs, i + 1, CharClass::IdentChar);
    assert(('a' as u32) == 0x61 && ('z' as u32) == 0x7A && ('A' as u32) == 0x41 && ('Z' as u32) == 0x5A);
    assert(('0' as u32) == 0x30 && ('9' as u32) == 0x39);
    let j = scan(cs, i).1;
    assert forall|k: int| i <= k < j implies word_char(#[trigger] cs[k]) by {
        if k > i {
            assert(in_class(cs[k], CharClass::IdentChar));
        }
    }
}

/// Spaces, tabs, carriage returns and form feeds are skipped, all of a run at once; a
/// line feed is a `Newline` token.
pub proof fn law_scan_blanks(cs: Seq<char>, i: int)
    requires
        0 <= i < cs.len(),
    ensures
        blank_char(cs[i]) ==> ({
            let j = scan(cs, i).1;
            &&& scan(cs, i).0 is Skip
            &&& i < j <= cs.len()
            &&& forall|k: int| i <= k < j ==> blank_char(#[trigger] cs[k])
            &&& j < cs.len() ==> !blank_char(cs[j])
        }),
        cs[i] == '\n' ==> scan(cs, i) == (Lexeme::Fixed(TokenKind::Newline), i + 1),
{
    lemma_run_end(cs, i + 1, CharClass::Blank);
    let j = scan(cs, i).1;
    if blank_char(cs[i]) {
        assert forall|k: int| i <= k < j implies blank_char(#[trigger] cs[k]) by {
            if k > i {
                assert(in_class(cs[k], CharClass::Blank));
            }
        }
    }
}

/// The keywords, spelling by spelling: a whole word spelled as a keyword is that
/// keyword's token, and never an identifier.
pub proof fn law_scan_keyword(cs: Seq<char>, i: int)
    requires
        0 <= i < cs.len(),
    ensures
        ({
            let j = run_end(cs, i + 1, CharClass::IdentChar);
            let w = cs.subrange(i, j);
            &&& w == "func"@ ==> scan(cs, i) == (Lexeme::Fixed(TokenKind::Func), j)
            &&& w == "let"@ ==> scan(cs, i) == (Lexeme::Fixed(TokenKind::Let), j)
            &&& w == "var"@ ==> scan(cs, i) == (Lexeme::Fixed(TokenKind::Var), j)
            &&& w == "self"@ ==> scan(cs, i) == (Lexeme::Fixed(TokenKind::SelfTok), j)
            &&& w == "struct"@ ==> scan(cs, i) == (Lexeme::Fixed(TokenKind::Struct), j)
            &&& w == "type"@ ==> scan(cs, i) == (Lexeme::Fixed(TokenKind::Type), j)
            &&& w == "interface"@ ==> scan(cs, i) == (Lexeme::Fixed(TokenKind::Interface), j)
            &&& w == "extend"@ ==> scan(cs, i) == (Lexeme::Fixed(TokenKind::Extend), j)
            &&& w == "with"@ ==> scan(cs, i) == (Lexeme::Fixed(TokenKind::With), j)
            &&& w == "if"@ ==> scan(cs, i) == (Lexeme::Fixed(TokenKind::If), j)
            &&& w == "else"@ ==> scan(cs, i) == (Lexeme::Fixed(TokenKind::Else), j)
            &&& w == "match"@ ==> scan(cs, i) == (Lexeme::Fixed(TokenKind::Match), j)
            &&& w == "for"@ ==> scan(cs, i) == (Lexeme::Fixed(TokenKind::For), j)
            &&& w == "in"@ ==> scan(cs, i) == (Lexeme::Fixed(TokenKind::In), j)
            &&& w == "while"@ ==> scan(cs, i) == (Lexeme::Fixed(TokenKind::While), j)
            &&& w == "return"@ ==> scan(cs, i) == (Lexeme::Fixed(TokenKind::Return), j)
            &&& w == "true"@ ==> scan(cs, i) == (Lexeme::Fixed(TokenKind::True), j)
            &&& w == "false"@ ==> scan(cs, i) == (Lexeme::Fixed(TokenKind::False), j)
            &&& w == "and"@ ==> scan(cs, i) == (Lexeme::Fixed(TokenKind::And), j)
            &&& w == "or"@ ==> scan(cs, i) == (Lexeme::Fixed(TokenKind::Or), j)
        }),
{
    reveal_strlit("func");
    assert("func"@.len() == 4 && "func"@[0] == 'f' && "func"@[1] == 'u');
    reveal_strlit("let");
    assert("let"@.len() == 3 && "let"@[0] == 'l' && "let"@[1] == 'e');
    reveal_strlit("var");
    assert("var"@.len() == 3 && "var"@[0] == 'v' && "var"@[1] == 'a');
    reveal_strlit("self");
    assert("self"@.len() == 4 && "self"@[0] == 's' && "self"@[1] == 'e');
    reveal_strlit("struct");
    assert("struct"@.len() == 6 && "struct"@[0] == 's' && "struct"@[1] == 't');
    reveal_strlit("type");
    assert("type"@.len() == 4 && "type"@[0] == 't' && "type"@[1] == 'y');
    reveal_strlit("interface");
    assert("interface"@.len() == 9 && "interface"@[0] == 'i' && "interface"@[1] == 'n');
    reveal_strlit("extend");
    assert("extend"@.len() == 6 && "extend"@[0] == 'e' && "extend"@[1] == 'x');
    reveal_strlit("with");
    assert("with"@.len() == 4 && "with"@[0] == 'w' && "with"@[1] == 'i');
    reveal_strlit("if");
    assert("if"@.len() == 2 && "if"@[0] == 'i' && "if"@[1] == 'f');
    reveal_strlit("else");
    assert("else"@.len() == 4 && "else"@[0] == 'e' && "else"@[1] == 'l');
    reveal_strlit("match");
    assert("match"@.len() == 5 && "match"@[0] == 'm' && "match"@[1] == 'a');
    reveal_strlit("for");
    assert("for"@.len() == 3 && "for"@[0] == 'f' && "for"@[1] == 'o');
    reveal_strlit("in");
    assert("in"@.len() == 2 && "in"@[0] == 'i' && "in"@[1] == 'n');
    reveal_strlit("while");
    assert("while"@.len() == 5 && "while"@[0] == 'w' && "while"@[1] == 'h');
    reveal_strlit("return");
    assert("return"@.len() == 6 && "return"@[0] == 'r' && "return"@[1] == 'e');
    reveal_strlit("true");
    assert("true"@.len() == 4 && "true"@[0] == 't' && "true"@[1] == 'r');
    reveal_strlit("false");
    assert("false"@.len() == 5 && "false"@[0] == 'f' && "false"@[1] == 'a');
    reveal_strlit("and");
    assert("and"@.len() == 3 && "and"@[0] == 'a' && "and"@[1] == 'n');
    reveal_strlit("or");
    assert("or"@.len() == 2 && "or"@[0] == 'o' && "or"@[1] == 'r');
    lemma_run_end(cs, i + 1, CharClass::IdentChar);
    let j = run_end(cs, i + 1, CharClass::IdentChar);
    let w = cs.subrange(i, j);
    if j - i >= 2 {
        assert(w[0] == cs[i]);
    }
}

/// The span of characters `i..j` of `cs`, with `starts` the line starts of its bytes.
pub open spec fn char_span(cs: Seq<char>, starts: Seq<usize>, i: int, j: int) -> Span {
    Span { start: pos_at(starts, byte_offset(cs, i) as int), end: pos_at(starts, byte_offset(cs, j) as int) }
}

/// `t` is the token read from the lexeme `item` of `cs`.
pub open spec fn token_matches(t: Token, item: (Lexeme, int, int), cs: Seq<char>, starts: Seq<usize>) -> bool {
    let text = cs.subrange(item.1, item.2);
    &&& match item.0 {
        Lexeme::Fixed(k) => t.kind == k,
        Lexeme::Ident => t.kind is Identifier && t.kind->Identifier_0@ == text,
        _ => false,
    }
    &&& t.literal@ == text
    &&& t.span == char_span(cs, starts, item.1, item.2)
}

/// `e` reports the characters `bad.0..bad.1` of `cs`.
pub open spec fn error_matches(e: LexError, bad: (int, int), cs: Seq<char>, starts: Seq<usize>) -> bool {
    &&& e.message@ == seq!['`'] + cs.subrange(bad.0, bad.1) + seq!['`']
    &&& e.span == char_span(cs, starts, bad.0, bad.1)
}

// ---- facts about byte offsets ----

proof fn lemma_utf8_len_concat(a: Seq<char>, b: Seq<char>)
    ensures
        utf8_len(a + b) == utf8_len(a) + utf8_len(b),
    decreases a.len(),
{
    if a.len() > 0 {
        assert((a + b).drop_first() == a.drop_first() + b);
        lemma_utf8_len_concat(a.drop_first(), b);
    } else {
        assert(a + b == b);
    }
}

proof fn lemma_byte_offset_step(cs: Seq<char>, i: int)
    requires
        0 <= i < cs.len(),
    ensures
        byte_offset(cs, i + 1) == byte_offset(cs, i) + utf8_width(cs[i]),
{
    assert(cs.take(i + 1) == cs.take(i) + seq![cs[i]]);
    lemma_utf8_len_concat(cs.take(i), seq![cs[i]]);
    assert(seq![cs[i]].drop_first() == Seq::<char>::empty());
    assert(utf8_len(Seq::<char>::empty()) == 0);
    assert(utf8_len(seq![cs[i]]) == utf8_width(cs[i]) + utf8_len(seq![cs[i]].drop_first()));
}

proof fn lemma_byte_offset_mono(cs: Seq<char>, i: int, j: int)
    requires
        0 <= i <= j <= cs.len(),
    ensures
        byte_offset(cs, i) <= byte_offset(cs, j),
    decreases j - i,
{
    if i < j {
        lemma_byte_offset_step(cs, j - 1);
        lemma_byte_offset_mono(cs, i, j - 1);
    }
}

/// The byte length of a string is the sum of the UTF-8 widths of its characters.
pub proof fn lemma_utf8_len_bytes(cs: Seq<char>)
    ensures
        utf8_len(cs) == vstd::utf8::encode_utf8(cs).len(),
    decreases cs.len(),
{
    if cs.len() > 0 {
        lemma_utf8_len_bytes(cs.drop_first());
        vstd::utf8::char_is_scalar(cs[0]);
    }
}

// ---- the scanner ----

fn is_blank_exec(c: char) -> (r: bool)
    ensures
        r == is_blank(c),
{
    c == ' ' || c == '\t' || c == '\r' || (c as u32) == 0x0C
}

fn is_digit_exec(c: char) -> (r: bool)
    ensures
        r == is_digit(c),
{
    0x30 <= (c as u32) && (c as u32) <= 0x39
}

fn is_ident_start_exec(c: char) -> (r: bool)
    ensures
        r == is_ident_start(c),
{
    (0x61 <= (c as u32) && (c as u32) <= 0x7A) || (0x41 <= (c as u32) && (c as u32) <= 0x5A) || c == '_'
}

fn in_class_exec(c: char, cls: CharClass) -> (r: bool)
    ensures
        r == in_class(c, cls),
{
    match cls {
        CharClass::Blank => is_blank_exec(c),
        CharClass::Digit => is_digit_exec(c),
        CharClass::IdentChar => is_ident_start_exec(c) || is_digit_exec(c),
        CharClass::NotLineEnd => c != '\r' && c != '\n',
    }
}

fn run_end_exec(cs: &Vec<char>, i: usize, cls: CharClass) -> (j: usize)
    requires
        i <= cs.len(),
    ensures
        j == run_end(cs@, i as int, cls),
{
    let mut k = i;
    while k < cs.len() && in_class_exec(cs[k], cls)
        invariant
            i <= k <= cs.len(),
            run_end(cs@, i as int, cls) == run_end(cs@, k as int, cls),
        decreases cs.len() - k,
    {
        k = k + 1;
    }
    k
}

/// Whether characters `s..e` of `cs` spell `word`.
fn spells(cs: &Vec<char>, s: usize, e: usize, word: &str) -> (r: bool)
    requires
        s <= e <= cs.len(),
    ensures
        r == (cs@.subrange(s as int, e as int) == word@),
{
    let n = word.unicode_len();
    if e - s != n {
        return false;
    }
    let mut k: usize = 0;
    while k < n
        invariant
            s <= e <= cs.len(),
            e - s == n == word@.len(),
            k <= n,
            forall|m: int| 0 <= m < k ==> cs@[s + m] == word@[m],
        decreases n - k,
    {
        if cs[s + k] != word.get_char(k) {
            assert(cs@.subrange(s as int, e as int)[k as int] != word@[k as int]);
            return false;
        }
        k = k + 1;
    }
    assert(cs@.subrange(s as int, e as int) == word@);
    true
}

fn keyword_exec(cs: &Vec<char>, s: usize, e: usize) -> (r: Option<TokenKind>)
    requires
        s <= e <= cs.len(),
    ensures
        r == keyword(cs@.subrange(s as int, e as int)),
{
    if spells(cs, s, e, "func") { Some(TokenKind::Func) }
    else if spells(cs, s, e, "let") { Some(TokenKind::Let) }
    else if spells(cs, s, e, "var") { Some(TokenKind::Var) }
    else if spells(cs, s, e, "self") { Some(TokenKind::SelfTok) }
    else if spells(cs, s, e, "struct") { Some(TokenKind::Struct) }
    else if spells(cs, s, e, "type") { Some(TokenKind::Type) }
    else if spells(cs, s, e, "interface") { Some(TokenKind::Interface) }
    else if spells(cs, s, e, "extend") { Some(TokenKind::Extend) }
    else if spells(cs, s, e, "with") { Some(TokenKind::With) }
    else if spells(cs, s, e, "if") { Some(TokenKind::If) }
    else if spells(cs, s, e, "else") { Some(TokenKind::Else) }
    else if spells(cs, s, e, "match") { Some(TokenKind::Match) }
    else if spells(cs, s, e, "for") { Some(TokenKind::For) }
    else if spells(cs, s, e, "in") { Some(TokenKind::In) }
    else if spells(cs, s, e, "while") { Some(TokenKind::While) }
    else if spells(cs, s, e, "return") { Some(TokenKind::Return) }
    else if spells(cs, s, e, "true") { Some(TokenKind::True) }
    else if spells(cs, s, e, "false") { Some(TokenKind::False) }
    else if spells(cs, s, e, "and") { Some(TokenKind::And) }
    else if spells(cs, s, e, "or") { Some(TokenKind::Or) }
    else { None }
}

fn punct_exec(cs: &Vec<char>, i: usize) -> (r: Option<(TokenKind, usize)>)
    requires
        i < cs.len(),
    ensures
        match punct(cs@, i as int) {
            Some((k, n)) => r matches Some((k2, n2)) && k2 == k && n2 == n,
            None => r is None,
        },
{
    let c = cs[i];
    let d = if i + 1 < cs.len() { cs[i + 1] } else { ' ' };
    if c == '=' && d == '=' { Some((TokenKind::EqEq, 2)) }
    else if c == '=' && d == '>' { Some((TokenKind::Arrow, 2)) }
    else if c == '!' && d == '=' { Some((TokenKind::BangEq, 2)) }
    else if c == '<' && d == '=' { Some((TokenKind::LtEq, 2)) }
    else if c == '>' && d == '=' { Some((TokenKind::GtEq, 2)) }
    else if c == '=' { Some((TokenKind::Eq, 1)) }
    else if c == '!' { Some((TokenKind::Bang, 1)) }
    else if c == '<' { Some((TokenKind::Lt, 1)) }
    else if c == '>' { Some((TokenKind::Gt, 1)) }
    else if c == '-' { Some((TokenKind::Minus, 1)) }
    else if c == '|' { Some((TokenKind::VerBar, 1)) }
    else if c == '+' { Some((TokenKind::Plus, 1)) }
    else if c == '*' { Some((TokenKind::Asterisk, 1)) }
    else if c == '/' { Some((TokenKind::Slash, 1)) }
    else if c == '(' { Some((TokenKind::LParen, 1)) }
    else if c == ')' { Some((TokenKind::RParen, 1)) }
    else if c == '{' { Some((TokenKind::LBrace, 1)) }
    else if c == '}' { Some((TokenKind::RBrace, 1)) }
    else if c == ',' { Some((TokenKind::Comma, 1)) }
    else if c == ':' { Some((TokenKind::Colon, 1)) }
    else if c == ';' { Some((TokenKind::Semicolon, 1)) }
    else { None }
}

/// The value of the digits `s..e`, or `None` when it exceeds `i64::MAX`.
fn digits_value_exec(cs: &Vec<char>, s: usize, e: usize) -> (r: Option<i64>)
    requires
        s <= e <= cs.len(),
        forall|k: int| s <= k < e ==> is_digit(#[trigger] cs@[k]),
    ensures
        match r {
            Some(v) => v == digits_value(cs@.subrange(s as int, e as int)),
            None => digits_value(cs@.subrange(s as int, e as int)) > i64::MAX,
        },
{
    let mut v: i64 = 0;
    let mut overflow = false;
    let mut k = s;
    while k < e
        invariant
            s <= k <= e <= cs.len(),
            forall|m: int| s <= m < e ==> is_digit(#[trigger] cs@[m]),
            !overflow ==> v == digits_value(cs@.subrange(s as int, k as int)),
            overflow ==> digits_value(cs@.subrange(s as int, k as int)) > i64::MAX,
            0 <= v,
        decreases e - k,
    {
        let d = (cs[k] as u32 - 0x30) as i64;
        let ghost prev = cs@.subrange(s as int, k as int);
        assert(cs@.subrange(s as int, k + 1).drop_last() == prev);
        assert(is_digit(cs@[k as int]));
        if !overflow {
            if v > (i64::MAX - d) / 10 {
                overflow = true;
                assert(v * 10 + d > i64::MAX) by (nonlinear_arith)
                    requires v > (i64::MAX - d) / 10, 0 <= d <= 9;
            } else {
                assert(v * 10 + d <= i64::MAX) by (nonlinear_arith)
                    requires v <= (i64::MAX - d) / 10, 0 <= d <= 9, 0 <= v;
                v = v * 10 + d;
            }
        } else {
            assert(digits_value(prev) * 10 >= digits_value(prev)) by (nonlinear_arith);
        }
        k = k + 1;
    }
    if overflow { None } else { Some(v) }
}

/// The lexeme at `i` and the index just past it.
fn scan_at(cs: &Vec<char>, i: usize) -> (r: (Lexeme, usize))
    requires
        i < cs.len(),
    ensures
        r.0 == scan(cs@, i as int).0,
        r.1 == scan(cs@, i as int).1,
{
    proof {
        lemma_run_end(cs@, i + 1, CharClass::Digit);
        lemma_run_end(cs@, i + 1, CharClass::IdentChar);
    }
    let c = cs[i];
    if is_blank_exec(c) {
        (Lexeme::Skip, run_end_exec(cs, i + 1, CharClass::Blank))
    } else if c == '/' && i + 1 < cs.len() && cs[i + 1] == '/' {
        (Lexeme::Skip, run_end_exec(cs, i + 2, CharClass::NotLineEnd))
    } else if c == '\n' {
        (Lexeme::Fixed(TokenKind::Newline), i + 1)
    } else if is_digit_exec(c) {
        let j = run_end_exec(cs, i + 1, CharClass::Digit);
        match digits_value_exec(cs, i, j) {
            Some(v) => (Lexeme::Fixed(TokenKind::Int(v)), j),
            None => (Lexeme::Bad, j),
        }
    } else if is_ident_start_exec(c) {
        let j = run_end_exec(cs, i + 1, CharClass::IdentChar);
        match keyword_exec(cs, i, j) {
            Some(k) => (Lexeme::Fixed(k), j),
            None => (Lexeme::Ident, j),
        }
    } else {
        match punct_exec(cs, i) {
            Some((k, n)) => (Lexeme::Fixed(k), i + n),
            None => (Lexeme::Bad, i + 1),
        }
    }
}

fn utf8_width_exec(c: char) -> (w: usize)
    ensures
        w == utf8_width(c),
{
    if (c as u32) < 0x80 {
        1
    } else if (c as u32) < 0x800 {
        2
    } else if (c as u32) < 0x10000 {
        3
    } else {
        4
    }
}

/// Byte offset of index `j`, from that of index `i`.
fn advance_bytes(cs: &Vec<char>, i: usize, j: usize, b: usize) -> (r: usize)
    requires
        i <= j <= cs.len(),
        b == byte_offset(cs@, i as int),
        utf8_len(cs@) < usize::MAX,
    ensures
        r == byte_offset(cs@, j as int),
{
    let mut k = i;
    let mut r = b;
    while k < j
        invariant
            i <= k <= j <= cs.len(),
            r == byte_offset(cs@, k as int),
            utf8_len(cs@) < usize::MAX,
        decreases j - k,
    {
        proof {
            lemma_byte_offset_step(cs@, k as int);
            lemma_byte_offset_mono(cs@, k + 1, cs@.len() as int);
            assert(cs@.take(cs@.len() as int) == cs@);
        }
        r = r + utf8_width_exec(cs[k]);
        k = k + 1;
    }
    r
}

/// Splits `src` into tokens, ending with `Eof`, and the pieces of input that form no token.
pub fn lex(src: &str) -> (r: (Vec<Token>, Vec<LexError>))
    requires
        src.spec_bytes().len() < usize::MAX,
    ensures
        ({
            let cs = src@;
            let starts = line_starts_of(src.spec_bytes());
            let good = lex_good(cs, 0);
            let bad = lex_bad(cs, 0);
            let end = byte_offset(cs, cs.len() as int) as int;
            &&& r.0.len() == good.len() + 1
            &&& forall|j: int| 0 <= j < good.len() ==> token_matches(#[trigger] r.0@[j], good[j], cs, starts)
            &&& r.0@[good.len() as int].kind == TokenKind::Eof
            &&& r.0@[good.len() as int].literal@ == Seq::<char>::empty()
            &&& r.0@[good.len() as int].span == Span { start: pos_at(starts, end), end: pos_at(starts, end) }
            &&& r.1.len() == bad.len()
            &&& forall|j: int| 0 <= j < bad.len() ==> error_matches(#[trigger] r.1@[j], bad[j], cs, starts)
        }),
{
    let cs = chars_of(src);
    let line_map = LineMap::new(src);
    let ghost starts = line_starts_of(src.spec_bytes());
    proof {
        lemma_utf8_len_bytes(cs@);
    }
    let mut tokens: Vec<Token> = Vec::new();
    let mut errors: Vec<LexError> = Vec::new();
    let ghost mut done_good: Seq<(Lexeme, int, int)> = seq![];
    let ghost mut done_bad: Seq<(int, int)> = seq![];
    let mut i: usize = 0;
    let mut b: usize = 0;
    proof { assert(cs@.take(0) == Seq::<char>::empty()); }
    while i < cs.len()
        invariant
            i <= cs.len(),
            cs@ == src@,
            line_map@ == starts,
            starts == line_starts_of(src.spec_bytes()),
            line_map.wf(),
            utf8_len(cs@) < usize::MAX,
            b == byte_offset(cs@, i as int),
            lex_good(cs@, 0) == done_good + lex_good(cs@, i as int),
            lex_bad(cs@, 0) == done_bad + lex_bad(cs@, i as int),
            tokens.len() == done_good.len(),
            errors.len() == done_bad.len(),
            forall|j: int| 0 <= j < done_good.len() ==> token_matches(#[trigger] tokens@[j], done_good[j], cs@, starts),
            forall|j: int| 0 <= j < done_bad.len() ==> error_matches(#[trigger] errors@[j], done_bad[j], cs@, starts),
        decreases cs.len() - i,
    {
        proof { lemma_scan_advances(cs@, i as int); }
        let (lx, j) = scan_at(&cs, i);
        let bj = advance_bytes(&cs, i, j, b);
        proof {
            lemma_byte_offset_mono(cs@, j as int, cs@.len() as int);
            assert(cs@.take(cs@.len() as int) == cs@);
        }
        let ghost item = (lx, i as int, j as int);
        proof {
            lemma_byte_offset_mono(cs@, i as int, cs@.len() as int);
            lemma_line_index(starts, b as int);
            lemma_line_index(starts, bj as int);
        }
        match lx {
            Lexeme::Skip => {
                assert(lex_good(cs@, i as int) == lex_good(cs@, j as int));
            },
            Lexeme::Fixed(k) => {
                let span = line_map.span(b..bj);
                let literal = string_of(&cs, i, j);
                tokens.push(Token { kind: k, literal, span });
                proof {
                    assert(lex_good(cs@, i as int) == seq![item] + lex_good(cs@, j as int));
                    assert(done_good.push(item) + lex_good(cs@, j as int) == done_good + (seq![item] + lex_good(cs@, j as int)));
                    done_good = done_good.push(item);
                }
            },
            Lexeme::Ident => {
                let span = line_map.span(b..bj);
                let literal = string_of(&cs, i, j);
                let name = string_of(&cs, i, j);
                tokens.push(Token { kind: TokenKind::Identifier(name), literal, span });
                proof {
                    assert(lex_good(cs@, i as int) == seq![item] + lex_good(cs@, j as int));
                    assert(done_good.push(item) + lex_good(cs@, j as int) == done_good + (seq![item] + lex_good(cs@, j as int)));
                    done_good = done_good.push(item);
                }
            },
            Lexeme::Bad => {
                let span = line_map.span(b..bj);
                let mut message = String::new();
                push_char(&mut message, '`');
                let text = string_of(&cs, i, j);
                message.append(text.as_str());
                push_char(&mut message, '`');
                assert(message@ == seq!['`'] + cs@.subrange(i as int, j as int) + seq!['`']);
                errors.push(LexError { span, message });
                proof {
                    let bad = (i as int, j as int);
                    assert(lex_good(cs@, i as int) == lex_good(cs@, j as int));
                    assert(lex_bad(cs@, i as int) == seq![bad] + lex_bad(cs@, j as int));
                    assert(done_bad.push(bad) + lex_bad(cs@, j as int) == done_bad + (seq![bad] + lex_bad(cs@, j as int)));
                    done_bad = done_bad.push(bad);
                }
            },
        }
        i = j;
        b = bj;
    }
    proof {
        assert(done_good + lex_good(cs@, i as int) == done_good);
        assert(done_bad + lex_bad(cs@, i as int) == done_bad);
    }
    proof {
        assert(cs@.take(cs@.len() as int) == cs@);
        lemma_line_index(starts, b as int);
    }
    let span = line_map.span(b..b);
    tokens.push(Token { kind: TokenKind::Eof, literal: String::new(), span });
    (tokens, errors)
}

} // verus!
