use vstd::prelude::*;
use crate::text::{chars_of, push_char, push_decimal};

verus! {

/// The kinds of tokens of the language.
#[derive(Debug)]
pub enum TokenKind {
    /// `func`
    Func,
    /// `let`
    Let,
    /// `var`
    Var,
    /// `self`
    SelfTok,
    /// `struct`
    Struct,
    /// `type`
    Type,
    /// `interface`
    Interface,
    /// `extend`
    Extend,
    /// `with`
    With,
    /// `if`
    If,
    /// Named by the parser for `elif` branches; no text lexes as it.
    Elif,
    /// `else`
    Else,
    /// `match`
    Match,
    /// `for`
    For,
    /// `in`
    In,
    /// `while`
    While,
    /// `return`
    Return,
    /// `true`
    True,
    /// `false`
    False,
    /// `and`
    And,
    /// `or`
    Or,
    /// A decimal integer literal that fits in an `i64`.
    Int(i64),
    /// `[a-zA-Z_][a-zA-Z0-9_]*` that is not a keyword.
    Identifier(String),
    /// `!`
    Bang,
    /// `+`
    Plus,
    /// `-`
    Minus,
    /// `*`
    Asterisk,
    /// `/`
    Slash,
    /// `==`
    EqEq,
    /// `!=`
    BangEq,
    /// `<=`
    LtEq,
    /// `>=`
    GtEq,
    /// `<`
    Lt,
    /// `>`
    Gt,
    /// `=`
    Eq,
    /// `(`
    LParen,
    /// `)`
    RParen,
    /// `{`
    LBrace,
    /// `}`
    RBrace,
    /// Named by the parser for array types, literals and patterns; no text lexes as it.
    LBracket,
    /// Closes what `LBracket` opens; no text lexes as it.
    RBracket,
    /// `,`
    Comma,
    /// `:`
    Colon,
    /// `;`
    Semicolon,
    /// `=>`
    Arrow,
    /// Named by the parser after match arm patterns and closure heads; no text lexes as it.
    FatArrow,
    /// `|`
    VerBar,
    /// Named by the parser; no text lexes as it.
    Dot,
    /// Named by the parser for rest patterns; no text lexes as it.
    DotDot,
    /// A line break.
    Newline,
    /// The end of the input.
    Eof,
    /// Input that forms no token.
    Error,
}

/// A number for each variant, in declaration order.
pub open spec fn kind_tag(k: TokenKind) -> nat {
    match k {
        TokenKind::Func => 0,
        TokenKind::Let => 1,
        TokenKind::Var => 2,
        TokenKind::SelfTok => 3,
        TokenKind::Struct => 4,
        TokenKind::Type => 5,
        TokenKind::Interface => 6,
        TokenKind::Extend => 7,
        TokenKind::With => 8,
        TokenKind::If => 9,
        TokenKind::Elif => 10,
        TokenKind::Else => 11,
        TokenKind::Match => 12,
        TokenKind::For => 13,
        TokenKind::In => 14,
        TokenKind::While => 15,
        TokenKind::Return => 16,
        TokenKind::True => 17,
        TokenKind::False => 18,
        TokenKind::And => 19,
        TokenKind::Or => 20,
        TokenKind::Int(..) => 21,
        TokenKind::Identifier(..) => 22,
        TokenKind::Bang => 23,
        TokenKind::Plus => 24,
        TokenKind::Minus => 25,
        TokenKind::Asterisk => 26,
        TokenKind::Slash => 27,
        TokenKind::EqEq => 28,
        TokenKind::BangEq => 29,
        TokenKind::LtEq => 30,
        TokenKind::GtEq => 31,
        TokenKind::Lt => 32,
        TokenKind::Gt => 33,
        TokenKind::Eq => 34,
        TokenKind::LParen => 35,
        TokenKind::RParen => 36,
        TokenKind::LBrace => 37,
        TokenKind::RBrace => 38,
        TokenKind::LBracket => 39,
        TokenKind::RBracket => 40,
        TokenKind::Comma => 41,
        TokenKind::Colon => 42,
        TokenKind::Semicolon => 43,
        TokenKind::Arrow => 44,
        TokenKind::FatArrow => 45,
        TokenKind::VerBar => 46,
        TokenKind::Dot => 47,
        TokenKind::DotDot => 48,
        TokenKind::Newline => 49,
        TokenKind::Eof => 50,
        TokenKind::Error => 51,
    }
}

/// Two kinds are the same: same variant, same integer, same identifier text.
pub open spec fn kind_eq(a: TokenKind, b: TokenKind) -> bool {
    &&& kind_tag(a) == kind_tag(b)
    &&& (a is Int ==> b is Int && a->Int_0 == b->Int_0)
    &&& (a is Identifier ==> b is Identifier && a->Identifier_0@ == b->Identifier_0@)
}

impl TokenKind {
    /// The variant's number.
    pub fn tag(&self) -> (t: u8)
        ensures
            t == kind_tag(*self),
    {
        match self {
            TokenKind::Func => 0,
            TokenKind::Let => 1,
            TokenKind::Var => 2,
            TokenKind::SelfTok => 3,
            TokenKind::Struct => 4,
            TokenKind::Type => 5,
            TokenKind::Interface => 6,
            TokenKind::Extend => 7,
            TokenKind::With => 8,
            TokenKind::If => 9,
            TokenKind::Elif => 10,
            TokenKind::Else => 11,
            TokenKind::Match => 12,
            TokenKind::For => 13,
            TokenKind::In => 14,
            TokenKind::While => 15,
            TokenKind::Return => 16,
            TokenKind::True => 17,
            TokenKind::False => 18,
            TokenKind::And => 19,
            TokenKind::Or => 20,
            TokenKind::Int(..) => 21,
            TokenKind::Identifier(..) => 22,
            TokenKind::Bang => 23,
            TokenKind::Plus => 24,
            TokenKind::Minus => 25,
            TokenKind::Asterisk => 26,
            TokenKind::Slash => 27,
            TokenKind::EqEq => 28,
            TokenKind::BangEq => 29,
            TokenKind::LtEq => 30,
            TokenKind::GtEq => 31,
            TokenKind::Lt => 32,
            TokenKind::Gt => 33,
            TokenKind::Eq => 34,
            TokenKind::LParen => 35,
            TokenKind::RParen => 36,
            TokenKind::LBrace => 37,
            TokenKind::RBrace => 38,
            TokenKind::LBracket => 39,
            TokenKind::RBracket => 40,
            TokenKind::Comma => 41,
            TokenKind::Colon => 42,
            TokenKind::Semicolon => 43,
            TokenKind::Arrow => 44,
            TokenKind::FatArrow => 45,
            TokenKind::VerBar => 46,
            TokenKind::Dot => 47,
            TokenKind::DotDot => 48,
            TokenKind::Newline => 49,
            TokenKind::Eof => 50,
            TokenKind::Error => 51,
        }
    }
}

impl Clone for TokenKind {
    fn clone(&self) -> (r: Self)
        ensures
            r == *self,
    {
        match self {
            TokenKind::Int(v) => TokenKind::Int(*v),
            TokenKind::Identifier(s) => TokenKind::Identifier(s.clone()),
            TokenKind::Func => TokenKind::Func,
            TokenKind::Let => TokenKind::Let,
            TokenKind::Var => TokenKind::Var,
            TokenKind::SelfTok => TokenKind::SelfTok,
            TokenKind::Struct => TokenKind::Struct,
            TokenKind::Type => TokenKind::Type,
            TokenKind::Interface => TokenKind::Interface,
            TokenKind::Extend => TokenKind::Extend,
            TokenKind::With => TokenKind::With,
            TokenKind::If => TokenKind::If,
            TokenKind::Elif => TokenKind::Elif,
            TokenKind::Else => TokenKind::Else,
            TokenKind::Match => TokenKind::Match,
            TokenKind::For => TokenKind::For,
            TokenKind::In => TokenKind::In,
            TokenKind::While => TokenKind::While,
            TokenKind::Return => TokenKind::Return,
            TokenKind::True => TokenKind::True,
            TokenKind::False => TokenKind::False,
            TokenKind::And => TokenKind::And,
            TokenKind::Or => TokenKind::Or,
            TokenKind::Bang => TokenKind::Bang,
            TokenKind::Plus => TokenKind::Plus,
            TokenKind::Minus => TokenKind::Minus,
            TokenKind::Asterisk => TokenKind::Asterisk,
            TokenKind::Slash => TokenKind::Slash,
            TokenKind::EqEq => TokenKind::EqEq,
            TokenKind::BangEq => TokenKind::BangEq,
            TokenKind::LtEq => TokenKind::LtEq,
            TokenKind::GtEq => TokenKind::GtEq,
            TokenKind::Lt => TokenKind::Lt,
            TokenKind::Gt => TokenKind::Gt,
            TokenKind::Eq => TokenKind::Eq,
            TokenKind::LParen => TokenKind::LParen,
            TokenKind::RParen => TokenKind::RParen,
            TokenKind::LBrace => TokenKind::LBrace,
            TokenKind::RBrace => TokenKind::RBrace,
            TokenKind::LBracket => TokenKind::LBracket,
            TokenKind::RBracket => TokenKind::RBracket,
            TokenKind::Comma => TokenKind::Comma,
            TokenKind::Colon => TokenKind::Colon,
            TokenKind::Semicolon => TokenKind::Semicolon,
            TokenKind::Arrow => TokenKind::Arrow,
            TokenKind::FatArrow => TokenKind::FatArrow,
            TokenKind::VerBar => TokenKind::VerBar,
            TokenKind::Dot => TokenKind::Dot,
            TokenKind::DotDot => TokenKind::DotDot,
            TokenKind::Newline => TokenKind::Newline,
            TokenKind::Eof => TokenKind::Eof,
            TokenKind::Error => TokenKind::Error,
        }
    }
}

impl PartialEq for TokenKind {
    fn eq(&self, other: &Self) -> (r: bool) {
        match (self, other) {
            (TokenKind::Int(a), TokenKind::Int(b)) => *a == *b,
            (TokenKind::Identifier(a), TokenKind::Identifier(b)) => *a == *b,
            _ => self.tag() == other.tag(),
        }
    }
}

impl vstd::std_specs::cmp::PartialEqSpecImpl for TokenKind {
    open spec fn obeys_eq_spec() -> bool {
        true
    }

    open spec fn eq_spec(&self, other: &TokenKind) -> bool {
        kind_eq(*self, *other)
    }
}


// ---- the debug text of a token kind ----

/// The lowercase hexadecimal digit for `d < 16`.
pub open spec fn hex_digit(d: nat) -> char {
    if d < 10 { crate::text::digit_char(d) }
    else if d == 10 { 'a' }
    else if d == 11 { 'b' }
    else if d == 12 { 'c' }
    else if d == 13 { 'd' }
    else if d == 14 { 'e' }
    else { 'f' }
}

/// An ASCII control character, other than those with a short escape.
pub open spec fn is_plain_control(c: char) -> bool {
    ((c as u32) < 0x20 || (c as u32) == 0x7f) && c != '\t' && c != '\n' && c != '\r' && c != '\0'
}

/// How `Debug` writes a character inside a string: quotes and backslashes are escaped,
/// tab, line feed, carriage return and NUL get short escapes, other ASCII control
/// characters `\u{..}` in lowercase hex; every other character stands as it is.
/// (`Debug` also writes `\u{..}` for non-printable and combining characters beyond
/// ASCII, which this text keeps as they are; identifiers read by the lexer are ASCII.)
pub open spec fn escape_char(c: char) -> Seq<char> {
    if c == '"' { seq!['\\', '"'] }
    else if c == '\\' { seq!['\\', '\\'] }
    else if c == '\n' { seq!['\\', 'n'] }
    else if c == '\r' { seq!['\\', 'r'] }
    else if c == '\t' { seq!['\\', 't'] }
    else if c == '\0' { seq!['\\', '0'] }
    else if is_plain_control(c) {
        let v = c as u32 as nat;
        if v < 16 { seq!['\\', 'u', '{', hex_digit(v), '}'] }
        else { seq!['\\', 'u', '{', hex_digit(v / 16), hex_digit(v % 16), '}'] }
    }
    else { seq![c] }
}

/// The escaped characters of `cs`.
pub open spec fn escape_str(cs: Seq<char>) -> Seq<char>
    decreases cs.len(),
{
    if cs.len() == 0 { Seq::empty() } else { escape_str(cs.drop_last()) + escape_char(cs.last()) }
}

/// Signed decimal text.
pub open spec fn int_text(v: i64) -> Seq<char> {
    if v < 0 { seq!['-'] + crate::text::decimal((-v) as nat) } else { crate::text::decimal(v as nat) }
}

/// The text `Debug` gives a token kind: the variant's name, `Int(..)` with the value in
/// decimal, `Identifier("..")` with the name escaped as above.
pub open spec fn kind_text(k: TokenKind) -> Seq<char> {
    match k {
        TokenKind::Int(v) => "Int("@ + int_text(v) + ")"@,
        TokenKind::Identifier(s) => "Identifier(\""@ + escape_str(s@) + "\")"@,
        TokenKind::Func => "Func"@,
        TokenKind::Let => "Let"@,
        TokenKind::Var => "Var"@,
        TokenKind::SelfTok => "SelfTok"@,
        TokenKind::Struct => "Struct"@,
        TokenKind::Type => "Type"@,
        TokenKind::Interface => "Interface"@,
        TokenKind::Extend => "Extend"@,
        TokenKind::With => "With"@,
        TokenKind::If => "If"@,
        TokenKind::Elif => "Elif"@,
        TokenKind::Else => "Else"@,
        TokenKind::Match => "Match"@,
        TokenKind::For => "For"@,
        TokenKind::In => "In"@,
        TokenKind::While => "While"@,
        TokenKind::Return => "Return"@,
        TokenKind::True => "True"@,
        TokenKind::False => "False"@,
        TokenKind::And => "And"@,
        TokenKind::Or => "Or"@,
        TokenKind::Bang => "Bang"@,
        TokenKind::Plus => "Plus"@,
        TokenKind::Minus => "Minus"@,
        TokenKind::Asterisk => "Asterisk"@,
        TokenKind::Slash => "Slash"@,
        TokenKind::EqEq => "EqEq"@,
        TokenKind::BangEq => "BangEq"@,
        TokenKind::LtEq => "LtEq"@,
        TokenKind::GtEq => "GtEq"@,
        TokenKind::Lt => "Lt"@,
        TokenKind::Gt => "Gt"@,
        TokenKind::Eq => "Eq"@,
        TokenKind::LParen => "LParen"@,
        TokenKind::RParen => "RParen"@,
        TokenKind::LBrace => "LBrace"@,
        TokenKind::RBrace => "RBrace"@,
        TokenKind::LBracket => "LBracket"@,
        TokenKind::RBracket => "RBracket"@,
        TokenKind::Comma => "Comma"@,
        TokenKind::Colon => "Colon"@,
        TokenKind::Semicolon => "Semicolon"@,
        TokenKind::Arrow => "Arrow"@,
        TokenKind::FatArrow => "FatArrow"@,
        TokenKind::VerBar => "VerBar"@,
        TokenKind::Dot => "Dot"@,
        TokenKind::DotDot => "DotDot"@,
        TokenKind::Newline => "Newline"@,
        TokenKind::Eof => "Eof"@,
        TokenKind::Error => "Error"@,
    }
}

fn hex_digit_exec(d: u32) -> (c: char)
    requires
        d < 16,
    ensures
        c == hex_digit(d as nat),
{
    if d < 10 { crate::text::digit_of(d as u64) }
    else if d == 10 { 'a' }
    else if d == 11 { 'b' }
    else if d == 12 { 'c' }
    else if d == 13 { 'd' }
    else if d == 14 { 'e' }
    else { 'f' }
}

/// Appends the escaped form of `c`.
fn push_escaped(s: &mut String, c: char)
    ensures
        final(s)@ == old(s)@ + escape_char(c),
{
    let v = c as u32;
    if c == '"' { push_char(s, '\\'); push_char(s, '"'); }
    else if c == '\\' { push_char(s, '\\'); push_char(s, '\\'); }
    else if c == '\n' { push_char(s, '\\'); push_char(s, 'n'); }
    else if c == '\r' { push_char(s, '\\'); push_char(s, 'r'); }
    else if c == '\t' { push_char(s, '\\'); push_char(s, 't'); }
    else if c == '\0' { push_char(s, '\\'); push_char(s, '0'); }
    else if v < 0x20 || v == 0x7f {
        push_char(s, '\\');
        push_char(s, 'u');
        push_char(s, '{');
        if v < 16 {
            push_char(s, hex_digit_exec(v));
        } else {
            push_char(s, hex_digit_exec(v / 16));
            push_char(s, hex_digit_exec(v % 16));
        }
        push_char(s, '}');
    }
    else { push_char(s, c); }
    assert(final(s)@ =~= old(s)@ + escape_char(c));
}

impl TokenKind {
    /// The text `Debug` gives the kind (see `kind_text`).
    pub fn debug_text(&self) -> (s: String)
        ensures
            s@ == kind_text(*self),
    {
        match self {
            TokenKind::Int(v) => {
                let mut s = String::from_str("Int(");
                if *v < 0 {
                    push_char(&mut s, '-');
                    let m: u64 = if *v == i64::MIN { 9223372036854775808u64 } else { (-*v) as u64 };
                    push_decimal(&mut s, m);
                } else {
                    push_decimal(&mut s, *v as u64);
                }
                s.append(")");
                assert(s@ =~= "Int("@ + int_text(*v) + ")"@);
                s
            },
            TokenKind::Identifier(name) => {
                let mut s = String::from_str("Identifier(\"");
                let cs = chars_of(name.as_str());
                let ghost prefix = s@;
                let mut i: usize = 0;
                while i < cs.len()
                    invariant
                        i <= cs@.len(),
                        cs@ == name@,
                        s@ == prefix + escape_str(cs@.take(i as int)),
                    decreases cs@.len() - i,
                {
                    proof {
                        assert(cs@.take(i + 1).drop_last() =~= cs@.take(i as int));
                        assert(cs@.take(i + 1).last() == cs@[i as int]);
                    }
                    push_escaped(&mut s, cs[i]);
                    proof { assert(s@ =~= prefix + escape_str(cs@.take(i + 1))); }
                    i = i + 1;
                }
                proof { assert(cs@.take(cs@.len() as int) =~= cs@); }
                s.append("\")");
                s
            },
            TokenKind::Func => String::from_str("Func"),
            TokenKind::Let => String::from_str("Let"),
            TokenKind::Var => String::from_str("Var"),
            TokenKind::SelfTok => String::from_str("SelfTok"),
            TokenKind::Struct => String::from_str("Struct"),
            TokenKind::Type => String::from_str("Type"),
            TokenKind::Interface => String::from_str("Interface"),
            TokenKind::Extend => String::from_str("Extend"),
            TokenKind::With => String::from_str("With"),
            TokenKind::If => String::from_str("If"),
            TokenKind::Elif => String::from_str("Elif"),
            TokenKind::Else => String::from_str("Else"),
            TokenKind::Match => String::from_str("Match"),
            TokenKind::For => String::from_str("For"),
            TokenKind::In => String::from_str("In"),
            TokenKind::While => String::from_str("While"),
            TokenKind::Return => String::from_str("Return"),
            TokenKind::True => String::from_str("True"),
            TokenKind::False => String::from_str("False"),
            TokenKind::And => String::from_str("And"),
            TokenKind::Or => String::from_str("Or"),
            TokenKind::Bang => String::from_str("Bang"),
            TokenKind::Plus => String::from_str("Plus"),
            TokenKind::Minus => String::from_str("Minus"),
            TokenKind::Asterisk => String::from_str("Asterisk"),
            TokenKind::Slash => String::from_str("Slash"),
            TokenKind::EqEq => String::from_str("EqEq"),
            TokenKind::BangEq => String::from_str("BangEq"),
            TokenKind::LtEq => String::from_str("LtEq"),
            TokenKind::GtEq => String::from_str("GtEq"),
            TokenKind::Lt => String::from_str("Lt"),
            TokenKind::Gt => String::from_str("Gt"),
            TokenKind::Eq => String::from_str("Eq"),
            TokenKind::LParen => String::from_str("LParen"),
            TokenKind::RParen => String::from_str("RParen"),
            TokenKind::LBrace => String::from_str("LBrace"),
            TokenKind::RBrace => String::from_str("RBrace"),
            TokenKind::LBracket => String::from_str("LBracket"),
            TokenKind::RBracket => String::from_str("RBracket"),
            TokenKind::Comma => String::from_str("Comma"),
            TokenKind::Colon => String::from_str("Colon"),
            TokenKind::Semicolon => String::from_str("Semicolon"),
            TokenKind::Arrow => String::from_str("Arrow"),
            TokenKind::FatArrow => String::from_str("FatArrow"),
            TokenKind::VerBar => String::from_str("VerBar"),
            TokenKind::Dot => String::from_str("Dot"),
            TokenKind::DotDot => String::from_str("DotDot"),
            TokenKind::Newline => String::from_str("Newline"),
            TokenKind::Eof => String::from_str("Eof"),
            TokenKind::Error => String::from_str("Error"),
        }
    }
}

} // verus!
