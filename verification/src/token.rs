//! The lexical vocabulary: tokens produced by the lexer and consumed by the
//! parser, together with their mathematical view.

use vstd::prelude::*;
use vstd::string::StringExecFns;

verus! {

/// One lexical unit of source text.
#[derive(Debug, PartialEq)]
pub enum Token {
    Illegal,
    EOF,
    /// An identifier, carrying its text.
    Ident(String),
    /// An integer literal, carrying its value.
    Int(i64),
    Assign,
    Plus,
    Minus,
    Bang,
    Asterisk,
    Slash,
    Equal,
    NotEqual,
    Lt,
    Gt,
    Comma,
    Semicolon,
    Lparen,
    Rparen,
    Lbrace,
    Rbrace,
    Fn,
    Let,
    True,
    False,
    If,
    Else,
    Return,
}

/// The mathematical value of a token: identifier text is a character
/// sequence, an integer literal is its numeric value, and every other
/// token is a bare tag.
pub enum TokenV {
    Illegal,
    EOF,
    Ident(Seq<char>),
    Int(i64),
    Assign,
    Plus,
    Minus,
    Bang,
    Asterisk,
    Slash,
    Equal,
    NotEqual,
    Lt,
    Gt,
    Comma,
    Semicolon,
    Lparen,
    Rparen,
    Lbrace,
    Rbrace,
    Fn,
    Let,
    True,
    False,
    If,
    Else,
    Return,
}

impl View for Token {
    type V = TokenV;

    open spec fn view(&self) -> TokenV {
        match self {
            Token::Illegal => TokenV::Illegal,
            Token::EOF => TokenV::EOF,
            Token::Ident(s) => TokenV::Ident(s@),
            Token::Int(n) => TokenV::Int(*n),
            Token::Assign => TokenV::Assign,
            Token::Plus => TokenV::Plus,
            Token::Minus => TokenV::Minus,
            Token::Bang => TokenV::Bang,
            Token::Asterisk => TokenV::Asterisk,
            Token::Slash => TokenV::Slash,
            Token::Equal => TokenV::Equal,
            Token::NotEqual => TokenV::NotEqual,
            Token::Lt => TokenV::Lt,
            Token::Gt => TokenV::Gt,
            Token::Comma => TokenV::Comma,
            Token::Semicolon => TokenV::Semicolon,
            Token::Lparen => TokenV::Lparen,
            Token::Rparen => TokenV::Rparen,
            Token::Lbrace => TokenV::Lbrace,
            Token::Rbrace => TokenV::Rbrace,
            Token::Fn => TokenV::Fn,
            Token::Let => TokenV::Let,
            Token::True => TokenV::True,
            Token::False => TokenV::False,
            Token::If => TokenV::If,
            Token::Else => TokenV::Else,
            Token::Return => TokenV::Return,
        }
    }
}

/// The character for a single decimal digit.
pub open spec fn digit_char(d: int) -> char {
    if d == 0 {
        '0'
    } else if d == 1 {
        '1'
    } else if d == 2 {
        '2'
    } else if d == 3 {
        '3'
    } else if d == 4 {
        '4'
    } else if d == 5 {
        '5'
    } else if d == 6 {
        '6'
    } else if d == 7 {
        '7'
    } else if d == 8 {
        '8'
    } else {
        '9'
    }
}

/// The decimal digits of a nonnegative integer, most significant first.
pub open spec fn dec_digits(n: int) -> Seq<char>
    decreases n,
{
    if n < 10 {
        seq![digit_char(n)]
    } else {
        dec_digits(n / 10) + seq![digit_char(n % 10)]
    }
}

/// The decimal rendering of an integer, with a leading minus sign when it
/// is negative.
pub open spec fn dec_str(n: int) -> Seq<char> {
    if n < 0 {
        seq!['-'] + dec_digits(-n)
    } else {
        dec_digits(n)
    }
}

/// A short rendering of a token for diagnostics: its tag, with the text of
/// an identifier and the value of an integer literal spelled out.
pub open spec fn token_desc(t: TokenV) -> Seq<char> {
    match t {
        TokenV::Illegal => "Illegal"@,
        TokenV::EOF => "EOF"@,
        TokenV::Ident(name) => "Ident("@ + name + ")"@,
        TokenV::Int(n) => "Int("@ + dec_str(n as int) + ")"@,
        TokenV::Assign => "Assign"@,
        TokenV::Plus => "Plus"@,
        TokenV::Minus => "Minus"@,
        TokenV::Bang => "Bang"@,
        TokenV::Asterisk => "Asterisk"@,
        TokenV::Slash => "Slash"@,
        TokenV::Equal => "Equal"@,
        TokenV::NotEqual => "NotEqual"@,
        TokenV::Lt => "Lt"@,
        TokenV::Gt => "Gt"@,
        TokenV::Comma => "Comma"@,
        TokenV::Semicolon => "Semicolon"@,
        TokenV::Lparen => "Lparen"@,
        TokenV::Rparen => "Rparen"@,
        TokenV::Lbrace => "Lbrace"@,
        TokenV::Rbrace => "Rbrace"@,
        TokenV::Fn => "Fn"@,
        TokenV::Let => "Let"@,
        TokenV::True => "True"@,
        TokenV::False => "False"@,
        TokenV::If => "If"@,
        TokenV::Else => "Else"@,
        TokenV::Return => "Return"@,
    }
}

/// The one-character string for a decimal digit.
fn digit_str(d: u8) -> (s: &'static str)
    requires
        d < 10,
    ensures
        s@ == seq![digit_char(d as int)],
{
    let s: &'static str = match d {
        0 => "0",
        1 => "1",
        2 => "2",
        3 => "3",
        4 => "4",
        5 => "5",
        6 => "6",
        7 => "7",
        8 => "8",
        _ => "9",
    };
    proof {
        reveal_strlit("0");
        reveal_strlit("1");
        reveal_strlit("2");
        reveal_strlit("3");
        reveal_strlit("4");
        reveal_strlit("5");
        reveal_strlit("6");
        reveal_strlit("7");
        reveal_strlit("8");
        reveal_strlit("9");
        assert("0"@ =~= seq![digit_char(0)]);
        assert("1"@ =~= seq![digit_char(1)]);
        assert("2"@ =~= seq![digit_char(2)]);
        assert("3"@ =~= seq![digit_char(3)]);
        assert("4"@ =~= seq![digit_char(4)]);
        assert("5"@ =~= seq![digit_char(5)]);
        assert("6"@ =~= seq![digit_char(6)]);
        assert("7"@ =~= seq![digit_char(7)]);
        assert("8"@ =~= seq![digit_char(8)]);
        assert("9"@ =~= seq![digit_char(9)]);
    }
    s
}

/// Appends the decimal digits of `m` to `out`, most significant first.
fn append_digits(m: u64, out: &mut String)
    ensures
        final(out)@ == old(out)@ + dec_digits(m as int),
    decreases m,
{
    if m >= 10 {
        append_digits(m / 10, out);
    }
    let d: u8 = (m % 10) as u8;
    out.append(digit_str(d));
    proof {
        if m >= 10 {
            assert((old(out)@ + dec_digits(m as int / 10)) + seq![digit_char(m as int % 10)]
                =~= old(out)@ + (dec_digits(m as int / 10) + seq![digit_char(m as int % 10)]));
        }
    }
}

/// Renders an integer in decimal.
fn int_to_decimal(n: i64) -> (s: String)
    ensures
        s@ == dec_str(n as int),
{
    let mut out = String::new();
    if n >= 0 {
        append_digits(n as u64, &mut out);
        proof {
            assert(Seq::<char>::empty() + dec_digits(n as int) =~= dec_digits(n as int));
        }
    } else {
        out.append("-");
        let m: u64 = ((-(n + 1)) as u64) + 1;
        proof {
            assert(m as int == -(n as int));
            reveal_strlit("-");
            assert("-"@ =~= seq!['-']);
        }
        append_digits(m, &mut out);
        proof {
            assert((Seq::<char>::empty() + "-"@) + dec_digits(m as int) =~= seq!['-']
                + dec_digits(-(n as int)));
        }
    }
    out
}

impl Token {
    /// Renders the token for a diagnostic message, as `token_desc` of its
    /// view.
    pub fn describe(&self) -> (s: String)
        ensures
            s@ == token_desc(self@),
    {
        match self {
            Token::Illegal => "Illegal".to_owned(),
            Token::EOF => "EOF".to_owned(),
            Token::Ident(name) => {
                let mut s = String::from_str("Ident(");
                s.append(name.as_str());
                s.append(")");
                s
            }
            Token::Int(n) => {
                let mut s = String::from_str("Int(");
                let num = int_to_decimal(*n);
                s.append(num.as_str());
                s.append(")");
                s
            }
            Token::Assign => "Assign".to_owned(),
            Token::Plus => "Plus".to_owned(),
            Token::Minus => "Minus".to_owned(),
            Token::Bang => "Bang".to_owned(),
            Token::Asterisk => "Asterisk".to_owned(),
            Token::Slash => "Slash".to_owned(),
            Token::Equal => "Equal".to_owned(),
            Token::NotEqual => "NotEqual".to_owned(),
            Token::Lt => "Lt".to_owned(),
            Token::Gt => "Gt".to_owned(),
            Token::Comma => "Comma".to_owned(),
            Token::Semicolon => "Semicolon".to_owned(),
            Token::Lparen => "Lparen".to_owned(),
            Token::Rparen => "Rparen".to_owned(),
            Token::Lbrace => "Lbrace".to_owned(),
            Token::Rbrace => "Rbrace".to_owned(),
            Token::Fn => "Fn".to_owned(),
            Token::Let => "Let".to_owned(),
            Token::True => "True".to_owned(),
            Token::False => "False".to_owned(),
            Token::If => "If".to_owned(),
            Token::Else => "Else".to_owned(),
            Token::Return => "Return".to_owned(),
        }
    }
}

/// Decides equality of two tokens, at the level of their views.
pub fn token_eq(a: &Token, b: &Token) -> (r: bool)
    ensures
        r == (a@ == b@),
{
    match (a, b) {
        (Token::Illegal, Token::Illegal) => true,
        (Token::EOF, Token::EOF) => true,
        (Token::Ident(x), Token::Ident(y)) => x.eq(y),
        (Token::Int(x), Token::Int(y)) => x == y,
        (Token::Assign, Token::Assign) => true,
        (Token::Plus, Token::Plus) => true,
        (Token::Minus, Token::Minus) => true,
        (Token::Bang, Token::Bang) => true,
        (Token::Asterisk, Token::Asterisk) => true,
        (Token::Slash, Token::Slash) => true,
        (Token::Equal, Token::Equal) => true,
        (Token::NotEqual, Token::NotEqual) => true,
        (Token::Lt, Token::Lt) => true,
        (Token::Gt, Token::Gt) => true,
        (Token::Comma, Token::Comma) => true,
        (Token::Semicolon, Token::Semicolon) => true,
        (Token::Lparen, Token::Lparen) => true,
        (Token::Rparen, Token::Rparen) => true,
        (Token::Lbrace, Token::Lbrace) => true,
        (Token::Rbrace, Token::Rbrace) => true,
        (Token::Fn, Token::Fn) => true,
        (Token::Let, Token::Let) => true,
        (Token::True, Token::True) => true,
        (Token::False, Token::False) => true,
        (Token::If, Token::If) => true,
        (Token::Else, Token::Else) => true,
        (Token::Return, Token::Return) => true,
        _ => false,
    }
}

} // verus!
