//! Lexical analysis: turns source text into a stream of tokens.
//!
//! The lexer is specified against `lex_step`, a mathematical description of
//! "skip whitespace, then read one token" over the character sequence of the
//! input, and `lex_all`, the full tokenization that `lex_step` induces.

use vstd::prelude::*;
use vstd::string::StrSliceExecFns;
use vstd::string::StringExecFns;

use crate::token::Token;
use crate::token::TokenV;

verus! {

/// Whether a character may start or continue an identifier: ASCII letters
/// and the underscore.
pub open spec fn is_letter_char(c: char) -> bool {
    ('a' <= c && c <= 'z') || ('A' <= c && c <= 'Z') || c == '_'
}

/// Whether a character is an ASCII decimal digit.
pub open spec fn is_digit_char(c: char) -> bool {
    '0' <= c && c <= '9'
}

/// Whether a character is skipped between tokens.
pub open spec fn is_ws_char(c: char) -> bool {
    c == ' ' || c == '\t' || c == '\n' || c == '\r'
}

/// The numeric value of a digit character.
pub open spec fn digit_of(c: char) -> int {
    c as u32 - 48
}

/// The first index at or after `pos` holding a non-whitespace character,
/// or the length of `s` if only whitespace remains.
pub open spec fn skip_ws(s: Seq<char>, pos: int) -> int
    decreases s.len() - pos,
{
    if 0 <= pos < s.len() && is_ws_char(s[pos]) {
        skip_ws(s, pos + 1)
    } else {
        pos
    }
}

/// The end of the maximal run of identifier characters starting at `pos`.
pub open spec fn letters_end(s: Seq<char>, pos: int) -> int
    decreases s.len() - pos,
{
    if 0 <= pos < s.len() && is_letter_char(s[pos]) {
        letters_end(s, pos + 1)
    } else {
        pos
    }
}

/// The end of the maximal run of digit characters starting at `pos`.
pub open spec fn digits_end(s: Seq<char>, pos: int) -> int
    decreases s.len() - pos,
{
    if 0 <= pos < s.len() && is_digit_char(s[pos]) {
        digits_end(s, pos + 1)
    } else {
        pos
    }
}

/// The base-ten value of the digit run `s[start .. end]`.
pub open spec fn digits_val(s: Seq<char>, start: int, end: int) -> int
    decreases end - start,
{
    if start < end {
        digits_val(s, start, end - 1) * 10 + digit_of(s[end - 1])
    } else {
        0
    }
}

/// The token an identifier run denotes: one of the fixed keywords if the
/// text matches it exactly, otherwise an identifier carrying the text.
pub open spec fn keyword_or_ident(text: Seq<char>) -> TokenV {
    if text == "fn"@ {
        TokenV::Fn
    } else if text == "let"@ {
        TokenV::Let
    } else if text == "true"@ {
        TokenV::True
    } else if text == "false"@ {
        TokenV::False
    } else if text == "if"@ {
        TokenV::If
    } else if text == "else"@ {
        TokenV::Else
    } else if text == "return"@ {
        TokenV::Return
    } else {
        TokenV::Ident(text)
    }
}

/// One step of lexing: skip whitespace starting at `pos`, classify the next
/// character, and return the resulting token together with the cursor
/// position after it.
pub open spec fn lex_step(s: Seq<char>, pos: int) -> (TokenV, int) {
    let p = skip_ws(s, pos);
    if !(0 <= p < s.len()) {
        (TokenV::EOF, p)
    } else {
        let c = s[p];
        if c == '=' {
            if p + 1 < s.len() && s[p + 1] == '=' {
                (TokenV::Equal, p + 2)
            } else {
                (TokenV::Assign, p + 1)
            }
        } else if c == '!' {
            if p + 1 < s.len() && s[p + 1] == '=' {
                (TokenV::NotEqual, p + 2)
            } else {
                (TokenV::Bang, p + 1)
            }
        } else if c == '+' {
            (TokenV::Plus, p + 1)
        } else if c == '-' {
            (TokenV::Minus, p + 1)
        } else if c == '*' {
            (TokenV::Asterisk, p + 1)
        } else if c == '/' {
            (TokenV::Slash, p + 1)
        } else if c == '<' {
            (TokenV::Lt, p + 1)
        } else if c == '>' {
            (TokenV::Gt, p + 1)
        } else if c == ',' {
            (TokenV::Comma, p + 1)
        } else if c == ';' {
            (TokenV::Semicolon, p + 1)
        } else if c == '(' {
            (TokenV::Lparen, p + 1)
        } else if c == ')' {
            (TokenV::Rparen, p + 1)
        } else if c == '{' {
            (TokenV::Lbrace, p + 1)
        } else if c == '}' {
            (TokenV::Rbrace, p + 1)
        } else if is_letter_char(c) {
            let e = letters_end(s, p);
            (keyword_or_ident(s.subrange(p, e)), e)
        } else if is_digit_char(c) {
            let e = digits_end(s, p);
            let value = digits_val(s, p, e);
            if value <= i64::MAX {
                (TokenV::Int(value as i64), e)
            } else {
                (TokenV::Illegal, e)
            }
        } else {
            (TokenV::Illegal, p + 1)
        }
    }
}

/// The full tokenization of `s` from `pos`: the tokens `lex_step` yields,
/// up to and including the first EOF.
pub open spec fn lex_all(s: Seq<char>, pos: int) -> Seq<TokenV>
    decreases s.len() - pos,
{
    let step = lex_step(s, pos);
    if step.0 == TokenV::EOF {
        seq![TokenV::EOF]
    } else if pos < step.1 <= s.len() {
        seq![step.0] + lex_all(s, step.1)
    } else {
        seq![step.0]
    }
}

pub proof fn lemma_skip_ws_bounds(s: Seq<char>, pos: int)
    requires
        0 <= pos <= s.len(),
    ensures
        pos <= skip_ws(s, pos) <= s.len(),
    decreases s.len() - pos,
{
    if pos < s.len() && is_ws_char(s[pos]) {
        lemma_skip_ws_bounds(s, pos + 1);
    }
}

pub proof fn lemma_letters_end_bounds(s: Seq<char>, pos: int)
    requires
        0 <= pos <= s.len(),
    ensures
        pos <= letters_end(s, pos) <= s.len(),
    decreases s.len() - pos,
{
    if pos < s.len() && is_letter_char(s[pos]) {
        lemma_letters_end_bounds(s, pos + 1);
    }
}

pub proof fn lemma_digits_end_bounds(s: Seq<char>, pos: int)
    requires
        0 <= pos <= s.len(),
    ensures
        pos <= digits_end(s, pos) <= s.len(),
    decreases s.len() - pos,
{
    if pos < s.len() && is_digit_char(s[pos]) {
        lemma_digits_end_bounds(s, pos + 1);
    }
}

/// A lexing step never moves the cursor backwards or past the end, and it
/// moves strictly forward whenever the token is not EOF.
pub proof fn lemma_lex_step_bounds(s: Seq<char>, pos: int)
    requires
        0 <= pos <= s.len(),
    ensures
        pos <= lex_step(s, pos).1 <= s.len(),
        lex_step(s, pos).0 != TokenV::EOF ==> pos < lex_step(s, pos).1,
{
    lemma_skip_ws_bounds(s, pos);
    let p = skip_ws(s, pos);
    if 0 <= p < s.len() {
        let c = s[p];
        if is_letter_char(c) {
            lemma_letters_end_bounds(s, p + 1);
            assert(letters_end(s, p) == letters_end(s, p + 1));
        } else if is_digit_char(c) {
            lemma_digits_end_bounds(s, p + 1);
            assert(digits_end(s, p) == digits_end(s, p + 1));
        }
    }
}

/// Once lexing yields EOF, lexing again from the resulting cursor yields
/// EOF with the cursor unmoved, and so on forever: EOF is a fixed point
/// of the token stream, not an error.
pub proof fn lemma_eof_fixed_point(s: Seq<char>, pos: int)
    requires
        lex_step(s, pos).0 == TokenV::EOF,
    ensures
        lex_step(s, lex_step(s, pos).1) == (TokenV::EOF, lex_step(s, pos).1),
{
}

/// The tag that each single-character punctuation or operator input
/// lexes to.
pub open spec fn single_char_token(c: char) -> TokenV {
    if c == '+' {
        TokenV::Plus
    } else if c == '=' {
        TokenV::Assign
    } else if c == ',' {
        TokenV::Comma
    } else if c == ';' {
        TokenV::Semicolon
    } else if c == '(' {
        TokenV::Lparen
    } else if c == ')' {
        TokenV::Rparen
    } else if c == '{' {
        TokenV::Lbrace
    } else {
        TokenV::Rbrace
    }
}

/// For every single-character input drawn from `+ = , ; ( ) { }`, the
/// tokenization is exactly one token of the corresponding tag, followed
/// by EOF.
pub proof fn lemma_single_char_input(c: char)
    requires
        c == '+' || c == '=' || c == ',' || c == ';' || c == '(' || c == ')' || c == '{' || c
            == '}',
    ensures
        lex_all(seq![c], 0) == seq![single_char_token(c), TokenV::EOF],
{
    let s = seq![c];
    let step = lex_step(s, 0);
    assert(skip_ws(s, 0) == 0);
    assert(step.0 == single_char_token(c) && step.1 == 1);
    assert(skip_ws(s, 1) == 1);
    assert(lex_step(s, 1).0 == TokenV::EOF);
    assert(lex_all(s, 1) == seq![TokenV::EOF]);
    assert(seq![single_char_token(c)] + seq![TokenV::EOF] =~= seq![
        single_char_token(c),
        TokenV::EOF,
    ]);
}

/// Converts a source string into a stream of tokens, one per call to
/// `next_token`, ending with an unbounded run of EOF tokens.
pub struct Lexer {
    input: String,
    length: usize,
    position: usize,
    read_position: usize,
    ch: char,
}

impl Lexer {
    /// The characters of the source text this lexer reads.
    pub closed spec fn text(self) -> Seq<char> {
        self.input@
    }

    /// The current cursor position, as a character index into the text.
    pub closed spec fn cursor(self) -> int {
        self.position as int
    }

    /// Internal consistency: the cached length matches the text, the cursor
    /// never passes the end, the read position trails the cursor by exactly
    /// one character while input remains, and `ch` holds the character under
    /// the cursor, with NUL standing for the end of the input.
    pub closed spec fn wf(self) -> bool {
        &&& self.length == self.input@.len()
        &&& self.position <= self.length
        &&& self.read_position as int == if self.position < self.length {
            self.position + 1
        } else {
            self.position as int
        }
        &&& self.ch == if self.position < self.length {
            self.input@[self.position as int]
        } else {
            '\0'
        }
    }

    /// A well-formed lexer's cursor stays within its text.
    pub proof fn lemma_wf_bounds(self)
        requires
            self.wf(),
        ensures
            0 <= self.cursor() <= self.text().len(),
    {
    }

    /// Builds a lexer over `input` with its cursor on the first character.
    pub fn new(input: &str) -> (l: Lexer)
        ensures
            l.wf(),
            l.text() == input@,
            l.cursor() == 0,
    {
        let text = String::from_str(input);
        let length = text.as_str().unicode_len();
        let mut l = Lexer { input: text, length, position: 0, read_position: 0, ch: '\0' };
        l.read_char();
        l
    }

    /// Advances the cursor by one character, loading `ch` with the character
    /// now under it, or with NUL once the input is exhausted.
    fn read_char(&mut self)
        requires
            old(self).length == old(self).input@.len(),
            old(self).read_position <= old(self).length,
        ensures
            final(self).input == old(self).input,
            final(self).length == old(self).length,
            final(self).position == old(self).read_position,
            old(self).read_position < old(self).length ==> {
                &&& final(self).read_position == old(self).read_position + 1
                &&& final(self).ch == old(self).input@[old(self).read_position as int]
            },
            old(self).read_position >= old(self).length ==> {
                &&& final(self).read_position == old(self).read_position
                &&& final(self).ch == '\0'
            },
    {
        if self.read_position >= self.length {
            self.ch = '\0';
            self.position = self.read_position;
        } else {
            self.ch = self.input.as_str().get_char(self.read_position);
            self.position = self.read_position;
            self.read_position = self.read_position + 1;
        }
    }

    /// The character one past the cursor, or NUL if none remains.
    fn peek_char(&self) -> (c: char)
        requires
            self.wf(),
        ensures
            c == if self.read_position < self.length {
                self.input@[self.read_position as int]
            } else {
                '\0'
            },
    {
        if self.read_position >= self.length {
            '\0'
        } else {
            self.input.as_str().get_char(self.read_position)
        }
    }

    /// Moves the cursor past any run of whitespace.
    fn skip_whitespace(&mut self)
        requires
            old(self).wf(),
        ensures
            final(self).wf(),
            final(self).input == old(self).input,
            final(self).cursor() == skip_ws(old(self).text(), old(self).cursor()),
    {
        while self.ch == ' ' || self.ch == '\t' || self.ch == '\n' || self.ch == '\r'
            invariant
                self.wf(),
                self.input == old(self).input,
                skip_ws(self.text(), self.cursor()) == skip_ws(old(self).text(), old(self).cursor()),
            decreases self.length - self.position,
        {
            self.read_char();
        }
    }

    /// Scans the maximal identifier run under the cursor and returns its
    /// text, leaving the cursor on the first character after the run.
    fn read_identifier(&mut self) -> (s: String)
        requires
            old(self).wf(),
            old(self).position < old(self).length,
            is_letter_char(old(self).ch),
        ensures
            final(self).wf(),
            final(self).input == old(self).input,
            final(self).cursor() == letters_end(old(self).text(), old(self).cursor()),
            s@ == old(self).text().subrange(old(self).cursor(), final(self).cursor()),
    {
        let start = self.position;
        while is_letter(&self.ch)
            invariant
                self.wf(),
                self.input == old(self).input,
                start <= self.position,
                letters_end(self.text(), start as int) == letters_end(self.text(), self.cursor()),
            decreases self.length - self.position,
        {
            self.read_char();
        }
        let sub = self.input.as_str().substring_char(start, self.position);
        sub.to_owned()
    }

    /// Scans the maximal digit run under the cursor and returns its value,
    /// or `None` if the value does not fit a 64-bit signed integer.
    fn read_number(&mut self) -> (v: Option<i64>)
        requires
            old(self).wf(),
            old(self).position < old(self).length,
            is_digit_char(old(self).ch),
        ensures
            final(self).wf(),
            final(self).input == old(self).input,
            final(self).cursor() == digits_end(old(self).text(), old(self).cursor()),
            ({
                let value = digits_val(old(self).text(), old(self).cursor(), final(self).cursor());
                match v {
                    Some(n) => n as int == value,
                    None => value > i64::MAX,
                }
            }),
    {
        let ghost s = self.input@;
        let start = self.position;
        let mut val: i64 = 0;
        let mut overflow: bool = false;
        while is_digit(&self.ch)
            invariant
                self.wf(),
                self.input == old(self).input,
                self.input@ == s,
                start <= self.position,
                digits_end(s, start as int) == digits_end(s, self.cursor()),
                !overflow ==> 0 <= val && val as int == digits_val(s, start as int, self.cursor()),
                overflow ==> digits_val(s, start as int, self.cursor()) > i64::MAX,
            decreases self.length - self.position,
        {
            let d: u32 = (self.ch as u32) - 48;
            if !overflow {
                let d64: i64 = d as i64;
                match val.checked_mul(10) {
                    Some(v10) => match v10.checked_add(d64) {
                        Some(v2) => {
                            val = v2;
                        }
                        None => {
                            overflow = true;
                        }
                    },
                    None => {
                        overflow = true;
                    }
                }
            }
            self.read_char();
        }
        if overflow {
            None
        } else {
            Some(val)
        }
    }

    /// Reads an identifier run and resolves it against the keyword table.
    fn consume_identifier(&mut self) -> (t: Token)
        requires
            old(self).wf(),
            old(self).position < old(self).length,
            is_letter_char(old(self).ch),
        ensures
            final(self).wf(),
            final(self).input == old(self).input,
            final(self).cursor() == letters_end(old(self).text(), old(self).cursor()),
            t@ == keyword_or_ident(
                old(self).text().subrange(old(self).cursor(), final(self).cursor()),
            ),
    {
        let literal = self.read_identifier();
        if literal.eq(&"fn".to_owned()) {
            return Token::Fn;
        }
        if literal.eq(&"let".to_owned()) {
            return Token::Let;
        }
        if literal.eq(&"true".to_owned()) {
            return Token::True;
        }
        if literal.eq(&"false".to_owned()) {
            return Token::False;
        }
        if literal.eq(&"if".to_owned()) {
            return Token::If;
        }
        if literal.eq(&"else".to_owned()) {
            return Token::Else;
        }
        if literal.eq(&"return".to_owned()) {
            return Token::Return;
        }
        Token::Ident(literal)
    }

    /// Reads a digit run as an integer literal token; a value beyond the
    /// 64-bit signed range becomes an Illegal token.
    fn consume_number(&mut self) -> (t: Token)
        requires
            old(self).wf(),
            old(self).position < old(self).length,
            is_digit_char(old(self).ch),
        ensures
            final(self).wf(),
            final(self).input == old(self).input,
            final(self).cursor() == digits_end(old(self).text(), old(self).cursor()),
            t@ == ({
                let value = digits_val(old(self).text(), old(self).cursor(), final(self).cursor());
                if value <= i64::MAX {
                    TokenV::Int(value as i64)
                } else {
                    TokenV::Illegal
                }
            }),
    {
        match self.read_number() {
            Some(n) => Token::Int(n),
            None => Token::Illegal,
        }
    }

    /// Produces the next token of the stream: exactly the token `lex_step`
    /// describes at the current cursor, moving the cursor as it does.
    pub fn next_token(&mut self) -> (t: Token)
        requires
            old(self).wf(),
        ensures
            final(self).wf(),
            final(self).text() == old(self).text(),
            t@ == lex_step(old(self).text(), old(self).cursor()).0,
            final(self).cursor() == lex_step(old(self).text(), old(self).cursor()).1,
    {
        self.skip_whitespace();
        let tok: Token;
        if self.position >= self.length {
            tok = Token::EOF;
        } else if self.ch == '=' {
            if self.peek_char() == '=' {
                self.read_char();
                tok = Token::Equal;
            } else {
                tok = Token::Assign;
            }
        } else if self.ch == '!' {
            if self.peek_char() == '=' {
                self.read_char();
                tok = Token::NotEqual;
            } else {
                tok = Token::Bang;
            }
        } else if self.ch == '+' {
            tok = Token::Plus;
        } else if self.ch == '-' {
            tok = Token::Minus;
        } else if self.ch == '*' {
            tok = Token::Asterisk;
        } else if self.ch == '/' {
            tok = Token::Slash;
        } else if self.ch == '<' {
            tok = Token::Lt;
        } else if self.ch == '>' {
            tok = Token::Gt;
        } else if self.ch == ',' {
            tok = Token::Comma;
        } else if self.ch == ';' {
            tok = Token::Semicolon;
        } else if self.ch == '(' {
            tok = Token::Lparen;
        } else if self.ch == ')' {
            tok = Token::Rparen;
        } else if self.ch == '{' {
            tok = Token::Lbrace;
        } else if self.ch == '}' {
            tok = Token::Rbrace;
        } else if is_letter(&self.ch) {
            return self.consume_identifier();
        } else if is_digit(&self.ch) {
            return self.consume_number();
        } else {
            tok = Token::Illegal;
        }
        self.read_char();
        tok
    }
}

/// Whether a character may appear in an identifier.
pub fn is_letter(ch: &char) -> (r: bool)
    ensures
        r == is_letter_char(*ch),
{
    ('a' <= *ch && *ch <= 'z') || ('A' <= *ch && *ch <= 'Z') || *ch == '_'
}

/// Whether a character is a decimal digit.
pub fn is_digit(ch: &char) -> (r: bool)
    ensures
        r == is_digit_char(*ch),
{
    '0' <= *ch && *ch <= '9'
}

} // verus!
