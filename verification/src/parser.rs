//! Syntax analysis: a recursive-descent parser for statements with
//! precedence-climbing (Pratt) parsing for expressions.
//!
//! The parser is specified against a family of `sp_parse_*` functions that
//! describe, over a sequence of token views, exactly which statements and
//! diagnostics a given token stream produces. The executable parser is
//! proved to return precisely what those functions describe.

use vstd::prelude::*;
use vstd::string::StringExecFns;

use crate::ast::Expr;
use crate::ast::ExprV;
use crate::ast::Ident;
use crate::ast::Infix;
use crate::ast::Literal;
use crate::ast::LiteralV;
use crate::ast::Precedence;
use crate::ast::Prefix;
use crate::ast::Program;
use crate::ast::Stmt;
use crate::ast::StmtV;
use crate::ast::opt_expr_view;
use crate::ast::opt_stmt_view;
use crate::ast::prec_level;
use crate::ast::program_view;
use crate::ast::spec_prec_level;
use crate::lexer::Lexer;
use crate::lexer::lemma_lex_step_bounds;
use crate::lexer::lex_all;
use crate::token::Token;
use crate::token::TokenV;
use crate::token::token_desc;
use crate::token::token_eq;

verus! {

/// The token at index `i` of an EOF-terminated stream: reading past the end
/// keeps yielding EOF.
pub open spec fn tv(toks: Seq<TokenV>, i: int) -> TokenV {
    if 0 <= i < toks.len() {
        toks[i]
    } else {
        TokenV::EOF
    }
}

/// The cursor position after advancing one token: one step forward, but
/// never past the final (EOF) token.
pub open spec fn sp_adv(toks: Seq<TokenV>, p: int) -> int {
    if p + 1 < toks.len() {
        p + 1
    } else {
        toks.len() - 1
    }
}

/// The views of a sequence of tokens.
pub open spec fn token_views(s: Seq<Token>) -> Seq<TokenV> {
    Seq::new(s.len(), |i: int| s[i]@)
}

/// The views of a sequence of diagnostic messages.
pub open spec fn message_views(s: Seq<String>) -> Seq<Seq<char>> {
    Seq::new(s.len(), |i: int| s[i]@)
}

/// An empty diagnostic list.
pub open spec fn no_errs() -> Seq<Seq<char>> {
    Seq::empty()
}

/// The diagnostic recorded when `let` is not followed by an identifier.
pub open spec fn msg_let_ident() -> Seq<char> {
    "expected an identifier after 'let'"@
}

/// The diagnostic recorded when a required token is missing: it names both
/// the token that was expected and the token actually seen.
pub open spec fn msg_expected(expected: TokenV, got: TokenV) -> Seq<char> {
    "expected next token to be "@ + token_desc(expected) + ", got "@ + token_desc(got)
        + " instead"@
}

/// The diagnostic recorded when no prefix handler exists for the token at
/// the start of an expression.
pub open spec fn msg_expr_start() -> Seq<char> {
    "unexpected token at the start of an expression"@
}

/// The infix operator a token denotes, if any.
pub open spec fn sp_infix_op(t: TokenV) -> Option<Infix> {
    match t {
        TokenV::Plus => Some(Infix::Plus),
        TokenV::Minus => Some(Infix::Minus),
        TokenV::Asterisk => Some(Infix::Asterisk),
        TokenV::Slash => Some(Infix::Slash),
        TokenV::Lt => Some(Infix::Lt),
        TokenV::Gt => Some(Infix::Gt),
        TokenV::Equal => Some(Infix::Equal),
        TokenV::NotEqual => Some(Infix::NotEqual),
        _ => None,
    }
}

/// The precedence level an infix operator binds at.
pub open spec fn sp_infix_prec(op: Infix) -> int {
    match op {
        Infix::Equal => spec_prec_level(Precedence::Equals),
        Infix::NotEqual => spec_prec_level(Precedence::Equals),
        Infix::Lt => spec_prec_level(Precedence::LessGreater),
        Infix::Gt => spec_prec_level(Precedence::LessGreater),
        Infix::Plus => spec_prec_level(Precedence::Sum),
        Infix::Minus => spec_prec_level(Precedence::Sum),
        Infix::Asterisk => spec_prec_level(Precedence::Product),
        Infix::Slash => spec_prec_level(Precedence::Product),
    }
}

/// The prefix operator a token denotes, if any.
pub open spec fn sp_prefix_op(t: TokenV) -> Option<Prefix> {
    match t {
        TokenV::Bang => Some(Prefix::Bang),
        TokenV::Plus => Some(Prefix::Plus),
        TokenV::Minus => Some(Prefix::Minus),
        _ => None,
    }
}

/// The cursor position after the recovery scan: the first position at or
/// after `pos` holding a semicolon or EOF.
pub open spec fn sp_skip_semi(toks: Seq<TokenV>, pos: int) -> int
    decreases toks.len() - pos,
{
    if tv(toks, pos) == TokenV::Semicolon || tv(toks, pos) == TokenV::EOF {
        pos
    } else if 0 <= pos < toks.len() - 1 {
        sp_skip_semi(toks, pos + 1)
    } else {
        pos
    }
}

/// Parsing a prefix-operator expression whose operator stands at `pos`:
/// the operand is parsed at `Prefix` precedence. Yields the expression (or
/// none), the position of its last token, and any diagnostics.
pub open spec fn sp_parse_prefix(toks: Seq<TokenV>, pos: int) -> (Option<ExprV>, int, Seq<
    Seq<char>,
>)
    decreases toks.len() - pos, 0int,
{
    match sp_prefix_op(tv(toks, pos)) {
        Some(op) => {
            let p1 = sp_adv(toks, pos);
            if p1 <= pos {
                (None, pos, no_errs())
            } else {
                let r = sp_parse_expr(toks, p1, spec_prec_level(Precedence::Prefix));
                match r.0 {
                    Some(x) => (Some(ExprV::Prefix(op, Box::new(x))), r.1, r.2),
                    None => (None, r.1, r.2),
                }
            }
        }
        None => (None, pos, no_errs()),
    }
}

/// One binding step of the Pratt loop: the infix operator stands at `pos`,
/// and its right operand is parsed at the operator's own precedence, which
/// makes chains of equal precedence associate to the left.
pub open spec fn sp_infix_step(toks: Seq<TokenV>, pos: int, left: ExprV) -> (Option<ExprV>, int, Seq<
    Seq<char>,
>)
    decreases toks.len() - pos, 0int,
{
    match sp_infix_op(tv(toks, pos)) {
        Some(op) => {
            let p1 = sp_adv(toks, pos);
            if p1 <= pos {
                (None, pos, no_errs())
            } else {
                let r = sp_parse_expr(toks, p1, sp_infix_prec(op));
                match r.0 {
                    Some(x) => (Some(ExprV::Infix(op, Box::new(left), Box::new(x))), r.1, r.2),
                    None => (None, r.1, r.2),
                }
            }
        }
        None => (None, pos, no_errs()),
    }
}

/// The Pratt loop: while the token after `pos` is an infix operator whose
/// precedence exceeds `floor`, bind `left` to a right operand through
/// `sp_infix_step` and continue with the combined expression.
pub open spec fn sp_infix_loop(toks: Seq<TokenV>, pos: int, left: ExprV, floor: int) -> (Option<
    ExprV,
>, int, Seq<Seq<char>>)
    decreases toks.len() - pos, 1int,
{
    match sp_infix_op(tv(toks, pos + 1)) {
        Some(op) => if sp_infix_prec(op) > floor {
            let p1 = sp_adv(toks, pos);
            if p1 <= pos {
                (Some(left), pos, no_errs())
            } else {
                let r = sp_infix_step(toks, p1, left);
                match r.0 {
                    Some(combined) => if pos < r.1 && r.1 <= toks.len() {
                        let rest = sp_infix_loop(toks, r.1, combined, floor);
                        (rest.0, rest.1, r.2 + rest.2)
                    } else {
                        (Some(combined), r.1, r.2)
                    },
                    None => (None, r.1, r.2),
                }
            }
        } else {
            (Some(left), pos, no_errs())
        },
        None => (Some(left), pos, no_errs()),
    }
}

/// Parsing one expression whose first token stands at `pos`, at precedence
/// floor `floor`: dispatch on a prefix handler, then run the Pratt loop.
/// Yields the expression (or none, with a diagnostic), the position of its
/// last token, and the diagnostics recorded along the way.
pub open spec fn sp_parse_expr(toks: Seq<TokenV>, pos: int, floor: int) -> (Option<ExprV>, int, Seq<
    Seq<char>,
>)
    decreases toks.len() - pos, 2int,
{
    match tv(toks, pos) {
        TokenV::Ident(name) => sp_infix_loop(toks, pos, ExprV::Ident(name), floor),
        TokenV::Int(n) => sp_infix_loop(toks, pos, ExprV::Literal(LiteralV::Int(n)), floor),
        TokenV::Bang | TokenV::Plus | TokenV::Minus => {
            let r = sp_parse_prefix(toks, pos);
            match r.0 {
                Some(x) => if pos <= r.1 && r.1 <= toks.len() {
                    let rest = sp_infix_loop(toks, r.1, x, floor);
                    (rest.0, rest.1, r.2 + rest.2)
                } else {
                    (Some(x), r.1, r.2)
                },
                None => (None, r.1, r.2),
            }
        }
        _ => (None, pos, seq![msg_expr_start()]),
    }
}

/// Parsing a `let` statement whose `let` keyword stands at `pos`. A missing
/// identifier or `=` records a diagnostic and recovers by scanning to the
/// next semicolon; after a successful binding the trailing tokens up to the
/// semicolon are consumed tolerantly.
pub open spec fn sp_parse_let(toks: Seq<TokenV>, pos: int) -> (Option<StmtV>, int, Seq<Seq<char>>) {
    match tv(toks, pos + 1) {
        TokenV::Ident(name) => {
            let p1 = sp_adv(toks, pos);
            if tv(toks, p1 + 1) == TokenV::Assign {
                let p2 = sp_adv(toks, p1);
                let p3 = sp_adv(toks, p2);
                let r = sp_parse_expr(toks, p3, spec_prec_level(Precedence::Lowest));
                match r.0 {
                    Some(e) => (Some(StmtV::Let(name, e)), sp_skip_semi(toks, r.1), r.2),
                    None => (None, r.1, r.2),
                }
            } else {
                (None, sp_skip_semi(toks, p1), seq![
                    msg_expected(TokenV::Assign, tv(toks, p1 + 1)),
                ])
            }
        }
        _ => (None, sp_skip_semi(toks, pos), seq![msg_let_ident()]),
    }
}

/// Parsing a `return` statement whose keyword stands at `pos`.
pub open spec fn sp_parse_return(toks: Seq<TokenV>, pos: int) -> (Option<StmtV>, int, Seq<
    Seq<char>,
>) {
    let p1 = sp_adv(toks, pos);
    let r = sp_parse_expr(toks, p1, spec_prec_level(Precedence::Lowest));
    match r.0 {
        Some(e) => (Some(StmtV::Return(e)), sp_skip_semi(toks, r.1), r.2),
        None => (None, r.1, r.2),
    }
}

/// Parsing a bare expression statement: the trailing semicolon is optional,
/// so that an expression may end a block without a terminator.
pub open spec fn sp_parse_expr_stmt(toks: Seq<TokenV>, pos: int) -> (Option<StmtV>, int, Seq<
    Seq<char>,
>) {
    let r = sp_parse_expr(toks, pos, spec_prec_level(Precedence::Lowest));
    match r.0 {
        Some(e) => if tv(toks, r.1 + 1) == TokenV::Semicolon {
            (Some(StmtV::Expr(e)), sp_adv(toks, r.1), r.2)
        } else {
            (Some(StmtV::Expr(e)), r.1, r.2)
        },
        None => (None, r.1, r.2),
    }
}

/// Statement dispatch on the token at `pos`.
pub open spec fn sp_parse_stmt(toks: Seq<TokenV>, pos: int) -> (Option<StmtV>, int, Seq<
    Seq<char>,
>) {
    match tv(toks, pos) {
        TokenV::Let => sp_parse_let(toks, pos),
        TokenV::Return => sp_parse_return(toks, pos),
        _ => sp_parse_expr_stmt(toks, pos),
    }
}

/// Parsing a whole program from `pos`: statements are collected until the
/// cursor reaches EOF, advancing one token between statements; a statement
/// that fails to parse is omitted while its diagnostics are kept.
pub open spec fn sp_parse_program(toks: Seq<TokenV>, pos: int) -> (Seq<StmtV>, Seq<Seq<char>>)
    decreases toks.len() - pos,
{
    if tv(toks, pos) == TokenV::EOF {
        (Seq::<StmtV>::empty(), no_errs())
    } else {
        let r = sp_parse_stmt(toks, pos);
        let p2 = sp_adv(toks, r.1);
        let here = match r.0 {
            Some(s) => seq![s],
            None => Seq::<StmtV>::empty(),
        };
        if pos < p2 && p2 <= toks.len() {
            let rest = sp_parse_program(toks, p2);
            (here + rest.0, r.2 + rest.1)
        } else {
            (here, r.2)
        }
    }
}

/// Consumes tokens from a `Lexer` with one token of lookahead and builds a
/// `Program` together with an ordered list of diagnostic messages.
pub struct Parser {
    tokens: Vec<Token>,
    pos: usize,
    errors: Vec<String>,
}

impl Parser {
    /// The views of the token stream this parser consumes: the full
    /// tokenization of its source, ending with EOF.
    pub closed spec fn toks_v(self) -> Seq<TokenV> {
        token_views(self.tokens@)
    }

    /// The current cursor: the index of the "current" token.
    pub closed spec fn pos_v(self) -> int {
        self.pos as int
    }

    /// The views of the diagnostics recorded so far, in order.
    pub closed spec fn errs_v(self) -> Seq<Seq<char>> {
        message_views(self.errors@)
    }

    /// The view of the current token.
    pub open spec fn cur_v(self) -> TokenV {
        tv(self.toks_v(), self.pos_v())
    }

    /// The view of the peek token, one past the current one.
    pub open spec fn peek_v(self) -> TokenV {
        tv(self.toks_v(), self.pos_v() + 1)
    }

    /// Internal consistency: the stream is nonempty, ends with its only
    /// EOF token, and the cursor stands on a token of the stream.
    pub closed spec fn wf(self) -> bool {
        &&& self.tokens@.len() >= 1
        &&& self.pos < self.tokens@.len()
        &&& self.tokens@[self.tokens@.len() - 1]@ == TokenV::EOF
        &&& forall|k: int|
            0 <= k < self.tokens@.len() - 1 ==> (#[trigger] self.tokens@[k]@) != TokenV::EOF
    }

    /// Builds a parser over the tokens of `l`, with the cursor on the first
    /// of them.
    pub fn new(l: Lexer) -> (p: Parser)
        requires
            l.wf(),
        ensures
            p.wf(),
            p.toks_v() == lex_all(l.text(), l.cursor()),
            p.pos_v() == 0,
            p.errs_v() == no_errs(),
    {
        let mut lx = l;
        let mut tokens: Vec<Token> = Vec::new();
        proof {
            lx.lemma_wf_bounds();
        }
        loop
            invariant_except_break
                lx.wf(),
                lx.text() == l.text(),
                0 <= lx.cursor() <= lx.text().len(),
                lex_all(l.text(), l.cursor()) == token_views(tokens@) + lex_all(
                    lx.text(),
                    lx.cursor(),
                ),
                forall|k: int|
                    0 <= k < tokens@.len() ==> (#[trigger] tokens@[k]@) != TokenV::EOF,
            ensures
                tokens@.len() >= 1,
                token_views(tokens@) == lex_all(l.text(), l.cursor()),
                tokens@[tokens@.len() - 1]@ == TokenV::EOF,
                forall|k: int|
                    0 <= k < tokens@.len() - 1 ==> (#[trigger] tokens@[k]@) != TokenV::EOF,
            decreases lx.text().len() - lx.cursor(),
        {
            let ghost txt = lx.text();
            let ghost pp = lx.cursor();
            let t = lx.next_token();
            proof {
                lemma_lex_step_bounds(txt, pp);
            }
            let is_eof = token_eq(&t, &Token::EOF);
            proof {
                assert(token_views(tokens@.push(t)) =~= token_views(tokens@) + seq![t@]);
                if t@ != TokenV::EOF {
                    assert(seq![t@] + lex_all(txt, lx.cursor()) =~= lex_all(txt, pp));
                    assert(token_views(tokens@.push(t)) + lex_all(txt, lx.cursor()) =~= (
                    token_views(tokens@) + seq![t@]) + lex_all(txt, lx.cursor()));
                    assert((token_views(tokens@) + seq![t@]) + lex_all(txt, lx.cursor())
                        =~= token_views(tokens@) + (seq![t@] + lex_all(txt, lx.cursor())));
                } else {
                    assert(lex_all(txt, pp) =~= seq![TokenV::EOF]);
                    assert(token_views(tokens@.push(t)) =~= token_views(tokens@) + lex_all(
                    txt, pp));
                }
            }
            tokens.push(t);
            if is_eof {
                break;
            }
        }
        let p = Parser { tokens, pos: 0, errors: Vec::new() };
        proof {
            assert(p.errs_v() =~= no_errs());
        }
        p
    }

    /// A reference to the current token.
    fn cur_token(&self) -> (t: &Token)
        requires
            self.wf(),
        ensures
            t@ == self.cur_v(),
    {
        &self.tokens[self.pos]
    }

    /// A reference to the peek token; once the cursor stands on the final
    /// EOF token, the peek token is that same EOF.
    fn peek_token(&self) -> (t: &Token)
        requires
            self.wf(),
        ensures
            t@ == self.peek_v(),
    {
        let n = self.tokens.len();
        if self.pos < n - 1 {
            &self.tokens[self.pos + 1]
        } else {
            &self.tokens[n - 1]
        }
    }

    /// The diagnostics recorded so far, in order.
    pub fn errors(&self) -> (e: &Vec<String>)
        ensures
            message_views(e@) == self.errs_v(),
    {
        &self.errors
    }

    /// Shifts the lookahead window one token forward: the peek token
    /// becomes current. On the final EOF token the cursor stays put, so
    /// EOF remains current forever.
    fn next_token(&mut self)
        requires
            old(self).wf(),
        ensures
            final(self).wf(),
            final(self).toks_v() == old(self).toks_v(),
            final(self).errs_v() == old(self).errs_v(),
            final(self).pos_v() == sp_adv(old(self).toks_v(), old(self).pos_v()),
    {
        let n = self.tokens.len();
        if self.pos < n - 1 {
            self.pos = self.pos + 1;
        }
    }

    /// Whether the current token equals `tok`.
    fn cur_token_is(&self, tok: Token) -> (r: bool)
        requires
            self.wf(),
        ensures
            r == (self.cur_v() == tok@),
    {
        token_eq(self.cur_token(), &tok)
    }

    /// Whether the peek token equals `tok`.
    fn peek_token_is(&self, tok: &Token) -> (r: bool)
        requires
            self.wf(),
        ensures
            r == (self.peek_v() == tok@),
    {
        token_eq(self.peek_token(), tok)
    }

    /// Whether the peek token is an infix operator.
    fn peek_token_is_infix(&self) -> (r: bool)
        requires
            self.wf(),
        ensures
            r == (sp_infix_op(self.peek_v()) is Some),
    {
        infix_op_of(self.peek_token()).is_some()
    }

    /// Records that `tok` was expected where the peek token stands, naming
    /// the token actually seen there.
    fn peek_error(&mut self, tok: &Token)
        requires
            old(self).wf(),
        ensures
            final(self).wf(),
            final(self).toks_v() == old(self).toks_v(),
            final(self).pos_v() == old(self).pos_v(),
            final(self).errs_v() == old(self).errs_v().push(
                msg_expected(tok@, old(self).peek_v()),
            ),
    {
        let expected = tok.describe();
        let got = self.peek_token().describe();
        let mut msg = String::from_str("expected next token to be ");
        msg.append(expected.as_str());
        msg.append(", got ");
        msg.append(got.as_str());
        msg.append(" instead");
        self.errors.push(msg);
        proof {
            assert(self.errs_v() =~= old(self).errs_v().push(
                msg_expected(tok@, old(self).peek_v()),
            ));
        }
    }

    /// Advances past the peek token when it equals `tok`; otherwise leaves
    /// the cursor alone and records a diagnostic.
    fn consume_token(&mut self, tok: Token) -> (r: bool)
        requires
            old(self).wf(),
        ensures
            final(self).wf(),
            final(self).toks_v() == old(self).toks_v(),
            r == (old(self).peek_v() == tok@),
            r ==> final(self).pos_v() == sp_adv(old(self).toks_v(), old(self).pos_v())
                && final(self).errs_v() == old(self).errs_v(),
            !r ==> final(self).pos_v() == old(self).pos_v() && final(self).errs_v() == old(
                self,
            ).errs_v().push(msg_expected(tok@, old(self).peek_v())),
    {
        if self.peek_token_is(&tok) {
            self.next_token();
            true
        } else {
            self.peek_error(&tok);
            false
        }
    }

    /// The named recovery routine: scans forward until the current token is
    /// a semicolon or EOF.
    fn skip_to_semicolon(&mut self)
        requires
            old(self).wf(),
        ensures
            final(self).wf(),
            final(self).toks_v() == old(self).toks_v(),
            final(self).errs_v() == old(self).errs_v(),
            old(self).pos_v() <= final(self).pos_v(),
            final(self).pos_v() == sp_skip_semi(old(self).toks_v(), old(self).pos_v()),
    {
        while !self.cur_token_is(Token::Semicolon) && !self.cur_token_is(Token::EOF)
            invariant
                self.wf(),
                self.toks_v() == old(self).toks_v(),
                self.errs_v() == old(self).errs_v(),
                old(self).pos_v() <= self.pos_v(),
                sp_skip_semi(self.toks_v(), self.pos_v()) == sp_skip_semi(
                    old(self).toks_v(),
                    old(self).pos_v(),
                ),
            decreases self.tokens@.len() - self.pos,
        {
            self.next_token();
        }
    }

    /// The current token as an identifier, if it is one.
    fn parse_ident(&self) -> (r: Option<Ident>)
        requires
            self.wf(),
        ensures
            match self.cur_v() {
                TokenV::Ident(name) => match r {
                    Some(id) => id.0@ == name,
                    None => false,
                },
                _ => r is None,
            },
    {
        match self.cur_token() {
            Token::Ident(s) => Some(Ident(s.clone())),
            _ => None,
        }
    }

    /// The current token as an identifier expression.
    fn parse_ident_expr(&self) -> (r: Option<Expr>)
        requires
            self.wf(),
        ensures
            match self.cur_v() {
                TokenV::Ident(name) => match r {
                    Some(e) => e@ == ExprV::Ident(name),
                    None => false,
                },
                _ => r is None,
            },
    {
        match self.parse_ident() {
            Some(id) => Some(Expr::Ident(id)),
            None => None,
        }
    }

    /// The current token as an integer literal expression.
    fn parse_int_expr(&self) -> (r: Option<Expr>)
        requires
            self.wf(),
        ensures
            match self.cur_v() {
                TokenV::Int(n) => match r {
                    Some(e) => e@ == ExprV::Literal(LiteralV::Int(n)),
                    None => false,
                },
                _ => r is None,
            },
    {
        match self.cur_token() {
            Token::Int(n) => Some(Expr::Literal(Literal::Int(*n))),
            _ => None,
        }
    }

    /// Parses a prefix-operator expression: the operator under the cursor,
    /// then its operand at `Prefix` precedence.
    fn parse_prefix_expr(&mut self) -> (r: Option<Expr>)
        requires
            old(self).wf(),
        ensures
            final(self).wf(),
            final(self).toks_v() == old(self).toks_v(),
            old(self).pos_v() <= final(self).pos_v(),
            ({
                let sp = sp_parse_prefix(old(self).toks_v(), old(self).pos_v());
                &&& opt_expr_view(r) == sp.0
                &&& final(self).pos_v() == sp.1
                &&& final(self).errs_v() == old(self).errs_v() + sp.2
            }),
        decreases old(self).tokens@.len() - old(self).pos, 0int,
    {
        let op: Prefix = match self.cur_token() {
            Token::Bang => Prefix::Bang,
            Token::Plus => Prefix::Plus,
            Token::Minus => Prefix::Minus,
            _ => {
                proof {
                    assert(self.errs_v() =~= old(self).errs_v() + no_errs());
                }
                return None;
            }
        };
        self.next_token();
        match self.parse_expr(Precedence::Prefix) {
            Some(e) => Some(Expr::Prefix(op, Box::new(e))),
            None => None,
        }
    }

    /// Parses one infix binding: the operator under the cursor, then the
    /// right operand at the operator's own precedence, combined with `left`.
    fn parse_infix_expr(&mut self, left: Expr) -> (r: Option<Expr>)
        requires
            old(self).wf(),
        ensures
            final(self).wf(),
            final(self).toks_v() == old(self).toks_v(),
            old(self).pos_v() <= final(self).pos_v(),
            ({
                let sp = sp_infix_step(old(self).toks_v(), old(self).pos_v(), left@);
                &&& opt_expr_view(r) == sp.0
                &&& final(self).pos_v() == sp.1
                &&& final(self).errs_v() == old(self).errs_v() + sp.2
            }),
        decreases old(self).tokens@.len() - old(self).pos, 0int,
    {
        let op: Infix = match infix_op_of(self.cur_token()) {
            Some(o) => o,
            None => {
                proof {
                    assert(self.errs_v() =~= old(self).errs_v() + no_errs());
                }
                return None;
            }
        };
        self.next_token();
        let precedence = infix_precedence(&op);
        match self.parse_expr(precedence) {
            Some(e) => Some(Expr::Infix(op, Box::new(left), Box::new(e))),
            None => None,
        }
    }

    /// Parses one expression at the precedence floor `precedence`: a prefix
    /// handler for the current token, then the Pratt loop, which binds an
    /// upcoming infix operator only while its precedence exceeds the floor.
    #[verifier::loop_isolation(false)]
    fn parse_expr(&mut self, precedence: Precedence) -> (r: Option<Expr>)
        requires
            old(self).wf(),
        ensures
            final(self).wf(),
            final(self).toks_v() == old(self).toks_v(),
            old(self).pos_v() <= final(self).pos_v(),
            ({
                let sp = sp_parse_expr(
                    old(self).toks_v(),
                    old(self).pos_v(),
                    spec_prec_level(precedence),
                );
                &&& opt_expr_view(r) == sp.0
                &&& final(self).pos_v() == sp.1
                &&& final(self).errs_v() == old(self).errs_v() + sp.2
            }),
        decreases old(self).tokens@.len() - old(self).pos, 1int,
    {
        let ghost t0 = old(self).toks_v();
        let ghost p0 = old(self).pos_v();
        let ghost floor_i = spec_prec_level(precedence);
        let floor = prec_level(&precedence);

        let left0: Option<Expr>;
        if matches!(self.cur_token(), Token::Ident(_)) {
            left0 = self.parse_ident_expr();
        } else if matches!(self.cur_token(), Token::Int(_)) {
            left0 = self.parse_int_expr();
        } else if matches!(self.cur_token(), Token::Bang | Token::Plus | Token::Minus) {
            left0 = self.parse_prefix_expr();
        } else {
            self.errors.push("unexpected token at the start of an expression".to_owned());
            proof {
                assert(self.errs_v() =~= old(self).errs_v() + seq![msg_expr_start()]);
            }
            return None;
        }
        let mut left: Expr = match left0 {
            Some(e) => e,
            None => {
                return None;
            }
        };
        proof {
            if sp_prefix_op(tv(t0, p0)) is Some {
                let pref = sp_parse_prefix(t0, p0);
                if pref.0 is Some {
                    let rest = sp_infix_loop(t0, pref.1, pref.0->0, floor_i);
                    assert((old(self).errs_v() + pref.2) + rest.2 =~= old(self).errs_v() + (pref.2
                        + rest.2));
                }
            }
        }
        loop
            invariant
                self.wf(),
                self.toks_v() == t0,
                p0 <= self.pos_v(),
                ({
                    let sp = sp_parse_expr(t0, p0, floor_i);
                    let rem = sp_infix_loop(t0, self.pos_v(), left@, floor_i);
                    &&& sp.0 == rem.0
                    &&& sp.1 == rem.1
                    &&& old(self).errs_v() + sp.2 == self.errs_v() + rem.2
                }),
            decreases self.tokens@.len() - self.pos,
        {
            let ghost pos_i = self.pos_v();
            let ghost errs_i = self.errs_v();
            let ghost left_i = left@;
            if !self.peek_token_is_infix() {
                proof {
                    assert(errs_i + no_errs() =~= errs_i);
                }
                return Some(left);
            }
            let op: Infix = match infix_op_of(self.peek_token()) {
                Some(o) => o,
                None => {
                    proof {
                        assert(errs_i + no_errs() =~= errs_i);
                    }
                    return Some(left);
                }
            };
            let lvl = prec_level(&infix_precedence(&op));
            if lvl <= floor {
                proof {
                    assert(errs_i + no_errs() =~= errs_i);
                }
                return Some(left);
            }
            proof {
                assert(sp_infix_op(tv(t0, pos_i + 1)) == Some(op));
                assert(0 <= pos_i + 1 < t0.len()) by {
                    if !(0 <= pos_i + 1 < t0.len()) {
                        assert(tv(t0, pos_i + 1) == TokenV::EOF);
                    }
                }
                assert(sp_adv(t0, pos_i) == pos_i + 1);
            }
            self.next_token();
            let stepped = self.parse_infix_expr(left);
            proof {
                let r = sp_infix_step(t0, pos_i + 1, left_i);
                let rem_old = sp_infix_loop(t0, pos_i, left_i, floor_i);
                if r.0 is Some {
                    let rest = sp_infix_loop(t0, r.1, r.0->0, floor_i);
                    assert((errs_i + r.2) + rest.2 =~= errs_i + (r.2 + rest.2));
                }
            }
            left = match stepped {
                Some(e) => e,
                None => {
                    return None;
                }
            };
        }
    }

    /// Parses a bare expression statement; a trailing semicolon is consumed
    /// when present but is not required.
    fn parse_expr_stmt(&mut self) -> (r: Option<Stmt>)
        requires
            old(self).wf(),
        ensures
            final(self).wf(),
            final(self).toks_v() == old(self).toks_v(),
            old(self).pos_v() <= final(self).pos_v(),
            ({
                let sp = sp_parse_expr_stmt(old(self).toks_v(), old(self).pos_v());
                &&& opt_stmt_view(r) == sp.0
                &&& final(self).pos_v() == sp.1
                &&& final(self).errs_v() == old(self).errs_v() + sp.2
            }),
    {
        let expr = match self.parse_expr(Precedence::Lowest) {
            Some(e) => e,
            None => {
                return None;
            }
        };
        if self.peek_token_is(&Token::Semicolon) {
            self.next_token();
        }
        Some(Stmt::Expr(expr))
    }

    /// Parses a `let` statement: `let`, a binding name, `=`, an expression
    /// at `Lowest` precedence, then tolerant consumption up to the next
    /// semicolon. A missing name or `=` records a diagnostic, recovers to
    /// the next semicolon, and produces no statement.
    fn parse_let_stmt(&mut self) -> (r: Option<Stmt>)
        requires
            old(self).wf(),
        ensures
            final(self).wf(),
            final(self).toks_v() == old(self).toks_v(),
            old(self).pos_v() <= final(self).pos_v(),
            ({
                let sp = sp_parse_let(old(self).toks_v(), old(self).pos_v());
                &&& opt_stmt_view(r) == sp.0
                &&& final(self).pos_v() == sp.1
                &&& final(self).errs_v() == old(self).errs_v() + sp.2
            }),
    {
        if !matches!(self.peek_token(), Token::Ident(_)) {
            self.errors.push("expected an identifier after 'let'".to_owned());
            proof {
                assert(self.errs_v() =~= old(self).errs_v() + seq![msg_let_ident()]);
            }
            self.skip_to_semicolon();
            return None;
        }
        self.next_token();
        let name = match self.parse_ident() {
            Some(n) => n,
            None => {
                return None;
            }
        };
        if !self.consume_token(Token::Assign) {
            proof {
                assert(self.errs_v() =~= old(self).errs_v() + seq![
                    msg_expected(TokenV::Assign, self.peek_v()),
                ]);
            }
            self.skip_to_semicolon();
            return None;
        }
        self.next_token();
        let expr = match self.parse_expr(Precedence::Lowest) {
            Some(e) => e,
            None => {
                return None;
            }
        };
        self.skip_to_semicolon();
        Some(Stmt::Let(name, expr))
    }

    /// Parses a `return` statement: `return`, an expression at `Lowest`
    /// precedence, then tolerant consumption up to the next semicolon.
    fn parse_return_stmt(&mut self) -> (r: Option<Stmt>)
        requires
            old(self).wf(),
        ensures
            final(self).wf(),
            final(self).toks_v() == old(self).toks_v(),
            old(self).pos_v() <= final(self).pos_v(),
            ({
                let sp = sp_parse_return(old(self).toks_v(), old(self).pos_v());
                &&& opt_stmt_view(r) == sp.0
                &&& final(self).pos_v() == sp.1
                &&& final(self).errs_v() == old(self).errs_v() + sp.2
            }),
    {
        self.next_token();
        let expr = match self.parse_expr(Precedence::Lowest) {
            Some(e) => e,
            None => {
                return None;
            }
        };
        self.skip_to_semicolon();
        Some(Stmt::Return(expr))
    }

    /// Dispatches on the current token to the matching statement parser.
    fn parse_stmt(&mut self) -> (r: Option<Stmt>)
        requires
            old(self).wf(),
        ensures
            final(self).wf(),
            final(self).toks_v() == old(self).toks_v(),
            old(self).pos_v() <= final(self).pos_v(),
            ({
                let sp = sp_parse_stmt(old(self).toks_v(), old(self).pos_v());
                &&& opt_stmt_view(r) == sp.0
                &&& final(self).pos_v() == sp.1
                &&& final(self).errs_v() == old(self).errs_v() + sp.2
            }),
    {
        if self.cur_token_is(Token::Let) {
            self.parse_let_stmt()
        } else if self.cur_token_is(Token::Return) {
            self.parse_return_stmt()
        } else {
            self.parse_expr_stmt()
        }
    }

    /// Drains the token stream and returns the program it describes: the
    /// statements `sp_parse_program` yields for this stream, while the
    /// recorded diagnostics grow by exactly the ones it yields.
    #[verifier::loop_isolation(false)]
    pub fn parse_program(&mut self) -> (prog: Program)
        requires
            old(self).wf(),
        ensures
            final(self).wf(),
            final(self).toks_v() == old(self).toks_v(),
            final(self).cur_v() == TokenV::EOF,
            ({
                let sp = sp_parse_program(old(self).toks_v(), old(self).pos_v());
                &&& program_view(prog@) == sp.0
                &&& final(self).errs_v() == old(self).errs_v() + sp.1
            }),
    {
        let ghost t0 = old(self).toks_v();
        let ghost p0 = old(self).pos_v();
        let mut program: Program = Vec::new();
        while !self.cur_token_is(Token::EOF)
            invariant
                self.wf(),
                self.toks_v() == t0,
                p0 <= self.pos_v(),
                ({
                    let sp = sp_parse_program(t0, p0);
                    let rem = sp_parse_program(t0, self.pos_v());
                    &&& sp.0 == program_view(program@) + rem.0
                    &&& old(self).errs_v() + sp.1 == self.errs_v() + rem.1
                }),
            decreases self.tokens@.len() - self.pos,
        {
            let ghost pos_i = self.pos_v();
            let ghost errs_i = self.errs_v();
            let ghost prog_i = program@;
            let stmt_opt = self.parse_stmt();
            match stmt_opt {
                Some(stmt) => {
                    proof {
                        assert(program_view(prog_i.push(stmt)) =~= program_view(prog_i) + seq![
                            stmt@,
                        ]);
                    }
                    program.push(stmt);
                }
                None => {}
            }
            self.next_token();
            proof {
                let r = sp_parse_stmt(t0, pos_i);
                let rem_new = sp_parse_program(t0, self.pos_v());
                let here = match r.0 {
                    Some(s) => seq![s],
                    None => Seq::<StmtV>::empty(),
                };
                assert((program_view(prog_i) + here) + rem_new.0 =~= program_view(prog_i) + (here
                    + rem_new.0));
                assert(program_view(program@) =~= program_view(prog_i) + here);
                assert((errs_i + r.2) + rem_new.1 =~= errs_i + (r.2 + rem_new.1));
            }
        }
        proof {
            let rem = sp_parse_program(t0, self.pos_v());
            assert(program_view(program@) + rem.0 =~= program_view(program@));
            assert(self.errs_v() + rem.1 =~= self.errs_v());
        }
        program
    }
}

/// The infix operator a token denotes, if any.
fn infix_op_of(t: &Token) -> (r: Option<Infix>)
    ensures
        r == sp_infix_op(t@),
{
    match t {
        Token::Plus => Some(Infix::Plus),
        Token::Minus => Some(Infix::Minus),
        Token::Asterisk => Some(Infix::Asterisk),
        Token::Slash => Some(Infix::Slash),
        Token::Lt => Some(Infix::Lt),
        Token::Gt => Some(Infix::Gt),
        Token::Equal => Some(Infix::Equal),
        Token::NotEqual => Some(Infix::NotEqual),
        _ => None,
    }
}

/// The precedence an infix operator binds at: the dispatch table from
/// operator tag to precedence level.
fn infix_precedence(op: &Infix) -> (p: Precedence)
    ensures
        spec_prec_level(p) == sp_infix_prec(*op),
{
    match op {
        Infix::Equal => Precedence::Equals,
        Infix::NotEqual => Precedence::Equals,
        Infix::Lt => Precedence::LessGreater,
        Infix::Gt => Precedence::LessGreater,
        Infix::Plus => Precedence::Sum,
        Infix::Minus => Precedence::Sum,
        Infix::Asterisk => Precedence::Product,
        Infix::Slash => Precedence::Product,
    }
}

} // verus!
