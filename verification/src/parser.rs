//! Recursive-descent parsing: one function per precedence level, lowest
//! first, with left-associative binary operators built by iterative left
//! folding. The specification is the family of `parse_*` spec functions over
//! token views; the `Parser` methods are proved to compute exactly those
//! functions. The parser is fail-fast: the first grammar violation is
//! returned as a `ParseError` carrying the offending token, with no recovery.
use crate::scanner::opt_seq;
use crate::scanner::scan_from;
use crate::scanner::scan_step;
use crate::scanner::toks_v;
use crate::token::LitV;
use crate::token::LiteralValue;
use crate::token::Token;
use crate::token::TokenType;
use crate::token::TokenV;
use vstd::prelude::*;
use vstd::string::StringExecFns;

verus! {

/// An expression: the non-leaf nodes exclusively own their children.
#[derive(Debug)]
pub enum Expr {
    Binary(Binary),
    Unary(Unary),
    Grouping(Grouping),
    Literal(Literal),
    Variable(Token),
    Assign(Token, Box<Expr>),
}

#[derive(Debug)]
pub struct Binary {
    pub left: Box<Expr>,
    pub operator: Token,
    pub right: Box<Expr>,
}

#[derive(Debug)]
pub struct Unary {
    pub operator: Token,
    pub right: Box<Expr>,
}

#[derive(Debug)]
pub struct Grouping {
    pub expr: Box<Expr>,
}

#[derive(Debug)]
pub struct Literal {
    pub value: LiteralValue,
}

/// A statement: a program is an ordered sequence of these.
#[derive(Debug)]
pub enum Stmt {
    Expr(Expr),
    Print(Expr),
    Variable(Var),
}

/// A variable declaration: a declaration without an initializer binds nil.
#[derive(Debug)]
pub struct Var {
    pub name: Token,
    pub initializer: Option<Box<Expr>>,
}

/// The mathematical shape of an expression.
pub enum ExprV {
    Binary { left: Box<ExprV>, operator: TokenV, right: Box<ExprV> },
    Unary { operator: TokenV, right: Box<ExprV> },
    Grouping { inner: Box<ExprV> },
    Literal { value: LitV },
    Variable { name: TokenV },
    Assign { name: TokenV, value: Box<ExprV> },
}

/// The mathematical shape of a statement.
pub enum StmtV {
    Expr { expr: ExprV },
    Print { expr: ExprV },
    Var { name: TokenV, initializer: Option<ExprV> },
}

/// The shape of an expression tree.
pub open spec fn expr_v(e: Expr) -> ExprV
    decreases e,
{
    match e {
        Expr::Binary(b) => ExprV::Binary {
            left: Box::new(expr_v(*b.left)),
            operator: b.operator@,
            right: Box::new(expr_v(*b.right)),
        },
        Expr::Unary(u) => ExprV::Unary {
            operator: u.operator@,
            right: Box::new(expr_v(*u.right)),
        },
        Expr::Grouping(g) => ExprV::Grouping { inner: Box::new(expr_v(*g.expr)) },
        Expr::Literal(l) => ExprV::Literal { value: l.value@ },
        Expr::Variable(t) => ExprV::Variable { name: t@ },
        Expr::Assign(t, e2) => ExprV::Assign { name: t@, value: Box::new(expr_v(*e2)) },
    }
}

impl View for Expr {
    type V = ExprV;

    open spec fn view(&self) -> ExprV {
        expr_v(*self)
    }
}

/// The shape of a statement.
pub open spec fn stmt_v(s: Stmt) -> StmtV {
    match s {
        Stmt::Expr(e) => StmtV::Expr { expr: expr_v(e) },
        Stmt::Print(e) => StmtV::Print { expr: expr_v(e) },
        Stmt::Variable(v) => StmtV::Var {
            name: v.name@,
            initializer: match v.initializer {
                Some(e) => Some(expr_v(*e)),
                None => None,
            },
        },
    }
}

impl View for Stmt {
    type V = StmtV;

    open spec fn view(&self) -> StmtV {
        stmt_v(*self)
    }
}

/// The views of a sequence of statements.
pub open spec fn stmts_v(ss: Seq<Stmt>) -> Seq<StmtV> {
    ss.map_values(|s: Stmt| s@)
}

/// A grammar violation: the offending token and a message.
pub struct PErrV {
    pub token: TokenV,
    pub msg: Seq<char>,
}

/// What parsing one expression yields: the node and the position after it,
/// or the first violation.
pub enum ExprRes {
    Found { e: ExprV, next: nat },
    Failed { err: PErrV },
}

/// What parsing one statement yields.
pub enum StmtRes {
    Found { s: StmtV, next: nat },
    Failed { err: PErrV },
}

/// What parsing a whole program yields.
pub enum ProgRes {
    Found { stmts: Seq<StmtV> },
    Failed { err: PErrV },
}

/// The token at `pos`, or a stand-in end-of-input token past the end (a
/// well-formed token sequence ends with its own end-of-input token first).
pub open spec fn tok_at(toks: Seq<TokenV>, pos: nat) -> TokenV {
    if pos < toks.len() {
        toks[pos as int]
    } else {
        TokenV { typ: TokenType::Eof, lexeme: ""@, literal: None, line: 0 }
    }
}

/// Keeps a sub-parse's reported position inside `[lo, len]`; the parser's
/// positions always land there anyway.
pub open spec fn bound_pos(raw: nat, lo: nat, len: nat) -> nat {
    if raw < lo {
        lo
    } else if raw > len {
        len
    } else {
        raw
    }
}

/// `primary → NUMBER | STRING | "true" | "false" | "nil" | IDENTIFIER
///  | "(" expression ")"`.
pub open spec fn parse_primary(toks: Seq<TokenV>, pos: nat) -> ExprRes
    decreases toks.len() - pos, 9int,
    when pos <= toks.len()
{
    let t = tok_at(toks, pos);
    if t.typ == TokenType::False {
        ExprRes::Found { e: ExprV::Literal { value: LitV::Bool(false) }, next: pos + 1 }
    } else if t.typ == TokenType::True {
        ExprRes::Found { e: ExprV::Literal { value: LitV::Bool(true) }, next: pos + 1 }
    } else if t.typ == TokenType::Nil {
        ExprRes::Found { e: ExprV::Literal { value: LitV::Nil }, next: pos + 1 }
    } else if t.typ == TokenType::String || t.typ == TokenType::Number {
        let value = match t.literal {
            Some(l) => l,
            None => LitV::Nil,
        };
        ExprRes::Found { e: ExprV::Literal { value }, next: pos + 1 }
    } else if t.typ == TokenType::Identifier {
        ExprRes::Found { e: ExprV::Variable { name: t }, next: pos + 1 }
    } else if t.typ == TokenType::LeftParen {
        match parse_expression(toks, pos + 1) {
            ExprRes::Failed { err } => ExprRes::Failed { err },
            ExprRes::Found { e, next } => {
                let n2 = bound_pos(next, pos + 1, toks.len());
                if tok_at(toks, n2).typ == TokenType::RightParen {
                    ExprRes::Found { e: ExprV::Grouping { inner: Box::new(e) }, next: n2 + 1 }
                } else {
                    ExprRes::Failed {
                        err: PErrV {
                            token: tok_at(toks, n2),
                            msg: "Expect ')' after expression."@,
                        },
                    }
                }
            },
        }
    } else {
        ExprRes::Failed {
            err: PErrV {
                token: t,
                msg: "Expected expression, got '"@ + t.lexeme + "'"@,
            },
        }
    }
}

/// `unary → ("!" | "-") unary | primary`.
pub open spec fn parse_unary(toks: Seq<TokenV>, pos: nat) -> ExprRes
    decreases toks.len() - pos, 10int,
    when pos <= toks.len()
{
    let t = tok_at(toks, pos);
    if t.typ == TokenType::Bang || t.typ == TokenType::Minus {
        match parse_unary(toks, pos + 1) {
            ExprRes::Failed { err } => ExprRes::Failed { err },
            ExprRes::Found { e, next } => ExprRes::Found {
                e: ExprV::Unary { operator: t, right: Box::new(e) },
                next,
            },
        }
    } else {
        parse_primary(toks, pos)
    }
}

/// Whether `t` continues a `factor`.
pub open spec fn is_factor_op(t: TokenType) -> bool {
    t == TokenType::Slash || t == TokenType::Star
}

/// Whether `t` continues a `term`.
pub open spec fn is_term_op(t: TokenType) -> bool {
    t == TokenType::Minus || t == TokenType::Plus
}

/// Whether `t` continues a `comparison`.
pub open spec fn is_comparison_op(t: TokenType) -> bool {
    t == TokenType::Greater || t == TokenType::GreaterEqual || t == TokenType::Less || t
        == TokenType::LessEqual
}

/// Whether `t` continues an `equality`.
pub open spec fn is_equality_op(t: TokenType) -> bool {
    t == TokenType::BangEqual || t == TokenType::EqualEqual
}

/// The left fold that makes `factor` left-associative: wraps `e` once per
/// following `/` or `*` operand.
pub open spec fn parse_factor_rest(toks: Seq<TokenV>, e: ExprV, pos: nat) -> ExprRes
    decreases toks.len() - pos, 11int,
    when pos <= toks.len()
{
    let t = tok_at(toks, pos);
    if is_factor_op(t.typ) {
        match parse_unary(toks, pos + 1) {
            ExprRes::Failed { err } => ExprRes::Failed { err },
            ExprRes::Found { e: right, next } => {
                let n2 = bound_pos(next, pos + 1, toks.len());
                parse_factor_rest(
                    toks,
                    ExprV::Binary { left: Box::new(e), operator: t, right: Box::new(right) },
                    n2,
                )
            },
        }
    } else {
        ExprRes::Found { e, next: pos }
    }
}

/// `factor → unary (("/" | "*") unary)*`.
pub open spec fn parse_factor(toks: Seq<TokenV>, pos: nat) -> ExprRes
    decreases toks.len() - pos, 12int,
    when pos <= toks.len()
{
    match parse_unary(toks, pos) {
        ExprRes::Failed { err } => ExprRes::Failed { err },
        ExprRes::Found { e, next } => parse_factor_rest(
            toks,
            e,
            bound_pos(next, pos, toks.len()),
        ),
    }
}

/// The left fold that makes `term` left-associative.
pub open spec fn parse_term_rest(toks: Seq<TokenV>, e: ExprV, pos: nat) -> ExprRes
    decreases toks.len() - pos, 13int,
    when pos <= toks.len()
{
    let t = tok_at(toks, pos);
    if is_term_op(t.typ) {
        match parse_factor(toks, pos + 1) {
            ExprRes::Failed { err } => ExprRes::Failed { err },
            ExprRes::Found { e: right, next } => {
                let n2 = bound_pos(next, pos + 1, toks.len());
                parse_term_rest(
                    toks,
                    ExprV::Binary { left: Box::new(e), operator: t, right: Box::new(right) },
                    n2,
                )
            },
        }
    } else {
        ExprRes::Found { e, next: pos }
    }
}

/// `term → factor (("-" | "+") factor)*`.
pub open spec fn parse_term(toks: Seq<TokenV>, pos: nat) -> ExprRes
    decreases toks.len() - pos, 14int,
    when pos <= toks.len()
{
    match parse_factor(toks, pos) {
        ExprRes::Failed { err } => ExprRes::Failed { err },
        ExprRes::Found { e, next } => parse_term_rest(toks, e, bound_pos(next, pos, toks.len())),
    }
}

/// The left fold that makes `comparison` left-associative.
pub open spec fn parse_comparison_rest(toks: Seq<TokenV>, e: ExprV, pos: nat) -> ExprRes
    decreases toks.len() - pos, 15int,
    when pos <= toks.len()
{
    let t = tok_at(toks, pos);
    if is_comparison_op(t.typ) {
        match parse_term(toks, pos + 1) {
            ExprRes::Failed { err } => ExprRes::Failed { err },
            ExprRes::Found { e: right, next } => {
                let n2 = bound_pos(next, pos + 1, toks.len());
                parse_comparison_rest(
                    toks,
                    ExprV::Binary { left: Box::new(e), operator: t, right: Box::new(right) },
                    n2,
                )
            },
        }
    } else {
        ExprRes::Found { e, next: pos }
    }
}

/// `comparison → term ((">" | ">=" | "<" | "<=") term)*`.
pub open spec fn parse_comparison(toks: Seq<TokenV>, pos: nat) -> ExprRes
    decreases toks.len() - pos, 16int,
    when pos <= toks.len()
{
    match parse_term(toks, pos) {
        ExprRes::Failed { err } => ExprRes::Failed { err },
        ExprRes::Found { e, next } => parse_comparison_rest(
            toks,
            e,
            bound_pos(next, pos, toks.len()),
        ),
    }
}

/// The left fold that makes `equality` left-associative.
pub open spec fn parse_equality_rest(toks: Seq<TokenV>, e: ExprV, pos: nat) -> ExprRes
    decreases toks.len() - pos, 17int,
    when pos <= toks.len()
{
    let t = tok_at(toks, pos);
    if is_equality_op(t.typ) {
        match parse_comparison(toks, pos + 1) {
            ExprRes::Failed { err } => ExprRes::Failed { err },
            ExprRes::Found { e: right, next } => {
                let n2 = bound_pos(next, pos + 1, toks.len());
                parse_equality_rest(
                    toks,
                    ExprV::Binary { left: Box::new(e), operator: t, right: Box::new(right) },
                    n2,
                )
            },
        }
    } else {
        ExprRes::Found { e, next: pos }
    }
}

/// `equality → comparison (("!=" | "==") comparison)*`.
pub open spec fn parse_equality(toks: Seq<TokenV>, pos: nat) -> ExprRes
    decreases toks.len() - pos, 18int,
    when pos <= toks.len()
{
    match parse_comparison(toks, pos) {
        ExprRes::Failed { err } => ExprRes::Failed { err },
        ExprRes::Found { e, next } => parse_equality_rest(
            toks,
            e,
            bound_pos(next, pos, toks.len()),
        ),
    }
}

/// `expression → equality`.
pub open spec fn parse_expression(toks: Seq<TokenV>, pos: nat) -> ExprRes
    decreases toks.len() - pos, 20int,
    when pos <= toks.len()
{
    parse_equality(toks, pos)
}

/// `"var" IDENTIFIER ("=" expression)? ";"`, the `var` itself already
/// consumed; a declaration without an initializer binds the name to nil.
pub open spec fn parse_var_declaration(toks: Seq<TokenV>, pos: nat) -> StmtRes
    decreases toks.len() - pos, 28int,
    when pos <= toks.len()
{
    let name = tok_at(toks, pos);
    if name.typ != TokenType::Identifier {
        StmtRes::Failed { err: PErrV { token: name, msg: "Expect variable name."@ } }
    } else if tok_at(toks, pos + 1).typ == TokenType::Equal {
        match parse_expression(toks, pos + 2) {
            ExprRes::Failed { err } => StmtRes::Failed { err },
            ExprRes::Found { e, next } => {
                let n2 = bound_pos(next, pos + 2, toks.len());
                if tok_at(toks, n2).typ == TokenType::SemiColon {
                    StmtRes::Found {
                        s: StmtV::Var { name, initializer: Some(e) },
                        next: n2 + 1,
                    }
                } else {
                    StmtRes::Failed {
                        err: PErrV {
                            token: tok_at(toks, n2),
                            msg: "Expect ';' after variable declaration."@,
                        },
                    }
                }
            },
        }
    } else if tok_at(toks, pos + 1).typ == TokenType::SemiColon {
        StmtRes::Found { s: StmtV::Var { name, initializer: None }, next: pos + 2 }
    } else {
        StmtRes::Failed {
            err: PErrV {
                token: tok_at(toks, pos + 1),
                msg: "Expect ';' after variable declaration."@,
            },
        }
    }
}

/// `"print" expression ";"`, the `print` itself already consumed.
pub open spec fn parse_print_statement(toks: Seq<TokenV>, pos: nat) -> StmtRes
    decreases toks.len() - pos, 28int,
    when pos <= toks.len()
{
    match parse_expression(toks, pos) {
        ExprRes::Failed { err } => StmtRes::Failed { err },
        ExprRes::Found { e, next } => {
            let n2 = bound_pos(next, pos, toks.len());
            if tok_at(toks, n2).typ == TokenType::SemiColon {
                StmtRes::Found { s: StmtV::Print { expr: e }, next: n2 + 1 }
            } else {
                StmtRes::Failed {
                    err: PErrV {
                        token: tok_at(toks, n2),
                        msg: "Expect ';' after expression."@,
                    },
                }
            }
        },
    }
}

/// `expression ";"`.
pub open spec fn parse_expression_statement(toks: Seq<TokenV>, pos: nat) -> StmtRes
    decreases toks.len() - pos, 28int,
    when pos <= toks.len()
{
    match parse_expression(toks, pos) {
        ExprRes::Failed { err } => StmtRes::Failed { err },
        ExprRes::Found { e, next } => {
            let n2 = bound_pos(next, pos, toks.len());
            if tok_at(toks, n2).typ == TokenType::SemiColon {
                StmtRes::Found { s: StmtV::Expr { expr: e }, next: n2 + 1 }
            } else {
                StmtRes::Failed {
                    err: PErrV {
                        token: tok_at(toks, n2),
                        msg: "Expect ';' after expression."@,
                    },
                }
            }
        },
    }
}

/// `statement → "print" expression ";" | expression ";"`.
pub open spec fn parse_statement(toks: Seq<TokenV>, pos: nat) -> StmtRes
    decreases toks.len() - pos, 29int,
    when pos <= toks.len()
{
    if tok_at(toks, pos).typ == TokenType::Print {
        parse_print_statement(toks, pos + 1)
    } else {
        parse_expression_statement(toks, pos)
    }
}

/// `declaration → "var" IDENTIFIER ("=" expression)? ";" | statement`.
pub open spec fn parse_declaration(toks: Seq<TokenV>, pos: nat) -> StmtRes
    decreases toks.len() - pos, 30int,
    when pos <= toks.len()
{
    if tok_at(toks, pos).typ == TokenType::Var {
        parse_var_declaration(toks, pos + 1)
    } else {
        parse_statement(toks, pos)
    }
}

/// A whole program: declarations until the end-of-input token; the first
/// violation aborts the parse.
pub open spec fn parse_program(toks: Seq<TokenV>, pos: nat) -> ProgRes
    decreases toks.len() - pos, 31int,
    when pos <= toks.len()
{
    if tok_at(toks, pos).typ == TokenType::Eof {
        ProgRes::Found { stmts: Seq::empty() }
    } else {
        match parse_declaration(toks, pos) {
            StmtRes::Failed { err } => ProgRes::Failed { err },
            StmtRes::Found { s, next } => {
                let n2 = bound_pos(next, pos, toks.len());
                match parse_program(toks, n2) {
                    ProgRes::Failed { err } => ProgRes::Failed { err },
                    ProgRes::Found { stmts } => ProgRes::Found { stmts: seq![s] + stmts },
                }
            },
        }
    }
}

/// A well-formed token sequence: it ends with an end-of-input token, and
/// every string or number token carries its literal payload.
pub open spec fn toks_wf(toks: Seq<TokenV>) -> bool {
    &&& toks.len() > 0
    &&& toks[toks.len() - 1].typ == TokenType::Eof
    &&& forall|i: int|
        0 <= i < toks.len() && ((#[trigger] toks[i].typ) == TokenType::String || toks[i].typ
            == TokenType::Number) ==> toks[i].literal is Some
}


/// A grammar violation: the offending token and a human-readable message.
#[derive(Debug)]
pub struct ParseError {
    pub token: Token,
    pub message: String,
}

/// The recursive-descent parser over a scanned token sequence.
pub struct Parser {
    tokens: Vec<Token>,
    current: usize,
}

impl Parser {
    /// The tokens under parse.
    pub closed spec fn spec_tokens(self) -> Seq<Token> {
        self.tokens@
    }

    /// How many tokens have been consumed.
    pub closed spec fn spec_current(self) -> nat {
        self.current as nat
    }

    /// Internal consistency: the token sequence is well formed and the
    /// cursor rests on a token (at worst the end-of-input token).
    pub closed spec fn wf(self) -> bool {
        &&& self.current < self.tokens@.len()
        &&& toks_wf(toks_v(self.tokens@))
    }

    pub fn new(tokens: Vec<Token>) -> (r: Self)
        requires
            toks_wf(toks_v(tokens@)),
        ensures
            r.wf(),
            r.spec_tokens() == tokens@,
            r.spec_current() == 0,
    {
        Parser { tokens, current: 0 }
    }

    fn peek(&self) -> (r: &Token)
        requires
            self.wf(),
        ensures
            *r == self.spec_tokens()[self.spec_current() as int],
            r@ == tok_at(toks_v(self.spec_tokens()), self.spec_current()),
    {
        &self.tokens[self.current]
    }

    fn is_at_end(&self) -> (r: bool)
        requires
            self.wf(),
        ensures
            r == (tok_at(toks_v(self.spec_tokens()), self.spec_current()).typ == TokenType::Eof),
    {
        self.peek().typ == TokenType::Eof
    }

    /// Whether the next token has the given type (never true of the
    /// end-of-input token).
    fn check(&self, token_type: &TokenType) -> (r: bool)
        requires
            self.wf(),
        ensures
            r == (tok_at(toks_v(self.spec_tokens()), self.spec_current()).typ == *token_type
                && *token_type != TokenType::Eof),
    {
        if self.is_at_end() {
            false
        } else {
            self.peek().typ == *token_type
        }
    }

    /// Consumes the next token (it must not be the end-of-input one) and
    /// hands it back.
    fn advance(&mut self) -> (r: Token)
        requires
            old(self).wf(),
            tok_at(toks_v(old(self).spec_tokens()), old(self).spec_current()).typ
                != TokenType::Eof,
        ensures
            final(self).wf(),
            final(self).spec_tokens() == old(self).spec_tokens(),
            final(self).spec_current() == old(self).spec_current() + 1,
            r == old(self).spec_tokens()[old(self).spec_current() as int],
            r@ == tok_at(toks_v(old(self).spec_tokens()), old(self).spec_current()),
    {
        let _len = self.tokens.len();
        let t = self.tokens[self.current].clone();
        self.current = self.current + 1;
        t
    }

    /// Consumes the next token if it has the given type; otherwise the
    /// grammar violation, carrying the offending token.
    fn consume(&mut self, token_type: TokenType, message: &str) -> (r: Result<Token, ParseError>)
        requires
            old(self).wf(),
        ensures
            final(self).wf(),
            final(self).spec_tokens() == old(self).spec_tokens(),
            ({
                let t = tok_at(toks_v(old(self).spec_tokens()), old(self).spec_current());
                match r {
                    Ok(tok) => {
                        &&& t.typ == token_type
                        &&& token_type != TokenType::Eof
                        &&& tok@ == t
                        &&& final(self).spec_current() == old(self).spec_current() + 1
                    },
                    Err(pe) => {
                        &&& !(t.typ == token_type && token_type != TokenType::Eof)
                        &&& pe.token@ == t
                        &&& pe.message@ == message@
                        &&& final(self).spec_current() == old(self).spec_current()
                    },
                }
            }),
    {
        if self.check(&token_type) {
            Ok(self.advance())
        } else {
            let token = self.peek().clone();
            Err(ParseError { token, message: message.to_owned() })
        }
    }

    #[verifier::rlimit(100)]
    #[verifier::spinoff_prover]
    fn primary(&mut self) -> (r: Result<Expr, ParseError>)
        requires
            old(self).wf(),
        ensures
            final(self).wf(),
            final(self).spec_tokens() == old(self).spec_tokens(),
            old(self).spec_current() <= final(self).spec_current(),
            ({
                let res = parse_primary(toks_v(old(self).spec_tokens()), old(self).spec_current());
                match r {
                    Ok(e) => res matches ExprRes::Found { e: ev, next } && ev == e@ && final(self).spec_current() == next && old(self).spec_current() < final(self).spec_current(),
                    Err(pe) => res matches ExprRes::Failed { err } && pe.token@ == err.token
                        && pe.message@ == err.msg,
                }
            }),
        decreases self.tokens@.len() - self.current, 9int,
    {
        let typ = self.peek().typ;
        match typ {
            TokenType::False => {
                let _t = self.advance();
                Ok(Expr::Literal(Literal { value: LiteralValue::Boolean(false) }))
            },
            TokenType::True => {
                let _t = self.advance();
                Ok(Expr::Literal(Literal { value: LiteralValue::Boolean(true) }))
            },
            TokenType::Nil => {
                let _t = self.advance();
                Ok(Expr::Literal(Literal { value: LiteralValue::Nil }))
            },
            TokenType::String => {
                let t = self.advance();
                match t.literal {
                    Some(l) => Ok(Expr::Literal(Literal { value: l })),
                    None => vstd::pervasive::unreached(),
                }
            },
            TokenType::Number => {
                let t = self.advance();
                match t.literal {
                    Some(l) => Ok(Expr::Literal(Literal { value: l })),
                    None => vstd::pervasive::unreached(),
                }
            },
            TokenType::Identifier => {
                let t = self.advance();
                Ok(Expr::Variable(t))
            },
            TokenType::LeftParen => {
                let _t = self.advance();
                let e = match self.expression() {
                    Ok(e) => e,
                    Err(pe) => {
                        return Err(pe);
                    },
                };
                match self.consume(TokenType::RightParen, "Expect ')' after expression.") {
                    Ok(_rp) => Ok(Expr::Grouping(Grouping { expr: Box::new(e) })),
                    Err(pe) => Err(pe),
                }
            },
            _ => {
                let token = self.peek().clone();
                let mut message = "Expected expression, got '".to_owned();
                message.append(token.lexeme.as_str());
                message.append("'");
                Err(ParseError { token, message })
            },
        }
    }

    #[verifier::rlimit(100)]
    #[verifier::spinoff_prover]
    fn unary(&mut self) -> (r: Result<Expr, ParseError>)
        requires
            old(self).wf(),
        ensures
            final(self).wf(),
            final(self).spec_tokens() == old(self).spec_tokens(),
            old(self).spec_current() <= final(self).spec_current(),
            ({
                let res = parse_unary(toks_v(old(self).spec_tokens()), old(self).spec_current());
                match r {
                    Ok(e) => res matches ExprRes::Found { e: ev, next } && ev == e@ && final(self).spec_current() == next && old(self).spec_current() < final(self).spec_current(),
                    Err(pe) => res matches ExprRes::Failed { err } && pe.token@ == err.token
                        && pe.message@ == err.msg,
                }
            }),
        decreases self.tokens@.len() - self.current, 10int,
    {
        if self.check(&TokenType::Bang) || self.check(&TokenType::Minus) {
            let operator = self.advance();
            let right = match self.unary() {
                Ok(e) => e,
                Err(pe) => {
                    return Err(pe);
                },
            };
            return Ok(Expr::Unary(Unary { operator, right: Box::new(right) }));
        }
        self.primary()
    }

    #[verifier::rlimit(100)]
    #[verifier::spinoff_prover]
    #[verifier::loop_isolation(false)]
    fn factor(&mut self) -> (r: Result<Expr, ParseError>)
        requires
            old(self).wf(),
        ensures
            final(self).wf(),
            final(self).spec_tokens() == old(self).spec_tokens(),
            old(self).spec_current() <= final(self).spec_current(),
            ({
                let res = parse_factor(toks_v(old(self).spec_tokens()), old(self).spec_current());
                match r {
                    Ok(e) => res matches ExprRes::Found { e: ev, next } && ev == e@ && final(self).spec_current() == next && old(self).spec_current() < final(self).spec_current(),
                    Err(pe) => res matches ExprRes::Failed { err } && pe.token@ == err.token
                        && pe.message@ == err.msg,
                }
            }),
        decreases self.tokens@.len() - self.current, 12int,
    {
        let ghost toks = toks_v(self.tokens@);
        let ghost pos0 = self.current as nat;
        let mut expr = match self.unary() {
            Ok(e) => e,
            Err(pe) => {
                return Err(pe);
            },
        };
        while self.check(&TokenType::Slash) || self.check(&TokenType::Star)
            invariant
                self.wf(),
                self.tokens@ == old(self).tokens@,
                pos0 < self.current,
                parse_factor(toks, pos0) == parse_factor_rest(toks, expr@, self.current as nat),
            decreases self.tokens@.len() - self.current, 11int,
        {
            let operator = self.advance();
            let right = match self.unary() {
                Ok(e) => e,
                Err(pe) => {
                    return Err(pe);
                },
            };
            expr = Expr::Binary(
                Binary { left: Box::new(expr), operator, right: Box::new(right) },
            );
        }
        Ok(expr)
    }

    #[verifier::rlimit(100)]
    #[verifier::spinoff_prover]
    #[verifier::loop_isolation(false)]
    fn term(&mut self) -> (r: Result<Expr, ParseError>)
        requires
            old(self).wf(),
        ensures
            final(self).wf(),
            final(self).spec_tokens() == old(self).spec_tokens(),
            old(self).spec_current() <= final(self).spec_current(),
            ({
                let res = parse_term(toks_v(old(self).spec_tokens()), old(self).spec_current());
                match r {
                    Ok(e) => res matches ExprRes::Found { e: ev, next } && ev == e@ && final(self).spec_current() == next && old(self).spec_current() < final(self).spec_current(),
                    Err(pe) => res matches ExprRes::Failed { err } && pe.token@ == err.token
                        && pe.message@ == err.msg,
                }
            }),
        decreases self.tokens@.len() - self.current, 14int,
    {
        let ghost toks = toks_v(self.tokens@);
        let ghost pos0 = self.current as nat;
        let mut expr = match self.factor() {
            Ok(e) => e,
            Err(pe) => {
                return Err(pe);
            },
        };
        while self.check(&TokenType::Minus) || self.check(&TokenType::Plus)
            invariant
                self.wf(),
                self.tokens@ == old(self).tokens@,
                pos0 < self.current,
                parse_term(toks, pos0) == parse_term_rest(toks, expr@, self.current as nat),
            decreases self.tokens@.len() - self.current, 13int,
        {
            let operator = self.advance();
            let right = match self.factor() {
                Ok(e) => e,
                Err(pe) => {
                    return Err(pe);
                },
            };
            expr = Expr::Binary(
                Binary { left: Box::new(expr), operator, right: Box::new(right) },
            );
        }
        Ok(expr)
    }

    #[verifier::rlimit(100)]
    #[verifier::spinoff_prover]
    #[verifier::loop_isolation(false)]
    fn comparison(&mut self) -> (r: Result<Expr, ParseError>)
        requires
            old(self).wf(),
        ensures
            final(self).wf(),
            final(self).spec_tokens() == old(self).spec_tokens(),
            old(self).spec_current() <= final(self).spec_current(),
            ({
                let res = parse_comparison(
                    toks_v(old(self).spec_tokens()),
                    old(self).spec_current(),
                );
                match r {
                    Ok(e) => res matches ExprRes::Found { e: ev, next } && ev == e@ && final(self).spec_current() == next && old(self).spec_current() < final(self).spec_current(),
                    Err(pe) => res matches ExprRes::Failed { err } && pe.token@ == err.token
                        && pe.message@ == err.msg,
                }
            }),
        decreases self.tokens@.len() - self.current, 16int,
    {
        let ghost toks = toks_v(self.tokens@);
        let ghost pos0 = self.current as nat;
        let mut expr = match self.term() {
            Ok(e) => e,
            Err(pe) => {
                return Err(pe);
            },
        };
        while self.check(&TokenType::Greater) || self.check(&TokenType::GreaterEqual)
            || self.check(&TokenType::Less) || self.check(&TokenType::LessEqual)
            invariant
                self.wf(),
                self.tokens@ == old(self).tokens@,
                pos0 < self.current,
                parse_comparison(toks, pos0) == parse_comparison_rest(
                    toks,
                    expr@,
                    self.current as nat,
                ),
            decreases self.tokens@.len() - self.current, 15int,
        {
            let operator = self.advance();
            let right = match self.term() {
                Ok(e) => e,
                Err(pe) => {
                    return Err(pe);
                },
            };
            expr = Expr::Binary(
                Binary { left: Box::new(expr), operator, right: Box::new(right) },
            );
        }
        Ok(expr)
    }

    #[verifier::rlimit(100)]
    #[verifier::spinoff_prover]
    #[verifier::loop_isolation(false)]
    fn equality(&mut self) -> (r: Result<Expr, ParseError>)
        requires
            old(self).wf(),
        ensures
            final(self).wf(),
            final(self).spec_tokens() == old(self).spec_tokens(),
            old(self).spec_current() <= final(self).spec_current(),
            ({
                let res = parse_equality(toks_v(old(self).spec_tokens()), old(self).spec_current());
                match r {
                    Ok(e) => res matches ExprRes::Found { e: ev, next } && ev == e@ && final(self).spec_current() == next && old(self).spec_current() < final(self).spec_current(),
                    Err(pe) => res matches ExprRes::Failed { err } && pe.token@ == err.token
                        && pe.message@ == err.msg,
                }
            }),
        decreases self.tokens@.len() - self.current, 18int,
    {
        let ghost toks = toks_v(self.tokens@);
        let ghost pos0 = self.current as nat;
        let mut expr = match self.comparison() {
            Ok(e) => e,
            Err(pe) => {
                return Err(pe);
            },
        };
        while self.check(&TokenType::BangEqual) || self.check(&TokenType::EqualEqual)
            invariant
                self.wf(),
                self.tokens@ == old(self).tokens@,
                pos0 < self.current,
                parse_equality(toks, pos0) == parse_equality_rest(toks, expr@, self.current as nat),
            decreases self.tokens@.len() - self.current, 17int,
        {
            let operator = self.advance();
            let right = match self.comparison() {
                Ok(e) => e,
                Err(pe) => {
                    return Err(pe);
                },
            };
            expr = Expr::Binary(
                Binary { left: Box::new(expr), operator, right: Box::new(right) },
            );
        }
        Ok(expr)
    }

    #[verifier::rlimit(100)]
    #[verifier::spinoff_prover]
    fn expression(&mut self) -> (r: Result<Expr, ParseError>)
        requires
            old(self).wf(),
        ensures
            final(self).wf(),
            final(self).spec_tokens() == old(self).spec_tokens(),
            old(self).spec_current() <= final(self).spec_current(),
            ({
                let res = parse_expression(
                    toks_v(old(self).spec_tokens()),
                    old(self).spec_current(),
                );
                match r {
                    Ok(e) => res matches ExprRes::Found { e: ev, next } && ev == e@ && final(self).spec_current() == next && old(self).spec_current() < final(self).spec_current(),
                    Err(pe) => res matches ExprRes::Failed { err } && pe.token@ == err.token
                        && pe.message@ == err.msg,
                }
            }),
        decreases self.tokens@.len() - self.current, 20int,
    {
        self.equality()
    }

    /// Parses a single expression: what a grouping's parentheses enclose,
    /// and a convenient entry point of its own.
    pub fn parse_expr(&mut self) -> (r: Result<Expr, ParseError>)
        requires
            old(self).wf(),
        ensures
            final(self).wf(),
            final(self).spec_tokens() == old(self).spec_tokens(),
            ({
                let res = parse_expression(
                    toks_v(old(self).spec_tokens()),
                    old(self).spec_current(),
                );
                match r {
                    Ok(e) => res matches ExprRes::Found { e: ev, next } && ev == e@ && final(self).spec_current() == next,
                    Err(pe) => res matches ExprRes::Failed { err } && pe.token@ == err.token
                        && pe.message@ == err.msg,
                }
            }),
    {
        self.expression()
    }

    #[verifier::rlimit(100)]
    #[verifier::spinoff_prover]
    fn var_declaration(&mut self) -> (r: Result<Stmt, ParseError>)
        requires
            old(self).wf(),
        ensures
            final(self).wf(),
            final(self).spec_tokens() == old(self).spec_tokens(),
            old(self).spec_current() <= final(self).spec_current(),
            ({
                let res = parse_var_declaration(
                    toks_v(old(self).spec_tokens()),
                    old(self).spec_current(),
                );
                match r {
                    Ok(s) => res matches StmtRes::Found { s: sv, next } && sv == s@ && final(self).spec_current() == next && old(self).spec_current() < final(self).spec_current(),
                    Err(pe) => res matches StmtRes::Failed { err } && pe.token@ == err.token
                        && pe.message@ == err.msg,
                }
            }),
        decreases self.tokens@.len() - self.current, 28int,
    {
        let name = match self.consume(TokenType::Identifier, "Expect variable name.") {
            Ok(t) => t,
            Err(pe) => {
                return Err(pe);
            },
        };
        let initializer = if self.check(&TokenType::Equal) {
            let _eq = self.advance();
            match self.expression() {
                Ok(e) => Some(Box::new(e)),
                Err(pe) => {
                    return Err(pe);
                },
            }
        } else {
            None
        };
        match self.consume(TokenType::SemiColon, "Expect ';' after variable declaration.") {
            Ok(_sc) => Ok(Stmt::Variable(Var { name, initializer })),
            Err(pe) => Err(pe),
        }
    }

    #[verifier::rlimit(100)]
    #[verifier::spinoff_prover]
    fn print_statement(&mut self) -> (r: Result<Stmt, ParseError>)
        requires
            old(self).wf(),
        ensures
            final(self).wf(),
            final(self).spec_tokens() == old(self).spec_tokens(),
            old(self).spec_current() <= final(self).spec_current(),
            ({
                let res = parse_print_statement(
                    toks_v(old(self).spec_tokens()),
                    old(self).spec_current(),
                );
                match r {
                    Ok(s) => res matches StmtRes::Found { s: sv, next } && sv == s@ && final(self).spec_current() == next && old(self).spec_current() < final(self).spec_current(),
                    Err(pe) => res matches StmtRes::Failed { err } && pe.token@ == err.token
                        && pe.message@ == err.msg,
                }
            }),
        decreases self.tokens@.len() - self.current, 28int,
    {
        let expr = match self.expression() {
            Ok(e) => e,
            Err(pe) => {
                return Err(pe);
            },
        };
        match self.consume(TokenType::SemiColon, "Expect ';' after expression.") {
            Ok(_sc) => Ok(Stmt::Print(expr)),
            Err(pe) => Err(pe),
        }
    }

    #[verifier::rlimit(100)]
    #[verifier::spinoff_prover]
    fn expression_statement(&mut self) -> (r: Result<Stmt, ParseError>)
        requires
            old(self).wf(),
        ensures
            final(self).wf(),
            final(self).spec_tokens() == old(self).spec_tokens(),
            old(self).spec_current() <= final(self).spec_current(),
            ({
                let res = parse_expression_statement(
                    toks_v(old(self).spec_tokens()),
                    old(self).spec_current(),
                );
                match r {
                    Ok(s) => res matches StmtRes::Found { s: sv, next } && sv == s@ && final(self).spec_current() == next && old(self).spec_current() < final(self).spec_current(),
                    Err(pe) => res matches StmtRes::Failed { err } && pe.token@ == err.token
                        && pe.message@ == err.msg,
                }
            }),
        decreases self.tokens@.len() - self.current, 28int,
    {
        let expr = match self.expression() {
            Ok(e) => e,
            Err(pe) => {
                return Err(pe);
            },
        };
        match self.consume(TokenType::SemiColon, "Expect ';' after expression.") {
            Ok(_sc) => Ok(Stmt::Expr(expr)),
            Err(pe) => Err(pe),
        }
    }

    #[verifier::rlimit(100)]
    #[verifier::spinoff_prover]
    fn statement(&mut self) -> (r: Result<Stmt, ParseError>)
        requires
            old(self).wf(),
        ensures
            final(self).wf(),
            final(self).spec_tokens() == old(self).spec_tokens(),
            old(self).spec_current() <= final(self).spec_current(),
            ({
                let res = parse_statement(
                    toks_v(old(self).spec_tokens()),
                    old(self).spec_current(),
                );
                match r {
                    Ok(s) => res matches StmtRes::Found { s: sv, next } && sv == s@ && final(self).spec_current() == next && old(self).spec_current() < final(self).spec_current(),
                    Err(pe) => res matches StmtRes::Failed { err } && pe.token@ == err.token
                        && pe.message@ == err.msg,
                }
            }),
        decreases self.tokens@.len() - self.current, 29int,
    {
        if self.check(&TokenType::Print) {
            let _p = self.advance();
            return self.print_statement();
        }
        self.expression_statement()
    }

    #[verifier::rlimit(100)]
    #[verifier::spinoff_prover]
    fn declaration(&mut self) -> (r: Result<Stmt, ParseError>)
        requires
            old(self).wf(),
        ensures
            final(self).wf(),
            final(self).spec_tokens() == old(self).spec_tokens(),
            old(self).spec_current() <= final(self).spec_current(),
            ({
                let res = parse_declaration(
                    toks_v(old(self).spec_tokens()),
                    old(self).spec_current(),
                );
                match r {
                    Ok(s) => res matches StmtRes::Found { s: sv, next } && sv == s@ && final(self).spec_current() == next && old(self).spec_current() < final(self).spec_current(),
                    Err(pe) => res matches StmtRes::Failed { err } && pe.token@ == err.token
                        && pe.message@ == err.msg,
                }
            }),
        decreases self.tokens@.len() - self.current, 30int,
    {
        if self.check(&TokenType::Var) {
            let _v = self.advance();
            return self.var_declaration();
        }
        self.statement()
    }

    /// Parses the whole token sequence into its statements; the first
    /// grammar violation aborts the parse and is returned instead.
    #[verifier::rlimit(100)]
    #[verifier::spinoff_prover]
    #[verifier::loop_isolation(false)]
    pub fn parse(&mut self) -> (r: Result<Vec<Stmt>, ParseError>)
        requires
            old(self).wf(),
        ensures
            final(self).wf(),
            final(self).spec_tokens() == old(self).spec_tokens(),
            ({
                let res = parse_program(
                    toks_v(old(self).spec_tokens()),
                    old(self).spec_current(),
                );
                match r {
                    Ok(stmts) => res matches ProgRes::Found { stmts: sv } && sv == stmts_v(stmts@),
                    Err(pe) => res matches ProgRes::Failed { err } && pe.token@ == err.token
                        && pe.message@ == err.msg,
                }
            }),
    {
        let ghost toks = toks_v(self.tokens@);
        let ghost pos0 = self.current as nat;
        let mut statements: Vec<Stmt> = Vec::new();
        proof {
            assert(stmts_v(statements@) =~= Seq::<StmtV>::empty());
        }
        while !self.is_at_end()
            invariant
                self.wf(),
                self.tokens@ == old(self).tokens@,
                pos0 <= self.current,
                ({
                    match parse_program(toks, self.current as nat) {
                        ProgRes::Found { stmts } => parse_program(toks, pos0)
                            matches ProgRes::Found { stmts: all } && all == stmts_v(statements@)
                            + stmts,
                        ProgRes::Failed { err } => parse_program(toks, pos0)
                            matches ProgRes::Failed { err: e0 } && e0 == err,
                    }
                }),
            decreases self.tokens@.len() - self.current,
        {
            let ghost stmts_pre = statements@;
            let ghost cur_pre = self.current as nat;
            let s = match self.declaration() {
                Ok(s) => s,
                Err(pe) => {
                    return Err(pe);
                },
            };
            statements.push(s);
            proof {
                assert(stmts_v(statements@) =~= stmts_v(stmts_pre) + seq![s@]);
                match parse_program(toks, self.current as nat) {
                    ProgRes::Found { stmts } => {
                        assert((stmts_v(stmts_pre) + seq![s@]) + stmts =~= stmts_v(stmts_pre) + (
                        seq![s@] + stmts));
                    },
                    ProgRes::Failed { .. } => {},
                }
            }
        }
        proof {
            assert(stmts_v(statements@) + Seq::<StmtV>::empty() =~= stmts_v(statements@));
        }
        Ok(statements)
    }
}


/// The scanner's output is always a well-formed parser input: it ends with
/// the end-of-input token, and every string and number token carries its
/// literal payload.
pub proof fn lemma_scanned_tokens_wf(src: Seq<char>, pos: nat, line: nat)
    requires
        pos <= src.len(),
    ensures
        toks_wf(scan_from(src, pos, line).tokens),
    decreases src.len() - pos,
{
    if pos < src.len() {
        let st = scan_step(src, pos, line);
        assert(pos < st.next <= src.len());
        lemma_scanned_tokens_wf(src, st.next, st.line);
        let rest = scan_from(src, st.next, st.line).tokens;
        let all = opt_seq(st.token) + rest;
        assert(all[all.len() - 1] == rest[rest.len() - 1]);
    }
}


/// Law: same-precedence operators fold left. A term of three numbers joined
/// by two `-` tokens parses to the tree `((n1 - n2) - n3)`, never
/// `(n1 - (n2 - n3))`.
pub proof fn lemma_left_associativity(
    t1: TokenV,
    m1: TokenV,
    t2: TokenV,
    m2: TokenV,
    t3: TokenV,
    eof: TokenV,
)
    requires
        t1.typ == TokenType::Number && t1.literal is Some,
        t2.typ == TokenType::Number && t2.literal is Some,
        t3.typ == TokenType::Number && t3.literal is Some,
        m1.typ == TokenType::Minus,
        m2.typ == TokenType::Minus,
        eof.typ == TokenType::Eof,
    ensures
        parse_expression(seq![t1, m1, t2, m2, t3, eof], 0) == (ExprRes::Found {
            e: ExprV::Binary {
                left: Box::new(
                    ExprV::Binary {
                        left: Box::new(ExprV::Literal { value: t1.literal.unwrap() }),
                        operator: m1,
                        right: Box::new(ExprV::Literal { value: t2.literal.unwrap() }),
                    },
                ),
                operator: m2,
                right: Box::new(ExprV::Literal { value: t3.literal.unwrap() }),
            },
            next: 5,
        }),
{
    let toks = seq![t1, m1, t2, m2, t3, eof];
    let l1 = ExprV::Literal { value: t1.literal.unwrap() };
    let l2 = ExprV::Literal { value: t2.literal.unwrap() };
    let l3 = ExprV::Literal { value: t3.literal.unwrap() };
    let b12 = ExprV::Binary { left: Box::new(l1), operator: m1, right: Box::new(l2) };
    let b123 = ExprV::Binary { left: Box::new(b12), operator: m2, right: Box::new(l3) };
    assert(parse_factor(toks, 0) == (ExprRes::Found { e: l1, next: 1 }));
    assert(parse_factor(toks, 2) == (ExprRes::Found { e: l2, next: 3 }));
    assert(parse_factor(toks, 4) == (ExprRes::Found { e: l3, next: 5 }));
    assert(parse_term_rest(toks, b123, 5) == (ExprRes::Found { e: b123, next: 5 }));
    assert(parse_term_rest(toks, b12, 3) == (ExprRes::Found { e: b123, next: 5 }));
    assert(parse_term_rest(toks, l1, 1) == (ExprRes::Found { e: b123, next: 5 }));
    assert(parse_term(toks, 0) == (ExprRes::Found { e: b123, next: 5 }));
    assert(parse_comparison_rest(toks, b123, 5) == (ExprRes::Found { e: b123, next: 5 }));
    assert(parse_equality_rest(toks, b123, 5) == (ExprRes::Found { e: b123, next: 5 }));
}

/// Law: multiplication binds tighter than addition. Three numbers joined by
/// `+` then `*` parse to the tree `(n1 + (n2 * n3))`, never
/// `((n1 + n2) * n3)`.
pub proof fn lemma_multiplication_binds_tighter(
    t1: TokenV,
    plus: TokenV,
    t2: TokenV,
    star: TokenV,
    t3: TokenV,
    eof: TokenV,
)
    requires
        t1.typ == TokenType::Number && t1.literal is Some,
        t2.typ == TokenType::Number && t2.literal is Some,
        t3.typ == TokenType::Number && t3.literal is Some,
        plus.typ == TokenType::Plus,
        star.typ == TokenType::Star,
        eof.typ == TokenType::Eof,
    ensures
        parse_expression(seq![t1, plus, t2, star, t3, eof], 0) == (ExprRes::Found {
            e: ExprV::Binary {
                left: Box::new(ExprV::Literal { value: t1.literal.unwrap() }),
                operator: plus,
                right: Box::new(
                    ExprV::Binary {
                        left: Box::new(ExprV::Literal { value: t2.literal.unwrap() }),
                        operator: star,
                        right: Box::new(ExprV::Literal { value: t3.literal.unwrap() }),
                    },
                ),
            },
            next: 5,
        }),
{
    let toks = seq![t1, plus, t2, star, t3, eof];
    let l1 = ExprV::Literal { value: t1.literal.unwrap() };
    let l2 = ExprV::Literal { value: t2.literal.unwrap() };
    let l3 = ExprV::Literal { value: t3.literal.unwrap() };
    let b23 = ExprV::Binary { left: Box::new(l2), operator: star, right: Box::new(l3) };
    let b123 = ExprV::Binary { left: Box::new(l1), operator: plus, right: Box::new(b23) };
    assert(parse_unary(toks, 2) == (ExprRes::Found { e: l2, next: 3 }));
    assert(parse_unary(toks, 4) == (ExprRes::Found { e: l3, next: 5 }));
    assert(parse_factor_rest(toks, b23, 5) == (ExprRes::Found { e: b23, next: 5 }));
    assert(parse_factor_rest(toks, l2, 3) == (ExprRes::Found { e: b23, next: 5 }));
    assert(parse_factor(toks, 2) == (ExprRes::Found { e: b23, next: 5 }));
    assert(parse_factor(toks, 0) == (ExprRes::Found { e: l1, next: 1 }));
    assert(parse_term_rest(toks, b123, 5) == (ExprRes::Found { e: b123, next: 5 }));
    assert(parse_term_rest(toks, l1, 1) == (ExprRes::Found { e: b123, next: 5 }));
    assert(parse_term(toks, 0) == (ExprRes::Found { e: b123, next: 5 }));
    assert(parse_comparison_rest(toks, b123, 5) == (ExprRes::Found { e: b123, next: 5 }));
    assert(parse_equality_rest(toks, b123, 5) == (ExprRes::Found { e: b123, next: 5 }));
}

} // verus!
