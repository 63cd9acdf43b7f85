//! The token model shared by every stage: a token-type tag, the exact source
//! substring it was scanned from, an optional literal payload, and the
//! 1-based source line where it begins.
use vstd::prelude::*;

verus! {

#[derive(Clone, Copy, Debug, PartialEq, Eq, Structural)]
pub enum TokenType {
    // Single-character tokens.
    LeftParen,
    RightParen,
    LeftBrace,
    RightBrace,
    Comma,
    Dot,
    Minus,
    Plus,
    SemiColon,
    Star,
    Slash,
    // One or two character tokens.
    Bang,
    BangEqual,
    Equal,
    EqualEqual,
    Less,
    LessEqual,
    Greater,
    GreaterEqual,
    // Literals.
    Identifier,
    String,
    Number,
    // Keywords.
    True,
    False,
    Nil,
    Var,
    Print,
    // End of input.
    Eof,
}

/// A runtime value: a double (by its 64-bit IEEE-754 encoding), a string,
/// a boolean, or nil.
#[derive(Debug, PartialEq)]
pub enum LiteralValue {
    Number(u64),
    String(String),
    Boolean(bool),
    Nil,
}

/// The mathematical shape of a `LiteralValue`: strings as character sequences.
pub enum LitV {
    Num(u64),
    Str(Seq<char>),
    Bool(bool),
    Nil,
}

impl LitV {
    /// Nil and false are falsy; every other value is truthy.
    pub open spec fn truthy(self) -> bool {
        match self {
            LitV::Bool(b) => b,
            LitV::Nil => false,
            _ => true,
        }
    }
}

impl View for LiteralValue {
    type V = LitV;

    open spec fn view(&self) -> LitV {
        match self {
            LiteralValue::Number(b) => LitV::Num(*b),
            LiteralValue::String(s) => LitV::Str(s@),
            LiteralValue::Boolean(b) => LitV::Bool(*b),
            LiteralValue::Nil => LitV::Nil,
        }
    }
}

impl Clone for LiteralValue {
    fn clone(&self) -> (r: Self)
        ensures
            r == *self,
    {
        match self {
            LiteralValue::Number(b) => LiteralValue::Number(*b),
            LiteralValue::String(s) => LiteralValue::String(s.clone()),
            LiteralValue::Boolean(b) => LiteralValue::Boolean(*b),
            LiteralValue::Nil => LiteralValue::Nil,
        }
    }
}

impl LiteralValue {
    pub fn is_truthy(&self) -> (r: bool)
        ensures
            r == self@.truthy(),
    {
        match self {
            LiteralValue::Boolean(b) => *b,
            LiteralValue::Nil => false,
            _ => true,
        }
    }
}

/// The mathematical shape of a `Token`.
pub struct TokenV {
    pub typ: TokenType,
    pub lexeme: Seq<char>,
    pub literal: Option<LitV>,
    pub line: nat,
}

#[derive(Debug, PartialEq)]
pub struct Token {
    pub typ: TokenType,
    pub lexeme: String,
    pub literal: Option<LiteralValue>,
    pub line: usize,
}

impl View for Token {
    type V = TokenV;

    open spec fn view(&self) -> TokenV {
        TokenV {
            typ: self.typ,
            lexeme: self.lexeme@,
            literal: match self.literal {
                Some(l) => Some(l@),
                None => None,
            },
            line: self.line as nat,
        }
    }
}

impl Clone for Token {
    fn clone(&self) -> (r: Self)
        ensures
            r == *self,
    {
        Token {
            typ: self.typ,
            lexeme: self.lexeme.clone(),
            literal: match &self.literal {
                Some(l) => Some(l.clone()),
                None => None,
            },
            line: self.line,
        }
    }
}

impl Token {
    /// Convenience constructor for simple, punctuation-style tokens with no literal.
    pub fn simple(typ: TokenType, lexeme: &str, line: usize) -> (r: Self)
        ensures
            r@ == (TokenV { typ, lexeme: lexeme@, literal: None, line: line as nat }),
    {
        Token { typ, lexeme: lexeme.to_owned(), literal: None, line }
    }

    /// Convenience constructor for tokens that carry a literal value.
    pub fn with_literal(typ: TokenType, lexeme: &str, literal: LiteralValue, line: usize) -> (r:
        Self)
        ensures
            r@ == (TokenV { typ, lexeme: lexeme@, literal: Some(literal@), line: line as nat }),
    {
        Token { typ, lexeme: lexeme.to_owned(), literal: Some(literal), line }
    }
}


/// The display form of a token type: the operator's own spelling, or a word
/// for the token classes.
pub open spec fn typ_symbol(t: TokenType) -> Seq<char> {
    match t {
        TokenType::LeftParen => "("@,
        TokenType::RightParen => ")"@,
        TokenType::LeftBrace => "{"@,
        TokenType::RightBrace => "}"@,
        TokenType::Comma => ","@,
        TokenType::Dot => "."@,
        TokenType::Minus => "-"@,
        TokenType::Plus => "+"@,
        TokenType::SemiColon => ";"@,
        TokenType::Star => "*"@,
        TokenType::Slash => "/"@,
        TokenType::Bang => "!"@,
        TokenType::BangEqual => "!="@,
        TokenType::Equal => "="@,
        TokenType::EqualEqual => "=="@,
        TokenType::Less => "<"@,
        TokenType::LessEqual => "<="@,
        TokenType::Greater => ">"@,
        TokenType::GreaterEqual => ">="@,
        TokenType::Identifier => "identifier"@,
        TokenType::String => "string"@,
        TokenType::Number => "number"@,
        TokenType::True => "true"@,
        TokenType::False => "false"@,
        TokenType::Nil => "nil"@,
        TokenType::Var => "var"@,
        TokenType::Print => "print"@,
        TokenType::Eof => "EOF"@,
    }
}

/// The bare variant name of a token type: what diagnostics quote.
pub open spec fn typ_name(t: TokenType) -> Seq<char> {
    match t {
        TokenType::LeftParen => "LeftParen"@,
        TokenType::RightParen => "RightParen"@,
        TokenType::LeftBrace => "LeftBrace"@,
        TokenType::RightBrace => "RightBrace"@,
        TokenType::Comma => "Comma"@,
        TokenType::Dot => "Dot"@,
        TokenType::Minus => "Minus"@,
        TokenType::Plus => "Plus"@,
        TokenType::SemiColon => "SemiColon"@,
        TokenType::Star => "Star"@,
        TokenType::Slash => "Slash"@,
        TokenType::Bang => "Bang"@,
        TokenType::BangEqual => "BangEqual"@,
        TokenType::Equal => "Equal"@,
        TokenType::EqualEqual => "EqualEqual"@,
        TokenType::Less => "Less"@,
        TokenType::LessEqual => "LessEqual"@,
        TokenType::Greater => "Greater"@,
        TokenType::GreaterEqual => "GreaterEqual"@,
        TokenType::Identifier => "Identifier"@,
        TokenType::String => "String"@,
        TokenType::Number => "Number"@,
        TokenType::True => "True"@,
        TokenType::False => "False"@,
        TokenType::Nil => "Nil"@,
        TokenType::Var => "Var"@,
        TokenType::Print => "Print"@,
        TokenType::Eof => "Eof"@,
    }
}

impl TokenType {
    /// The display form: the operator's own spelling, or a word for the
    /// token classes.
    pub fn symbol(&self) -> (r: &'static str)
        ensures
            r@ == typ_symbol(*self),
    {
        match self {
            TokenType::LeftParen => "(",
            TokenType::RightParen => ")",
            TokenType::LeftBrace => "{",
            TokenType::RightBrace => "}",
            TokenType::Comma => ",",
            TokenType::Dot => ".",
            TokenType::Minus => "-",
            TokenType::Plus => "+",
            TokenType::SemiColon => ";",
            TokenType::Star => "*",
            TokenType::Slash => "/",
            TokenType::Bang => "!",
            TokenType::BangEqual => "!=",
            TokenType::Equal => "=",
            TokenType::EqualEqual => "==",
            TokenType::Less => "<",
            TokenType::LessEqual => "<=",
            TokenType::Greater => ">",
            TokenType::GreaterEqual => ">=",
            TokenType::Identifier => "identifier",
            TokenType::String => "string",
            TokenType::Number => "number",
            TokenType::True => "true",
            TokenType::False => "false",
            TokenType::Nil => "nil",
            TokenType::Var => "var",
            TokenType::Print => "print",
            TokenType::Eof => "EOF",
        }
    }

    /// The bare variant name: what diagnostics quote.
    pub fn debug_name(&self) -> (r: &'static str)
        ensures
            r@ == typ_name(*self),
    {
        match self {
            TokenType::LeftParen => "LeftParen",
            TokenType::RightParen => "RightParen",
            TokenType::LeftBrace => "LeftBrace",
            TokenType::RightBrace => "RightBrace",
            TokenType::Comma => "Comma",
            TokenType::Dot => "Dot",
            TokenType::Minus => "Minus",
            TokenType::Plus => "Plus",
            TokenType::SemiColon => "SemiColon",
            TokenType::Star => "Star",
            TokenType::Slash => "Slash",
            TokenType::Bang => "Bang",
            TokenType::BangEqual => "BangEqual",
            TokenType::Equal => "Equal",
            TokenType::EqualEqual => "EqualEqual",
            TokenType::Less => "Less",
            TokenType::LessEqual => "LessEqual",
            TokenType::Greater => "Greater",
            TokenType::GreaterEqual => "GreaterEqual",
            TokenType::Identifier => "Identifier",
            TokenType::String => "String",
            TokenType::Number => "Number",
            TokenType::True => "True",
            TokenType::False => "False",
            TokenType::Nil => "Nil",
            TokenType::Var => "Var",
            TokenType::Print => "Print",
            TokenType::Eof => "Eof",
        }
    }
}

} // verus!
