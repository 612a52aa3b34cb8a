//! The token alphabet produced by the lexer and consumed by the parser.
//!
//! A floating literal is carried as the exact decimal fraction it denotes,
//! so that every token payload is an exact value.

use vstd::prelude::*;

use crate::exact_math::rationals::Rationals;

verus! {

#[derive(Debug, Clone, PartialEq, Eq, Structural)]
pub enum Operator {
    PLUS,
    MINUS,
    MULTIPLICATION,
    DIVIDE,
    EXPO,
    EQUALITY,
    GreaterThan,
    LesserThan,
    GreaterOrEqual,
    LesserOrEqual,
    And,
    Or,
    NOT,
}

#[derive(Debug, Clone, PartialEq)]
pub enum Token {
    OPE(Operator),
    IDENTIFIER(String),
    INT(i64),
    FLOAT(Rationals),
    BOOL(bool),
    EQUAL,
    RPAR,
    LPAR,
    RBRACKET,
    LBRACKET,
    COMMA,
    Null,
    QUOTE,
    WHITESPACE,
    PreAnd,
    PreOr,
}

#[derive(Debug, Clone, PartialEq, Hash, Eq, Structural)]
pub enum TokenType {
    PLUS,
    MINUS,
    MULTIPLICATION,
    DIVIDE,
    IDENTIFIER,
    INT,
    FLOAT,
    EQUAL,
    EQUALITY,
    GREATER,
    LESSER,
    GREATEREQ,
    OR,
    AND,
    LESSEREQ,
    NOT,
    BOOL,
    RPAR,
    LPAR,
    RBRACKET,
    LBRACKET,
    Null,
    COMMA,
    WHITESPACE,
    EXPO,
    QUOTE,
}

/// The binding strengths of the grammar, weakest first.
#[derive(Debug, Clone, Copy, PartialEq, Eq, Structural)]
pub enum Precedence {
    ASSIGNMENT,
    CONDITIONAL,
    MINUS,
    SUM,
    DIVIDE,
    PRODUCT,
    EXPONENT,
    CALL,
}

/// The numeric level of each precedence: assignment binds last at 1,
/// calls bind first at 10.
pub open spec fn spec_precedence_value(p: Precedence) -> i64 {
    match p {
        Precedence::ASSIGNMENT => 1,
        Precedence::CONDITIONAL => 2,
        Precedence::MINUS => 3,
        Precedence::SUM => 4,
        Precedence::DIVIDE => 5,
        Precedence::PRODUCT => 6,
        Precedence::EXPONENT => 7,
        Precedence::CALL => 10,
    }
}

impl Precedence {
    pub fn value(self) -> (r: i64)
        ensures
            r == spec_precedence_value(self),
    {
        match self {
            Precedence::ASSIGNMENT => 1,
            Precedence::CONDITIONAL => 2,
            Precedence::MINUS => 3,
            Precedence::SUM => 4,
            Precedence::DIVIDE => 5,
            Precedence::PRODUCT => 6,
            Precedence::EXPONENT => 7,
            Precedence::CALL => 10,
        }
    }
}

/// The mathematical content of a token: the same alternatives, with a
/// string payload abstracted to its character sequence.
pub ghost enum TokenV {
    OPE(Operator),
    IDENTIFIER(Seq<char>),
    INT(i64),
    FLOAT(Rationals),
    BOOL(bool),
    EQUAL,
    RPAR,
    LPAR,
    RBRACKET,
    LBRACKET,
    COMMA,
    Null,
    QUOTE,
    WHITESPACE,
    PreAnd,
    PreOr,
}

impl View for Token {
    type V = TokenV;

    open spec fn view(&self) -> TokenV {
        match *self {
            Token::OPE(o) => TokenV::OPE(o),
            Token::IDENTIFIER(s) => TokenV::IDENTIFIER(s@),
            Token::INT(i) => TokenV::INT(i),
            Token::FLOAT(f) => TokenV::FLOAT(f),
            Token::BOOL(b) => TokenV::BOOL(b),
            Token::EQUAL => TokenV::EQUAL,
            Token::RPAR => TokenV::RPAR,
            Token::LPAR => TokenV::LPAR,
            Token::RBRACKET => TokenV::RBRACKET,
            Token::LBRACKET => TokenV::LBRACKET,
            Token::COMMA => TokenV::COMMA,
            Token::Null => TokenV::Null,
            Token::QUOTE => TokenV::QUOTE,
            Token::WHITESPACE => TokenV::WHITESPACE,
            Token::PreAnd => TokenV::PreAnd,
            Token::PreOr => TokenV::PreOr,
        }
    }
}

/// The views of a token sequence.
pub open spec fn tokens_view(s: Seq<Token>) -> Seq<TokenV> {
    s.map(|i: int, t: Token| t@)
}

/// The token type of each token, forgetting its payload.
pub open spec fn spec_token_type(t: TokenV) -> TokenType {
    match t {
        TokenV::OPE(p) => match p {
            Operator::PLUS => TokenType::PLUS,
            Operator::MINUS => TokenType::MINUS,
            Operator::MULTIPLICATION => TokenType::MULTIPLICATION,
            Operator::DIVIDE => TokenType::DIVIDE,
            Operator::EXPO => TokenType::EXPO,
            Operator::EQUALITY => TokenType::EQUALITY,
            Operator::GreaterThan => TokenType::GREATER,
            Operator::GreaterOrEqual => TokenType::GREATEREQ,
            Operator::LesserThan => TokenType::LESSER,
            Operator::LesserOrEqual => TokenType::LESSEREQ,
            Operator::NOT => TokenType::NOT,
            Operator::And => TokenType::AND,
            Operator::Or => TokenType::OR,
        },
        TokenV::IDENTIFIER(_) => TokenType::IDENTIFIER,
        TokenV::INT(_) => TokenType::INT,
        TokenV::FLOAT(_) => TokenType::FLOAT,
        TokenV::EQUAL => TokenType::EQUAL,
        TokenV::RPAR => TokenType::RPAR,
        TokenV::LPAR => TokenType::LPAR,
        TokenV::COMMA => TokenType::COMMA,
        TokenV::BOOL(_) => TokenType::BOOL,
        TokenV::LBRACKET => TokenType::LBRACKET,
        TokenV::RBRACKET => TokenType::RBRACKET,
        TokenV::QUOTE => TokenType::QUOTE,
        TokenV::WHITESPACE => TokenType::WHITESPACE,
        _ => TokenType::Null,
    }
}

impl Token {
    pub fn to_token_type(&self) -> (r: TokenType)
        ensures
            r == spec_token_type(self@),
    {
        match &self {
            Token::OPE(p) => match p {
                Operator::PLUS => TokenType::PLUS,
                Operator::MINUS => TokenType::MINUS,
                Operator::MULTIPLICATION => TokenType::MULTIPLICATION,
                Operator::DIVIDE => TokenType::DIVIDE,
                Operator::EXPO => TokenType::EXPO,
                Operator::EQUALITY => TokenType::EQUALITY,
                Operator::GreaterThan => TokenType::GREATER,
                Operator::GreaterOrEqual => TokenType::GREATEREQ,
                Operator::LesserThan => TokenType::LESSER,
                Operator::LesserOrEqual => TokenType::LESSEREQ,
                Operator::NOT => TokenType::NOT,
                Operator::And => TokenType::AND,
                Operator::Or => TokenType::OR,
            },
            Token::IDENTIFIER(_) => TokenType::IDENTIFIER,
            Token::INT(_) => TokenType::INT,
            Token::FLOAT(_) => TokenType::FLOAT,
            Token::EQUAL => TokenType::EQUAL,
            Token::RPAR => TokenType::RPAR,
            Token::LPAR => TokenType::LPAR,
            Token::COMMA => TokenType::COMMA,
            Token::BOOL(_) => TokenType::BOOL,
            Token::LBRACKET => TokenType::LBRACKET,
            Token::RBRACKET => TokenType::RBRACKET,
            Token::QUOTE => TokenType::QUOTE,
            Token::WHITESPACE => TokenType::WHITESPACE,
            _ => TokenType::Null,
        }
    }
}

} // verus!
