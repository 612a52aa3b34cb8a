//! The operator-precedence parser: a token cursor with one-token
//! look-ahead, driven by per-token prefix and infix construction rules.
//!
//! `parse_expression` applies the prefix rule of the next token and then,
//! while the following token binds tighter than the given floor, folds it
//! into the left expression through its infix rule.  Malformed input never
//! stops the parser: an unexpected token becomes an absence token and
//! parsing continues.

use vstd::prelude::*;

use crate::lexing::token::Token;
use crate::lexing::token::TokenType;
use crate::lexing::token::TokenV;
use crate::lexing::token::spec_token_type;
use crate::lexing::token::tokens_view;
use crate::parsing::ast::Ast;
use crate::parsing::ast::AstV;
use crate::parsing::ast::clone_token;
use crate::parsing::parselets::infix_parselet::AssignParselet;
use crate::parsing::parselets::infix_parselet::CallParselet;
use crate::parsing::parselets::infix_parselet::DivideParselet;
use crate::parsing::parselets::infix_parselet::ExpoParselet;
use crate::parsing::parselets::infix_parselet::InfixParselets;
use crate::parsing::parselets::infix_parselet::MinusParselet;
use crate::parsing::parselets::infix_parselet::MultParselet;
use crate::parsing::parselets::infix_parselet::NullParset;
use crate::parsing::parselets::infix_parselet::OperatorInfixParselet;
use crate::parsing::parselets::infix_parselet::PlusParselet;
use crate::parsing::parselets::prefix_parselet::GroupParselet;
use crate::parsing::parselets::prefix_parselet::NullParselet;
use crate::parsing::parselets::prefix_parselet::OperatorPrefixParselet;
use crate::parsing::parselets::prefix_parselet::PrefixParselets;
use crate::parsing::parselets::prefix_parselet::QuoteParselet;
use crate::parsing::parselets::prefix_parselet::ValueParselet;
use crate::parsing::parselets::prefix_parselet::VecParselet;

verus! {

/// The binding strength of the infix rule of each token type; 0 where a
/// token has no infix rule, so that it never extends an expression.
pub open spec fn spec_infix_precedence(t: TokenType) -> i64 {
    match t {
        TokenType::PLUS => 4,
        TokenType::MINUS => 3,
        TokenType::MULTIPLICATION => 6,
        TokenType::DIVIDE => 5,
        TokenType::EQUAL => 1,
        TokenType::EXPO => 7,
        TokenType::LPAR => 10,
        TokenType::NOT => 2,
        TokenType::EQUALITY => 2,
        TokenType::LESSER => 2,
        TokenType::LESSEREQ => 2,
        TokenType::GREATER => 2,
        TokenType::GREATEREQ => 2,
        TokenType::OR => 2,
        TokenType::AND => 2,
        _ => 0,
    }
}


/// The token at `pos`, the absence token past the end.
pub open spec fn peek_at(toks: Seq<TokenV>, pos: nat) -> TokenV {
    if pos < toks.len() {
        toks[pos as int]
    } else {
        TokenV::Null
    }
}

/// The position after taking one token, where one is left.
pub open spec fn advance1(toks: Seq<TokenV>, pos: nat) -> nat {
    if pos < toks.len() {
        pos + 1
    } else {
        pos
    }
}

/// A position forced back into the window from `lo` to the end of the
/// tokens; the parse positions never actually leave it.
pub open spec fn clamppos(p: nat, lo: nat, len: nat) -> nat {
    if p < lo {
        lo
    } else if p > len {
        len
    } else {
        p
    }
}

/// A leaf node holding the given payload.
pub open spec fn leafv(p: crate::parsing::ast::ParamV) -> AstV {
    AstV::Node { value: p, left: Box::new(AstV::Nil), right: Box::new(AstV::Nil) }
}

/// What parsing one expression at binding floor `prec` returns: the tree
/// and the cursor position after it.  The prefix rule of the first token
/// builds the initial expression; the infix fold then extends it while
/// the next token binds tighter than the floor.
pub open spec fn parse_expr_spec(toks: Seq<TokenV>, pos: nat, prec: i64) -> (AstV, nat)
    decreases toks.len() - pos, 3nat
        when pos <= toks.len()
{
    let t = peek_at(toks, pos);
    let pos1 = advance1(toks, pos);
    let tt = spec_token_type(t);
    proof {
        if pos >= toks.len() {
            assert(spec_token_type(TokenV::Null) == TokenType::Null);
        }
    }
    let first = if tt == TokenType::IDENTIFIER || tt == TokenType::INT || tt == TokenType::FLOAT
        || tt == TokenType::BOOL {
        (leafv(crate::parsing::ast::spec_token_to_parameter(t)), pos1)
    } else if tt == TokenType::PLUS || tt == TokenType::MINUS || tt == TokenType::MULTIPLICATION
        || tt == TokenType::DIVIDE || tt == TokenType::NOT || tt == TokenType::EQUALITY || tt
        == TokenType::LESSER || tt == TokenType::LESSEREQ || tt == TokenType::GREATER || tt
        == TokenType::GREATEREQ {
        opprefix_spec(toks, pos1, t)
    } else if tt == TokenType::LPAR {
        group_spec(toks, pos1)
    } else if tt == TokenType::LBRACKET {
        vec_spec(toks, pos1)
    } else if tt == TokenType::QUOTE {
        quote_spec(toks, pos1)
    } else {
        (AstV::Nil, pos1)
    };
    let lr = infix_loop_spec(toks, clamppos(first.1, pos, toks.len()), first.0, prec);
    (lr.0, clamppos(lr.1, pos, toks.len()))
}

/// One leading operator wrapping its operand, parsed at the lowest floor.
pub open spec fn opprefix_spec(toks: Seq<TokenV>, pos: nat, t: TokenV) -> (AstV, nat)
    decreases toks.len() - pos, 4nat
        when pos <= toks.len()
{
    let r = parse_expr_spec(toks, pos, 0);
    (
        AstV::Node {
            value: crate::parsing::ast::spec_token_to_parameter(t),
            left: Box::new(r.0),
            right: Box::new(AstV::Nil),
        },
        clamppos(r.1, pos, toks.len()),
    )
}

/// A parenthesised group: the inner expression, then the required
/// closing parenthesis (any other token is taken and dropped).
pub open spec fn group_spec(toks: Seq<TokenV>, pos: nat) -> (AstV, nat)
    decreases toks.len() - pos, 4nat
        when pos <= toks.len()
{
    let r = parse_expr_spec(toks, pos, 0);
    (r.0, advance1(toks, clamppos(r.1, pos, toks.len())))
}

/// A vector literal: comma-separated expressions up to the closing
/// bracket; an immediately closing bracket yields the empty vector and is
/// left in the stream.
pub open spec fn vec_spec(toks: Seq<TokenV>, pos: nat) -> (AstV, nat)
    decreases toks.len() - pos, 4nat
        when pos <= toks.len()
{
    if spec_token_type(peek_at(toks, pos)) == TokenType::RBRACKET {
        (leafv(crate::parsing::ast::ParamV::Vector(Seq::empty())), pos)
    } else {
        let r0 = parse_expr_spec(toks, pos, 0);
        let rest = comma_elems_spec(toks, clamppos(r0.1, pos, toks.len()));
        (
            leafv(crate::parsing::ast::ParamV::Vector(seq![r0.0] + rest.0)),
            advance1(toks, clamppos(rest.1, pos, toks.len())),
        )
    }
}

/// The expressions after each following comma.
pub open spec fn comma_elems_spec(toks: Seq<TokenV>, pos: nat) -> (Seq<AstV>, nat)
    decreases toks.len() - pos, 2nat
        when pos <= toks.len()
{
    if spec_token_type(peek_at(toks, pos)) == TokenType::COMMA {
        proof {
            assert(spec_token_type(TokenV::Null) == TokenType::Null);
        }
        let r = parse_expr_spec(toks, pos + 1, 0);
        let rest = comma_elems_spec(toks, clamppos(r.1, pos + 1, toks.len()));
        (seq![r.0] + rest.0, clamppos(rest.1, pos, toks.len()))
    } else {
        (Seq::empty(), pos)
    }
}

/// A call node: named after the left operand's identifier text (empty
/// for any other operand), with the comma-separated arguments up to the
/// closing parenthesis; an immediately closing parenthesis yields the
/// empty argument list and is left in the stream.
pub open spec fn call_spec(toks: Seq<TokenV>, pos: nat, left: AstV) -> (AstV, nat)
    decreases toks.len() - pos, 4nat
        when pos <= toks.len()
{
    let name: Seq<char> = match left {
        AstV::Node { value, left: l2, right: r2 } => match value {
            crate::parsing::ast::ParamV::Identifier(s) => s,
            _ => Seq::empty(),
        },
        _ => Seq::empty(),
    };
    if spec_token_type(peek_at(toks, pos)) == TokenType::RPAR {
        (AstV::Call { name, lst: Seq::empty() }, pos)
    } else {
        let r0 = parse_expr_spec(toks, pos, 0);
        let rest = comma_elems_spec(toks, clamppos(r0.1, pos, toks.len()));
        (
            AstV::Call { name, lst: seq![r0.0] + rest.0 },
            advance1(toks, clamppos(rest.1, pos, toks.len())),
        )
    }
}

/// A string literal: identifier tokens joined with single spaces up to
/// the closing quote or the end of the input; an immediately closing
/// quote yields the empty text and is left in the stream.
pub open spec fn quote_spec(toks: Seq<TokenV>, pos: nat) -> (AstV, nat)
    decreases toks.len() - pos, 4nat
        when pos <= toks.len()
{
    if spec_token_type(peek_at(toks, pos)) == TokenType::QUOTE {
        (leafv(crate::parsing::ast::ParamV::Str(Seq::empty())), pos)
    } else {
        let r = quote_accum_spec(toks, pos, Seq::empty(), true);
        (
            leafv(crate::parsing::ast::ParamV::Str(r.0)),
            advance1(toks, clamppos(r.1, pos, toks.len())),
        )
    }
}

/// The accumulated string text: each identifier token appends, separated
/// by one space after the first.
pub open spec fn quote_accum_spec(toks: Seq<TokenV>, pos: nat, content: Seq<char>, first: bool) -> (
    Seq<char>,
    nat,
)
    decreases toks.len() - pos, 2nat
        when pos <= toks.len()
{
    if spec_token_type(peek_at(toks, pos)) == TokenType::QUOTE || pos >= toks.len() {
        (content, pos)
    } else {
        let stepped = match peek_at(toks, pos) {
            TokenV::IDENTIFIER(nm) => (
                if first {
                    nm
                } else {
                    content + seq![' '] + nm
                },
                false,
            ),
            _ => (content, first),
        };
        let rec = quote_accum_spec(toks, pos + 1, stepped.0, stepped.1);
        (rec.0, clamppos(rec.1, pos, toks.len()))
    }
}

/// The infix fold: while the next token's rule binds tighter than the
/// floor, take the token and fold the expression so far into its rule.
pub open spec fn infix_loop_spec(toks: Seq<TokenV>, pos: nat, left: AstV, prec: i64) -> (AstV, nat)
    decreases toks.len() - pos, 1nat
        when pos <= toks.len()
{
    let t = peek_at(toks, pos);
    let tt = spec_token_type(t);
    let ip = spec_infix_precedence(tt);
    if prec < ip && ip > 0 {
        proof {
            assert(spec_token_type(TokenV::Null) == TokenType::Null);
            assert(spec_infix_precedence(TokenType::Null) == 0);
        }
        if tt == TokenType::LPAR {
            let r = call_spec(toks, pos + 1, left);
            let lr = infix_loop_spec(toks, clamppos(r.1, pos + 1, toks.len()), r.0, prec);
            (lr.0, clamppos(lr.1, pos, toks.len()))
        } else if tt == TokenType::EQUAL {
            let r = parse_expr_spec(toks, pos + 1, 0);
            let lr = infix_loop_spec(
                toks,
                clamppos(r.1, pos + 1, toks.len()),
                AstV::Node {
                    value: crate::parsing::ast::ParamV::Assign,
                    left: Box::new(left),
                    right: Box::new(r.0),
                },
                prec,
            );
            (lr.0, clamppos(lr.1, pos, toks.len()))
        } else {
            let floor: i64 = if tt == TokenType::EXPO {
                6
            } else {
                ip
            };
            let r = parse_expr_spec(toks, pos + 1, floor);
            let lr = infix_loop_spec(
                toks,
                clamppos(r.1, pos + 1, toks.len()),
                AstV::Node {
                    value: crate::parsing::ast::spec_token_to_parameter(t),
                    left: Box::new(left),
                    right: Box::new(r.0),
                },
                prec,
            );
            (lr.0, clamppos(lr.1, pos, toks.len()))
        }
    } else {
        (left, pos)
    }
}


/// The syntax payload of each arithmetic operator token, by its type.
pub proof fn lemma_operator_token_payload(t: TokenV)
    ensures
        spec_token_type(t) == TokenType::PLUS ==> crate::parsing::ast::spec_token_to_parameter(t)
            == crate::parsing::ast::ParamV::PlusOperation,
        spec_token_type(t) == TokenType::MINUS ==> crate::parsing::ast::spec_token_to_parameter(t)
            == crate::parsing::ast::ParamV::MinusOperation,
        spec_token_type(t) == TokenType::MULTIPLICATION
            ==> crate::parsing::ast::spec_token_to_parameter(t)
            == crate::parsing::ast::ParamV::MultiplicationOperation,
        spec_token_type(t) == TokenType::DIVIDE ==> crate::parsing::ast::spec_token_to_parameter(t)
            == crate::parsing::ast::ParamV::DivideOperation,
        spec_token_type(t) == TokenType::EXPO ==> crate::parsing::ast::spec_token_to_parameter(t)
            == crate::parsing::ast::ParamV::ExpoOperation,
{
}

/// The token cursor the parselets share.
pub struct CalcParser {
    tokens: Vec<Token>,
    pos: usize,
}

/// Starts a parser over a copy of the given token sequence.
pub fn init_calc_parser(input: &Vec<Token>) -> (p: CalcParser)
    ensures
        p.wf(),
        p.spec_pos() == 0,
        p.spec_toks() == tokens_view(input@),
{
    let mut toks: Vec<Token> = Vec::new();
    let mut i: usize = 0;
    while i < input.len()
        invariant
            i <= input@.len(),
            toks@.len() == i,
            forall|j: int| 0 <= j < i ==> toks@[j]@ == input@[j]@,
        decreases input@.len() - i,
    {
        toks.push(clone_token(&input[i]));
        i += 1;
    }
    let p = CalcParser { tokens: toks, pos: 0 };
    proof {
        assert(p.spec_toks() =~= tokens_view(input@));
    }
    p
}

impl CalcParser {
    /// The cursor never stands past the end of the tokens.
    pub open spec fn wf(&self) -> bool {
        self.spec_pos() <= self.spec_toks().len()
    }

    /// The cursor position.
    pub closed spec fn spec_pos(&self) -> nat {
        self.pos as nat
    }

    /// The views of the tokens being parsed.
    pub closed spec fn spec_toks(&self) -> Seq<TokenV> {
        tokens_view(self.tokens@)
    }

    /// How many tokens are left to read.
    pub open spec fn remaining(&self) -> nat {
        (self.spec_toks().len() - self.spec_pos()) as nat
    }

    /// The view of the token `look_ahead` yields at `distance`.
    pub open spec fn spec_peek(&self, distance: nat) -> TokenV {
        if self.spec_pos() + distance < self.spec_toks().len() {
            self.spec_toks()[self.spec_pos() + distance as int]
        } else {
            TokenV::Null
        }
    }

    /// Parses one whole expression.
    pub fn parse(&mut self) -> (r: Ast)
        requires
            old(self).wf(),
        ensures
            final(self).wf(),
            final(self).spec_toks() == old(self).spec_toks(),
            old(self).spec_pos() <= final(self).spec_pos(),
            old(self).remaining() == 0 ==> r == Ast::Nil,
            r@ == parse_expr_spec(old(self).spec_toks(), old(self).spec_pos(), 0).0,
            final(self).spec_pos() == parse_expr_spec(
                old(self).spec_toks(),
                old(self).spec_pos(),
                0,
            ).1,
    {
        self.parse_expression_empty()
    }

    /// Parses an expression whose operators all bind tighter than
    /// `precedence`.
    #[verifier::loop_isolation(false)]
    #[verifier::rlimit(100)]
    #[verifier::spinoff_prover]
    pub fn parse_expression(&mut self, precedence: i64) -> (r: Ast)
        requires
            old(self).wf(),
            precedence >= 0,
        ensures
            final(self).wf(),
            final(self).spec_toks() == old(self).spec_toks(),
            old(self).spec_pos() <= final(self).spec_pos(),
            old(self).remaining() == 0 ==> r == Ast::Nil,
            r@ == parse_expr_spec(old(self).spec_toks(), old(self).spec_pos(), precedence).0,
            final(self).spec_pos() == parse_expr_spec(
                old(self).spec_toks(),
                old(self).spec_pos(),
                precedence,
            ).1,
        decreases old(self).remaining(), 0nat,
    {
        let ghost toks = self.spec_toks();
        let ghost p0 = self.spec_pos();
        let ghost target = parse_expr_spec(toks, p0, precedence);
        let mut token = self.consume();
        proof {
            assert(token@ == peek_at(toks, p0));
            assert(self.spec_pos() == advance1(toks, p0));
            if old(self).remaining() == 0 {
                assert(token@ == TokenV::Null);
                assert(spec_token_type(token@) == TokenType::Null);
            }
        }
        let prefix = self.get_prefix_parselet(token.to_token_type());
        let mut left: Ast = match prefix {
            PrefixParselets::Value(p) => p.parse(self, token),
            PrefixParselets::Operator(p) => {
                proof {
                    assert(self.spec_pos() > p0);
                }
                p.parse(self, token)
            },
            PrefixParselets::Group(p) => {
                proof {
                    assert(self.spec_pos() > p0);
                }
                p.parse(self, token)
            },
            PrefixParselets::Vector(p) => {
                proof {
                    assert(self.spec_pos() > p0);
                }
                p.parse(self, token)
            },
            PrefixParselets::Quote(p) => {
                proof {
                    assert(self.spec_pos() > p0);
                }
                p.parse(self, token)
            },
            PrefixParselets::Null(p) => p.parse(self, token),
        };
        proof {
            assert(crate::parsing::ast::aview(Ast::Nil) == AstV::Nil);
            assert(clamppos(self.spec_pos(), p0, toks.len()) == self.spec_pos());
            assert(infix_loop_spec(toks, self.spec_pos(), left@, precedence).0 == target.0
                && clamppos(
                infix_loop_spec(toks, self.spec_pos(), left@, precedence).1,
                p0,
                toks.len(),
            ) == target.1);
        }
        while precedence < self.get_precedence()
            invariant
                self.wf(),
                self.spec_toks() == toks,
                p0 <= self.spec_pos(),
                precedence >= 0,
                old(self).remaining() == 0 ==> left == Ast::Nil,
                infix_loop_spec(toks, self.spec_pos(), left@, precedence).0 == target.0,
                clamppos(
                    infix_loop_spec(toks, self.spec_pos(), left@, precedence).1,
                    p0,
                    toks.len(),
                ) == target.1,
            decreases self.remaining(),
        {
            let ghost cur = self.spec_pos();
            token = self.consume();
            proof {
                assert(self.spec_pos() > p0);
                assert(token@ == peek_at(toks, cur));
                assert(self.spec_pos() == cur + 1);
            }
            let parselet = self.get_infix_parselet(token.to_token_type());
            proof {
                lemma_operator_token_payload(token@);
            }
            let ghost left0 = left@;
            left = match parselet {
                InfixParselets::Plus(q) => q.parse(self, &left, token),
                InfixParselets::Minus(q) => q.parse(self, &left, token),
                InfixParselets::Mult(q) => q.parse(self, &left, token),
                InfixParselets::Divide(q) => q.parse(self, &left, token),
                InfixParselets::Expo(q) => q.parse(self, &left, token),
                InfixParselets::Operator(q) => q.parse(self, &left, token),
                InfixParselets::Assign(q) => q.parse(self, &left, token),
                InfixParselets::Call(q) => q.parse(self, &left, token),
                InfixParselets::Null(q) => q.parse(self, &left, token),
            };
            proof {
                assert(clamppos(self.spec_pos(), cur + 1, toks.len()) == self.spec_pos());
                assert(infix_loop_spec(toks, self.spec_pos(), left@, precedence).1
                    >= self.spec_pos() && infix_loop_spec(
                    toks,
                    self.spec_pos(),
                    left@,
                    precedence,
                ).1 <= toks.len());
                assert(infix_loop_spec(toks, cur, left0, precedence).0 == infix_loop_spec(
                    toks,
                    self.spec_pos(),
                    left@,
                    precedence,
                ).0);
                assert(infix_loop_spec(toks, cur, left0, precedence).1 == clamppos(
                    infix_loop_spec(toks, self.spec_pos(), left@, precedence).1,
                    cur,
                    toks.len(),
                ));
            }
        }
        proof {
            assert(infix_loop_spec(toks, self.spec_pos(), left@, precedence)
                == (left@, self.spec_pos()));
            assert(clamppos(self.spec_pos(), p0, toks.len()) == self.spec_pos());
        }
        left
    }

    /// Parses an expression with the lowest binding floor.
    pub fn parse_expression_empty(&mut self) -> (r: Ast)
        requires
            old(self).wf(),
        ensures
            final(self).wf(),
            final(self).spec_toks() == old(self).spec_toks(),
            old(self).spec_pos() <= final(self).spec_pos(),
            old(self).remaining() == 0 ==> r == Ast::Nil,
            r@ == parse_expr_spec(old(self).spec_toks(), old(self).spec_pos(), 0).0,
            final(self).spec_pos() == parse_expr_spec(
                old(self).spec_toks(),
                old(self).spec_pos(),
                0,
            ).1,
        decreases old(self).remaining(), 1nat,
    {
        self.parse_expression(0)
    }

    /// How many tokens are left to read, as a machine word.
    pub fn remaining_tokens(&self) -> (r: usize)
        requires
            self.wf(),
        ensures
            r == self.remaining(),
    {
        self.tokens.len() - self.pos
    }

    /// The token at `distance` from the cursor, the absence token past
    /// the end.
    pub fn look_ahead(&self, distance: usize) -> (r: Token)
        requires
            self.wf(),
            distance < 4,
        ensures
            r@ == self.spec_peek(distance as nat),
    {
        if self.pos < self.tokens.len() && self.tokens.len() - self.pos > distance {
            clone_token(&self.tokens[self.pos + distance])
        } else {
            Token::Null
        }
    }

    /// Takes the next token, the absence token past the end.
    pub fn consume(&mut self) -> (r: Token)
        requires
            old(self).wf(),
        ensures
            final(self).wf(),
            final(self).spec_toks() == old(self).spec_toks(),
            r@ == old(self).spec_peek(0),
            old(self).spec_pos() < old(self).spec_toks().len() ==> final(self).spec_pos() == old(
                self,
            ).spec_pos() + 1,
            old(self).spec_pos() >= old(self).spec_toks().len() ==> final(self).spec_pos() == old(
                self,
            ).spec_pos() && r@ == TokenV::Null,
    {
        if self.pos < self.tokens.len() {
            let t = clone_token(&self.tokens[self.pos]);
            self.pos = self.pos + 1;
            t
        } else {
            Token::Null
        }
    }

    /// Whether the next token has the expected type.
    pub fn match_token(&self, expected: TokenType) -> (r: bool)
        requires
            self.wf(),
        ensures
            r == (spec_token_type(self.spec_peek(0)) == expected),
    {
        let token = self.look_ahead(0);
        token.to_token_type() == expected
    }

    /// Takes the next token where it has the expected type; any other
    /// token is taken but replaced by the absence token.
    pub fn consume_expected(&mut self, expected: TokenType) -> (r: Token)
        requires
            old(self).wf(),
        ensures
            final(self).wf(),
            final(self).spec_toks() == old(self).spec_toks(),
            final(self).spec_pos() == advance1(old(self).spec_toks(), old(self).spec_pos()),
            spec_token_type(old(self).spec_peek(0)) == expected ==> r@ == old(self).spec_peek(0),
    {
        let t = self.consume();
        if t.to_token_type() == expected {
            t
        } else {
            Token::Null
        }
    }

    /// The binding strength of the next token's infix rule.
    pub fn get_precedence(&self) -> (r: i64)
        requires
            self.wf(),
        ensures
            r == spec_infix_precedence(spec_token_type(self.spec_peek(0))),
            r > 0 ==> self.spec_pos() < self.spec_toks().len(),
    {
        let t = self.look_ahead(0);
        let p = self.get_infix_parselet(t.to_token_type());
        let r = match p {
            InfixParselets::Plus(q) => q.get_precedence(),
            InfixParselets::Minus(q) => q.get_precedence(),
            InfixParselets::Mult(q) => q.get_precedence(),
            InfixParselets::Divide(q) => q.get_precedence(),
            InfixParselets::Expo(q) => q.get_precedence(),
            InfixParselets::Operator(q) => q.get_precedence(),
            InfixParselets::Assign(q) => q.get_precedence(),
            InfixParselets::Call(q) => q.get_precedence(),
            InfixParselets::Null(q) => q.get_precedence(),
        };
        r
    }

    /// The infix rule of a token type; token types with no infix rule get
    /// the inert rule.
    pub fn get_infix_parselet(&self, token_type: TokenType) -> (r: InfixParselets)
        ensures
            r.spec_precedence() == spec_infix_precedence(token_type),
            (r is Plus) == (token_type == TokenType::PLUS),
            (r is Minus) == (token_type == TokenType::MINUS),
            (r is Mult) == (token_type == TokenType::MULTIPLICATION),
            (r is Divide) == (token_type == TokenType::DIVIDE),
            (r is Assign) == (token_type == TokenType::EQUAL),
            (r is Expo) == (token_type == TokenType::EXPO),
            (r is Call) == (token_type == TokenType::LPAR),
            (r is Operator) == (token_type == TokenType::NOT || token_type == TokenType::EQUALITY
                || token_type == TokenType::LESSER || token_type == TokenType::LESSEREQ
                || token_type == TokenType::GREATER || token_type == TokenType::GREATEREQ
                || token_type == TokenType::OR || token_type == TokenType::AND),
            r matches InfixParselets::Operator(q) ==> !q.is_right && q.precedence == 2,
            r matches InfixParselets::Expo(q) ==> q.is_right,
            r matches InfixParselets::Plus(q) ==> !q.is_right,
            r matches InfixParselets::Minus(q) ==> !q.is_right,
            r matches InfixParselets::Mult(q) ==> !q.is_right,
            r matches InfixParselets::Divide(q) ==> !q.is_right,
    {
        match token_type {
            TokenType::PLUS => InfixParselets::Plus(PlusParselet { is_right: false }),
            TokenType::MINUS => InfixParselets::Minus(MinusParselet { is_right: false }),
            TokenType::MULTIPLICATION => InfixParselets::Mult(MultParselet { is_right: false }),
            TokenType::DIVIDE => InfixParselets::Divide(DivideParselet { is_right: false }),
            TokenType::EQUAL => InfixParselets::Assign(AssignParselet {  }),
            TokenType::EXPO => InfixParselets::Expo(ExpoParselet { is_right: true }),
            TokenType::LPAR => InfixParselets::Call(CallParselet {  }),
            TokenType::NOT => InfixParselets::Operator(
                OperatorInfixParselet { is_right: false, precedence: 2 },
            ),
            TokenType::EQUALITY => InfixParselets::Operator(
                OperatorInfixParselet { is_right: false, precedence: 2 },
            ),
            TokenType::LESSER => InfixParselets::Operator(
                OperatorInfixParselet { is_right: false, precedence: 2 },
            ),
            TokenType::LESSEREQ => InfixParselets::Operator(
                OperatorInfixParselet { is_right: false, precedence: 2 },
            ),
            TokenType::GREATER => InfixParselets::Operator(
                OperatorInfixParselet { is_right: false, precedence: 2 },
            ),
            TokenType::GREATEREQ => InfixParselets::Operator(
                OperatorInfixParselet { is_right: false, precedence: 2 },
            ),
            TokenType::OR => InfixParselets::Operator(
                OperatorInfixParselet { is_right: false, precedence: 2 },
            ),
            TokenType::AND => InfixParselets::Operator(
                OperatorInfixParselet { is_right: false, precedence: 2 },
            ),
            _ => InfixParselets::Null(NullParset {  }),
        }
    }

    /// The prefix rule of a token type; token types with no prefix rule
    /// get the rule that yields the empty tree.
    pub fn get_prefix_parselet(&self, token_type: TokenType) -> (r: PrefixParselets)
        ensures
            (r is Value) == (token_type == TokenType::IDENTIFIER || token_type == TokenType::INT
                || token_type == TokenType::FLOAT || token_type == TokenType::BOOL),
            (r is Group) == (token_type == TokenType::LPAR),
            (r is Vector) == (token_type == TokenType::LBRACKET),
            (r is Quote) == (token_type == TokenType::QUOTE),
            (r is Operator) == (token_type == TokenType::PLUS || token_type == TokenType::MINUS
                || token_type == TokenType::MULTIPLICATION || token_type == TokenType::DIVIDE
                || token_type == TokenType::NOT || token_type == TokenType::EQUALITY || token_type
                == TokenType::LESSER || token_type == TokenType::LESSEREQ || token_type
                == TokenType::GREATER || token_type == TokenType::GREATEREQ),
            (r is Null) == !(token_type == TokenType::PLUS || token_type == TokenType::MINUS
                || token_type == TokenType::MULTIPLICATION || token_type == TokenType::DIVIDE
                || token_type == TokenType::IDENTIFIER || token_type == TokenType::INT
                || token_type == TokenType::FLOAT || token_type == TokenType::BOOL || token_type
                == TokenType::LPAR || token_type == TokenType::NOT || token_type
                == TokenType::EQUALITY || token_type == TokenType::LESSER || token_type
                == TokenType::LESSEREQ || token_type == TokenType::GREATER || token_type
                == TokenType::GREATEREQ || token_type == TokenType::LBRACKET || token_type
                == TokenType::QUOTE),
    {
        match token_type {
            TokenType::PLUS => PrefixParselets::Operator(OperatorPrefixParselet {  }),
            TokenType::MINUS => PrefixParselets::Operator(OperatorPrefixParselet {  }),
            TokenType::MULTIPLICATION => PrefixParselets::Operator(OperatorPrefixParselet {  }),
            TokenType::DIVIDE => PrefixParselets::Operator(OperatorPrefixParselet {  }),
            TokenType::IDENTIFIER => PrefixParselets::Value(ValueParselet {  }),
            TokenType::INT => PrefixParselets::Value(ValueParselet {  }),
            TokenType::FLOAT => PrefixParselets::Value(ValueParselet {  }),
            TokenType::BOOL => PrefixParselets::Value(ValueParselet {  }),
            TokenType::LPAR => PrefixParselets::Group(GroupParselet {  }),
            TokenType::NOT => PrefixParselets::Operator(OperatorPrefixParselet {  }),
            TokenType::EQUALITY => PrefixParselets::Operator(OperatorPrefixParselet {  }),
            TokenType::LESSER => PrefixParselets::Operator(OperatorPrefixParselet {  }),
            TokenType::LESSEREQ => PrefixParselets::Operator(OperatorPrefixParselet {  }),
            TokenType::GREATER => PrefixParselets::Operator(OperatorPrefixParselet {  }),
            TokenType::GREATEREQ => PrefixParselets::Operator(OperatorPrefixParselet {  }),
            TokenType::LBRACKET => PrefixParselets::Vector(VecParselet {  }),
            TokenType::QUOTE => PrefixParselets::Quote(QuoteParselet {  }),
            _ => PrefixParselets::Null(NullParselet {  }),
        }
    }
}

} // verus!
