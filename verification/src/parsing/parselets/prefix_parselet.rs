//! The prefix construction rules: literals and identifiers become leaf
//! nodes, a leading operator wraps its operand, parentheses group, a
//! bracket opens a vector literal, a quote opens a string literal, and
//! anything else becomes the empty tree.

use vstd::prelude::*;

use crate::lexing::token::Token;
use crate::lexing::token::TokenType;
use crate::lexing::token::TokenV;
use crate::parsing::ast::Ast;
use crate::parsing::ast::AstV;
use crate::parsing::ast::ParamV;
use crate::parsing::ast::Parameters;
use crate::parsing::ast::aview_seq;
use crate::parsing::ast::spec_token_to_parameter;
use crate::parsing::ast::token_to_parameter;
use crate::parsing::parser::CalcParser;
use crate::parsing::parser::clamppos;
use crate::parsing::parser::comma_elems_spec;
use crate::parsing::parser::leafv;
use crate::parsing::parser::parse_expr_spec;
use crate::parsing::parser::peek_at;
use crate::parsing::parser::quote_accum_spec;
use crate::parsing::parser::quote_spec;
use crate::parsing::parser::vec_spec;
use crate::utils::text::push_char;
use vstd::string::StringExecFns;

verus! {

pub struct ValueParselet {}

pub struct OperatorPrefixParselet {}

pub struct NullParselet {}

pub struct GroupParselet {}

pub struct VecParselet {}

pub struct QuoteParselet {}

/// The prefix rules, as one dispatchable alternative.
pub enum PrefixParselets {
    Value(ValueParselet),
    Operator(OperatorPrefixParselet),
    Null(NullParselet),
    Group(GroupParselet),
    Vector(VecParselet),
    Quote(QuoteParselet),
}

impl ValueParselet {
    /// A literal or identifier token becomes a leaf node.
    pub fn parse(&self, _parser: &mut CalcParser, token: Token) -> (r: Ast)
        ensures
            *final(_parser) == *old(_parser),
            r@ == leafv(spec_token_to_parameter(token@)),
    {
        let pval = token_to_parameter(token);
        let ghost pvv = pval@;
        let result = Ast::new(pval);
        proof {
            assert(leafv(pvv) == (AstV::Node {
                value: pvv,
                left: Box::new(AstV::Nil),
                right: Box::new(AstV::Nil),
            }));
        }
        result
    }
}

impl OperatorPrefixParselet {
    /// A leading operator takes one operand, parsed at the lowest floor.
    pub fn parse(&self, parser: &mut CalcParser, token: Token) -> (r: Ast)
        requires
            old(parser).wf(),
        ensures
            final(parser).wf(),
            final(parser).spec_toks() == old(parser).spec_toks(),
            old(parser).spec_pos() <= final(parser).spec_pos(),
            r@ == crate::parsing::parser::opprefix_spec(
                old(parser).spec_toks(),
                old(parser).spec_pos(),
                token@,
            ).0,
            final(parser).spec_pos() == crate::parsing::parser::opprefix_spec(
                old(parser).spec_toks(),
                old(parser).spec_pos(),
                token@,
            ).1,
        decreases old(parser).remaining(), 2nat,
    {
        let operand = parser.parse_expression_empty();
        let pval = token_to_parameter(token);
        let ghost pvv = pval@;
        let result = Ast::Node {
            value: pval,
            left: Box::new(operand),
            right: Box::new(Ast::Nil),
        };
        proof {
            assert(crate::parsing::ast::aview(Ast::Nil) == AstV::Nil);
            assert(result@ matches AstV::Node { value: v2, left: l2, right: r2 } && v2 == pvv
                && *l2 == parse_expr_spec(
                old(parser).spec_toks(),
                old(parser).spec_pos(),
                0,
            ).0 && *r2 == AstV::Nil);
            assert(clamppos(
                parse_expr_spec(old(parser).spec_toks(), old(parser).spec_pos(), 0).1,
                old(parser).spec_pos(),
                old(parser).spec_toks().len(),
            ) == parse_expr_spec(old(parser).spec_toks(), old(parser).spec_pos(), 0).1);
        }
        result
    }
}

impl NullParselet {
    /// The inert prefix rule: the empty tree.
    pub fn parse(&self, _parser: &mut CalcParser, _token: Token) -> (r: Ast)
        ensures
            *final(_parser) == *old(_parser),
            r == Ast::Nil,
    {
        Ast::Nil
    }
}

impl GroupParselet {
    /// Parentheses group a whole expression; the closing parenthesis is
    /// required (any other token there is taken and dropped).
    pub fn parse(&self, parser: &mut CalcParser, _token: Token) -> (r: Ast)
        requires
            old(parser).wf(),
        ensures
            final(parser).wf(),
            final(parser).spec_toks() == old(parser).spec_toks(),
            old(parser).spec_pos() <= final(parser).spec_pos(),
            r@ == crate::parsing::parser::group_spec(
                old(parser).spec_toks(),
                old(parser).spec_pos(),
            ).0,
            final(parser).spec_pos() == crate::parsing::parser::group_spec(
                old(parser).spec_toks(),
                old(parser).spec_pos(),
            ).1,
        decreases old(parser).remaining(), 2nat,
    {
        let expression = parser.parse_expression_empty();
        let _ = parser.consume_expected(TokenType::RPAR);
        proof {
            assert(clamppos(
                parse_expr_spec(old(parser).spec_toks(), old(parser).spec_pos(), 0).1,
                old(parser).spec_pos(),
                old(parser).spec_toks().len(),
            ) == parse_expr_spec(old(parser).spec_toks(), old(parser).spec_pos(), 0).1);
        }
        expression
    }
}

impl VecParselet {
    /// A bracket opens a vector literal: comma-separated expressions up
    /// to the closing bracket.
    #[verifier::loop_isolation(false)]
    pub fn parse(&self, parser: &mut CalcParser, _token: Token) -> (r: Ast)
        requires
            old(parser).wf(),
        ensures
            final(parser).wf(),
            final(parser).spec_toks() == old(parser).spec_toks(),
            old(parser).spec_pos() <= final(parser).spec_pos(),
            r@ == vec_spec(old(parser).spec_toks(), old(parser).spec_pos()).0,
            final(parser).spec_pos() == vec_spec(
                old(parser).spec_toks(),
                old(parser).spec_pos(),
            ).1,
        decreases old(parser).remaining(), 2nat,
    {
        let ghost toks = old(parser).spec_toks();
        let ghost q0 = old(parser).spec_pos();
        let mut vec: Vec<Ast> = Vec::new();
        if !parser.match_token(TokenType::RBRACKET) {
            let first = parser.parse_expression_empty();
            let ghost p1 = parser.spec_pos();
            proof {
                assert(clamppos(p1, q0, toks.len()) == p1);
            }
            vec.push(first);
            let ghost full = comma_elems_spec(toks, p1);
            proof {
                crate::parsing::ast::lemma_aview_seq(vec@);
                assert(aview_seq(vec@) =~= seq![parse_expr_spec(toks, q0, 0).0]);
            }
            loop
                invariant
                    parser.wf(),
                    parser.spec_toks() == toks,
                    q0 <= parser.spec_pos(),
                    vec@.len() >= 1,
                    aview_seq(vec@) + comma_elems_spec(toks, parser.spec_pos()).0 =~= seq![
                        parse_expr_spec(toks, q0, 0).0,
                    ] + full.0,
                    comma_elems_spec(toks, parser.spec_pos()).1 == full.1,
                decreases parser.remaining(),
            {
                if !parser.match_token(TokenType::COMMA) {
                    break ;
                }
                let ghost cur = parser.spec_pos();
                let _ = parser.consume();
                let elem = parser.parse_expression_empty();
                let ghost np = parser.spec_pos();
                let ghost pre = vec@;
                vec.push(elem);
                proof {
                    assert(clamppos(np, cur + 1, toks.len()) == np);
                    assert(comma_elems_spec(toks, np).1 >= np && comma_elems_spec(toks, np).1
                        <= toks.len());
                    assert(clamppos(comma_elems_spec(toks, np).1, cur, toks.len())
                        == comma_elems_spec(toks, np).1);
                    assert(comma_elems_spec(toks, cur).0 =~= seq![
                        parse_expr_spec(toks, cur + 1, 0).0,
                    ] + comma_elems_spec(toks, np).0);
                    assert(comma_elems_spec(toks, cur).1 == comma_elems_spec(toks, np).1);
                    assert(vec@.drop_last() =~= pre);
                    crate::parsing::ast::lemma_aview_seq(vec@);
                    crate::parsing::ast::lemma_aview_seq(pre);
                    assert(aview_seq(vec@) =~= aview_seq(pre).push(
                        parse_expr_spec(toks, cur + 1, 0).0,
                    ));
                    assert(aview_seq(vec@) + comma_elems_spec(toks, np).0 =~= seq![
                        parse_expr_spec(toks, q0, 0).0,
                    ] + full.0);
                }
            }
            let ghost cur = parser.spec_pos();
            proof {
                assert(comma_elems_spec(toks, cur).0 =~= Seq::<AstV>::empty());
                assert(comma_elems_spec(toks, cur).1 == cur);
                assert(full.1 == cur);
                assert(clamppos(cur, q0, toks.len()) == cur);
            }
            let ghost vv = aview_seq(vec@);
            let _ = parser.consume_expected(TokenType::RBRACKET);
            let pval = Parameters::Vector(Box::new(vec));
            let ghost pvv = pval@;
            let result = Ast::Node {
                value: pval,
                left: Box::new(Ast::Nil),
                right: Box::new(Ast::Nil),
            };
            proof {
                assert(pvv == ParamV::Vector(vv));
                assert(crate::parsing::ast::aview(Ast::Nil) == AstV::Nil);
                assert(result@ matches AstV::Node { value: v2, left: l2, right: r2 } && v2
                    == ParamV::Vector(vv) && *l2 == AstV::Nil && *r2 == AstV::Nil);
                assert(vv =~= seq![parse_expr_spec(toks, q0, 0).0] + full.0);
            }
            result
        } else {
            proof {
                assert(aview_seq(vec@) =~= Seq::<AstV>::empty());
            }
            let pval = Parameters::Vector(Box::new(vec));
            let ghost pvv = pval@;
            let result = Ast::Node {
                value: pval,
                left: Box::new(Ast::Nil),
                right: Box::new(Ast::Nil),
            };
            proof {
                assert(pvv == ParamV::Vector(Seq::<AstV>::empty()));
                assert(crate::parsing::ast::aview(Ast::Nil) == AstV::Nil);
                assert(result@ matches AstV::Node { value: v2, left: l2, right: r2 } && v2
                    == ParamV::Vector(Seq::<AstV>::empty()) && *l2 == AstV::Nil && *r2
                    == AstV::Nil);
            }
            result
        }
    }
}

impl QuoteParselet {
    /// A quote opens a string literal: identifier tokens are joined with
    /// single spaces up to the closing quote or the end of the input.
    #[verifier::loop_isolation(false)]
    pub fn parse(&self, parser: &mut CalcParser, _token: Token) -> (r: Ast)
        requires
            old(parser).wf(),
        ensures
            final(parser).wf(),
            final(parser).spec_toks() == old(parser).spec_toks(),
            old(parser).spec_pos() <= final(parser).spec_pos(),
            r@ == quote_spec(old(parser).spec_toks(), old(parser).spec_pos()).0,
            final(parser).spec_pos() == quote_spec(
                old(parser).spec_toks(),
                old(parser).spec_pos(),
            ).1,
        decreases old(parser).remaining(), 2nat,
    {
        let ghost toks = old(parser).spec_toks();
        let ghost q0 = old(parser).spec_pos();
        let mut content = String::new();
        let mut first = true;
        if !parser.match_token(TokenType::QUOTE) {
            loop
                invariant
                    parser.wf(),
                    parser.spec_toks() == toks,
                    q0 <= parser.spec_pos(),
                    first ==> content@.len() == 0,
                    quote_accum_spec(toks, parser.spec_pos(), content@, first)
                        == quote_accum_spec(toks, q0, Seq::<char>::empty(), true),
                decreases parser.remaining(),
            {
                if parser.match_token(TokenType::QUOTE) {
                    break ;
                }
                if parser.remaining_tokens() == 0 {
                    break ;
                }
                let ghost cur = parser.spec_pos();
                let ghost c0 = content@;
                let ghost f0 = first;
                match parser.consume() {
                    Token::IDENTIFIER(s) => {
                        if !first {
                            push_char(&mut content, ' ');
                        }
                        content.append(s.as_str());
                        first = false;
                        proof {
                            if f0 {
                                assert(content@ =~= s@);
                            } else {
                                assert(content@ =~= c0 + seq![' '] + s@);
                            }
                            assert(peek_at(toks, cur) == TokenV::IDENTIFIER(s@));
                        }
                    },
                    _ => (),
                }
            }
            let ghost cur = parser.spec_pos();
            let ghost cv = content@;
            proof {
                assert(quote_accum_spec(toks, cur, cv, first) == (cv, cur));
                assert(clamppos(cur, q0, toks.len()) == cur);
            }
            let _ = parser.consume_expected(TokenType::QUOTE);
            let pval = Parameters::Str(content);
            let ghost pvv = pval@;
            let result = Ast::Node {
                value: pval,
                left: Box::new(Ast::Nil),
                right: Box::new(Ast::Nil),
            };
            proof {
                assert(pvv == ParamV::Str(cv));
                assert(crate::parsing::ast::aview(Ast::Nil) == AstV::Nil);
                assert(result@ matches AstV::Node { value: v2, left: l2, right: r2 } && v2
                    == ParamV::Str(cv) && *l2 == AstV::Nil && *r2 == AstV::Nil);
            }
            result
        } else {
            let ghost cv0 = content@;
            let pval = Parameters::Str(content);
            let ghost pvv = pval@;
            let result = Ast::Node {
                value: pval,
                left: Box::new(Ast::Nil),
                right: Box::new(Ast::Nil),
            };
            proof {
                assert(pvv == ParamV::Str(cv0));
                assert(cv0 =~= Seq::<char>::empty());
                assert(crate::parsing::ast::aview(Ast::Nil) == AstV::Nil);
                assert(result@ matches AstV::Node { value: v2, left: l2, right: r2 } && v2
                    == ParamV::Str(cv0) && *l2 == AstV::Nil && *r2 == AstV::Nil);
            }
            result
        }
    }
}

} // verus!
