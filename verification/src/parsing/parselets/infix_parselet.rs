//! The infix construction rules: one per binary operator, one for
//! assignment, one for calls, and an inert rule for everything else.

use vstd::prelude::*;

use crate::lexing::token::Token;
use crate::lexing::token::Precedence;
use crate::lexing::token::TokenType;
use crate::parsing::ast::Ast;
use crate::parsing::ast::AstV;
use crate::parsing::ast::ParamV;
use crate::parsing::ast::Parameters;
use crate::parsing::ast::spec_token_to_parameter;
use crate::parsing::ast::token_to_parameter;
use crate::parsing::parser::call_spec;
use crate::parsing::parser::clamppos;
use crate::parsing::parser::comma_elems_spec;
use crate::parsing::parser::parse_expr_spec;
use crate::parsing::parser::CalcParser;

verus! {

pub struct PlusParselet {
    pub is_right: bool,
}

pub struct MinusParselet {
    pub is_right: bool,
}

pub struct MultParselet {
    pub is_right: bool,
}

pub struct DivideParselet {
    pub is_right: bool,
}

pub struct AssignParselet {}

pub struct ExpoParselet {
    pub is_right: bool,
}

pub struct CallParselet {}

pub struct NullParset {}

/// The generic infix rule of one operator band, used by the comparison
/// and logic operators.
pub struct OperatorInfixParselet {
    pub is_right: bool,
    pub precedence: i64,
}

/// The infix rules, as one dispatchable alternative.
pub enum InfixParselets {
    Plus(PlusParselet),
    Minus(MinusParselet),
    Mult(MultParselet),
    Divide(DivideParselet),
    Expo(ExpoParselet),
    Operator(OperatorInfixParselet),
    Assign(AssignParselet),
    Call(CallParselet),
    Null(NullParset),
}

impl InfixParselets {
    /// The binding strength of the rule.
    pub open spec fn spec_precedence(&self) -> i64 {
        match self {
            InfixParselets::Plus(_) => 4,
            InfixParselets::Minus(_) => 3,
            InfixParselets::Mult(_) => 6,
            InfixParselets::Divide(_) => 5,
            InfixParselets::Expo(_) => 7,
            InfixParselets::Operator(p) => p.precedence,
            InfixParselets::Assign(_) => 1,
            InfixParselets::Call(_) => 10,
            InfixParselets::Null(_) => 0,
        }
    }
}

impl PlusParselet {
    pub fn parse(&self, parser: &mut CalcParser, left: &Ast, _token: Token) -> (r: Ast)
        requires
            old(parser).wf(),
        ensures
            final(parser).wf(),
            final(parser).spec_toks() == old(parser).spec_toks(),
            old(parser).spec_pos() <= final(parser).spec_pos(),
            r@ == (AstV::Node {
                value: ParamV::PlusOperation,
                left: Box::new(left@),
                right: Box::new(
                    parse_expr_spec(
                        old(parser).spec_toks(),
                        old(parser).spec_pos(),
                        if self.is_right {
                            3
                        } else {
                            4
                        },
                    ).0,
                ),
            }),
            final(parser).spec_pos() == parse_expr_spec(
                old(parser).spec_toks(),
                old(parser).spec_pos(),
                if self.is_right {
                    3
                } else {
                    4
                },
            ).1,
        decreases old(parser).remaining(), 2nat,
    {
        let right = parser.parse_expression(
            if self.is_right {
                3
            } else {
                4
            },
        );
        let result = Ast::Node {
            value: Parameters::PlusOperation,
            left: Box::new(left.deep_clone()),
            right: Box::new(right),
        };
        proof {
            assert(crate::parsing::ast::pview(Parameters::PlusOperation)
                == ParamV::PlusOperation);
            assert(result@ matches AstV::Node { value: v2, left: l2, right: r2 } && v2
                == ParamV::PlusOperation && *l2 == left@ && *r2 == right@);
        }
        result
    }

    pub fn get_precedence(&self) -> (r: i64)
        ensures
            r == 4,
    {
        Precedence::SUM.value()
    }
}

impl MinusParselet {
    pub fn parse(&self, parser: &mut CalcParser, left: &Ast, _token: Token) -> (r: Ast)
        requires
            old(parser).wf(),
        ensures
            final(parser).wf(),
            final(parser).spec_toks() == old(parser).spec_toks(),
            old(parser).spec_pos() <= final(parser).spec_pos(),
            r@ == (AstV::Node {
                value: ParamV::MinusOperation,
                left: Box::new(left@),
                right: Box::new(
                    parse_expr_spec(
                        old(parser).spec_toks(),
                        old(parser).spec_pos(),
                        if self.is_right {
                            2
                        } else {
                            3
                        },
                    ).0,
                ),
            }),
            final(parser).spec_pos() == parse_expr_spec(
                old(parser).spec_toks(),
                old(parser).spec_pos(),
                if self.is_right {
                    2
                } else {
                    3
                },
            ).1,
        decreases old(parser).remaining(), 2nat,
    {
        let right = parser.parse_expression(
            if self.is_right {
                2
            } else {
                3
            },
        );
        let result = Ast::Node {
            value: Parameters::MinusOperation,
            left: Box::new(left.deep_clone()),
            right: Box::new(right),
        };
        proof {
            assert(crate::parsing::ast::pview(Parameters::MinusOperation) == ParamV::MinusOperation);
            assert(result@ matches AstV::Node { value: v2, left: l2, right: r2 } && v2
                == ParamV::MinusOperation && *l2 == left@ && *r2 == right@);
        }
        result
    }

    pub fn get_precedence(&self) -> (r: i64)
        ensures
            r == 3,
    {
        Precedence::MINUS.value()
    }
}

impl MultParselet {
    pub fn parse(&self, parser: &mut CalcParser, left: &Ast, _token: Token) -> (r: Ast)
        requires
            old(parser).wf(),
        ensures
            final(parser).wf(),
            final(parser).spec_toks() == old(parser).spec_toks(),
            old(parser).spec_pos() <= final(parser).spec_pos(),
            r@ == (AstV::Node {
                value: ParamV::MultiplicationOperation,
                left: Box::new(left@),
                right: Box::new(
                    parse_expr_spec(
                        old(parser).spec_toks(),
                        old(parser).spec_pos(),
                        if self.is_right {
                            5
                        } else {
                            6
                        },
                    ).0,
                ),
            }),
            final(parser).spec_pos() == parse_expr_spec(
                old(parser).spec_toks(),
                old(parser).spec_pos(),
                if self.is_right {
                    5
                } else {
                    6
                },
            ).1,
        decreases old(parser).remaining(), 2nat,
    {
        let right = parser.parse_expression(
            if self.is_right {
                5
            } else {
                6
            },
        );
        let result = Ast::Node {
            value: Parameters::MultiplicationOperation,
            left: Box::new(left.deep_clone()),
            right: Box::new(right),
        };
        proof {
            assert(crate::parsing::ast::pview(Parameters::MultiplicationOperation) == ParamV::MultiplicationOperation);
            assert(result@ matches AstV::Node { value: v2, left: l2, right: r2 } && v2
                == ParamV::MultiplicationOperation && *l2 == left@ && *r2 == right@);
        }
        result
    }

    pub fn get_precedence(&self) -> (r: i64)
        ensures
            r == 6,
    {
        Precedence::PRODUCT.value()
    }
}

impl DivideParselet {
    pub fn parse(&self, parser: &mut CalcParser, left: &Ast, _token: Token) -> (r: Ast)
        requires
            old(parser).wf(),
        ensures
            final(parser).wf(),
            final(parser).spec_toks() == old(parser).spec_toks(),
            old(parser).spec_pos() <= final(parser).spec_pos(),
            r@ == (AstV::Node {
                value: ParamV::DivideOperation,
                left: Box::new(left@),
                right: Box::new(
                    parse_expr_spec(
                        old(parser).spec_toks(),
                        old(parser).spec_pos(),
                        if self.is_right {
                            4
                        } else {
                            5
                        },
                    ).0,
                ),
            }),
            final(parser).spec_pos() == parse_expr_spec(
                old(parser).spec_toks(),
                old(parser).spec_pos(),
                if self.is_right {
                    4
                } else {
                    5
                },
            ).1,
        decreases old(parser).remaining(), 2nat,
    {
        let right = parser.parse_expression(
            if self.is_right {
                4
            } else {
                5
            },
        );
        let result = Ast::Node {
            value: Parameters::DivideOperation,
            left: Box::new(left.deep_clone()),
            right: Box::new(right),
        };
        proof {
            assert(crate::parsing::ast::pview(Parameters::DivideOperation) == ParamV::DivideOperation);
            assert(result@ matches AstV::Node { value: v2, left: l2, right: r2 } && v2
                == ParamV::DivideOperation && *l2 == left@ && *r2 == right@);
        }
        result
    }

    pub fn get_precedence(&self) -> (r: i64)
        ensures
            r == 5,
    {
        Precedence::DIVIDE.value()
    }
}

impl ExpoParselet {
    pub fn parse(&self, parser: &mut CalcParser, left: &Ast, _token: Token) -> (r: Ast)
        requires
            old(parser).wf(),
        ensures
            final(parser).wf(),
            final(parser).spec_toks() == old(parser).spec_toks(),
            old(parser).spec_pos() <= final(parser).spec_pos(),
            r@ == (AstV::Node {
                value: ParamV::ExpoOperation,
                left: Box::new(left@),
                right: Box::new(
                    parse_expr_spec(
                        old(parser).spec_toks(),
                        old(parser).spec_pos(),
                        if self.is_right {
                            6
                        } else {
                            7
                        },
                    ).0,
                ),
            }),
            final(parser).spec_pos() == parse_expr_spec(
                old(parser).spec_toks(),
                old(parser).spec_pos(),
                if self.is_right {
                    6
                } else {
                    7
                },
            ).1,
        decreases old(parser).remaining(), 2nat,
    {
        let right = parser.parse_expression(
            if self.is_right {
                6
            } else {
                7
            },
        );
        let result = Ast::Node {
            value: Parameters::ExpoOperation,
            left: Box::new(left.deep_clone()),
            right: Box::new(right),
        };
        proof {
            assert(crate::parsing::ast::pview(Parameters::ExpoOperation) == ParamV::ExpoOperation);
            assert(result@ matches AstV::Node { value: v2, left: l2, right: r2 } && v2
                == ParamV::ExpoOperation && *l2 == left@ && *r2 == right@);
        }
        result
    }

    pub fn get_precedence(&self) -> (r: i64)
        ensures
            r == 7,
    {
        Precedence::EXPONENT.value()
    }
}

impl OperatorInfixParselet {
    /// Builds the node for one comparison or logic operator, with the
    /// right side parsed at this rule's own binding strength.
    pub fn parse(&self, parser: &mut CalcParser, left: &Ast, token: Token) -> (r: Ast)
        requires
            old(parser).wf(),
            self.precedence >= 1,
        ensures
            final(parser).wf(),
            final(parser).spec_toks() == old(parser).spec_toks(),
            old(parser).spec_pos() <= final(parser).spec_pos(),
            r@ == (AstV::Node {
                value: spec_token_to_parameter(token@),
                left: Box::new(left@),
                right: Box::new(
                    parse_expr_spec(
                        old(parser).spec_toks(),
                        old(parser).spec_pos(),
                        if self.is_right {
                            (self.precedence - 1) as i64
                        } else {
                            self.precedence
                        },
                    ).0,
                ),
            }),
            final(parser).spec_pos() == parse_expr_spec(
                old(parser).spec_toks(),
                old(parser).spec_pos(),
                if self.is_right {
                    (self.precedence - 1) as i64
                } else {
                    self.precedence
                },
            ).1,
        decreases old(parser).remaining(), 2nat,
    {
        let floor: i64 = if self.is_right {
            self.precedence - 1
        } else {
            self.precedence
        };
        let right = parser.parse_expression(floor);
        let pval = token_to_parameter(token);
        let ghost pvv = pval@;
        let result = Ast::Node {
            value: pval,
            left: Box::new(left.deep_clone()),
            right: Box::new(right),
        };
        proof {
            assert(result@ matches AstV::Node { value: v2, left: l2, right: r2 } && v2 == pvv
                && *l2 == left@ && *r2 == right@);
        }
        result
    }

    pub fn get_precedence(&self) -> (r: i64)
        ensures
            r == self.precedence,
    {
        self.precedence
    }
}

impl AssignParselet {
    /// Assignment binds everything to its right: the right-hand side is
    /// parsed at the lowest floor.
    pub fn parse(&self, parser: &mut CalcParser, left: &Ast, _token: Token) -> (r: Ast)
        requires
            old(parser).wf(),
        ensures
            final(parser).wf(),
            final(parser).spec_toks() == old(parser).spec_toks(),
            old(parser).spec_pos() <= final(parser).spec_pos(),
            r@ == (AstV::Node {
                value: ParamV::Assign,
                left: Box::new(left@),
                right: Box::new(
                    parse_expr_spec(old(parser).spec_toks(), old(parser).spec_pos(), 0).0,
                ),
            }),
            final(parser).spec_pos() == parse_expr_spec(
                old(parser).spec_toks(),
                old(parser).spec_pos(),
                0,
            ).1,
        decreases old(parser).remaining(), 2nat,
    {
        let right = parser.parse_expression_empty();
        let result = Ast::Node {
            value: Parameters::Assign,
            left: Box::new(left.deep_clone()),
            right: Box::new(right),
        };
        proof {
            assert(crate::parsing::ast::pview(Parameters::Assign) == ParamV::Assign);
            assert(result@ matches AstV::Node { value: v2, left: l2, right: r2 } && v2
                == ParamV::Assign && *l2 == left@ && *r2 == right@);
        }
        result
    }

    pub fn get_precedence(&self) -> (r: i64)
        ensures
            r == 1,
    {
        Precedence::ASSIGNMENT.value()
    }
}

impl CallParselet {
    /// Builds a call node named after the left operand's identifier text
    /// (empty for any other operand), with the comma-separated arguments
    /// parsed up to the closing parenthesis.
    #[verifier::loop_isolation(false)]
    pub fn parse(&self, parser: &mut CalcParser, left: &Ast, _token: Token) -> (r: Ast)
        requires
            old(parser).wf(),
        ensures
            final(parser).wf(),
            final(parser).spec_toks() == old(parser).spec_toks(),
            old(parser).spec_pos() <= final(parser).spec_pos(),
            r@ == call_spec(old(parser).spec_toks(), old(parser).spec_pos(), left@).0,
            final(parser).spec_pos() == call_spec(
                old(parser).spec_toks(),
                old(parser).spec_pos(),
                left@,
            ).1,
        decreases old(parser).remaining(), 2nat,
    {
        let ghost toks = old(parser).spec_toks();
        let ghost q0 = old(parser).spec_pos();
        let name: String = match left {
            Ast::Node { value, left: _, right: _ } => {
                proof {
                    assert(left@ matches AstV::Node { value: lv, left: l9, right: r9 } && lv == (
                    *value)@);
                }
                match value {
                    Parameters::Identifier(s) => s.clone(),
                    _ => String::new(),
                }
            },
            _ => String::new(),
        };
        let ghost nv = name@;
        let mut lst: Vec<Ast> = Vec::new();
        if !parser.match_token(TokenType::RPAR) {
            let first = parser.parse_expression_empty();
            let ghost p1 = parser.spec_pos();
            proof {
                assert(crate::parsing::parser::clamppos(p1, q0, toks.len()) == p1);
            }
            lst.push(first);
            let ghost full = comma_elems_spec(toks, p1);
            proof {
                crate::parsing::ast::lemma_aview_seq(lst@);
                assert(crate::parsing::ast::aview_seq(lst@) =~= seq![
                    parse_expr_spec(toks, q0, 0).0,
                ]);
            }
            loop
                invariant
                    parser.wf(),
                    parser.spec_toks() == toks,
                    q0 <= parser.spec_pos(),
                    lst@.len() >= 1,
                    crate::parsing::ast::aview_seq(lst@) + comma_elems_spec(
                        toks,
                        parser.spec_pos(),
                    ).0 =~= seq![parse_expr_spec(toks, q0, 0).0] + full.0,
                    comma_elems_spec(toks, parser.spec_pos()).1 == full.1,
                decreases parser.remaining(),
            {
                if !parser.match_token(TokenType::COMMA) {
                    break ;
                }
                let ghost cur = parser.spec_pos();
                let _ = parser.consume();
                let ast = parser.parse_expression_empty();
                let ghost np = parser.spec_pos();
                let ghost pre = lst@;
                lst.push(ast);
                proof {
                    assert(crate::parsing::parser::clamppos(np, cur + 1, toks.len()) == np);
                    assert(comma_elems_spec(toks, np).1 >= np && comma_elems_spec(toks, np).1
                        <= toks.len());
                    assert(crate::parsing::parser::clamppos(
                        comma_elems_spec(toks, np).1,
                        cur,
                        toks.len(),
                    ) == comma_elems_spec(toks, np).1);
                    assert(comma_elems_spec(toks, cur).0 =~= seq![
                        parse_expr_spec(toks, cur + 1, 0).0,
                    ] + comma_elems_spec(toks, np).0);
                    assert(comma_elems_spec(toks, cur).1 == comma_elems_spec(toks, np).1);
                    assert(lst@.drop_last() =~= pre);
                    crate::parsing::ast::lemma_aview_seq(lst@);
                    crate::parsing::ast::lemma_aview_seq(pre);
                    assert(crate::parsing::ast::aview_seq(lst@)
                        =~= crate::parsing::ast::aview_seq(pre).push(
                        parse_expr_spec(toks, cur + 1, 0).0,
                    ));
                    assert(crate::parsing::ast::aview_seq(lst@) + comma_elems_spec(toks, np).0
                        =~= seq![parse_expr_spec(toks, q0, 0).0] + full.0);
                }
            }
            let ghost cur = parser.spec_pos();
            proof {
                assert(comma_elems_spec(toks, cur).0 =~= Seq::<AstV>::empty());
                assert(comma_elems_spec(toks, cur).1 == cur);
                assert(full.1 == cur);
                assert(crate::parsing::parser::clamppos(cur, q0, toks.len()) == cur);
            }
            let ghost lv2 = crate::parsing::ast::aview_seq(lst@);
            let _ = parser.consume_expected(TokenType::RPAR);
            let result = Ast::Call { name, lst };
            proof {
                assert(result@ matches AstV::Call { name: n2, lst: l2 } && n2 == nv && l2 == lv2);
                assert(lv2 =~= seq![parse_expr_spec(toks, q0, 0).0] + full.0);
            }
            result
        } else {
            let result = Ast::Call { name, lst };
            proof {
                assert(crate::parsing::ast::aview_seq(lst@) =~= Seq::<AstV>::empty());
                assert(result@ matches AstV::Call { name: n2, lst: l2 } && n2 == nv && l2
                    =~= Seq::<AstV>::empty());
            }
            result
        }
    }

    pub fn get_precedence(&self) -> (r: i64)
        ensures
            r == 10,
    {
        Precedence::CALL.value()
    }
}

impl NullParset {
    /// The inert infix rule: keeps the left expression unchanged.
    pub fn parse(&self, _parser: &mut CalcParser, left: &Ast, _token: Token) -> (r: Ast)
        ensures
            *final(_parser) == *old(_parser),
            r@ == left@,
    {
        left.deep_clone()
    }

    pub fn get_precedence(&self) -> (r: i64)
        ensures
            r == 0,
    {
        0
    }
}

} // verus!
