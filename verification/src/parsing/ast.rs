//! The syntax tree and the runtime value model.
//!
//! One tagged union, `Parameters`, serves both as the payload of a syntax
//! node (where an operator variant marks the node's meaning) and as a fully
//! evaluated runtime value.  A binary node with two `Nil` children is a
//! leaf; a vector literal holds unevaluated element expressions, while an
//! evaluated vector holds values.
//!
//! Contracts speak about the mathematical views `ParamV` and `AstV`, in
//! which a string is its character sequence and a vector its element
//! sequence.

use vstd::prelude::*;

use crate::exact_math::rationals::Rationals;
use crate::lexing::token::Operator;
use crate::lexing::token::Token;
use crate::lexing::token::TokenV;

verus! {

#[derive(Debug, PartialEq)]
pub enum Parameters {
    Int(i64),
    Float(Rationals),
    Bool(bool),
    Str(String),
    Identifier(String),
    Rational(Rationals),
    PlusOperation,
    MinusOperation,
    MultiplicationOperation,
    DivideOperation,
    LesserOrEqualOperation,
    LesserOperation,
    GreaterOrEqualOperation,
    GreaterOperation,
    OrOperation,
    AndOperation,
    Equal,
    Not,
    Assign,
    Null,
    ExpoOperation,
    Vector(Box<Vec<Ast>>),
    InterpreterVector(Box<Vec<Parameters>>),
}

#[derive(Debug, PartialEq)]
pub enum Ast {
    Nil,
    Node { value: Parameters, left: Box<Ast>, right: Box<Ast> },
    Call { name: String, lst: Vec<Ast> },
}

/// The mathematical content of a `Parameters` value.
pub ghost enum ParamV {
    Int(i64),
    Float(Rationals),
    Bool(bool),
    Str(Seq<char>),
    Identifier(Seq<char>),
    Rational(Rationals),
    PlusOperation,
    MinusOperation,
    MultiplicationOperation,
    DivideOperation,
    LesserOrEqualOperation,
    LesserOperation,
    GreaterOrEqualOperation,
    GreaterOperation,
    OrOperation,
    AndOperation,
    Equal,
    Not,
    Assign,
    Null,
    ExpoOperation,
    Vector(Seq<AstV>),
    InterpreterVector(Seq<ParamV>),
}

/// The mathematical content of a syntax tree.
pub ghost enum AstV {
    Nil,
    Node { value: ParamV, left: Box<AstV>, right: Box<AstV> },
    Call { name: Seq<char>, lst: Seq<AstV> },
}

pub open spec fn pview(p: Parameters) -> ParamV
    decreases p,
{
    match p {
        Parameters::Int(i) => ParamV::Int(i),
        Parameters::Float(f) => ParamV::Float(f),
        Parameters::Bool(b) => ParamV::Bool(b),
        Parameters::Str(s) => ParamV::Str(s@),
        Parameters::Identifier(s) => ParamV::Identifier(s@),
        Parameters::Rational(r) => ParamV::Rational(r),
        Parameters::PlusOperation => ParamV::PlusOperation,
        Parameters::MinusOperation => ParamV::MinusOperation,
        Parameters::MultiplicationOperation => ParamV::MultiplicationOperation,
        Parameters::DivideOperation => ParamV::DivideOperation,
        Parameters::LesserOrEqualOperation => ParamV::LesserOrEqualOperation,
        Parameters::LesserOperation => ParamV::LesserOperation,
        Parameters::GreaterOrEqualOperation => ParamV::GreaterOrEqualOperation,
        Parameters::GreaterOperation => ParamV::GreaterOperation,
        Parameters::OrOperation => ParamV::OrOperation,
        Parameters::AndOperation => ParamV::AndOperation,
        Parameters::Equal => ParamV::Equal,
        Parameters::Not => ParamV::Not,
        Parameters::Assign => ParamV::Assign,
        Parameters::Null => ParamV::Null,
        Parameters::ExpoOperation => ParamV::ExpoOperation,
        Parameters::Vector(l) => ParamV::Vector(aview_seq(l@)),
        Parameters::InterpreterVector(l) => ParamV::InterpreterVector(pview_seq(l@)),
    }
}

pub open spec fn pview_seq(s: Seq<Parameters>) -> Seq<ParamV>
    decreases s,
{
    if s.len() == 0 {
        Seq::empty()
    } else {
        pview_seq(s.drop_last()).push(pview(s.last()))
    }
}

pub open spec fn aview(a: Ast) -> AstV
    decreases a,
{
    match a {
        Ast::Nil => AstV::Nil,
        Ast::Node { value, left, right } => AstV::Node {
            value: pview(value),
            left: Box::new(aview(*left)),
            right: Box::new(aview(*right)),
        },
        Ast::Call { name, lst } => AstV::Call { name: name@, lst: aview_seq(lst@) },
    }
}

pub open spec fn aview_seq(s: Seq<Ast>) -> Seq<AstV>
    decreases s,
{
    if s.len() == 0 {
        Seq::empty()
    } else {
        aview_seq(s.drop_last()).push(aview(s.last()))
    }
}

impl View for Parameters {
    type V = ParamV;

    open spec fn view(&self) -> ParamV {
        pview(*self)
    }
}

impl View for Ast {
    type V = AstV;

    open spec fn view(&self) -> AstV {
        aview(*self)
    }
}

/// A viewed sequence is the sequence of views.
pub proof fn lemma_pview_seq(s: Seq<Parameters>)
    ensures
        pview_seq(s).len() == s.len(),
        forall|i: int| 0 <= i < s.len() ==> pview_seq(s)[i] == pview(s[i]),
    decreases s,
{
    if s.len() > 0 {
        lemma_pview_seq(s.drop_last());
    }
}

pub proof fn lemma_aview_seq(s: Seq<Ast>)
    ensures
        aview_seq(s).len() == s.len(),
        forall|i: int| 0 <= i < s.len() ==> aview_seq(s)[i] == aview(s[i]),
    decreases s,
{
    if s.len() > 0 {
        lemma_aview_seq(s.drop_last());
    }
}

/// Structural height of a value, used as a termination measure by the
/// functions that walk vectors element by element.
pub open spec fn pheight(p: ParamV) -> nat
    decreases p,
{
    match p {
        ParamV::Vector(l) => 1 + aheight_seq(l),
        ParamV::InterpreterVector(l) => 1 + pheight_seq(l),
        _ => 1,
    }
}

pub open spec fn pheight_seq(s: Seq<ParamV>) -> nat
    decreases s,
{
    if s.len() == 0 {
        0
    } else {
        let h = pheight(s[0]);
        let t = pheight_seq(s.drop_first());
        if h > t {
            h
        } else {
            t
        }
    }
}

/// Structural height of a syntax tree.
pub open spec fn aheight(a: AstV) -> nat
    decreases a,
{
    match a {
        AstV::Nil => 0,
        AstV::Node { value, left, right } => {
            let hv = pheight(value);
            let hl = aheight(*left);
            let hr = aheight(*right);
            1 + if hv > hl && hv > hr {
                hv
            } else if hl > hr {
                hl
            } else {
                hr
            }
        },
        AstV::Call { name, lst } => 1 + aheight_seq(lst),
    }
}

pub open spec fn aheight_seq(s: Seq<AstV>) -> nat
    decreases s,
{
    if s.len() == 0 {
        0
    } else {
        let h = aheight(s[0]);
        let t = aheight_seq(s.drop_first());
        if h > t {
            h
        } else {
            t
        }
    }
}

/// Every element of a sequence is bounded by the sequence height.
pub proof fn lemma_pheight_seq_elem(s: Seq<ParamV>, i: int)
    requires
        0 <= i < s.len(),
    ensures
        pheight(s[i]) <= pheight_seq(s),
    decreases s.len(),
{
    if i > 0 {
        lemma_pheight_seq_elem(s.drop_first(), i - 1);
        assert(s.drop_first()[i - 1] == s[i]);
    }
}

pub proof fn lemma_aheight_seq_elem(s: Seq<AstV>, i: int)
    requires
        0 <= i < s.len(),
    ensures
        aheight(s[i]) <= aheight_seq(s),
    decreases s.len(),
{
    if i > 0 {
        lemma_aheight_seq_elem(s.drop_first(), i - 1);
        assert(s.drop_first()[i - 1] == s[i]);
    }
}

/// The syntax-node payload denoted by one token.
pub open spec fn spec_token_to_parameter(token: TokenV) -> ParamV {
    match token {
        TokenV::INT(i) => ParamV::Int(i),
        TokenV::FLOAT(f) => ParamV::Float(f),
        TokenV::IDENTIFIER(s) => ParamV::Identifier(s),
        TokenV::OPE(Operator::PLUS) => ParamV::PlusOperation,
        TokenV::OPE(Operator::MINUS) => ParamV::MinusOperation,
        TokenV::OPE(Operator::MULTIPLICATION) => ParamV::MultiplicationOperation,
        TokenV::OPE(Operator::DIVIDE) => ParamV::DivideOperation,
        TokenV::OPE(Operator::EXPO) => ParamV::ExpoOperation,
        TokenV::OPE(Operator::EQUALITY) => ParamV::Equal,
        TokenV::OPE(Operator::GreaterOrEqual) => ParamV::GreaterOrEqualOperation,
        TokenV::OPE(Operator::GreaterThan) => ParamV::GreaterOperation,
        TokenV::OPE(Operator::LesserThan) => ParamV::LesserOperation,
        TokenV::OPE(Operator::LesserOrEqual) => ParamV::LesserOrEqualOperation,
        TokenV::OPE(Operator::NOT) => ParamV::Not,
        TokenV::OPE(Operator::Or) => ParamV::OrOperation,
        TokenV::OPE(Operator::And) => ParamV::AndOperation,
        TokenV::EQUAL => ParamV::Assign,
        TokenV::BOOL(b) => ParamV::Bool(b),
        TokenV::RBRACKET => ParamV::Vector(Seq::empty()),
        _ => ParamV::Null,
    }
}

pub fn token_to_parameter(token: Token) -> (r: Parameters)
    ensures
        r@ == spec_token_to_parameter(token@),
{
    match token {
        Token::INT(i) => Parameters::Int(i),
        Token::FLOAT(f) => Parameters::Float(f),
        Token::IDENTIFIER(s) => Parameters::Identifier(s),
        Token::OPE(Operator::PLUS) => Parameters::PlusOperation,
        Token::OPE(Operator::MINUS) => Parameters::MinusOperation,
        Token::OPE(Operator::MULTIPLICATION) => Parameters::MultiplicationOperation,
        Token::OPE(Operator::DIVIDE) => Parameters::DivideOperation,
        Token::OPE(Operator::EXPO) => Parameters::ExpoOperation,
        Token::OPE(Operator::EQUALITY) => Parameters::Equal,
        Token::OPE(Operator::GreaterOrEqual) => Parameters::GreaterOrEqualOperation,
        Token::OPE(Operator::GreaterThan) => Parameters::GreaterOperation,
        Token::OPE(Operator::LesserThan) => Parameters::LesserOperation,
        Token::OPE(Operator::LesserOrEqual) => Parameters::LesserOrEqualOperation,
        Token::OPE(Operator::NOT) => Parameters::Not,
        Token::OPE(Operator::Or) => Parameters::OrOperation,
        Token::OPE(Operator::And) => Parameters::AndOperation,
        Token::EQUAL => Parameters::Assign,
        Token::BOOL(b) => Parameters::Bool(b),
        Token::RBRACKET => Parameters::Vector(Box::new(Vec::<Ast>::new())),
        _ => Parameters::Null,
    }
}

impl Ast {
    /// A leaf node holding the given payload.
    pub fn new(p: Parameters) -> (r: Self)
        ensures
            r@ == (AstV::Node {
                value: p@,
                left: Box::new(AstV::Nil),
                right: Box::new(AstV::Nil),
            }),
    {
        let r = Ast::Node { value: p, left: Box::new(Ast::Nil), right: Box::new(Ast::Nil) };
        proof {
            assert(aview(Ast::Nil) == AstV::Nil);
            assert(aview(r) matches AstV::Node { value: v2, left: l2, right: r2 } && v2 == pview(p)
                && *l2 == AstV::Nil && *r2 == AstV::Nil);
        }
        r
    }

    /// A copy with the same view.  The derived `Clone` carries no
    /// specification, so verified callers copy through this method.
    pub fn deep_clone(&self) -> (r: Ast)
        ensures
            r@ == self@,
        decreases *self,
    {
        match self {
            Ast::Nil => Ast::Nil,
            Ast::Node { value, left, right } => Ast::Node {
                value: value.deep_clone(),
                left: Box::new(left.deep_clone()),
                right: Box::new(right.deep_clone()),
            },
            Ast::Call { name, lst } => {
                let mut copied: Vec<Ast> = Vec::new();
                let mut i: usize = 0;
                while i < lst.len()
                    invariant
                        i <= lst.len(),
                        copied@.len() == i,
                        aview_seq(copied@) =~= aview_seq(lst@.subrange(0, i as int)),
                        *self matches Ast::Call { name: _, lst: l2 } && l2 == lst,
                    decreases lst.len() - i,
                {
                    proof {
                        assert(decreases_to!(*self => lst@[i as int]));
                        lemma_aview_seq(copied@);
                        lemma_aview_seq(lst@.subrange(0, i as int));
                        lemma_aview_seq(lst@.subrange(0, i as int + 1));
                    }
                    let ghost pre = copied@;
                    copied.push(lst[i].deep_clone());
                    proof {
                        lemma_aview_seq(copied@);
                        assert(copied@.drop_last() =~= pre);
                        assert(lst@.subrange(0, i as int + 1).drop_last() =~= lst@.subrange(
                            0,
                            i as int,
                        ));
                        assert(aview_seq(copied@) =~= aview_seq(lst@.subrange(0, i as int + 1)));
                    }
                    i += 1;
                }
                proof {
                    assert(lst@.subrange(0, lst@.len() as int) =~= lst@);
                }
                Ast::Call { name: name.clone(), lst: copied }
            },
        }
    }
}

impl Parameters {
    /// A copy with the same view.  The derived `Clone` carries no
    /// specification, so verified callers copy through this method.
    pub fn deep_clone(&self) -> (r: Parameters)
        ensures
            r@ == self@,
        decreases *self,
    {
        match self {
            Parameters::Int(i) => Parameters::Int(*i),
            Parameters::Float(f) => Parameters::Float(*f),
            Parameters::Bool(b) => Parameters::Bool(*b),
            Parameters::Str(s) => Parameters::Str(s.clone()),
            Parameters::Identifier(s) => Parameters::Identifier(s.clone()),
            Parameters::Rational(r) => Parameters::Rational(*r),
            Parameters::PlusOperation => Parameters::PlusOperation,
            Parameters::MinusOperation => Parameters::MinusOperation,
            Parameters::MultiplicationOperation => Parameters::MultiplicationOperation,
            Parameters::DivideOperation => Parameters::DivideOperation,
            Parameters::LesserOrEqualOperation => Parameters::LesserOrEqualOperation,
            Parameters::LesserOperation => Parameters::LesserOperation,
            Parameters::GreaterOrEqualOperation => Parameters::GreaterOrEqualOperation,
            Parameters::GreaterOperation => Parameters::GreaterOperation,
            Parameters::OrOperation => Parameters::OrOperation,
            Parameters::AndOperation => Parameters::AndOperation,
            Parameters::Equal => Parameters::Equal,
            Parameters::Not => Parameters::Not,
            Parameters::Assign => Parameters::Assign,
            Parameters::Null => Parameters::Null,
            Parameters::ExpoOperation => Parameters::ExpoOperation,
            Parameters::Vector(l) => {
                let lst: &Vec<Ast> = l;
                let mut copied: Vec<Ast> = Vec::new();
                let mut i: usize = 0;
                while i < lst.len()
                    invariant
                        i <= lst.len(),
                        copied@.len() == i,
                        aview_seq(copied@) =~= aview_seq(lst@.subrange(0, i as int)),
                        *self matches Parameters::Vector(l2) && l2 == lst,
                    decreases lst.len() - i,
                {
                    proof {
                        assert(decreases_to!(*self => lst@[i as int]));
                    }
                    let ghost pre = copied@;
                    copied.push(lst[i].deep_clone());
                    proof {
                        assert(copied@.drop_last() =~= pre);
                        assert(lst@.subrange(0, i as int + 1).drop_last() =~= lst@.subrange(
                            0,
                            i as int,
                        ));
                        assert(aview_seq(copied@) =~= aview_seq(lst@.subrange(0, i as int + 1)));
                    }
                    i += 1;
                }
                proof {
                    assert(lst@.subrange(0, lst@.len() as int) =~= lst@);
                }
                Parameters::Vector(Box::new(copied))
            },
            Parameters::InterpreterVector(l) => {
                let lst: &Vec<Parameters> = l;
                let mut copied: Vec<Parameters> = Vec::new();
                let mut i: usize = 0;
                while i < lst.len()
                    invariant
                        i <= lst.len(),
                        copied@.len() == i,
                        pview_seq(copied@) =~= pview_seq(lst@.subrange(0, i as int)),
                        *self matches Parameters::InterpreterVector(l2) && l2 == lst,
                    decreases lst.len() - i,
                {
                    proof {
                        assert(decreases_to!(*self => lst@[i as int]));
                    }
                    let ghost pre = copied@;
                    copied.push(lst[i].deep_clone());
                    proof {
                        assert(copied@.drop_last() =~= pre);
                        assert(lst@.subrange(0, i as int + 1).drop_last() =~= lst@.subrange(
                            0,
                            i as int,
                        ));
                        assert(pview_seq(copied@) =~= pview_seq(lst@.subrange(0, i as int + 1)));
                    }
                    i += 1;
                }
                proof {
                    assert(lst@.subrange(0, lst@.len() as int) =~= lst@);
                }
                Parameters::InterpreterVector(Box::new(copied))
            },
        }
    }
}

/// A copy of a token with the same view.
pub fn clone_token(t: &Token) -> (r: Token)
    ensures
        r@ == t@,
{
    match t {
        Token::OPE(o) => Token::OPE(clone_operator(o)),
        Token::IDENTIFIER(s) => Token::IDENTIFIER(s.clone()),
        Token::INT(i) => Token::INT(*i),
        Token::FLOAT(f) => Token::FLOAT(*f),
        Token::BOOL(b) => Token::BOOL(*b),
        Token::EQUAL => Token::EQUAL,
        Token::RPAR => Token::RPAR,
        Token::LPAR => Token::LPAR,
        Token::RBRACKET => Token::RBRACKET,
        Token::LBRACKET => Token::LBRACKET,
        Token::COMMA => Token::COMMA,
        Token::Null => Token::Null,
        Token::QUOTE => Token::QUOTE,
        Token::WHITESPACE => Token::WHITESPACE,
        Token::PreAnd => Token::PreAnd,
        Token::PreOr => Token::PreOr,
    }
}

/// A structurally equal copy of an operator.
pub fn clone_operator(o: &Operator) -> (r: Operator)
    ensures
        r == *o,
{
    match o {
        Operator::PLUS => Operator::PLUS,
        Operator::MINUS => Operator::MINUS,
        Operator::MULTIPLICATION => Operator::MULTIPLICATION,
        Operator::DIVIDE => Operator::DIVIDE,
        Operator::EXPO => Operator::EXPO,
        Operator::EQUALITY => Operator::EQUALITY,
        Operator::GreaterThan => Operator::GreaterThan,
        Operator::LesserThan => Operator::LesserThan,
        Operator::GreaterOrEqual => Operator::GreaterOrEqual,
        Operator::LesserOrEqual => Operator::LesserOrEqual,
        Operator::And => Operator::And,
        Operator::Or => Operator::Or,
        Operator::NOT => Operator::NOT,
    }
}

} // verus!
