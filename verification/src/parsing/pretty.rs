//! Rendering values and syntax trees back to text.
//!
//! Integers print in decimal; fractions and decimals print reduced, as
//! `numerator/denominator` unless they reduce to a whole number; a vector
//! prints its elements between bars; an identifier resolves against the
//! environment where one is supplied, and a leading `@` marks text that
//! is a message rather than a name.

use vstd::prelude::*;

use crate::exact_math::rationals::Rationals;
use crate::exact_math::rationals::norm_frac;
use crate::interpreting::environment::AssocMap;
use crate::interpreting::environment::FunctionDef;
use crate::parsing::ast::Ast;
use crate::parsing::ast::ParamV;
use crate::parsing::ast::Parameters;
use crate::utils::text::push_char;
use vstd::string::StringExecFns;

verus! {

/// The decimal digits of a number, most significant first.
pub open spec fn digits_of(n: nat) -> Seq<char>
    decreases n,
{
    if n < 10 {
        seq![((48 + n) as u8) as char]
    } else {
        digits_of(n / 10).push(((48 + n % 10) as u8) as char)
    }
}

/// The decimal rendering of an integer, a minus sign first where it is
/// negative.
pub open spec fn int_decimal(n: int) -> Seq<char> {
    if n >= 0 {
        digits_of(n as nat)
    } else {
        seq!['-'] + digits_of((-n) as nat)
    }
}

fn digits_u128(n: u128) -> (r: Vec<char>)
    ensures
        r@ == digits_of(n as nat),
    decreases n,
{
    if n < 10 {
        let mut v: Vec<char> = Vec::new();
        v.push(((48 + n) as u8) as char);
        proof {
            assert(v@ =~= digits_of(n as nat));
        }
        v
    } else {
        let mut v = digits_u128(n / 10);
        v.push(((48 + (n % 10)) as u8) as char);
        v
    }
}

/// The decimal rendering of a 64-bit integer.
pub fn i64_to_string(i: i64) -> (r: String)
    ensures
        r@ == int_decimal(i as int),
{
    if i >= 0 {
        let v = digits_u128(i as u128);
        crate::utils::text::from_chars(&v)
    } else {
        let m: u128 = if i == i64::MIN {
            9223372036854775808u128
        } else {
            (-i) as u128
        };
        let v = digits_u128(m);
        let mut s = String::new();
        push_char(&mut s, '-');
        let tail = crate::utils::text::from_chars(&v);
        s.append(tail.as_str());
        proof {
            assert(s@ =~= int_decimal(i as int));
        }
        s
    }
}

/// The rendering of a fraction: reduced, and as a plain integer where the
/// reduced denominator is one.
pub open spec fn rat_text(x: Rationals) -> Seq<char> {
    let n = norm_frac(x.under as int, x.over as int);
    if n.under == 1 {
        int_decimal(n.over as int)
    } else {
        int_decimal(n.over as int) + seq!['/'] + int_decimal(n.under as int)
    }
}

/// Renders a fraction.
pub fn rationals_to_string(x: Rationals) -> (r: String)
    ensures
        r@ == rat_text(x),
{
    let n = x.reduce();
    if n.under == 1 {
        i64_to_string(n.over)
    } else {
        let mut s = i64_to_string(n.over);
        push_char(&mut s, '/');
        let tail = i64_to_string(n.under);
        s.append(tail.as_str());
        proof {
            assert(s@ =~= rat_text(x));
        }
        s
    }
}

/// A value whose rendering needs no environment: a number, a boolean, a
/// string, or absence.
pub open spec fn is_scalar(p: ParamV) -> bool {
    p is Int || p is Float || p is Rational || p is Bool || p is Str || p is Null
}

/// The text such a value renders to.
pub open spec fn scalar_text(p: ParamV) -> Seq<char> {
    match p {
        ParamV::Int(i) => int_decimal(i as int),
        ParamV::Float(x) => rat_text(x),
        ParamV::Rational(x) => rat_text(x),
        ParamV::Bool(b) => if b {
            "true"@
        } else {
            "false"@
        },
        ParamV::Str(t) => t,
        _ => Seq::empty(),
    }
}

/// The text a value renders to: a scalar as its text, an operator as its
/// symbol, a `@`-marked note without its mark, any other identifier
/// resolved against the environment while fuel lasts, an evaluated
/// vector as its elements between bars, and an unevaluated vector as
/// nothing.
pub open spec fn ptext(p: ParamV, ram: Option<Map<Seq<char>, ParamV>>, fuel: nat) -> Seq<char>
    decreases fuel, crate::parsing::ast::pheight(p), 0nat,
{
    match p {
        ParamV::Int(i) => int_decimal(i as int),
        ParamV::Float(x) => rat_text(x),
        ParamV::Rational(x) => rat_text(x),
        ParamV::Bool(b) => if b {
            "true"@
        } else {
            "false"@
        },
        ParamV::Str(t) => t,
        ParamV::Null => Seq::empty(),
        ParamV::PlusOperation => "+"@,
        ParamV::MinusOperation => "-"@,
        ParamV::MultiplicationOperation => "*"@,
        ParamV::DivideOperation => "/"@,
        ParamV::Assign => "="@,
        ParamV::ExpoOperation => "^"@,
        ParamV::GreaterOperation => ">"@,
        ParamV::LesserOperation => "<"@,
        ParamV::GreaterOrEqualOperation => ">="@,
        ParamV::LesserOrEqualOperation => "<="@,
        ParamV::Equal => "=="@,
        ParamV::Not => "!"@,
        ParamV::AndOperation => "&&"@,
        ParamV::OrOperation => "||"@,
        ParamV::Identifier(s) => if s.len() >= 1 && s[0] == '@' {
            s.subrange(1, s.len() as int)
        } else {
            match ram {
                None => s,
                Some(m) => if m.contains_key(s) && fuel > 0 {
                    ptext(m[s], ram, (fuel - 1) as nat)
                } else {
                    s
                },
            }
        },
        ParamV::InterpreterVector(l) => seq!['|'] + pvec_text(l, ram, fuel, 0) + seq!['|'],
        ParamV::Vector(_) => Seq::empty(),
    }
}

/// The rendered elements of an evaluated vector from position `i` on, a
/// space before every element but the first.
pub open spec fn pvec_text(
    l: Seq<ParamV>,
    ram: Option<Map<Seq<char>, ParamV>>,
    fuel: nat,
    i: int,
) -> Seq<char>
    decreases fuel, crate::parsing::ast::pheight_seq(l), l.len() - i + 1
        when 0 <= i <= l.len()
{
    if i >= l.len() {
        Seq::empty()
    } else {
        let sep: Seq<char> = if i > 0 {
            seq![' ']
        } else {
            Seq::empty()
        };
        proof {
            crate::parsing::ast::lemma_pheight_seq_elem(l, i);
        }
        sep + ptext(l[i], ram, fuel) + pvec_text(l, ram, fuel, i + 1)
    }
}

/// The text a syntax tree renders to: a leaf as its value, an inner node
/// as `(left value right)`, a call as its name before its parenthesised,
/// comma-separated arguments.
pub open spec fn atext(
    a: crate::parsing::ast::AstV,
    ram: Option<Map<Seq<char>, ParamV>>,
    fuel: nat,
) -> Seq<char>
    decreases crate::parsing::ast::aheight(a), 0nat,
{
    match a {
        crate::parsing::ast::AstV::Nil => Seq::empty(),
        crate::parsing::ast::AstV::Node { value, left, right } => {
            if *left is Nil && *right is Nil {
                ptext(value, ram, fuel)
            } else {
                seq!['('] + atext(*left, ram, fuel) + seq![' '] + ptext(value, ram, fuel)
                    + seq![' '] + atext(*right, ram, fuel) + seq![')']
            }
        },
        crate::parsing::ast::AstV::Call { name, lst } => name + seq!['('] + acall_text(
            lst,
            ram,
            fuel,
            0,
        ) + seq![')'],
    }
}

/// The rendered arguments of a call from position `i` on, a comma before
/// every argument but the first.
pub open spec fn acall_text(
    lst: Seq<crate::parsing::ast::AstV>,
    ram: Option<Map<Seq<char>, ParamV>>,
    fuel: nat,
    i: int,
) -> Seq<char>
    decreases crate::parsing::ast::aheight_seq(lst), lst.len() - i + 1
        when 0 <= i <= lst.len()
{
    if i >= lst.len() {
        Seq::empty()
    } else {
        let sep: Seq<char> = if i > 0 {
            seq![',']
        } else {
            Seq::empty()
        };
        proof {
            crate::parsing::ast::lemma_aheight_seq_elem(lst, i);
        }
        sep + atext(lst[i], ram, fuel) + acall_text(lst, ram, fuel, i + 1)
    }
}

impl Parameters {
    /// Renders a value.
    pub fn pretty_print(
        &self,
        ram: Option<&AssocMap<Parameters>>,
        function: Option<&AssocMap<FunctionDef>>,
    ) -> (r: String)
        ensures
            self@ matches ParamV::Int(i) ==> r@ == int_decimal(i as int),
            self@ matches ParamV::Rational(x) ==> r@ == rat_text(x),
            self@ matches ParamV::Float(x) ==> r@ == rat_text(x),
            self@ matches ParamV::Bool(b) ==> r@ == (if b {
                "true"@
            } else {
                "false"@
            }),
            self@ matches ParamV::Str(t) ==> r@ == t,
            self@ is Null ==> r@ == Seq::<char>::empty(),
            is_scalar(self@) ==> r@ == scalar_text(self@),
            r@ == ptext(
                self@,
                crate::interpreting::function::ram_view(ram),
                crate::interpreting::function::default_fuel(ram),
            ),
    {
        let fuel = crate::interpreting::function::fuel_for(ram);
        self.pretty_fuel(ram, function, fuel)
    }

    #[verifier::loop_isolation(false)]
    fn pretty_fuel(
        &self,
        ram: Option<&AssocMap<Parameters>>,
        function: Option<&AssocMap<FunctionDef>>,
        fuel: u64,
    ) -> (r: String)
        ensures
            self@ matches ParamV::Int(i) ==> r@ == int_decimal(i as int),
            self@ matches ParamV::Rational(x) ==> r@ == rat_text(x),
            self@ matches ParamV::Float(x) ==> r@ == rat_text(x),
            self@ matches ParamV::Bool(b) ==> r@ == (if b {
                "true"@
            } else {
                "false"@
            }),
            self@ matches ParamV::Str(t) ==> r@ == t,
            self@ is Null ==> r@ == Seq::<char>::empty(),
            is_scalar(self@) ==> r@ == scalar_text(self@),
            r@ == ptext(self@, crate::interpreting::function::ram_view(ram), fuel as nat),
        decreases fuel, crate::parsing::ast::pheight(self@),
    {
        match self {
            Parameters::Int(i) => i64_to_string(*i),
            Parameters::Float(f) => rationals_to_string(*f),
            Parameters::Rational(x) => rationals_to_string(*x),
            Parameters::Bool(b) => {
                if *b {
                    String::from_str("true")
                } else {
                    String::from_str("false")
                }
            },
            Parameters::Str(s) => s.clone(),
            Parameters::Null => String::new(),
            Parameters::PlusOperation => String::from_str("+"),
            Parameters::MinusOperation => String::from_str("-"),
            Parameters::MultiplicationOperation => String::from_str("*"),
            Parameters::DivideOperation => String::from_str("/"),
            Parameters::Assign => String::from_str("="),
            Parameters::ExpoOperation => String::from_str("^"),
            Parameters::GreaterOperation => String::from_str(">"),
            Parameters::LesserOperation => String::from_str("<"),
            Parameters::GreaterOrEqualOperation => String::from_str(">="),
            Parameters::LesserOrEqualOperation => String::from_str("<="),
            Parameters::Equal => String::from_str("=="),
            Parameters::Not => String::from_str("!"),
            Parameters::AndOperation => String::from_str("&&"),
            Parameters::OrOperation => String::from_str("||"),
            Parameters::Identifier(s) => {
                if s.as_str().unicode_len() >= 1 && s.as_str().get_char(0) == '@' {
                    let l = s.as_str().unicode_len();
                    let v = crate::utils::text::chars_of(s.as_str());
                    let mut out: Vec<char> = Vec::new();
                    let mut i: usize = 1;
                    while i < v.len()
                        invariant
                            1 <= i <= v@.len(),
                            out@ == v@.subrange(1, i as int),
                        decreases v@.len() - i,
                    {
                        out.push(v[i]);
                        proof {
                            assert(out@ =~= v@.subrange(1, i as int + 1));
                        }
                        i += 1;
                    }
                    crate::utils::text::from_chars(&out)
                } else {
                    match ram {
                        None => s.clone(),
                        Some(m) => {
                            match m.get(s) {
                                None => s.clone(),
                                Some(v) => {
                                    if fuel > 0 {
                                        let val = v.deep_clone();
                                        val.pretty_fuel(ram, function, fuel - 1)
                                    } else {
                                        s.clone()
                                    }
                                },
                            }
                        },
                    }
                }
            },
            Parameters::InterpreterVector(l) => {
                let lst: &Vec<Parameters> = l;
                let ghost sv = crate::parsing::ast::pview_seq(lst@);
                let ghost rv = crate::interpreting::function::ram_view(ram);
                proof {
                    crate::parsing::ast::lemma_pview_seq(lst@);
                }
                let mut out = String::new();
                push_char(&mut out, '|');
                proof {
                    assert(out@ =~= seq!['|']);
                }
                let mut i: usize = 0;
                let mut first = true;
                while i < lst.len()
                    invariant
                        i <= lst@.len(),
                        sv == crate::parsing::ast::pview_seq(lst@),
                        sv.len() == lst@.len(),
                        forall|j: int| 0 <= j < sv.len() ==> sv[j] == lst@[j]@,
                        first == (i == 0),
                        out@ + pvec_text(sv, rv, fuel as nat, i as int) == seq!['|'] + pvec_text(
                            sv,
                            rv,
                            fuel as nat,
                            0,
                        ),
                    decreases lst@.len() - i,
                {
                    proof {
                        crate::parsing::ast::lemma_pheight_seq_elem(sv, i as int);
                    }
                    let ghost outpre = out@;
                    if !first {
                        push_char(&mut out, ' ');
                    }
                    let piece = lst[i].pretty_fuel(ram, function, fuel);
                    out.append(piece.as_str());
                    proof {
                        let sep: Seq<char> = if i > 0 {
                            seq![' ']
                        } else {
                            Seq::<char>::empty()
                        };
                        assert(out@ =~= outpre + sep + piece@);
                        assert(pvec_text(sv, rv, fuel as nat, i as int) == sep + ptext(
                            sv[i as int],
                            rv,
                            fuel as nat,
                        ) + pvec_text(sv, rv, fuel as nat, i as int + 1));
                        assert(out@ + pvec_text(sv, rv, fuel as nat, i as int + 1) =~= seq!['|']
                            + pvec_text(sv, rv, fuel as nat, 0));
                    }
                    first = false;
                    i += 1;
                }
                push_char(&mut out, '|');
                proof {
                    assert(pvec_text(sv, rv, fuel as nat, sv.len() as int) =~= Seq::<char>::empty());
                    assert(out@ =~= seq!['|'] + pvec_text(sv, rv, fuel as nat, 0) + seq!['|']);
                }
                out
            },
            Parameters::Vector(_) => String::new(),
        }
    }
}

impl Ast {
    /// Renders a syntax tree: a leaf as its value, an inner node as
    /// `(left value right)`, a call as `name(arguments)`.
    #[verifier::loop_isolation(false)]
    pub fn pretty_print(
        &self,
        ram: Option<&AssocMap<Parameters>>,
        function: Option<&AssocMap<FunctionDef>>,
    ) -> (r: String)
        ensures
            r@ == atext(
                self@,
                crate::interpreting::function::ram_view(ram),
                crate::interpreting::function::default_fuel(ram),
            ),
        decreases crate::parsing::ast::aheight(self@),
    {
        let ghost rv = crate::interpreting::function::ram_view(ram);
        let ghost dfuel = crate::interpreting::function::default_fuel(ram);
        match self {
            Ast::Nil => String::new(),
            Ast::Node { value, left, right } => {
                let leaf_left = matches!(&**left, Ast::Nil);
                let leaf_right = matches!(&**right, Ast::Nil);
                proof {
                    assert(leaf_left == (left@ is Nil));
                    assert(leaf_right == (right@ is Nil));
                }
                if leaf_left && leaf_right {
                    value.pretty_print(ram, function)
                } else {
                    let mut out = String::new();
                    push_char(&mut out, '(');
                    let ls = left.pretty_print(ram, function);
                    out.append(ls.as_str());
                    push_char(&mut out, ' ');
                    let vs = value.pretty_print(ram, function);
                    out.append(vs.as_str());
                    push_char(&mut out, ' ');
                    let rs = right.pretty_print(ram, function);
                    out.append(rs.as_str());
                    push_char(&mut out, ')');
                    proof {
                        assert(out@ =~= seq!['('] + atext(left@, rv, dfuel) + seq![' '] + ptext(
                            value@,
                            rv,
                            dfuel,
                        ) + seq![' '] + atext(right@, rv, dfuel) + seq![')']);
                    }
                    out
                }
            },
            Ast::Call { name, lst } => {
                let ghost sv = crate::parsing::ast::aview_seq(lst@);
                proof {
                    crate::parsing::ast::lemma_aview_seq(lst@);
                }
                let mut out = name.clone();
                push_char(&mut out, '(');
                proof {
                    assert(out@ =~= name@ + seq!['(']);
                }
                let mut i: usize = 0;
                while i < lst.len()
                    invariant
                        i <= lst@.len(),
                        sv == crate::parsing::ast::aview_seq(lst@),
                        sv.len() == lst@.len(),
                        forall|j: int| 0 <= j < sv.len() ==> sv[j] == lst@[j]@,
                        out@ + acall_text(sv, rv, dfuel, i as int) == name@ + seq!['(']
                            + acall_text(sv, rv, dfuel, 0),
                    decreases lst@.len() - i,
                {
                    proof {
                        crate::parsing::ast::lemma_aheight_seq_elem(sv, i as int);
                    }
                    let ghost outpre = out@;
                    if i > 0 {
                        push_char(&mut out, ',');
                    }
                    let piece = lst[i].pretty_print(ram, function);
                    out.append(piece.as_str());
                    proof {
                        let sep: Seq<char> = if i > 0 {
                            seq![',']
                        } else {
                            Seq::<char>::empty()
                        };
                        assert(out@ =~= outpre + sep + piece@);
                        assert(acall_text(sv, rv, dfuel, i as int) == sep + atext(
                            sv[i as int],
                            rv,
                            dfuel,
                        ) + acall_text(sv, rv, dfuel, i as int + 1));
                        assert(out@ + acall_text(sv, rv, dfuel, i as int + 1) =~= name@ + seq!['(']
                            + acall_text(sv, rv, dfuel, 0));
                    }
                    i += 1;
                }
                push_char(&mut out, ')');
                proof {
                    assert(acall_text(sv, rv, dfuel, sv.len() as int) =~= Seq::<char>::empty());
                    assert(out@ =~= name@ + seq!['('] + acall_text(sv, rv, dfuel, 0) + seq![')']);
                }
                out
            },
        }
    }
}

} // verus!
