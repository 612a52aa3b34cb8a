//! The numeric-tower operators: one total function per binary operator,
//! covering every pair of value kinds.
//!
//! Shared rules: the absence value passes the other operand through;
//! integer and rational mix exactly; a decimal (`Float`) operand is
//! contagious, as a floating-point operand is in arithmetic that rounds;
//! booleans pass numbers through unchanged; vectors combine element by
//! element with zip semantics; an identifier operand is looked up in the
//! environment and the operator recurses on the resolved value, an unbound
//! or unresolvable name behaving like absence.  Any uncovered combination
//! yields a marked diagnostic identifier.
//!
//! Identifier resolution follows binding chains; the chains a terminating
//! evaluation can follow are bounded by twice the environment size, and
//! each operator's contract fixes that bound as its resolution fuel.

use vstd::prelude::*;

use crate::exact_math::rationals::Rationals;
use crate::exact_math::rationals::rat_add;
use crate::exact_math::rationals::rat_sub;
use crate::exact_math::rationals::rat_div;
use crate::exact_math::rationals::rat_mul;
use crate::exact_math::rationals::rat_pow_i;
use crate::exact_math::rationals::spec_as_int_exponent;
use vstd::std_specs::cmp::PartialEqSpec;
use vstd::std_specs::cmp::PartialOrdSpec;
use crate::interpreting::environment::AssocMap;
use crate::parsing::ast::ParamV;
use crate::parsing::ast::Parameters;
use crate::parsing::ast::lemma_pheight_seq_elem;
use crate::parsing::ast::lemma_pview_seq;
use crate::parsing::ast::pheight;
use crate::parsing::ast::pheight_seq;
use crate::parsing::ast::pview_seq;

verus! {

/// The view of an optional environment.
pub open spec fn ram_view(ram: Option<&AssocMap<Parameters>>) -> Option<
    Map<Seq<char>, ParamV>,
> {
    match ram {
        Some(m) => Some(m@),
        None => None,
    }
}

/// The resolution fuel an operator starts with: twice the number of
/// environment entries, and two more; capped, so that it always fits the
/// machine word it is carried in.
pub open spec fn fuel_of_len(elen: nat) -> nat {
    if elen >= 0x4000_0000_0000_0000 {
        u64::MAX as nat
    } else {
        2 * elen + 2
    }
}

pub open spec fn default_fuel(ram: Option<&AssocMap<Parameters>>) -> nat {
    match ram {
        None => 2,
        Some(m) => fuel_of_len(m.spec_len()),
    }
}

/// The starting fuel as a machine word.
pub(crate) fn fuel_for(ram: Option<&AssocMap<Parameters>>) -> (r: u64)
    ensures
        r as nat == default_fuel(ram),
{
    match ram {
        None => 2,
        Some(m) => {
            let l: u64 = m.len() as u64;
            if l >= 0x4000_0000_0000_0000 {
                u64::MAX
            } else {
                2 * l + 2
            }
        },
    }
}

/// The exact fraction denoted by an integer.
pub open spec fn int_rat(i: i64) -> Rationals {
    Rationals { under: 1, over: i }
}

/// What resolving the left identifier and re-dispatching `+` returns:
/// without an environment or a binding the other operand, otherwise the
/// sum with the bound value substituted for the identifier.
pub open spec fn add_left_resolved(
    s: Seq<char>,
    other: ParamV,
    ram: Option<Map<Seq<char>, ParamV>>,
    fuel: nat,
) -> ParamV
    decreases fuel, 0nat, 0nat,
{
    match ram {
        None => other,
        Some(m) => {
            if m.contains_key(s) && fuel > 0 {
                add_spec(m[s], other, ram, (fuel - 1) as nat)
            } else {
                other
            }
        },
    }
}

/// As `add_left_resolved`, with the identifier on the right: failure to
/// resolve keeps the left operand.
pub open spec fn add_right_resolved(
    value: ParamV,
    s: Seq<char>,
    ram: Option<Map<Seq<char>, ParamV>>,
    fuel: nat,
) -> ParamV
    decreases fuel, 0nat, 0nat,
{
    match ram {
        None => value,
        Some(m) => {
            if m.contains_key(s) && fuel > 0 {
                add_spec(value, m[s], ram, (fuel - 1) as nat)
            } else {
                value
            }
        },
    }
}

/// The element-wise sums of two vectors, zipped to the shorter length.
pub open spec fn add_zip(
    s1: Seq<ParamV>,
    s2: Seq<ParamV>,
    ram: Option<Map<Seq<char>, ParamV>>,
    fuel: nat,
) -> Seq<ParamV>
    decreases fuel, 4 + pheight_seq(s1) + pheight_seq(s2), s1.len(),
{
    if s1.len() == 0 || s2.len() == 0 {
        Seq::empty()
    } else {
        seq![add_spec(s1[0], s2[0], ram, fuel)] + add_zip(
            s1.drop_first(),
            s2.drop_first(),
            ram,
            fuel,
        )
    }
}

/// What the `+` operator returns on each pair of value kinds.
pub open spec fn add_spec(
    a: ParamV,
    b: ParamV,
    ram: Option<Map<Seq<char>, ParamV>>,
    fuel: nat,
) -> ParamV
    decreases fuel, 3 + pheight(a) + pheight(b), 0nat,
{
    match (a, b) {
        (ParamV::Null, ParamV::Int(v)) => ParamV::Int(v),
        (ParamV::Null, ParamV::Float(f)) => ParamV::Float(f),
        (ParamV::Null, ParamV::InterpreterVector(vec)) => ParamV::InterpreterVector(vec),
        (ParamV::InterpreterVector(vec), ParamV::Null) => ParamV::InterpreterVector(vec),
        (ParamV::Int(v), ParamV::Null) => ParamV::Int(v),
        (ParamV::Float(f), ParamV::Null) => ParamV::Float(f),
        (ParamV::Rational(s), ParamV::Null) => ParamV::Rational(s),
        (ParamV::Null, ParamV::Rational(s)) => ParamV::Rational(s),
        (ParamV::Rational(s), ParamV::Rational(s2)) => ParamV::Rational(rat_add(s, s2)),
        (ParamV::Rational(s), ParamV::Int(i)) => ParamV::Rational(rat_add(s, int_rat(i))),
        (ParamV::Int(i), ParamV::Rational(s)) => ParamV::Rational(rat_add(s, int_rat(i))),
        (ParamV::Rational(s), ParamV::Float(f)) => ParamV::Float(rat_add(s, f)),
        (ParamV::Float(f), ParamV::Rational(s)) => ParamV::Float(rat_add(f, s)),
        (ParamV::Int(v), ParamV::Int(v2)) => ParamV::Int(
            vstd::wrapping::i64_specs::wrapping_add(v, v2),
        ),
        (ParamV::Int(v), ParamV::Float(f)) => ParamV::Float(rat_add(int_rat(v), f)),
        (ParamV::Float(v), ParamV::Float(f)) => ParamV::Float(rat_add(v, f)),
        (ParamV::Float(v), ParamV::Int(i1)) => ParamV::Float(rat_add(v, int_rat(i1))),
        (ParamV::InterpreterVector(vec), ParamV::InterpreterVector(vec2)) => {
            ParamV::InterpreterVector(add_zip(vec, vec2, ram, fuel))
        },
        (ParamV::Bool(_), ParamV::Int(i)) => ParamV::Int(i),
        (ParamV::Bool(_), ParamV::Float(i)) => ParamV::Float(i),
        (ParamV::Int(i), ParamV::Bool(_)) => ParamV::Int(i),
        (ParamV::Float(i), ParamV::Bool(_)) => ParamV::Float(i),
        (ParamV::Bool(b), ParamV::Null) => ParamV::Bool(b),
        (ParamV::Null, ParamV::Bool(b)) => ParamV::Bool(b),
        (ParamV::Bool(b), ParamV::Bool(b2)) => ParamV::Bool(b && b2),
        (ParamV::Identifier(s), ParamV::Identifier(s2)) => add_left_resolved(
            s,
            ParamV::Identifier(s2),
            ram,
            fuel,
        ),
        (ParamV::Identifier(s), ParamV::Int(i)) => add_left_resolved(s, ParamV::Int(i), ram, fuel),
        (ParamV::Null, ParamV::Identifier(s)) => add_left_resolved(s, ParamV::Null, ram, fuel),
        (ParamV::Rational(s), ParamV::Identifier(ss)) => add_right_resolved(
            ParamV::Rational(s),
            ss,
            ram,
            fuel,
        ),
        (ParamV::Identifier(ss), ParamV::Rational(s)) => add_left_resolved(
            ss,
            ParamV::Rational(s),
            ram,
            fuel,
        ),
        (ParamV::Identifier(s), ParamV::Null) => add_left_resolved(s, ParamV::Null, ram, fuel),
        (ParamV::Int(i), ParamV::Identifier(s)) => add_left_resolved(s, ParamV::Int(i), ram, fuel),
        (ParamV::Identifier(s), ParamV::Float(i)) => add_left_resolved(
            s,
            ParamV::Float(i),
            ram,
            fuel,
        ),
        (ParamV::Float(i), ParamV::Identifier(s)) => add_left_resolved(
            s,
            ParamV::Float(i),
            ram,
            fuel,
        ),
        (ParamV::Identifier(s), ParamV::InterpreterVector(vec)) => add_left_resolved(
            s,
            ParamV::InterpreterVector(vec),
            ram,
            fuel,
        ),
        (ParamV::InterpreterVector(vec), ParamV::Identifier(s)) => add_left_resolved(
            s,
            ParamV::InterpreterVector(vec),
            ram,
            fuel,
        ),
        (ParamV::Bool(b), ParamV::Identifier(s)) => add_right_resolved(
            ParamV::Bool(b),
            s,
            ram,
            fuel,
        ),
        (ParamV::Identifier(s), ParamV::Bool(b)) => add_left_resolved(s, ParamV::Bool(b), ram, fuel),
        _ => ParamV::Identifier("@Those two values are incompatible with the + operator"@),
    }
}

/// Indexing the zipped sums.
proof fn lemma_add_zip_index(
    s1: Seq<ParamV>,
    s2: Seq<ParamV>,
    ram: Option<Map<Seq<char>, ParamV>>,
    fuel: nat,
)
    ensures
        add_zip(s1, s2, ram, fuel).len() == if s1.len() < s2.len() {
            s1.len()
        } else {
            s2.len()
        },
        forall|k: int|
            0 <= k < add_zip(s1, s2, ram, fuel).len() ==> add_zip(s1, s2, ram, fuel)[k]
                == add_spec(s1[k], s2[k], ram, fuel),
    decreases s1.len(),
{
    if s1.len() > 0 && s2.len() > 0 {
        lemma_add_zip_index(s1.drop_first(), s2.drop_first(), ram, fuel);
    }
}

fn add_resolve(s: String, other: Parameters, ram: Option<&AssocMap<Parameters>>, fuel: u64) -> (r:
    Parameters)
    ensures
        r@ == add_left_resolved(s@, other@, ram_view(ram), fuel as nat),
    decreases fuel, 0nat, 0nat,
{
    match ram {
        None => other,
        Some(m) => {
            match m.get(&s) {
                Some(v) => {
                    if fuel > 0 {
                        let val = v.deep_clone();
                        add_fuel(val, other, ram, fuel - 1)
                    } else {
                        other
                    }
                },
                None => other,
            }
        },
    }
}

fn add_resolve_rev(
    value: Parameters,
    s: String,
    ram: Option<&AssocMap<Parameters>>,
    fuel: u64,
) -> (r: Parameters)
    ensures
        r@ == add_right_resolved(value@, s@, ram_view(ram), fuel as nat),
    decreases fuel, 0nat, 0nat,
{
    match ram {
        None => value,
        Some(m) => {
            match m.get(&s) {
                Some(v) => {
                    if fuel > 0 {
                        let val = v.deep_clone();
                        add_fuel(value, val, ram, fuel - 1)
                    } else {
                        value
                    }
                },
                None => value,
            }
        },
    }
}

#[verifier::loop_isolation(false)]
pub(crate) fn add_fuel(i: Parameters, i2: Parameters, ram: Option<&AssocMap<Parameters>>, fuel: u64) -> (r:
    Parameters)
    ensures
        r@ == add_spec(i@, i2@, ram_view(ram), fuel as nat),
    decreases fuel, 3 + pheight(i@) + pheight(i2@), 0nat,
{
    match (i, i2) {
        (Parameters::Null, Parameters::Int(v)) => Parameters::Int(v),
        (Parameters::Null, Parameters::Float(f)) => Parameters::Float(f),
        (Parameters::Null, Parameters::InterpreterVector(vec)) => Parameters::InterpreterVector(
            vec,
        ),
        (Parameters::InterpreterVector(vec), Parameters::Null) => Parameters::InterpreterVector(
            vec,
        ),
        (Parameters::Int(v), Parameters::Null) => Parameters::Int(v),
        (Parameters::Float(f), Parameters::Null) => Parameters::Float(f),
        (Parameters::Rational(s), Parameters::Null) => Parameters::Rational(s),
        (Parameters::Null, Parameters::Rational(s)) => Parameters::Rational(s),
        (Parameters::Rational(s), Parameters::Rational(s2)) => Parameters::Rational(s.add(s2)),
        (Parameters::Rational(s), Parameters::Int(i)) => Parameters::Rational(
            s.add(Rationals::new(1, i)),
        ),
        (Parameters::Int(i), Parameters::Rational(s)) => Parameters::Rational(
            s.add(Rationals::new(1, i)),
        ),
        (Parameters::Rational(s), Parameters::Float(f)) => Parameters::Float(s.add(f)),
        (Parameters::Float(f), Parameters::Rational(s)) => Parameters::Float(f.add(s)),
        (Parameters::Int(v), Parameters::Int(v2)) => Parameters::Int(v.wrapping_add(v2)),
        (Parameters::Int(v), Parameters::Float(f)) => Parameters::Float(
            Rationals::new(1, v).add(f),
        ),
        (Parameters::Float(v), Parameters::Float(f)) => Parameters::Float(v.add(f)),
        (Parameters::Float(v), Parameters::Int(i1)) => Parameters::Float(
            v.add(Rationals::new(1, i1)),
        ),
        (Parameters::InterpreterVector(vec), Parameters::InterpreterVector(vec2)) => {
            let l1: &Vec<Parameters> = &vec;
            let l2: &Vec<Parameters> = &vec2;
            let n: usize = if l1.len() < l2.len() {
                l1.len()
            } else {
                l2.len()
            };
            let ghost s1 = pview_seq(l1@);
            let ghost s2 = pview_seq(l2@);
            proof {
                lemma_pview_seq(l1@);
                lemma_pview_seq(l2@);
                lemma_add_zip_index(s1, s2, ram_view(ram), fuel as nat);
            }
            let mut res: Vec<Parameters> = Vec::new();
            let mut k: usize = 0;
            while k < n
                invariant
                    k <= n,
                    n == if s1.len() < s2.len() {
                        s1.len()
                    } else {
                        s2.len()
                    },
                    s1 == pview_seq(l1@),
                    s2 == pview_seq(l2@),
                    l1@.len() == s1.len(),
                    l2@.len() == s2.len(),
                    forall|j: int| 0 <= j < s1.len() ==> s1[j] == l1@[j]@,
                    forall|j: int| 0 <= j < s2.len() ==> s2[j] == l2@[j]@,
                    res@.len() == k,
                    pview_seq(res@).len() == k,
                    forall|j: int|
                        0 <= j < k ==> pview_seq(res@)[j] == add_spec(
                            s1[j],
                            s2[j],
                            ram_view(ram),
                            fuel as nat,
                        ),
                    fuel == fuel,
                decreases n - k,
            {
                proof {
                    lemma_pheight_seq_elem(s1, k as int);
                    lemma_pheight_seq_elem(s2, k as int);
                }
                let ea = l1[k].deep_clone();
                let eb = l2[k].deep_clone();
                let ghost pre = res@;
                let v = add_fuel(ea, eb, ram, fuel);
                res.push(v);
                proof {
                    lemma_pview_seq(pre);
                    lemma_pview_seq(res@);
                    assert(res@.drop_last() =~= pre);
                    assert(forall|j: int|
                        0 <= j < k ==> pview_seq(res@)[j] == pview_seq(pre)[j]);
                }
                k += 1;
            }
            proof {
                lemma_pview_seq(res@);
                lemma_add_zip_index(s1, s2, ram_view(ram), fuel as nat);
                assert(pview_seq(res@) =~= add_zip(s1, s2, ram_view(ram), fuel as nat));
            }
            Parameters::InterpreterVector(Box::new(res))
        },
        (Parameters::Bool(_), Parameters::Int(i)) => Parameters::Int(i),
        (Parameters::Bool(_), Parameters::Float(i)) => Parameters::Float(i),
        (Parameters::Int(i), Parameters::Bool(_)) => Parameters::Int(i),
        (Parameters::Float(i), Parameters::Bool(_)) => Parameters::Float(i),
        (Parameters::Bool(b), Parameters::Null) => Parameters::Bool(b),
        (Parameters::Null, Parameters::Bool(b)) => Parameters::Bool(b),
        (Parameters::Bool(b), Parameters::Bool(b2)) => Parameters::Bool(b && b2),
        (Parameters::Identifier(s), Parameters::Identifier(s2)) => add_resolve(
            s,
            Parameters::Identifier(s2),
            ram,
            fuel,
        ),
        (Parameters::Identifier(s), Parameters::Int(i)) => add_resolve(
            s,
            Parameters::Int(i),
            ram,
            fuel,
        ),
        (Parameters::Null, Parameters::Identifier(s)) => add_resolve(
            s,
            Parameters::Null,
            ram,
            fuel,
        ),
        (Parameters::Rational(s), Parameters::Identifier(ss)) => add_resolve_rev(
            Parameters::Rational(s),
            ss,
            ram,
            fuel,
        ),
        (Parameters::Identifier(ss), Parameters::Rational(s)) => add_resolve(
            ss,
            Parameters::Rational(s),
            ram,
            fuel,
        ),
        (Parameters::Identifier(s), Parameters::Null) => add_resolve(
            s,
            Parameters::Null,
            ram,
            fuel,
        ),
        (Parameters::Int(i), Parameters::Identifier(s)) => add_resolve(
            s,
            Parameters::Int(i),
            ram,
            fuel,
        ),
        (Parameters::Identifier(s), Parameters::Float(i)) => add_resolve(
            s,
            Parameters::Float(i),
            ram,
            fuel,
        ),
        (Parameters::Float(i), Parameters::Identifier(s)) => add_resolve(
            s,
            Parameters::Float(i),
            ram,
            fuel,
        ),
        (Parameters::Identifier(s), Parameters::InterpreterVector(vec)) => add_resolve(
            s,
            Parameters::InterpreterVector(vec),
            ram,
            fuel,
        ),
        (Parameters::InterpreterVector(vec), Parameters::Identifier(s)) => add_resolve(
            s,
            Parameters::InterpreterVector(vec),
            ram,
            fuel,
        ),
        (Parameters::Bool(b), Parameters::Identifier(s)) => add_resolve_rev(
            Parameters::Bool(b),
            s,
            ram,
            fuel,
        ),
        (Parameters::Identifier(s), Parameters::Bool(b)) => add_resolve(
            s,
            Parameters::Bool(b),
            ram,
            fuel,
        ),
        _ => Parameters::Identifier(
            String::from_str("@Those two values are incompatible with the + operator"),
        ),
    }
}

/// What resolving the left identifier and re-dispatching `-` returns.
pub open spec fn minus_left_resolved(
    s: Seq<char>,
    other: ParamV,
    ram: Option<Map<Seq<char>, ParamV>>,
    fuel: nat,
) -> ParamV
    decreases fuel, 0nat, 0nat,
{
    match ram {
        None => other,
        Some(m) => {
            if m.contains_key(s) && fuel > 0 {
                minus_spec(m[s], other, ram, (fuel - 1) as nat)
            } else {
                other
            }
        },
    }
}

/// As `minus_left_resolved`, with the identifier on the right.
pub open spec fn minus_right_resolved(
    value: ParamV,
    s: Seq<char>,
    ram: Option<Map<Seq<char>, ParamV>>,
    fuel: nat,
) -> ParamV
    decreases fuel, 0nat, 0nat,
{
    match ram {
        None => value,
        Some(m) => {
            if m.contains_key(s) && fuel > 0 {
                minus_spec(value, m[s], ram, (fuel - 1) as nat)
            } else {
                value
            }
        },
    }
}

/// The element-wise differences of two vectors, zipped to the shorter
/// length.
pub open spec fn minus_zip(
    s1: Seq<ParamV>,
    s2: Seq<ParamV>,
    ram: Option<Map<Seq<char>, ParamV>>,
    fuel: nat,
) -> Seq<ParamV>
    decreases fuel, 4 + pheight_seq(s1) + pheight_seq(s2), s1.len(),
{
    if s1.len() == 0 || s2.len() == 0 {
        Seq::empty()
    } else {
        seq![minus_spec(s1[0], s2[0], ram, fuel)] + minus_zip(
            s1.drop_first(),
            s2.drop_first(),
            ram,
            fuel,
        )
    }
}

/// Each element subtracted from absence: the element-wise negation.
pub open spec fn minus_neg_map(
    s: Seq<ParamV>,
    ram: Option<Map<Seq<char>, ParamV>>,
    fuel: nat,
) -> Seq<ParamV>
    decreases fuel, 4 + pheight_seq(s), s.len(),
{
    if s.len() == 0 {
        Seq::empty()
    } else {
        seq![minus_spec(ParamV::Null, s[0], ram, fuel)] + minus_neg_map(s.drop_first(), ram, fuel)
    }
}

/// What the `-` operator returns on each pair of value kinds.  An absent
/// operand negates the present one, whichever side it stands on.
pub open spec fn minus_spec(
    a: ParamV,
    b: ParamV,
    ram: Option<Map<Seq<char>, ParamV>>,
    fuel: nat,
) -> ParamV
    decreases fuel, 3 + pheight(a) + pheight(b), 0nat,
{
    match (a, b) {
        (ParamV::Null, ParamV::Int(v)) => ParamV::Int(
            vstd::wrapping::i64_specs::wrapping_sub(0, v),
        ),
        (ParamV::Null, ParamV::Float(f)) => ParamV::Float(rat_sub(int_rat(0), f)),
        (ParamV::Int(v), ParamV::Null) => ParamV::Int(
            vstd::wrapping::i64_specs::wrapping_sub(0, v),
        ),
        (ParamV::Float(f), ParamV::Null) => ParamV::Float(rat_sub(int_rat(0), f)),
        (ParamV::Int(v), ParamV::Int(v2)) => ParamV::Int(
            vstd::wrapping::i64_specs::wrapping_sub(v, v2),
        ),
        (ParamV::Rational(s), ParamV::Null) => ParamV::Rational(rat_sub(int_rat(0), s)),
        (ParamV::Null, ParamV::Rational(s)) => ParamV::Rational(rat_sub(int_rat(0), s)),
        (ParamV::Rational(s), ParamV::Rational(s2)) => ParamV::Rational(rat_sub(s, s2)),
        (ParamV::Rational(s), ParamV::Int(i)) => ParamV::Rational(rat_sub(s, int_rat(i))),
        (ParamV::Int(i), ParamV::Rational(s)) => ParamV::Rational(rat_sub(int_rat(i), s)),
        (ParamV::Rational(s), ParamV::Float(f)) => ParamV::Float(rat_sub(s, f)),
        (ParamV::Float(f), ParamV::Rational(s)) => ParamV::Float(rat_sub(f, s)),
        (ParamV::InterpreterVector(vec), ParamV::Null) => ParamV::InterpreterVector(
            minus_neg_map(vec, ram, fuel),
        ),
        (ParamV::Null, ParamV::InterpreterVector(vec)) => ParamV::InterpreterVector(
            minus_neg_map(vec, ram, fuel),
        ),
        (ParamV::InterpreterVector(vec), ParamV::InterpreterVector(vec2)) => {
            ParamV::InterpreterVector(minus_zip(vec, vec2, ram, fuel))
        },
        (ParamV::Int(v), ParamV::Float(f)) => ParamV::Float(rat_sub(int_rat(v), f)),
        (ParamV::Float(v), ParamV::Float(f)) => ParamV::Float(rat_sub(v, f)),
        (ParamV::Float(v), ParamV::Int(i1)) => ParamV::Float(rat_sub(v, int_rat(i1))),
        (ParamV::Bool(_), ParamV::Int(i)) => ParamV::Int(i),
        (ParamV::Bool(_), ParamV::Float(i)) => ParamV::Float(i),
        (ParamV::Int(i), ParamV::Bool(_)) => ParamV::Int(i),
        (ParamV::Float(i), ParamV::Bool(_)) => ParamV::Float(i),
        (ParamV::Bool(b), ParamV::Null) => ParamV::Bool(b),
        (ParamV::Null, ParamV::Bool(b)) => ParamV::Bool(b),
        (ParamV::Bool(b), ParamV::Bool(b2)) => ParamV::Bool(b && b2),
        (ParamV::Identifier(s), ParamV::Identifier(s2)) => minus_left_resolved(
            s,
            ParamV::Identifier(s2),
            ram,
            fuel,
        ),
        (ParamV::Identifier(s), ParamV::Int(i)) => minus_left_resolved(
            s,
            ParamV::Int(i),
            ram,
            fuel,
        ),
        (ParamV::Null, ParamV::Identifier(s)) => minus_left_resolved(s, ParamV::Null, ram, fuel),
        (ParamV::Rational(s), ParamV::Identifier(ss)) => minus_right_resolved(
            ParamV::Rational(s),
            ss,
            ram,
            fuel,
        ),
        (ParamV::Identifier(ss), ParamV::Rational(s)) => minus_left_resolved(
            ss,
            ParamV::Rational(s),
            ram,
            fuel,
        ),
        (ParamV::Identifier(s), ParamV::Null) => minus_left_resolved(s, ParamV::Null, ram, fuel),
        (ParamV::Int(i), ParamV::Identifier(s)) => {
            match minus_left_resolved(s, ParamV::Int(i), ram, fuel) {
                ParamV::Int(x) => ParamV::Int(vstd::wrapping::i64_specs::wrapping_sub(0, x)),
                _ => ParamV::Null,
            }
        },
        (ParamV::Identifier(s), ParamV::Float(i)) => minus_left_resolved(
            s,
            ParamV::Float(i),
            ram,
            fuel,
        ),
        (ParamV::Float(i), ParamV::Identifier(s)) => {
            match minus_left_resolved(s, ParamV::Float(i), ram, fuel) {
                ParamV::Float(f) => ParamV::Float(rat_sub(int_rat(0), f)),
                _ => ParamV::Null,
            }
        },
        (ParamV::InterpreterVector(vec), ParamV::Identifier(s)) => minus_right_resolved(
            ParamV::InterpreterVector(vec),
            s,
            ram,
            fuel,
        ),
        (ParamV::Identifier(s), ParamV::InterpreterVector(vec)) => minus_left_resolved(
            s,
            ParamV::InterpreterVector(vec),
            ram,
            fuel,
        ),
        (ParamV::Bool(b), ParamV::Identifier(s)) => minus_right_resolved(
            ParamV::Bool(b),
            s,
            ram,
            fuel,
        ),
        (ParamV::Identifier(s), ParamV::Bool(b)) => minus_left_resolved(
            s,
            ParamV::Bool(b),
            ram,
            fuel,
        ),
        _ => ParamV::Identifier("Those two values are incompatible with the - operator"@),
    }
}

/// Indexing the zipped differences.
proof fn lemma_minus_zip_index(
    s1: Seq<ParamV>,
    s2: Seq<ParamV>,
    ram: Option<Map<Seq<char>, ParamV>>,
    fuel: nat,
)
    ensures
        minus_zip(s1, s2, ram, fuel).len() == if s1.len() < s2.len() {
            s1.len()
        } else {
            s2.len()
        },
        forall|k: int|
            0 <= k < minus_zip(s1, s2, ram, fuel).len() ==> minus_zip(s1, s2, ram, fuel)[k]
                == minus_spec(s1[k], s2[k], ram, fuel),
    decreases s1.len(),
{
    if s1.len() > 0 && s2.len() > 0 {
        lemma_minus_zip_index(s1.drop_first(), s2.drop_first(), ram, fuel);
    }
}

/// Indexing the negation map.
proof fn lemma_minus_neg_map_index(s: Seq<ParamV>, ram: Option<Map<Seq<char>, ParamV>>, fuel: nat)
    ensures
        minus_neg_map(s, ram, fuel).len() == s.len(),
        forall|k: int|
            0 <= k < s.len() ==> minus_neg_map(s, ram, fuel)[k] == minus_spec(
                ParamV::Null,
                s[k],
                ram,
                fuel,
            ),
    decreases s.len(),
{
    if s.len() > 0 {
        lemma_minus_neg_map_index(s.drop_first(), ram, fuel);
    }
}

fn minus_resolve(s: String, other: Parameters, ram: Option<&AssocMap<Parameters>>, fuel: u64) -> (r:
    Parameters)
    ensures
        r@ == minus_left_resolved(s@, other@, ram_view(ram), fuel as nat),
    decreases fuel, 0nat, 0nat,
{
    match ram {
        None => other,
        Some(m) => {
            match m.get(&s) {
                Some(v) => {
                    if fuel > 0 {
                        let val = v.deep_clone();
                        minus_fuel(val, other, ram, fuel - 1)
                    } else {
                        other
                    }
                },
                None => other,
            }
        },
    }
}

fn minus_resolve_rev(
    value: Parameters,
    s: String,
    ram: Option<&AssocMap<Parameters>>,
    fuel: u64,
) -> (r: Parameters)
    ensures
        r@ == minus_right_resolved(value@, s@, ram_view(ram), fuel as nat),
    decreases fuel, 0nat, 0nat,
{
    match ram {
        None => value,
        Some(m) => {
            match m.get(&s) {
                Some(v) => {
                    if fuel > 0 {
                        let val = v.deep_clone();
                        minus_fuel(value, val, ram, fuel - 1)
                    } else {
                        value
                    }
                },
                None => value,
            }
        },
    }
}

#[verifier::loop_isolation(false)]
fn minus_fuel(i: Parameters, i2: Parameters, ram: Option<&AssocMap<Parameters>>, fuel: u64) -> (r:
    Parameters)
    ensures
        r@ == minus_spec(i@, i2@, ram_view(ram), fuel as nat),
    decreases fuel, 3 + pheight(i@) + pheight(i2@), 0nat,
{
    match (i, i2) {
        (Parameters::Null, Parameters::Int(v)) => Parameters::Int((0i64).wrapping_sub(v)),
        (Parameters::Null, Parameters::Float(f)) => Parameters::Float(
            Rationals::new(1, 0).sub(f),
        ),
        (Parameters::Int(v), Parameters::Null) => Parameters::Int((0i64).wrapping_sub(v)),
        (Parameters::Float(f), Parameters::Null) => Parameters::Float(
            Rationals::new(1, 0).sub(f),
        ),
        (Parameters::Int(v), Parameters::Int(v2)) => Parameters::Int(v.wrapping_sub(v2)),
        (Parameters::Rational(s), Parameters::Null) => Parameters::Rational(
            Rationals::new(1, 0).sub(s),
        ),
        (Parameters::Null, Parameters::Rational(s)) => Parameters::Rational(
            Rationals::new(1, 0).sub(s),
        ),
        (Parameters::Rational(s), Parameters::Rational(s2)) => Parameters::Rational(s.sub(s2)),
        (Parameters::Rational(s), Parameters::Int(i)) => Parameters::Rational(
            s.sub(Rationals::new(1, i)),
        ),
        (Parameters::Int(i), Parameters::Rational(s)) => Parameters::Rational(
            Rationals::new(1, i).sub(s),
        ),
        (Parameters::Rational(s), Parameters::Float(f)) => Parameters::Float(s.sub(f)),
        (Parameters::Float(f), Parameters::Rational(s)) => Parameters::Float(f.sub(s)),
        (Parameters::InterpreterVector(vec), Parameters::Null) => {
            let l1: &Vec<Parameters> = &vec;
            let ghost s1 = pview_seq(l1@);
            proof {
                lemma_pview_seq(l1@);
                lemma_minus_neg_map_index(s1, ram_view(ram), fuel as nat);
            }
            let mut res: Vec<Parameters> = Vec::new();
            let mut k: usize = 0;
            while k < l1.len()
                invariant
                    k <= l1.len(),
                    s1 == pview_seq(l1@),
                    l1@.len() == s1.len(),
                    forall|j: int| 0 <= j < s1.len() ==> s1[j] == l1@[j]@,
                    res@.len() == k,
                    pview_seq(res@).len() == k,
                    forall|j: int|
                        0 <= j < k ==> pview_seq(res@)[j] == minus_spec(
                            ParamV::Null,
                            s1[j],
                            ram_view(ram),
                            fuel as nat,
                        ),
                decreases l1.len() - k,
            {
                proof {
                    lemma_pheight_seq_elem(s1, k as int);
                }
                let eb = l1[k].deep_clone();
                let ghost pre = res@;
                let v = minus_fuel(Parameters::Null, eb, ram, fuel);
                res.push(v);
                proof {
                    lemma_pview_seq(pre);
                    lemma_pview_seq(res@);
                    assert(res@.drop_last() =~= pre);
                    assert(forall|j: int|
                        0 <= j < k ==> pview_seq(res@)[j] == pview_seq(pre)[j]);
                }
                k += 1;
            }
            proof {
                lemma_pview_seq(res@);
                assert(pview_seq(res@) =~= minus_neg_map(s1, ram_view(ram), fuel as nat));
            }
            Parameters::InterpreterVector(Box::new(res))
        },
        (Parameters::Null, Parameters::InterpreterVector(vec)) => {
            let l1: &Vec<Parameters> = &vec;
            let ghost s1 = pview_seq(l1@);
            proof {
                lemma_pview_seq(l1@);
                lemma_minus_neg_map_index(s1, ram_view(ram), fuel as nat);
            }
            let mut res: Vec<Parameters> = Vec::new();
            let mut k: usize = 0;
            while k < l1.len()
                invariant
                    k <= l1.len(),
                    s1 == pview_seq(l1@),
                    l1@.len() == s1.len(),
                    forall|j: int| 0 <= j < s1.len() ==> s1[j] == l1@[j]@,
                    res@.len() == k,
                    pview_seq(res@).len() == k,
                    forall|j: int|
                        0 <= j < k ==> pview_seq(res@)[j] == minus_spec(
                            ParamV::Null,
                            s1[j],
                            ram_view(ram),
                            fuel as nat,
                        ),
                decreases l1.len() - k,
            {
                proof {
                    lemma_pheight_seq_elem(s1, k as int);
                }
                let eb = l1[k].deep_clone();
                let ghost pre = res@;
                let v = minus_fuel(Parameters::Null, eb, ram, fuel);
                res.push(v);
                proof {
                    lemma_pview_seq(pre);
                    lemma_pview_seq(res@);
                    assert(res@.drop_last() =~= pre);
                    assert(forall|j: int|
                        0 <= j < k ==> pview_seq(res@)[j] == pview_seq(pre)[j]);
                }
                k += 1;
            }
            proof {
                lemma_pview_seq(res@);
                assert(pview_seq(res@) =~= minus_neg_map(s1, ram_view(ram), fuel as nat));
            }
            Parameters::InterpreterVector(Box::new(res))
        },
        (Parameters::InterpreterVector(vec), Parameters::InterpreterVector(vec2)) => {
            let l1: &Vec<Parameters> = &vec;
            let l2: &Vec<Parameters> = &vec2;
            let n: usize = if l1.len() < l2.len() {
                l1.len()
            } else {
                l2.len()
            };
            let ghost s1 = pview_seq(l1@);
            let ghost s2 = pview_seq(l2@);
            proof {
                lemma_pview_seq(l1@);
                lemma_pview_seq(l2@);
                lemma_minus_zip_index(s1, s2, ram_view(ram), fuel as nat);
            }
            let mut res: Vec<Parameters> = Vec::new();
            let mut k: usize = 0;
            while k < n
                invariant
                    k <= n,
                    n == if s1.len() < s2.len() {
                        s1.len()
                    } else {
                        s2.len()
                    },
                    s1 == pview_seq(l1@),
                    s2 == pview_seq(l2@),
                    l1@.len() == s1.len(),
                    l2@.len() == s2.len(),
                    forall|j: int| 0 <= j < s1.len() ==> s1[j] == l1@[j]@,
                    forall|j: int| 0 <= j < s2.len() ==> s2[j] == l2@[j]@,
                    res@.len() == k,
                    pview_seq(res@).len() == k,
                    forall|j: int|
                        0 <= j < k ==> pview_seq(res@)[j] == minus_spec(
                            s1[j],
                            s2[j],
                            ram_view(ram),
                            fuel as nat,
                        ),
                decreases n - k,
            {
                proof {
                    lemma_pheight_seq_elem(s1, k as int);
                    lemma_pheight_seq_elem(s2, k as int);
                }
                let ea = l1[k].deep_clone();
                let eb = l2[k].deep_clone();
                let ghost pre = res@;
                let v = minus_fuel(ea, eb, ram, fuel);
                res.push(v);
                proof {
                    lemma_pview_seq(pre);
                    lemma_pview_seq(res@);
                    assert(res@.drop_last() =~= pre);
                    assert(forall|j: int|
                        0 <= j < k ==> pview_seq(res@)[j] == pview_seq(pre)[j]);
                }
                k += 1;
            }
            proof {
                lemma_pview_seq(res@);
                assert(pview_seq(res@) =~= minus_zip(s1, s2, ram_view(ram), fuel as nat));
            }
            Parameters::InterpreterVector(Box::new(res))
        },
        (Parameters::Int(v), Parameters::Float(f)) => Parameters::Float(
            Rationals::new(1, v).sub(f),
        ),
        (Parameters::Float(v), Parameters::Float(f)) => Parameters::Float(v.sub(f)),
        (Parameters::Float(v), Parameters::Int(i1)) => Parameters::Float(
            v.sub(Rationals::new(1, i1)),
        ),
        (Parameters::Bool(_), Parameters::Int(i)) => Parameters::Int(i),
        (Parameters::Bool(_), Parameters::Float(i)) => Parameters::Float(i),
        (Parameters::Int(i), Parameters::Bool(_)) => Parameters::Int(i),
        (Parameters::Float(i), Parameters::Bool(_)) => Parameters::Float(i),
        (Parameters::Bool(b), Parameters::Null) => Parameters::Bool(b),
        (Parameters::Null, Parameters::Bool(b)) => Parameters::Bool(b),
        (Parameters::Bool(b), Parameters::Bool(b2)) => Parameters::Bool(b && b2),
        (Parameters::Identifier(s), Parameters::Identifier(s2)) => minus_resolve(
            s,
            Parameters::Identifier(s2),
            ram,
            fuel,
        ),
        (Parameters::Identifier(s), Parameters::Int(i)) => minus_resolve(
            s,
            Parameters::Int(i),
            ram,
            fuel,
        ),
        (Parameters::Null, Parameters::Identifier(s)) => minus_resolve(
            s,
            Parameters::Null,
            ram,
            fuel,
        ),
        (Parameters::Rational(s), Parameters::Identifier(ss)) => minus_resolve_rev(
            Parameters::Rational(s),
            ss,
            ram,
            fuel,
        ),
        (Parameters::Identifier(ss), Parameters::Rational(s)) => minus_resolve(
            ss,
            Parameters::Rational(s),
            ram,
            fuel,
        ),
        (Parameters::Identifier(s), Parameters::Null) => minus_resolve(
            s,
            Parameters::Null,
            ram,
            fuel,
        ),
        (Parameters::Int(i), Parameters::Identifier(s)) => {
            let v = minus_resolve(s, Parameters::Int(i), ram, fuel);
            match v {
                Parameters::Int(x) => Parameters::Int((0i64).wrapping_sub(x)),
                _ => Parameters::Null,
            }
        },
        (Parameters::Identifier(s), Parameters::Float(i)) => minus_resolve(
            s,
            Parameters::Float(i),
            ram,
            fuel,
        ),
        (Parameters::Float(i), Parameters::Identifier(s)) => {
            let v = minus_resolve(s, Parameters::Float(i), ram, fuel);
            match v {
                Parameters::Float(f) => Parameters::Float(Rationals::new(1, 0).sub(f)),
                _ => Parameters::Null,
            }
        },
        (Parameters::InterpreterVector(vec), Parameters::Identifier(s)) => minus_resolve_rev(
            Parameters::InterpreterVector(vec),
            s,
            ram,
            fuel,
        ),
        (Parameters::Identifier(s), Parameters::InterpreterVector(vec)) => minus_resolve(
            s,
            Parameters::InterpreterVector(vec),
            ram,
            fuel,
        ),
        (Parameters::Bool(b), Parameters::Identifier(s)) => minus_resolve_rev(
            Parameters::Bool(b),
            s,
            ram,
            fuel,
        ),
        (Parameters::Identifier(s), Parameters::Bool(b)) => minus_resolve(
            s,
            Parameters::Bool(b),
            ram,
            fuel,
        ),
        _ => Parameters::Identifier(
            String::from_str("Those two values are incompatible with the - operator"),
        ),
    }
}

/// The `-` operator over the whole value tower.
pub fn minus(i: Parameters, i2: Parameters, ram: Option<&AssocMap<Parameters>>) -> (r: Parameters)
    ensures
        r@ == minus_spec(i@, i2@, ram_view(ram), default_fuel(ram)),
{
    let fuel = fuel_for(ram);
    minus_fuel(i, i2, ram, fuel)
}

/// The `+` operator over the whole value tower.
pub fn add(i: Parameters, i2: Parameters, ram: Option<&AssocMap<Parameters>>) -> (r: Parameters)
    ensures
        r@ == add_spec(i@, i2@, ram_view(ram), default_fuel(ram)),
{
    let fuel = fuel_for(ram);
    add_fuel(i, i2, ram, fuel)
}

/// Rational order and equality, as the comparison methods define them.
pub open spec fn rat_gt(a: Rationals, b: Rationals) -> bool {
    a.partial_cmp_spec(&b) == Some(core::cmp::Ordering::Greater)
}

pub open spec fn rat_lt(a: Rationals, b: Rationals) -> bool {
    a.partial_cmp_spec(&b) == Some(core::cmp::Ordering::Less)
}

pub open spec fn rat_ge(a: Rationals, b: Rationals) -> bool {
    rat_gt(a, b) || a.partial_cmp_spec(&b) == Some(core::cmp::Ordering::Equal)
}

pub open spec fn rat_le(a: Rationals, b: Rationals) -> bool {
    rat_lt(a, b) || a.partial_cmp_spec(&b) == Some(core::cmp::Ordering::Equal)
}

pub open spec fn rat_eq(a: Rationals, b: Rationals) -> bool {
    a.eq_spec(&b)
}

/// What resolving the left identifier and re-dispatching `>` returns.
pub open spec fn greater_left_resolved(
    s: Seq<char>,
    other: ParamV,
    ram: Option<Map<Seq<char>, ParamV>>,
    fuel: nat,
) -> ParamV
    decreases fuel, 0nat, 0nat,
{
    match ram {
        None => other,
        Some(m) => {
            if m.contains_key(s) && fuel > 0 {
                greater_spec(m[s], other, ram, (fuel - 1) as nat)
            } else {
                other
            }
        },
    }
}

/// As `greater_left_resolved`, with the identifier on the right.
pub open spec fn greater_right_resolved(
    value: ParamV,
    s: Seq<char>,
    ram: Option<Map<Seq<char>, ParamV>>,
    fuel: nat,
) -> ParamV
    decreases fuel, 0nat, 0nat,
{
    match ram {
        None => value,
        Some(m) => {
            if m.contains_key(s) && fuel > 0 {
                greater_spec(value, m[s], ram, (fuel - 1) as nat)
            } else {
                value
            }
        },
    }
}

/// What the `>` operator returns on each pair of value kinds.
pub open spec fn greater_spec(
    a: ParamV,
    b: ParamV,
    ram: Option<Map<Seq<char>, ParamV>>,
    fuel: nat,
) -> ParamV
    decreases fuel, 3 + pheight(a) + pheight(b), 0nat,
{
    match (a, b) {
        (ParamV::Null, ParamV::Int(_)) => ParamV::Bool(true),
        (ParamV::Null, ParamV::Float(_)) => ParamV::Bool(true),
        (ParamV::Int(_), ParamV::Null) => ParamV::Bool(true),
        (ParamV::Float(_), ParamV::Null) => ParamV::Bool(true),
        (ParamV::Int(v), ParamV::Int(v2)) => ParamV::Bool(v > v2),
        (ParamV::Int(v), ParamV::Float(f)) => ParamV::Bool(rat_gt(int_rat(v), f)),
        (ParamV::Float(v), ParamV::Float(f)) => ParamV::Bool(rat_gt(v, f)),
        (ParamV::Float(v), ParamV::Int(i1)) => ParamV::Bool(rat_gt(v, int_rat(i1))),
        (ParamV::Rational(_), ParamV::Null) => ParamV::Bool(true),
        (ParamV::Null, ParamV::Rational(_)) => ParamV::Bool(true),
        (ParamV::Rational(s), ParamV::Rational(s2)) => ParamV::Bool(rat_gt(s, s2)),
        (ParamV::Rational(s), ParamV::Int(i)) => ParamV::Bool(rat_gt(s, int_rat(i))),
        (ParamV::Int(i), ParamV::Rational(s)) => ParamV::Bool(rat_gt(int_rat(i), s)),
        (ParamV::Rational(s), ParamV::Float(f)) => ParamV::Bool(rat_gt(s, f)),
        (ParamV::Float(f), ParamV::Rational(s)) => ParamV::Bool(rat_gt(f, s)),
        (ParamV::Bool(b), ParamV::Int(_)) => ParamV::Bool(b),
        (ParamV::Bool(b), ParamV::Float(_)) => ParamV::Bool(b),
        (ParamV::Int(_), ParamV::Bool(b)) => ParamV::Bool(b),
        (ParamV::Float(_), ParamV::Bool(b)) => ParamV::Bool(b),
        (ParamV::Bool(b), ParamV::Null) => ParamV::Bool(b),
        (ParamV::Null, ParamV::Bool(b)) => ParamV::Bool(b),
        (ParamV::Bool(b), ParamV::Bool(b2)) => ParamV::Bool(b && b2),
        (ParamV::Identifier(s), ParamV::Identifier(s2)) => greater_left_resolved(
            s,
            ParamV::Identifier(s2),
            ram,
            fuel,
        ),
        (ParamV::Rational(s), ParamV::Identifier(ss)) => greater_right_resolved(
            ParamV::Rational(s),
            ss,
            ram,
            fuel,
        ),
        (ParamV::Identifier(ss), ParamV::Rational(s)) => greater_left_resolved(ss, ParamV::Rational(s), ram, fuel),
        (ParamV::Identifier(s), ParamV::Int(i)) => greater_left_resolved(s, ParamV::Int(i), ram, fuel),
        (ParamV::Null, ParamV::Identifier(s)) => greater_left_resolved(s, ParamV::Null, ram, fuel),
        (ParamV::Identifier(s), ParamV::Null) => greater_left_resolved(s, ParamV::Null, ram, fuel),
        (ParamV::Int(i), ParamV::Identifier(s)) => greater_right_resolved(ParamV::Int(i), s, ram, fuel),
        (ParamV::Identifier(s), ParamV::Float(i)) => greater_left_resolved(s, ParamV::Float(i), ram, fuel),
        (ParamV::Float(i), ParamV::Identifier(s)) => greater_right_resolved(ParamV::Float(i), s, ram, fuel),
        (ParamV::Bool(b), ParamV::Identifier(s)) => greater_right_resolved(ParamV::Bool(b), s, ram, fuel),
        (ParamV::Identifier(s), ParamV::Bool(b)) => greater_left_resolved(s, ParamV::Bool(b), ram, fuel),
        _ => ParamV::Identifier("@Those two values are incompatible with the > operator"@),
    }
}

fn greater_resolve(s: String, other: Parameters, ram: Option<&AssocMap<Parameters>>, fuel: u64) -> (
    r: Parameters)
    ensures
        r@ == greater_left_resolved(s@, other@, ram_view(ram), fuel as nat),
    decreases fuel, 0nat, 0nat,
{
    match ram {
        None => other,
        Some(m) => {
            match m.get(&s) {
                Some(v) => {
                    if fuel > 0 {
                        let val = v.deep_clone();
                        greater_fuel(val, other, ram, fuel - 1)
                    } else {
                        other
                    }
                },
                None => other,
            }
        },
    }
}

fn greater_resolve_rev(
    value: Parameters,
    s: String,
    ram: Option<&AssocMap<Parameters>>,
    fuel: u64,
) -> (r: Parameters)
    ensures
        r@ == greater_right_resolved(value@, s@, ram_view(ram), fuel as nat),
    decreases fuel, 0nat, 0nat,
{
    match ram {
        None => value,
        Some(m) => {
            match m.get(&s) {
                Some(v) => {
                    if fuel > 0 {
                        let val = v.deep_clone();
                        greater_fuel(value, val, ram, fuel - 1)
                    } else {
                        value
                    }
                },
                None => value,
            }
        },
    }
}

fn greater_fuel(i: Parameters, i2: Parameters, ram: Option<&AssocMap<Parameters>>, fuel: u64) -> (r:
    Parameters)
    ensures
        r@ == greater_spec(i@, i2@, ram_view(ram), fuel as nat),
    decreases fuel, 3 + pheight(i@) + pheight(i2@), 0nat,
{
    match (i, i2) {
        (Parameters::Null, Parameters::Int(_)) => Parameters::Bool(true),
        (Parameters::Null, Parameters::Float(_)) => Parameters::Bool(true),
        (Parameters::Int(_), Parameters::Null) => Parameters::Bool(true),
        (Parameters::Float(_), Parameters::Null) => Parameters::Bool(true),
        (Parameters::Int(v), Parameters::Int(v2)) => Parameters::Bool(v > v2),
        (Parameters::Int(v), Parameters::Float(f)) => Parameters::Bool(Rationals::new(1, v).gt(&f)),
        (Parameters::Float(v), Parameters::Float(f)) => Parameters::Bool(v.gt(&f)),
        (Parameters::Float(v), Parameters::Int(i1)) => Parameters::Bool(v.gt(&Rationals::new(1, i1))),
        (Parameters::Rational(_), Parameters::Null) => Parameters::Bool(true),
        (Parameters::Null, Parameters::Rational(_)) => Parameters::Bool(true),
        (Parameters::Rational(s), Parameters::Rational(s2)) => Parameters::Bool(s.gt(&s2)),
        (Parameters::Rational(s), Parameters::Int(i)) => Parameters::Bool(s.gt(&Rationals::new(1, i))),
        (Parameters::Int(i), Parameters::Rational(s)) => Parameters::Bool(Rationals::new(1, i).gt(&s)),
        (Parameters::Rational(s), Parameters::Float(f)) => Parameters::Bool(s.gt(&f)),
        (Parameters::Float(f), Parameters::Rational(s)) => Parameters::Bool(f.gt(&s)),
        (Parameters::Bool(b), Parameters::Int(_)) => Parameters::Bool(b),
        (Parameters::Bool(b), Parameters::Float(_)) => Parameters::Bool(b),
        (Parameters::Int(_), Parameters::Bool(b)) => Parameters::Bool(b),
        (Parameters::Float(_), Parameters::Bool(b)) => Parameters::Bool(b),
        (Parameters::Bool(b), Parameters::Null) => Parameters::Bool(b),
        (Parameters::Null, Parameters::Bool(b)) => Parameters::Bool(b),
        (Parameters::Bool(b), Parameters::Bool(b2)) => Parameters::Bool(b && b2),
        (Parameters::Identifier(s), Parameters::Identifier(s2)) => greater_resolve(
            s,
            Parameters::Identifier(s2),
            ram,
            fuel,
        ),
        (Parameters::Rational(s), Parameters::Identifier(ss)) => greater_resolve_rev(
            Parameters::Rational(s),
            ss,
            ram,
            fuel,
        ),
        (Parameters::Identifier(ss), Parameters::Rational(s)) => greater_resolve(
            ss,
            Parameters::Rational(s),
            ram,
            fuel,
        ),
        (Parameters::Identifier(s), Parameters::Int(i)) => greater_resolve(
            s,
            Parameters::Int(i),
            ram,
            fuel,
        ),
        (Parameters::Null, Parameters::Identifier(s)) => greater_resolve(
            s,
            Parameters::Null,
            ram,
            fuel,
        ),
        (Parameters::Identifier(s), Parameters::Null) => greater_resolve(
            s,
            Parameters::Null,
            ram,
            fuel,
        ),
        (Parameters::Int(i), Parameters::Identifier(s)) => greater_resolve_rev(
            Parameters::Int(i),
            s,
            ram,
            fuel,
        ),
        (Parameters::Identifier(s), Parameters::Float(i)) => greater_resolve(
            s,
            Parameters::Float(i),
            ram,
            fuel,
        ),
        (Parameters::Float(i), Parameters::Identifier(s)) => greater_resolve_rev(
            Parameters::Float(i),
            s,
            ram,
            fuel,
        ),
        (Parameters::Bool(b), Parameters::Identifier(s)) => greater_resolve_rev(
            Parameters::Bool(b),
            s,
            ram,
            fuel,
        ),
        (Parameters::Identifier(s), Parameters::Bool(b)) => greater_resolve(
            s,
            Parameters::Bool(b),
            ram,
            fuel,
        ),
        _ => Parameters::Identifier(
            String::from_str("@Those two values are incompatible with the > operator"),
        ),
    }
}

/// The `>` operator over the whole value tower.
pub fn greater(i: Parameters, i2: Parameters, ram: Option<&AssocMap<Parameters>>) -> (r: Parameters)
    ensures
        r@ == greater_spec(i@, i2@, ram_view(ram), default_fuel(ram)),
{
    let fuel = fuel_for(ram);
    greater_fuel(i, i2, ram, fuel)
}

/// What resolving the left identifier and re-dispatching `<` returns.
pub open spec fn lesser_left_resolved(
    s: Seq<char>,
    other: ParamV,
    ram: Option<Map<Seq<char>, ParamV>>,
    fuel: nat,
) -> ParamV
    decreases fuel, 0nat, 0nat,
{
    match ram {
        None => other,
        Some(m) => {
            if m.contains_key(s) && fuel > 0 {
                lesser_spec(m[s], other, ram, (fuel - 1) as nat)
            } else {
                other
            }
        },
    }
}

/// As `lesser_left_resolved`, with the identifier on the right.
pub open spec fn lesser_right_resolved(
    value: ParamV,
    s: Seq<char>,
    ram: Option<Map<Seq<char>, ParamV>>,
    fuel: nat,
) -> ParamV
    decreases fuel, 0nat, 0nat,
{
    match ram {
        None => value,
        Some(m) => {
            if m.contains_key(s) && fuel > 0 {
                lesser_spec(value, m[s], ram, (fuel - 1) as nat)
            } else {
                value
            }
        },
    }
}

/// What the `<` operator returns on each pair of value kinds.
pub open spec fn lesser_spec(
    a: ParamV,
    b: ParamV,
    ram: Option<Map<Seq<char>, ParamV>>,
    fuel: nat,
) -> ParamV
    decreases fuel, 3 + pheight(a) + pheight(b), 0nat,
{
    match (a, b) {
        (ParamV::Null, ParamV::Int(_)) => ParamV::Bool(false),
        (ParamV::Null, ParamV::Float(_)) => ParamV::Bool(false),
        (ParamV::Int(_), ParamV::Null) => ParamV::Bool(false),
        (ParamV::Float(_), ParamV::Null) => ParamV::Bool(false),
        (ParamV::Int(v), ParamV::Int(v2)) => ParamV::Bool(v < v2),
        (ParamV::Int(v), ParamV::Float(f)) => ParamV::Bool(rat_lt(int_rat(v), f)),
        (ParamV::Float(v), ParamV::Float(f)) => ParamV::Bool(rat_lt(v, f)),
        (ParamV::Float(v), ParamV::Int(i1)) => ParamV::Bool(rat_lt(v, int_rat(i1))),
        (ParamV::Rational(_), ParamV::Null) => ParamV::Bool(true),
        (ParamV::Null, ParamV::Rational(_)) => ParamV::Bool(true),
        (ParamV::Rational(s), ParamV::Rational(s2)) => ParamV::Bool(rat_lt(s, s2)),
        (ParamV::Rational(s), ParamV::Int(i)) => ParamV::Bool(rat_lt(s, int_rat(i))),
        (ParamV::Int(i), ParamV::Rational(s)) => ParamV::Bool(rat_lt(int_rat(i), s)),
        (ParamV::Rational(s), ParamV::Float(f)) => ParamV::Bool(rat_lt(s, f)),
        (ParamV::Float(f), ParamV::Rational(s)) => ParamV::Bool(rat_lt(f, s)),
        (ParamV::Bool(b), ParamV::Int(_)) => ParamV::Bool(b),
        (ParamV::Bool(b), ParamV::Float(_)) => ParamV::Bool(b),
        (ParamV::Int(_), ParamV::Bool(b)) => ParamV::Bool(b),
        (ParamV::Float(_), ParamV::Bool(b)) => ParamV::Bool(b),
        (ParamV::Bool(b), ParamV::Null) => ParamV::Bool(b),
        (ParamV::Null, ParamV::Bool(b)) => ParamV::Bool(b),
        (ParamV::Bool(b), ParamV::Bool(b2)) => ParamV::Bool(b && b2),
        (ParamV::Identifier(s), ParamV::Identifier(s2)) => lesser_left_resolved(
            s,
            ParamV::Identifier(s2),
            ram,
            fuel,
        ),
        (ParamV::Rational(s), ParamV::Identifier(ss)) => lesser_right_resolved(
            ParamV::Rational(s),
            ss,
            ram,
            fuel,
        ),
        (ParamV::Identifier(ss), ParamV::Rational(s)) => lesser_left_resolved(ss, ParamV::Rational(s), ram, fuel),
        (ParamV::Identifier(s), ParamV::Int(i)) => lesser_left_resolved(s, ParamV::Int(i), ram, fuel),
        (ParamV::Null, ParamV::Identifier(s)) => lesser_left_resolved(s, ParamV::Null, ram, fuel),
        (ParamV::Identifier(s), ParamV::Null) => lesser_left_resolved(s, ParamV::Null, ram, fuel),
        (ParamV::Int(i), ParamV::Identifier(s)) => lesser_right_resolved(ParamV::Int(i), s, ram, fuel),
        (ParamV::Identifier(s), ParamV::Float(i)) => lesser_left_resolved(s, ParamV::Float(i), ram, fuel),
        (ParamV::Float(i), ParamV::Identifier(s)) => lesser_right_resolved(ParamV::Float(i), s, ram, fuel),
        (ParamV::Bool(b), ParamV::Identifier(s)) => lesser_right_resolved(ParamV::Bool(b), s, ram, fuel),
        (ParamV::Identifier(s), ParamV::Bool(b)) => lesser_left_resolved(s, ParamV::Bool(b), ram, fuel),
        _ => ParamV::Identifier("@Those two values are incompatible with the < operator"@),
    }
}

fn lesser_resolve(s: String, other: Parameters, ram: Option<&AssocMap<Parameters>>, fuel: u64) -> (
    r: Parameters)
    ensures
        r@ == lesser_left_resolved(s@, other@, ram_view(ram), fuel as nat),
    decreases fuel, 0nat, 0nat,
{
    match ram {
        None => other,
        Some(m) => {
            match m.get(&s) {
                Some(v) => {
                    if fuel > 0 {
                        let val = v.deep_clone();
                        lesser_fuel(val, other, ram, fuel - 1)
                    } else {
                        other
                    }
                },
                None => other,
            }
        },
    }
}

fn lesser_resolve_rev(
    value: Parameters,
    s: String,
    ram: Option<&AssocMap<Parameters>>,
    fuel: u64,
) -> (r: Parameters)
    ensures
        r@ == lesser_right_resolved(value@, s@, ram_view(ram), fuel as nat),
    decreases fuel, 0nat, 0nat,
{
    match ram {
        None => value,
        Some(m) => {
            match m.get(&s) {
                Some(v) => {
                    if fuel > 0 {
                        let val = v.deep_clone();
                        lesser_fuel(value, val, ram, fuel - 1)
                    } else {
                        value
                    }
                },
                None => value,
            }
        },
    }
}

fn lesser_fuel(i: Parameters, i2: Parameters, ram: Option<&AssocMap<Parameters>>, fuel: u64) -> (r:
    Parameters)
    ensures
        r@ == lesser_spec(i@, i2@, ram_view(ram), fuel as nat),
    decreases fuel, 3 + pheight(i@) + pheight(i2@), 0nat,
{
    match (i, i2) {
        (Parameters::Null, Parameters::Int(_)) => Parameters::Bool(false),
        (Parameters::Null, Parameters::Float(_)) => Parameters::Bool(false),
        (Parameters::Int(_), Parameters::Null) => Parameters::Bool(false),
        (Parameters::Float(_), Parameters::Null) => Parameters::Bool(false),
        (Parameters::Int(v), Parameters::Int(v2)) => Parameters::Bool(v < v2),
        (Parameters::Int(v), Parameters::Float(f)) => Parameters::Bool(Rationals::new(1, v).lt(&f)),
        (Parameters::Float(v), Parameters::Float(f)) => Parameters::Bool(v.lt(&f)),
        (Parameters::Float(v), Parameters::Int(i1)) => Parameters::Bool(v.lt(&Rationals::new(1, i1))),
        (Parameters::Rational(_), Parameters::Null) => Parameters::Bool(true),
        (Parameters::Null, Parameters::Rational(_)) => Parameters::Bool(true),
        (Parameters::Rational(s), Parameters::Rational(s2)) => Parameters::Bool(s.lt(&s2)),
        (Parameters::Rational(s), Parameters::Int(i)) => Parameters::Bool(s.lt(&Rationals::new(1, i))),
        (Parameters::Int(i), Parameters::Rational(s)) => Parameters::Bool(Rationals::new(1, i).lt(&s)),
        (Parameters::Rational(s), Parameters::Float(f)) => Parameters::Bool(s.lt(&f)),
        (Parameters::Float(f), Parameters::Rational(s)) => Parameters::Bool(f.lt(&s)),
        (Parameters::Bool(b), Parameters::Int(_)) => Parameters::Bool(b),
        (Parameters::Bool(b), Parameters::Float(_)) => Parameters::Bool(b),
        (Parameters::Int(_), Parameters::Bool(b)) => Parameters::Bool(b),
        (Parameters::Float(_), Parameters::Bool(b)) => Parameters::Bool(b),
        (Parameters::Bool(b), Parameters::Null) => Parameters::Bool(b),
        (Parameters::Null, Parameters::Bool(b)) => Parameters::Bool(b),
        (Parameters::Bool(b), Parameters::Bool(b2)) => Parameters::Bool(b && b2),
        (Parameters::Identifier(s), Parameters::Identifier(s2)) => lesser_resolve(
            s,
            Parameters::Identifier(s2),
            ram,
            fuel,
        ),
        (Parameters::Rational(s), Parameters::Identifier(ss)) => lesser_resolve_rev(
            Parameters::Rational(s),
            ss,
            ram,
            fuel,
        ),
        (Parameters::Identifier(ss), Parameters::Rational(s)) => lesser_resolve(
            ss,
            Parameters::Rational(s),
            ram,
            fuel,
        ),
        (Parameters::Identifier(s), Parameters::Int(i)) => lesser_resolve(
            s,
            Parameters::Int(i),
            ram,
            fuel,
        ),
        (Parameters::Null, Parameters::Identifier(s)) => lesser_resolve(
            s,
            Parameters::Null,
            ram,
            fuel,
        ),
        (Parameters::Identifier(s), Parameters::Null) => lesser_resolve(
            s,
            Parameters::Null,
            ram,
            fuel,
        ),
        (Parameters::Int(i), Parameters::Identifier(s)) => lesser_resolve_rev(
            Parameters::Int(i),
            s,
            ram,
            fuel,
        ),
        (Parameters::Identifier(s), Parameters::Float(i)) => lesser_resolve(
            s,
            Parameters::Float(i),
            ram,
            fuel,
        ),
        (Parameters::Float(i), Parameters::Identifier(s)) => lesser_resolve_rev(
            Parameters::Float(i),
            s,
            ram,
            fuel,
        ),
        (Parameters::Bool(b), Parameters::Identifier(s)) => lesser_resolve_rev(
            Parameters::Bool(b),
            s,
            ram,
            fuel,
        ),
        (Parameters::Identifier(s), Parameters::Bool(b)) => lesser_resolve(
            s,
            Parameters::Bool(b),
            ram,
            fuel,
        ),
        _ => Parameters::Identifier(
            String::from_str("@Those two values are incompatible with the < operator"),
        ),
    }
}

/// The `<` operator over the whole value tower.
pub fn lesser(i: Parameters, i2: Parameters, ram: Option<&AssocMap<Parameters>>) -> (r: Parameters)
    ensures
        r@ == lesser_spec(i@, i2@, ram_view(ram), default_fuel(ram)),
{
    let fuel = fuel_for(ram);
    lesser_fuel(i, i2, ram, fuel)
}

/// What resolving the left identifier and re-dispatching `>=` returns.
pub open spec fn greater_or_equal_left_resolved(
    s: Seq<char>,
    other: ParamV,
    ram: Option<Map<Seq<char>, ParamV>>,
    fuel: nat,
) -> ParamV
    decreases fuel, 0nat, 0nat,
{
    match ram {
        None => other,
        Some(m) => {
            if m.contains_key(s) && fuel > 0 {
                greater_or_equal_spec(m[s], other, ram, (fuel - 1) as nat)
            } else {
                other
            }
        },
    }
}

/// As `greater_or_equal_left_resolved`, with the identifier on the right.
pub open spec fn greater_or_equal_right_resolved(
    value: ParamV,
    s: Seq<char>,
    ram: Option<Map<Seq<char>, ParamV>>,
    fuel: nat,
) -> ParamV
    decreases fuel, 0nat, 0nat,
{
    match ram {
        None => value,
        Some(m) => {
            if m.contains_key(s) && fuel > 0 {
                greater_or_equal_spec(value, m[s], ram, (fuel - 1) as nat)
            } else {
                value
            }
        },
    }
}

/// What the `>=` operator returns on each pair of value kinds.
pub open spec fn greater_or_equal_spec(
    a: ParamV,
    b: ParamV,
    ram: Option<Map<Seq<char>, ParamV>>,
    fuel: nat,
) -> ParamV
    decreases fuel, 3 + pheight(a) + pheight(b), 0nat,
{
    match (a, b) {
        (ParamV::Null, ParamV::Int(_)) => ParamV::Bool(true),
        (ParamV::Null, ParamV::Float(_)) => ParamV::Bool(true),
        (ParamV::Int(_), ParamV::Null) => ParamV::Bool(true),
        (ParamV::Float(_), ParamV::Null) => ParamV::Bool(true),
        (ParamV::Int(v), ParamV::Int(v2)) => ParamV::Bool(v >= v2),
        (ParamV::Int(v), ParamV::Float(f)) => ParamV::Bool(rat_ge(int_rat(v), f)),
        (ParamV::Float(v), ParamV::Float(f)) => ParamV::Bool(rat_ge(v, f)),
        (ParamV::Float(v), ParamV::Int(i1)) => ParamV::Bool(rat_ge(v, int_rat(i1))),
        (ParamV::Rational(_), ParamV::Null) => ParamV::Bool(true),
        (ParamV::Null, ParamV::Rational(_)) => ParamV::Bool(true),
        (ParamV::Rational(s), ParamV::Rational(s2)) => ParamV::Bool(rat_ge(s, s2)),
        (ParamV::Rational(s), ParamV::Int(i)) => ParamV::Bool(rat_ge(s, int_rat(i))),
        (ParamV::Int(i), ParamV::Rational(s)) => ParamV::Bool(rat_ge(int_rat(i), s)),
        (ParamV::Rational(s), ParamV::Float(f)) => ParamV::Bool(rat_ge(s, f)),
        (ParamV::Float(f), ParamV::Rational(s)) => ParamV::Bool(rat_ge(f, s)),
        (ParamV::Bool(b), ParamV::Int(_)) => ParamV::Bool(b),
        (ParamV::Bool(b), ParamV::Float(_)) => ParamV::Bool(b),
        (ParamV::Int(_), ParamV::Bool(b)) => ParamV::Bool(b),
        (ParamV::Float(_), ParamV::Bool(b)) => ParamV::Bool(b),
        (ParamV::Bool(b), ParamV::Null) => ParamV::Bool(b),
        (ParamV::Null, ParamV::Bool(b)) => ParamV::Bool(b),
        (ParamV::Bool(b), ParamV::Bool(b2)) => ParamV::Bool(b == b2),
        (ParamV::Identifier(s), ParamV::Identifier(s2)) => greater_or_equal_left_resolved(
            s,
            ParamV::Identifier(s2),
            ram,
            fuel,
        ),
        (ParamV::Rational(s), ParamV::Identifier(ss)) => greater_or_equal_right_resolved(
            ParamV::Rational(s),
            ss,
            ram,
            fuel,
        ),
        (ParamV::Identifier(ss), ParamV::Rational(s)) => greater_or_equal_left_resolved(ss, ParamV::Rational(s), ram, fuel),
        (ParamV::Identifier(s), ParamV::Int(i)) => greater_or_equal_left_resolved(s, ParamV::Int(i), ram, fuel),
        (ParamV::Null, ParamV::Identifier(s)) => greater_or_equal_left_resolved(s, ParamV::Null, ram, fuel),
        (ParamV::Identifier(s), ParamV::Null) => greater_or_equal_left_resolved(s, ParamV::Null, ram, fuel),
        (ParamV::Int(i), ParamV::Identifier(s)) => greater_or_equal_right_resolved(ParamV::Int(i), s, ram, fuel),
        (ParamV::Identifier(s), ParamV::Float(i)) => greater_or_equal_left_resolved(s, ParamV::Float(i), ram, fuel),
        (ParamV::Float(i), ParamV::Identifier(s)) => greater_or_equal_right_resolved(ParamV::Float(i), s, ram, fuel),
        (ParamV::Bool(b), ParamV::Identifier(s)) => greater_or_equal_right_resolved(ParamV::Bool(b), s, ram, fuel),
        (ParamV::Identifier(s), ParamV::Bool(b)) => greater_or_equal_left_resolved(s, ParamV::Bool(b), ram, fuel),
        _ => ParamV::Identifier("@Those two values are incompatible with the >= operator"@),
    }
}

fn greater_or_equal_resolve(s: String, other: Parameters, ram: Option<&AssocMap<Parameters>>, fuel: u64) -> (
    r: Parameters)
    ensures
        r@ == greater_or_equal_left_resolved(s@, other@, ram_view(ram), fuel as nat),
    decreases fuel, 0nat, 0nat,
{
    match ram {
        None => other,
        Some(m) => {
            match m.get(&s) {
                Some(v) => {
                    if fuel > 0 {
                        let val = v.deep_clone();
                        greater_or_equal_fuel(val, other, ram, fuel - 1)
                    } else {
                        other
                    }
                },
                None => other,
            }
        },
    }
}

fn greater_or_equal_resolve_rev(
    value: Parameters,
    s: String,
    ram: Option<&AssocMap<Parameters>>,
    fuel: u64,
) -> (r: Parameters)
    ensures
        r@ == greater_or_equal_right_resolved(value@, s@, ram_view(ram), fuel as nat),
    decreases fuel, 0nat, 0nat,
{
    match ram {
        None => value,
        Some(m) => {
            match m.get(&s) {
                Some(v) => {
                    if fuel > 0 {
                        let val = v.deep_clone();
                        greater_or_equal_fuel(value, val, ram, fuel - 1)
                    } else {
                        value
                    }
                },
                None => value,
            }
        },
    }
}

fn greater_or_equal_fuel(i: Parameters, i2: Parameters, ram: Option<&AssocMap<Parameters>>, fuel: u64) -> (r:
    Parameters)
    ensures
        r@ == greater_or_equal_spec(i@, i2@, ram_view(ram), fuel as nat),
    decreases fuel, 3 + pheight(i@) + pheight(i2@), 0nat,
{
    match (i, i2) {
        (Parameters::Null, Parameters::Int(_)) => Parameters::Bool(true),
        (Parameters::Null, Parameters::Float(_)) => Parameters::Bool(true),
        (Parameters::Int(_), Parameters::Null) => Parameters::Bool(true),
        (Parameters::Float(_), Parameters::Null) => Parameters::Bool(true),
        (Parameters::Int(v), Parameters::Int(v2)) => Parameters::Bool(v >= v2),
        (Parameters::Int(v), Parameters::Float(f)) => Parameters::Bool(Rationals::new(1, v).ge(&f)),
        (Parameters::Float(v), Parameters::Float(f)) => Parameters::Bool(v.ge(&f)),
        (Parameters::Float(v), Parameters::Int(i1)) => Parameters::Bool(v.ge(&Rationals::new(1, i1))),
        (Parameters::Rational(_), Parameters::Null) => Parameters::Bool(true),
        (Parameters::Null, Parameters::Rational(_)) => Parameters::Bool(true),
        (Parameters::Rational(s), Parameters::Rational(s2)) => Parameters::Bool(s.ge(&s2)),
        (Parameters::Rational(s), Parameters::Int(i)) => Parameters::Bool(s.ge(&Rationals::new(1, i))),
        (Parameters::Int(i), Parameters::Rational(s)) => Parameters::Bool(Rationals::new(1, i).ge(&s)),
        (Parameters::Rational(s), Parameters::Float(f)) => Parameters::Bool(s.ge(&f)),
        (Parameters::Float(f), Parameters::Rational(s)) => Parameters::Bool(f.ge(&s)),
        (Parameters::Bool(b), Parameters::Int(_)) => Parameters::Bool(b),
        (Parameters::Bool(b), Parameters::Float(_)) => Parameters::Bool(b),
        (Parameters::Int(_), Parameters::Bool(b)) => Parameters::Bool(b),
        (Parameters::Float(_), Parameters::Bool(b)) => Parameters::Bool(b),
        (Parameters::Bool(b), Parameters::Null) => Parameters::Bool(b),
        (Parameters::Null, Parameters::Bool(b)) => Parameters::Bool(b),
        (Parameters::Bool(b), Parameters::Bool(b2)) => Parameters::Bool(b == b2),
        (Parameters::Identifier(s), Parameters::Identifier(s2)) => greater_or_equal_resolve(
            s,
            Parameters::Identifier(s2),
            ram,
            fuel,
        ),
        (Parameters::Rational(s), Parameters::Identifier(ss)) => greater_or_equal_resolve_rev(
            Parameters::Rational(s),
            ss,
            ram,
            fuel,
        ),
        (Parameters::Identifier(ss), Parameters::Rational(s)) => greater_or_equal_resolve(
            ss,
            Parameters::Rational(s),
            ram,
            fuel,
        ),
        (Parameters::Identifier(s), Parameters::Int(i)) => greater_or_equal_resolve(
            s,
            Parameters::Int(i),
            ram,
            fuel,
        ),
        (Parameters::Null, Parameters::Identifier(s)) => greater_or_equal_resolve(
            s,
            Parameters::Null,
            ram,
            fuel,
        ),
        (Parameters::Identifier(s), Parameters::Null) => greater_or_equal_resolve(
            s,
            Parameters::Null,
            ram,
            fuel,
        ),
        (Parameters::Int(i), Parameters::Identifier(s)) => greater_or_equal_resolve_rev(
            Parameters::Int(i),
            s,
            ram,
            fuel,
        ),
        (Parameters::Identifier(s), Parameters::Float(i)) => greater_or_equal_resolve(
            s,
            Parameters::Float(i),
            ram,
            fuel,
        ),
        (Parameters::Float(i), Parameters::Identifier(s)) => greater_or_equal_resolve_rev(
            Parameters::Float(i),
            s,
            ram,
            fuel,
        ),
        (Parameters::Bool(b), Parameters::Identifier(s)) => greater_or_equal_resolve_rev(
            Parameters::Bool(b),
            s,
            ram,
            fuel,
        ),
        (Parameters::Identifier(s), Parameters::Bool(b)) => greater_or_equal_resolve(
            s,
            Parameters::Bool(b),
            ram,
            fuel,
        ),
        _ => Parameters::Identifier(
            String::from_str("@Those two values are incompatible with the >= operator"),
        ),
    }
}

/// The `>=` operator over the whole value tower.
pub fn greater_or_equal(i: Parameters, i2: Parameters, ram: Option<&AssocMap<Parameters>>) -> (r: Parameters)
    ensures
        r@ == greater_or_equal_spec(i@, i2@, ram_view(ram), default_fuel(ram)),
{
    let fuel = fuel_for(ram);
    greater_or_equal_fuel(i, i2, ram, fuel)
}

/// What resolving the left identifier and re-dispatching `<=` returns.
pub open spec fn lesser_or_equal_left_resolved(
    s: Seq<char>,
    other: ParamV,
    ram: Option<Map<Seq<char>, ParamV>>,
    fuel: nat,
) -> ParamV
    decreases fuel, 0nat, 0nat,
{
    match ram {
        None => other,
        Some(m) => {
            if m.contains_key(s) && fuel > 0 {
                lesser_or_equal_spec(m[s], other, ram, (fuel - 1) as nat)
            } else {
                other
            }
        },
    }
}

/// As `lesser_or_equal_left_resolved`, with the identifier on the right.
pub open spec fn lesser_or_equal_right_resolved(
    value: ParamV,
    s: Seq<char>,
    ram: Option<Map<Seq<char>, ParamV>>,
    fuel: nat,
) -> ParamV
    decreases fuel, 0nat, 0nat,
{
    match ram {
        None => value,
        Some(m) => {
            if m.contains_key(s) && fuel > 0 {
                lesser_or_equal_spec(value, m[s], ram, (fuel - 1) as nat)
            } else {
                value
            }
        },
    }
}

/// What the `<=` operator returns on each pair of value kinds.
pub open spec fn lesser_or_equal_spec(
    a: ParamV,
    b: ParamV,
    ram: Option<Map<Seq<char>, ParamV>>,
    fuel: nat,
) -> ParamV
    decreases fuel, 3 + pheight(a) + pheight(b), 0nat,
{
    match (a, b) {
        (ParamV::Null, ParamV::Int(_)) => ParamV::Bool(false),
        (ParamV::Null, ParamV::Float(_)) => ParamV::Bool(false),
        (ParamV::Int(_), ParamV::Null) => ParamV::Bool(false),
        (ParamV::Float(_), ParamV::Null) => ParamV::Bool(false),
        (ParamV::Int(v), ParamV::Int(v2)) => ParamV::Bool(v <= v2),
        (ParamV::Int(v), ParamV::Float(f)) => ParamV::Bool(rat_le(int_rat(v), f)),
        (ParamV::Float(v), ParamV::Float(f)) => ParamV::Bool(rat_le(v, f)),
        (ParamV::Float(v), ParamV::Int(i1)) => ParamV::Bool(rat_le(v, int_rat(i1))),
        (ParamV::Rational(_), ParamV::Null) => ParamV::Bool(true),
        (ParamV::Null, ParamV::Rational(_)) => ParamV::Bool(true),
        (ParamV::Rational(s), ParamV::Rational(s2)) => ParamV::Bool(rat_le(s, s2)),
        (ParamV::Rational(s), ParamV::Int(i)) => ParamV::Bool(rat_le(s, int_rat(i))),
        (ParamV::Int(i), ParamV::Rational(s)) => ParamV::Bool(rat_le(int_rat(i), s)),
        (ParamV::Rational(s), ParamV::Float(f)) => ParamV::Bool(rat_le(s, f)),
        (ParamV::Float(f), ParamV::Rational(s)) => ParamV::Bool(rat_le(f, s)),
        (ParamV::Bool(b), ParamV::Int(_)) => ParamV::Bool(b),
        (ParamV::Bool(b), ParamV::Float(_)) => ParamV::Bool(b),
        (ParamV::Int(_), ParamV::Bool(b)) => ParamV::Bool(b),
        (ParamV::Float(_), ParamV::Bool(b)) => ParamV::Bool(b),
        (ParamV::Bool(b), ParamV::Null) => ParamV::Bool(b),
        (ParamV::Null, ParamV::Bool(b)) => ParamV::Bool(b),
        (ParamV::Bool(b), ParamV::Bool(b2)) => ParamV::Bool(b == b2),
        (ParamV::Identifier(s), ParamV::Identifier(s2)) => lesser_or_equal_left_resolved(
            s,
            ParamV::Identifier(s2),
            ram,
            fuel,
        ),
        (ParamV::Rational(s), ParamV::Identifier(ss)) => lesser_or_equal_right_resolved(
            ParamV::Rational(s),
            ss,
            ram,
            fuel,
        ),
        (ParamV::Identifier(ss), ParamV::Rational(s)) => lesser_or_equal_left_resolved(ss, ParamV::Rational(s), ram, fuel),
        (ParamV::Identifier(s), ParamV::Int(i)) => lesser_or_equal_left_resolved(s, ParamV::Int(i), ram, fuel),
        (ParamV::Null, ParamV::Identifier(s)) => lesser_or_equal_left_resolved(s, ParamV::Null, ram, fuel),
        (ParamV::Identifier(s), ParamV::Null) => lesser_or_equal_left_resolved(s, ParamV::Null, ram, fuel),
        (ParamV::Int(i), ParamV::Identifier(s)) => lesser_or_equal_right_resolved(ParamV::Int(i), s, ram, fuel),
        (ParamV::Identifier(s), ParamV::Float(i)) => lesser_or_equal_left_resolved(s, ParamV::Float(i), ram, fuel),
        (ParamV::Float(i), ParamV::Identifier(s)) => lesser_or_equal_right_resolved(ParamV::Float(i), s, ram, fuel),
        (ParamV::Bool(b), ParamV::Identifier(s)) => lesser_or_equal_right_resolved(ParamV::Bool(b), s, ram, fuel),
        (ParamV::Identifier(s), ParamV::Bool(b)) => lesser_or_equal_left_resolved(s, ParamV::Bool(b), ram, fuel),
        _ => ParamV::Identifier("@Those two values are incompatible with the <= operator"@),
    }
}

fn lesser_or_equal_resolve(s: String, other: Parameters, ram: Option<&AssocMap<Parameters>>, fuel: u64) -> (
    r: Parameters)
    ensures
        r@ == lesser_or_equal_left_resolved(s@, other@, ram_view(ram), fuel as nat),
    decreases fuel, 0nat, 0nat,
{
    match ram {
        None => other,
        Some(m) => {
            match m.get(&s) {
                Some(v) => {
                    if fuel > 0 {
                        let val = v.deep_clone();
                        lesser_or_equal_fuel(val, other, ram, fuel - 1)
                    } else {
                        other
                    }
                },
                None => other,
            }
        },
    }
}

fn lesser_or_equal_resolve_rev(
    value: Parameters,
    s: String,
    ram: Option<&AssocMap<Parameters>>,
    fuel: u64,
) -> (r: Parameters)
    ensures
        r@ == lesser_or_equal_right_resolved(value@, s@, ram_view(ram), fuel as nat),
    decreases fuel, 0nat, 0nat,
{
    match ram {
        None => value,
        Some(m) => {
            match m.get(&s) {
                Some(v) => {
                    if fuel > 0 {
                        let val = v.deep_clone();
                        lesser_or_equal_fuel(value, val, ram, fuel - 1)
                    } else {
                        value
                    }
                },
                None => value,
            }
        },
    }
}

fn lesser_or_equal_fuel(i: Parameters, i2: Parameters, ram: Option<&AssocMap<Parameters>>, fuel: u64) -> (r:
    Parameters)
    ensures
        r@ == lesser_or_equal_spec(i@, i2@, ram_view(ram), fuel as nat),
    decreases fuel, 3 + pheight(i@) + pheight(i2@), 0nat,
{
    match (i, i2) {
        (Parameters::Null, Parameters::Int(_)) => Parameters::Bool(false),
        (Parameters::Null, Parameters::Float(_)) => Parameters::Bool(false),
        (Parameters::Int(_), Parameters::Null) => Parameters::Bool(false),
        (Parameters::Float(_), Parameters::Null) => Parameters::Bool(false),
        (Parameters::Int(v), Parameters::Int(v2)) => Parameters::Bool(v <= v2),
        (Parameters::Int(v), Parameters::Float(f)) => Parameters::Bool(Rationals::new(1, v).le(&f)),
        (Parameters::Float(v), Parameters::Float(f)) => Parameters::Bool(v.le(&f)),
        (Parameters::Float(v), Parameters::Int(i1)) => Parameters::Bool(v.le(&Rationals::new(1, i1))),
        (Parameters::Rational(_), Parameters::Null) => Parameters::Bool(true),
        (Parameters::Null, Parameters::Rational(_)) => Parameters::Bool(true),
        (Parameters::Rational(s), Parameters::Rational(s2)) => Parameters::Bool(s.le(&s2)),
        (Parameters::Rational(s), Parameters::Int(i)) => Parameters::Bool(s.le(&Rationals::new(1, i))),
        (Parameters::Int(i), Parameters::Rational(s)) => Parameters::Bool(Rationals::new(1, i).le(&s)),
        (Parameters::Rational(s), Parameters::Float(f)) => Parameters::Bool(s.le(&f)),
        (Parameters::Float(f), Parameters::Rational(s)) => Parameters::Bool(f.le(&s)),
        (Parameters::Bool(b), Parameters::Int(_)) => Parameters::Bool(b),
        (Parameters::Bool(b), Parameters::Float(_)) => Parameters::Bool(b),
        (Parameters::Int(_), Parameters::Bool(b)) => Parameters::Bool(b),
        (Parameters::Float(_), Parameters::Bool(b)) => Parameters::Bool(b),
        (Parameters::Bool(b), Parameters::Null) => Parameters::Bool(b),
        (Parameters::Null, Parameters::Bool(b)) => Parameters::Bool(b),
        (Parameters::Bool(b), Parameters::Bool(b2)) => Parameters::Bool(b == b2),
        (Parameters::Identifier(s), Parameters::Identifier(s2)) => lesser_or_equal_resolve(
            s,
            Parameters::Identifier(s2),
            ram,
            fuel,
        ),
        (Parameters::Rational(s), Parameters::Identifier(ss)) => lesser_or_equal_resolve_rev(
            Parameters::Rational(s),
            ss,
            ram,
            fuel,
        ),
        (Parameters::Identifier(ss), Parameters::Rational(s)) => lesser_or_equal_resolve(
            ss,
            Parameters::Rational(s),
            ram,
            fuel,
        ),
        (Parameters::Identifier(s), Parameters::Int(i)) => lesser_or_equal_resolve(
            s,
            Parameters::Int(i),
            ram,
            fuel,
        ),
        (Parameters::Null, Parameters::Identifier(s)) => lesser_or_equal_resolve(
            s,
            Parameters::Null,
            ram,
            fuel,
        ),
        (Parameters::Identifier(s), Parameters::Null) => lesser_or_equal_resolve(
            s,
            Parameters::Null,
            ram,
            fuel,
        ),
        (Parameters::Int(i), Parameters::Identifier(s)) => lesser_or_equal_resolve_rev(
            Parameters::Int(i),
            s,
            ram,
            fuel,
        ),
        (Parameters::Identifier(s), Parameters::Float(i)) => lesser_or_equal_resolve(
            s,
            Parameters::Float(i),
            ram,
            fuel,
        ),
        (Parameters::Float(i), Parameters::Identifier(s)) => lesser_or_equal_resolve_rev(
            Parameters::Float(i),
            s,
            ram,
            fuel,
        ),
        (Parameters::Bool(b), Parameters::Identifier(s)) => lesser_or_equal_resolve_rev(
            Parameters::Bool(b),
            s,
            ram,
            fuel,
        ),
        (Parameters::Identifier(s), Parameters::Bool(b)) => lesser_or_equal_resolve(
            s,
            Parameters::Bool(b),
            ram,
            fuel,
        ),
        _ => Parameters::Identifier(
            String::from_str("@Those two values are incompatible with the <= operator"),
        ),
    }
}

/// The `<=` operator over the whole value tower.
pub fn lesser_or_equal(i: Parameters, i2: Parameters, ram: Option<&AssocMap<Parameters>>) -> (r: Parameters)
    ensures
        r@ == lesser_or_equal_spec(i@, i2@, ram_view(ram), default_fuel(ram)),
{
    let fuel = fuel_for(ram);
    lesser_or_equal_fuel(i, i2, ram, fuel)
}

/// What resolving the left identifier and re-dispatching `==` returns.
pub open spec fn equal_left_resolved(
    s: Seq<char>,
    other: ParamV,
    ram: Option<Map<Seq<char>, ParamV>>,
    fuel: nat,
) -> ParamV
    decreases fuel, 0nat, 0nat,
{
    match ram {
        None => other,
        Some(m) => {
            if m.contains_key(s) && fuel > 0 {
                equal_spec(m[s], other, ram, (fuel - 1) as nat)
            } else {
                other
            }
        },
    }
}

/// As `equal_left_resolved`, with the identifier on the right.
pub open spec fn equal_right_resolved(
    value: ParamV,
    s: Seq<char>,
    ram: Option<Map<Seq<char>, ParamV>>,
    fuel: nat,
) -> ParamV
    decreases fuel, 0nat, 0nat,
{
    match ram {
        None => value,
        Some(m) => {
            if m.contains_key(s) && fuel > 0 {
                equal_spec(value, m[s], ram, (fuel - 1) as nat)
            } else {
                value
            }
        },
    }
}

/// What the `==` operator returns on each pair of value kinds.
pub open spec fn equal_spec(
    a: ParamV,
    b: ParamV,
    ram: Option<Map<Seq<char>, ParamV>>,
    fuel: nat,
) -> ParamV
    decreases fuel, 3 + pheight(a) + pheight(b), 0nat,
{
    match (a, b) {
        (ParamV::Null, ParamV::Int(_)) => ParamV::Bool(true),
        (ParamV::Null, ParamV::Float(_)) => ParamV::Bool(true),
        (ParamV::Int(_), ParamV::Null) => ParamV::Bool(true),
        (ParamV::Float(_), ParamV::Null) => ParamV::Bool(true),
        (ParamV::Int(v), ParamV::Int(v2)) => ParamV::Bool(v == v2),
        (ParamV::Int(v), ParamV::Float(f)) => ParamV::Bool(rat_eq(int_rat(v), f)),
        (ParamV::Float(v), ParamV::Float(f)) => ParamV::Bool(rat_eq(v, f)),
        (ParamV::Float(v), ParamV::Int(i1)) => ParamV::Bool(rat_eq(v, int_rat(i1))),
        (ParamV::Rational(_), ParamV::Null) => ParamV::Bool(true),
        (ParamV::Null, ParamV::Rational(_)) => ParamV::Bool(true),
        (ParamV::Rational(s), ParamV::Rational(s2)) => ParamV::Bool(rat_eq(s, s2)),
        (ParamV::Rational(s), ParamV::Int(i)) => ParamV::Bool(rat_eq(s, int_rat(i))),
        (ParamV::Int(i), ParamV::Rational(s)) => ParamV::Bool(rat_eq(int_rat(i), s)),
        (ParamV::Rational(s), ParamV::Float(f)) => ParamV::Bool(rat_eq(s, f)),
        (ParamV::Float(f), ParamV::Rational(s)) => ParamV::Bool(rat_eq(f, s)),
        (ParamV::Bool(b), ParamV::Int(_)) => ParamV::Bool(false),
        (ParamV::Bool(b), ParamV::Float(_)) => ParamV::Bool(false),
        (ParamV::Int(_), ParamV::Bool(b)) => ParamV::Bool(false),
        (ParamV::Float(_), ParamV::Bool(b)) => ParamV::Bool(false),
        (ParamV::Bool(b), ParamV::Null) => ParamV::Bool(false),
        (ParamV::Null, ParamV::Bool(b)) => ParamV::Bool(false),
        (ParamV::Bool(b), ParamV::Bool(b2)) => ParamV::Bool(b == b2),
        (ParamV::Identifier(s), ParamV::Identifier(s2)) => equal_left_resolved(
            s,
            ParamV::Identifier(s2),
            ram,
            fuel,
        ),
        (ParamV::Rational(s), ParamV::Identifier(ss)) => equal_right_resolved(
            ParamV::Rational(s),
            ss,
            ram,
            fuel,
        ),
        (ParamV::Identifier(ss), ParamV::Rational(s)) => equal_left_resolved(ss, ParamV::Rational(s), ram, fuel),
        (ParamV::Identifier(s), ParamV::Int(i)) => equal_left_resolved(s, ParamV::Int(i), ram, fuel),
        (ParamV::Null, ParamV::Identifier(s)) => equal_left_resolved(s, ParamV::Null, ram, fuel),
        (ParamV::Identifier(s), ParamV::Null) => equal_left_resolved(s, ParamV::Null, ram, fuel),
        (ParamV::Int(i), ParamV::Identifier(s)) => equal_right_resolved(ParamV::Int(i), s, ram, fuel),
        (ParamV::Identifier(s), ParamV::Float(i)) => equal_left_resolved(s, ParamV::Float(i), ram, fuel),
        (ParamV::Float(i), ParamV::Identifier(s)) => equal_right_resolved(ParamV::Float(i), s, ram, fuel),
        (ParamV::Bool(b), ParamV::Identifier(s)) => equal_right_resolved(ParamV::Bool(b), s, ram, fuel),
        (ParamV::Identifier(s), ParamV::Bool(b)) => equal_left_resolved(s, ParamV::Bool(b), ram, fuel),
        _ => ParamV::Identifier("@Those two values are incompatible with the == operator"@),
    }
}

fn equal_resolve(s: String, other: Parameters, ram: Option<&AssocMap<Parameters>>, fuel: u64) -> (
    r: Parameters)
    ensures
        r@ == equal_left_resolved(s@, other@, ram_view(ram), fuel as nat),
    decreases fuel, 0nat, 0nat,
{
    match ram {
        None => other,
        Some(m) => {
            match m.get(&s) {
                Some(v) => {
                    if fuel > 0 {
                        let val = v.deep_clone();
                        equal_fuel(val, other, ram, fuel - 1)
                    } else {
                        other
                    }
                },
                None => other,
            }
        },
    }
}

fn equal_resolve_rev(
    value: Parameters,
    s: String,
    ram: Option<&AssocMap<Parameters>>,
    fuel: u64,
) -> (r: Parameters)
    ensures
        r@ == equal_right_resolved(value@, s@, ram_view(ram), fuel as nat),
    decreases fuel, 0nat, 0nat,
{
    match ram {
        None => value,
        Some(m) => {
            match m.get(&s) {
                Some(v) => {
                    if fuel > 0 {
                        let val = v.deep_clone();
                        equal_fuel(value, val, ram, fuel - 1)
                    } else {
                        value
                    }
                },
                None => value,
            }
        },
    }
}

fn equal_fuel(i: Parameters, i2: Parameters, ram: Option<&AssocMap<Parameters>>, fuel: u64) -> (r:
    Parameters)
    ensures
        r@ == equal_spec(i@, i2@, ram_view(ram), fuel as nat),
    decreases fuel, 3 + pheight(i@) + pheight(i2@), 0nat,
{
    match (i, i2) {
        (Parameters::Null, Parameters::Int(_)) => Parameters::Bool(true),
        (Parameters::Null, Parameters::Float(_)) => Parameters::Bool(true),
        (Parameters::Int(_), Parameters::Null) => Parameters::Bool(true),
        (Parameters::Float(_), Parameters::Null) => Parameters::Bool(true),
        (Parameters::Int(v), Parameters::Int(v2)) => Parameters::Bool(v == v2),
        (Parameters::Int(v), Parameters::Float(f)) => Parameters::Bool(Rationals::new(1, v).eq(&f)),
        (Parameters::Float(v), Parameters::Float(f)) => Parameters::Bool(v.eq(&f)),
        (Parameters::Float(v), Parameters::Int(i1)) => Parameters::Bool(v.eq(&Rationals::new(1, i1))),
        (Parameters::Rational(_), Parameters::Null) => Parameters::Bool(true),
        (Parameters::Null, Parameters::Rational(_)) => Parameters::Bool(true),
        (Parameters::Rational(s), Parameters::Rational(s2)) => Parameters::Bool(s.eq(&s2)),
        (Parameters::Rational(s), Parameters::Int(i)) => Parameters::Bool(s.eq(&Rationals::new(1, i))),
        (Parameters::Int(i), Parameters::Rational(s)) => Parameters::Bool(Rationals::new(1, i).eq(&s)),
        (Parameters::Rational(s), Parameters::Float(f)) => Parameters::Bool(s.eq(&f)),
        (Parameters::Float(f), Parameters::Rational(s)) => Parameters::Bool(f.eq(&s)),
        (Parameters::Bool(b), Parameters::Int(_)) => Parameters::Bool(false),
        (Parameters::Bool(b), Parameters::Float(_)) => Parameters::Bool(false),
        (Parameters::Int(_), Parameters::Bool(b)) => Parameters::Bool(false),
        (Parameters::Float(_), Parameters::Bool(b)) => Parameters::Bool(false),
        (Parameters::Bool(b), Parameters::Null) => Parameters::Bool(false),
        (Parameters::Null, Parameters::Bool(b)) => Parameters::Bool(false),
        (Parameters::Bool(b), Parameters::Bool(b2)) => Parameters::Bool(b == b2),
        (Parameters::Identifier(s), Parameters::Identifier(s2)) => equal_resolve(
            s,
            Parameters::Identifier(s2),
            ram,
            fuel,
        ),
        (Parameters::Rational(s), Parameters::Identifier(ss)) => equal_resolve_rev(
            Parameters::Rational(s),
            ss,
            ram,
            fuel,
        ),
        (Parameters::Identifier(ss), Parameters::Rational(s)) => equal_resolve(
            ss,
            Parameters::Rational(s),
            ram,
            fuel,
        ),
        (Parameters::Identifier(s), Parameters::Int(i)) => equal_resolve(
            s,
            Parameters::Int(i),
            ram,
            fuel,
        ),
        (Parameters::Null, Parameters::Identifier(s)) => equal_resolve(
            s,
            Parameters::Null,
            ram,
            fuel,
        ),
        (Parameters::Identifier(s), Parameters::Null) => equal_resolve(
            s,
            Parameters::Null,
            ram,
            fuel,
        ),
        (Parameters::Int(i), Parameters::Identifier(s)) => equal_resolve_rev(
            Parameters::Int(i),
            s,
            ram,
            fuel,
        ),
        (Parameters::Identifier(s), Parameters::Float(i)) => equal_resolve(
            s,
            Parameters::Float(i),
            ram,
            fuel,
        ),
        (Parameters::Float(i), Parameters::Identifier(s)) => equal_resolve_rev(
            Parameters::Float(i),
            s,
            ram,
            fuel,
        ),
        (Parameters::Bool(b), Parameters::Identifier(s)) => equal_resolve_rev(
            Parameters::Bool(b),
            s,
            ram,
            fuel,
        ),
        (Parameters::Identifier(s), Parameters::Bool(b)) => equal_resolve(
            s,
            Parameters::Bool(b),
            ram,
            fuel,
        ),
        _ => Parameters::Identifier(
            String::from_str("@Those two values are incompatible with the == operator"),
        ),
    }
}

/// The `==` operator over the whole value tower.
pub fn equal(i: Parameters, i2: Parameters, ram: Option<&AssocMap<Parameters>>) -> (r: Parameters)
    ensures
        r@ == equal_spec(i@, i2@, ram_view(ram), default_fuel(ram)),
{
    let fuel = fuel_for(ram);
    equal_fuel(i, i2, ram, fuel)
}

/// What resolving the operand of `!` returns: the negation dispatched on
/// the bound value, absence otherwise.
pub open spec fn not_resolved(s: Seq<char>, ram: Option<Map<Seq<char>, ParamV>>, fuel: nat) -> ParamV
    decreases fuel, 0nat, 0nat,
{
    match ram {
        None => ParamV::Null,
        Some(m) => {
            if m.contains_key(s) && fuel > 0 {
                not_spec(m[s], ParamV::Null, ram, (fuel - 1) as nat)
            } else {
                ParamV::Null
            }
        },
    }
}

/// What the `!` operator returns: boolean negation; non-booleans other
/// than resolvable identifiers default to `false`.
pub open spec fn not_spec(a: ParamV, b: ParamV, ram: Option<Map<Seq<char>, ParamV>>, fuel: nat) -> ParamV
    decreases fuel, 3 + pheight(a) + pheight(b), 0nat,
{
    match a {
        ParamV::Bool(b2) => ParamV::Bool(!b2),
        ParamV::Identifier(s) => not_resolved(s, ram, fuel),
        _ => ParamV::Bool(false),
    }
}

fn not_resolve(s: String, ram: Option<&AssocMap<Parameters>>, fuel: u64) -> (r: Parameters)
    ensures
        r@ == not_resolved(s@, ram_view(ram), fuel as nat),
    decreases fuel, 0nat, 0nat,
{
    match ram {
        None => Parameters::Null,
        Some(m) => {
            match m.get(&s) {
                Some(v) => {
                    if fuel > 0 {
                        let val = v.deep_clone();
                        not_fuel(val, Parameters::Null, ram, fuel - 1)
                    } else {
                        Parameters::Null
                    }
                },
                None => Parameters::Null,
            }
        },
    }
}

fn not_fuel(i: Parameters, _i2: Parameters, ram: Option<&AssocMap<Parameters>>, fuel: u64) -> (r:
    Parameters)
    ensures
        r@ == not_spec(i@, _i2@, ram_view(ram), fuel as nat),
    decreases fuel, 3 + pheight(i@) + pheight(_i2@), 0nat,
{
    match i {
        Parameters::Bool(b) => Parameters::Bool(!b),
        Parameters::Identifier(s) => not_resolve(s, ram, fuel),
        _ => Parameters::Bool(false),
    }
}

/// The `!` operator; the second operand is ignored.
pub fn not(i: Parameters, i2: Parameters, ram: Option<&AssocMap<Parameters>>) -> (r: Parameters)
    ensures
        r@ == not_spec(i@, i2@, ram_view(ram), default_fuel(ram)),
{
    let fuel = fuel_for(ram);
    not_fuel(i, i2, ram, fuel)
}

/// What resolving the left identifier and re-dispatching `&&` returns.
pub open spec fn and_left_resolved(
    s: Seq<char>,
    other: ParamV,
    ram: Option<Map<Seq<char>, ParamV>>,
    fuel: nat,
) -> ParamV
    decreases fuel, 0nat, 0nat,
{
    match ram {
        None => other,
        Some(m) => {
            if m.contains_key(s) && fuel > 0 {
                and_spec(m[s], other, ram, (fuel - 1) as nat)
            } else {
                other
            }
        },
    }
}

/// As `and_left_resolved`, with the identifier on the right.
pub open spec fn and_right_resolved(
    value: ParamV,
    s: Seq<char>,
    ram: Option<Map<Seq<char>, ParamV>>,
    fuel: nat,
) -> ParamV
    decreases fuel, 0nat, 0nat,
{
    match ram {
        None => value,
        Some(m) => {
            if m.contains_key(s) && fuel > 0 {
                and_spec(value, m[s], ram, (fuel - 1) as nat)
            } else {
                value
            }
        },
    }
}

/// What the `&&` operator returns: boolean and; unsupported shapes
/// default to `false`.
pub open spec fn and_spec(
    a: ParamV,
    b: ParamV,
    ram: Option<Map<Seq<char>, ParamV>>,
    fuel: nat,
) -> ParamV
    decreases fuel, 3 + pheight(a) + pheight(b), 0nat,
{
    match (a, b) {
        (ParamV::Bool(b1), ParamV::Bool(b2)) => ParamV::Bool(b1 && b2),
        (ParamV::Bool(b1), ParamV::Null) => ParamV::Bool(b1),
        (ParamV::Null, ParamV::Bool(b1)) => ParamV::Bool(b1),
        (ParamV::Identifier(s), ParamV::Bool(b1)) => and_left_resolved(
            s,
            ParamV::Bool(b1),
            ram,
            fuel,
        ),
        (ParamV::Bool(b1), ParamV::Identifier(s)) => and_right_resolved(
            ParamV::Bool(b1),
            s,
            ram,
            fuel,
        ),
        (ParamV::Identifier(s), ParamV::Identifier(s2)) => and_left_resolved(
            s,
            ParamV::Identifier(s2),
            ram,
            fuel,
        ),
        _ => ParamV::Bool(false),
    }
}

fn and_resolve(s: String, other: Parameters, ram: Option<&AssocMap<Parameters>>, fuel: u64) -> (
    r: Parameters)
    ensures
        r@ == and_left_resolved(s@, other@, ram_view(ram), fuel as nat),
    decreases fuel, 0nat, 0nat,
{
    match ram {
        None => other,
        Some(m) => {
            match m.get(&s) {
                Some(v) => {
                    if fuel > 0 {
                        let val = v.deep_clone();
                        and_fuel(val, other, ram, fuel - 1)
                    } else {
                        other
                    }
                },
                None => other,
            }
        },
    }
}

fn and_resolve_rev(
    value: Parameters,
    s: String,
    ram: Option<&AssocMap<Parameters>>,
    fuel: u64,
) -> (r: Parameters)
    ensures
        r@ == and_right_resolved(value@, s@, ram_view(ram), fuel as nat),
    decreases fuel, 0nat, 0nat,
{
    match ram {
        None => value,
        Some(m) => {
            match m.get(&s) {
                Some(v) => {
                    if fuel > 0 {
                        let val = v.deep_clone();
                        and_fuel(value, val, ram, fuel - 1)
                    } else {
                        value
                    }
                },
                None => value,
            }
        },
    }
}

fn and_fuel(i: Parameters, i2: Parameters, ram: Option<&AssocMap<Parameters>>, fuel: u64) -> (r:
    Parameters)
    ensures
        r@ == and_spec(i@, i2@, ram_view(ram), fuel as nat),
    decreases fuel, 3 + pheight(i@) + pheight(i2@), 0nat,
{
    match (i, i2) {
        (Parameters::Bool(b1), Parameters::Bool(b2)) => Parameters::Bool(b1 && b2),
        (Parameters::Bool(b1), Parameters::Null) => Parameters::Bool(b1),
        (Parameters::Null, Parameters::Bool(b1)) => Parameters::Bool(b1),
        (Parameters::Identifier(s), Parameters::Bool(b1)) => and_resolve(
            s,
            Parameters::Bool(b1),
            ram,
            fuel,
        ),
        (Parameters::Bool(b1), Parameters::Identifier(s)) => and_resolve_rev(
            Parameters::Bool(b1),
            s,
            ram,
            fuel,
        ),
        (Parameters::Identifier(s), Parameters::Identifier(s2)) => and_resolve(
            s,
            Parameters::Identifier(s2),
            ram,
            fuel,
        ),
        _ => Parameters::Bool(false),
    }
}

/// The `&&` operator over the whole value tower.
pub fn and(i: Parameters, i2: Parameters, ram: Option<&AssocMap<Parameters>>) -> (r: Parameters)
    ensures
        r@ == and_spec(i@, i2@, ram_view(ram), default_fuel(ram)),
{
    let fuel = fuel_for(ram);
    and_fuel(i, i2, ram, fuel)
}

/// What resolving the left identifier and re-dispatching `||` returns.
pub open spec fn or_left_resolved(
    s: Seq<char>,
    other: ParamV,
    ram: Option<Map<Seq<char>, ParamV>>,
    fuel: nat,
) -> ParamV
    decreases fuel, 0nat, 0nat,
{
    match ram {
        None => other,
        Some(m) => {
            if m.contains_key(s) && fuel > 0 {
                or_spec(m[s], other, ram, (fuel - 1) as nat)
            } else {
                other
            }
        },
    }
}

/// As `or_left_resolved`, with the identifier on the right.
pub open spec fn or_right_resolved(
    value: ParamV,
    s: Seq<char>,
    ram: Option<Map<Seq<char>, ParamV>>,
    fuel: nat,
) -> ParamV
    decreases fuel, 0nat, 0nat,
{
    match ram {
        None => value,
        Some(m) => {
            if m.contains_key(s) && fuel > 0 {
                or_spec(value, m[s], ram, (fuel - 1) as nat)
            } else {
                value
            }
        },
    }
}

/// What the `||` operator returns: boolean or; unsupported shapes
/// default to `false`.
pub open spec fn or_spec(
    a: ParamV,
    b: ParamV,
    ram: Option<Map<Seq<char>, ParamV>>,
    fuel: nat,
) -> ParamV
    decreases fuel, 3 + pheight(a) + pheight(b), 0nat,
{
    match (a, b) {
        (ParamV::Bool(b1), ParamV::Bool(b2)) => ParamV::Bool(b1 || b2),
        (ParamV::Bool(b1), ParamV::Null) => ParamV::Bool(b1),
        (ParamV::Null, ParamV::Bool(b1)) => ParamV::Bool(b1),
        (ParamV::Identifier(s), ParamV::Bool(b1)) => or_left_resolved(
            s,
            ParamV::Bool(b1),
            ram,
            fuel,
        ),
        (ParamV::Bool(b1), ParamV::Identifier(s)) => or_right_resolved(
            ParamV::Bool(b1),
            s,
            ram,
            fuel,
        ),
        (ParamV::Identifier(s), ParamV::Identifier(s2)) => or_left_resolved(
            s,
            ParamV::Identifier(s2),
            ram,
            fuel,
        ),
        _ => ParamV::Bool(false),
    }
}

fn or_resolve(s: String, other: Parameters, ram: Option<&AssocMap<Parameters>>, fuel: u64) -> (
    r: Parameters)
    ensures
        r@ == or_left_resolved(s@, other@, ram_view(ram), fuel as nat),
    decreases fuel, 0nat, 0nat,
{
    match ram {
        None => other,
        Some(m) => {
            match m.get(&s) {
                Some(v) => {
                    if fuel > 0 {
                        let val = v.deep_clone();
                        or_fuel(val, other, ram, fuel - 1)
                    } else {
                        other
                    }
                },
                None => other,
            }
        },
    }
}

fn or_resolve_rev(
    value: Parameters,
    s: String,
    ram: Option<&AssocMap<Parameters>>,
    fuel: u64,
) -> (r: Parameters)
    ensures
        r@ == or_right_resolved(value@, s@, ram_view(ram), fuel as nat),
    decreases fuel, 0nat, 0nat,
{
    match ram {
        None => value,
        Some(m) => {
            match m.get(&s) {
                Some(v) => {
                    if fuel > 0 {
                        let val = v.deep_clone();
                        or_fuel(value, val, ram, fuel - 1)
                    } else {
                        value
                    }
                },
                None => value,
            }
        },
    }
}

fn or_fuel(i: Parameters, i2: Parameters, ram: Option<&AssocMap<Parameters>>, fuel: u64) -> (r:
    Parameters)
    ensures
        r@ == or_spec(i@, i2@, ram_view(ram), fuel as nat),
    decreases fuel, 3 + pheight(i@) + pheight(i2@), 0nat,
{
    match (i, i2) {
        (Parameters::Bool(b1), Parameters::Bool(b2)) => Parameters::Bool(b1 || b2),
        (Parameters::Bool(b1), Parameters::Null) => Parameters::Bool(b1),
        (Parameters::Null, Parameters::Bool(b1)) => Parameters::Bool(b1),
        (Parameters::Identifier(s), Parameters::Bool(b1)) => or_resolve(
            s,
            Parameters::Bool(b1),
            ram,
            fuel,
        ),
        (Parameters::Bool(b1), Parameters::Identifier(s)) => or_resolve_rev(
            Parameters::Bool(b1),
            s,
            ram,
            fuel,
        ),
        (Parameters::Identifier(s), Parameters::Identifier(s2)) => or_resolve(
            s,
            Parameters::Identifier(s2),
            ram,
            fuel,
        ),
        _ => Parameters::Bool(false),
    }
}

/// The `||` operator over the whole value tower.
pub fn or(i: Parameters, i2: Parameters, ram: Option<&AssocMap<Parameters>>) -> (r: Parameters)
    ensures
        r@ == or_spec(i@, i2@, ram_view(ram), default_fuel(ram)),
{
    let fuel = fuel_for(ram);
    or_fuel(i, i2, ram, fuel)
}

/// What resolving the left identifier and re-dispatching `/` returns.
pub open spec fn divide_left_resolved(
    s: Seq<char>,
    other: ParamV,
    ram: Option<Map<Seq<char>, ParamV>>,
    fuel: nat,
) -> ParamV
    decreases fuel, 0nat, 0nat,
{
    match ram {
        None => other,
        Some(m) => {
            if m.contains_key(s) && fuel > 0 {
                divide_spec(m[s], other, ram, (fuel - 1) as nat)
            } else {
                other
            }
        },
    }
}

/// As `divide_left_resolved`, with the identifier on the right.
pub open spec fn divide_right_resolved(
    value: ParamV,
    s: Seq<char>,
    ram: Option<Map<Seq<char>, ParamV>>,
    fuel: nat,
) -> ParamV
    decreases fuel, 0nat, 0nat,
{
    match ram {
        None => value,
        Some(m) => {
            if m.contains_key(s) && fuel > 0 {
                divide_spec(value, m[s], ram, (fuel - 1) as nat)
            } else {
                value
            }
        },
    }
}

/// What the `/` operator returns on each pair of value kinds.  An integer
/// divided by an integer becomes the raw (unreduced) fraction; an absent
/// operand beside a fraction takes its reciprocal.
pub open spec fn divide_spec(
    a: ParamV,
    b: ParamV,
    ram: Option<Map<Seq<char>, ParamV>>,
    fuel: nat,
) -> ParamV
    decreases fuel, 3 + pheight(a) + pheight(b), 0nat,
{
    match (a, b) {
        (ParamV::Null, ParamV::Int(v)) => ParamV::Int(v),
        (ParamV::Null, ParamV::Float(f)) => ParamV::Float(f),
        (ParamV::Int(v), ParamV::Null) => ParamV::Int(v),
        (ParamV::Float(f), ParamV::Null) => ParamV::Float(f),
        (ParamV::Int(v), ParamV::Int(v2)) => ParamV::Rational(Rationals { under: v2, over: v }),
        (ParamV::Int(v), ParamV::Float(f)) => ParamV::Float(rat_div(int_rat(v), f)),
        (ParamV::Float(v), ParamV::Float(f)) => ParamV::Float(rat_div(v, f)),
        (ParamV::Float(v), ParamV::Int(i1)) => ParamV::Float(rat_div(v, int_rat(i1))),
        (ParamV::Null, ParamV::InterpreterVector(vec)) => ParamV::InterpreterVector(vec),
        (ParamV::InterpreterVector(vec), ParamV::Null) => ParamV::InterpreterVector(vec),
        (ParamV::Rational(s), ParamV::Null) => ParamV::Rational(rat_div(int_rat(1), s)),
        (ParamV::Null, ParamV::Rational(s)) => ParamV::Rational(rat_div(int_rat(1), s)),
        (ParamV::Rational(s), ParamV::Rational(s2)) => ParamV::Rational(rat_div(s, s2)),
        (ParamV::Rational(s), ParamV::Int(i)) => ParamV::Rational(rat_div(s, int_rat(i))),
        (ParamV::Int(i), ParamV::Rational(s)) => ParamV::Rational(rat_div(int_rat(i), s)),
        (ParamV::Rational(s), ParamV::Float(f)) => ParamV::Float(rat_div(s, f)),
        (ParamV::Float(f), ParamV::Rational(s)) => ParamV::Float(rat_div(f, s)),
        (ParamV::Bool(_), ParamV::Int(i)) => ParamV::Int(i),
        (ParamV::Bool(_), ParamV::Float(i)) => ParamV::Float(i),
        (ParamV::Int(i), ParamV::Bool(_)) => ParamV::Int(i),
        (ParamV::Float(i), ParamV::Bool(_)) => ParamV::Float(i),
        (ParamV::Bool(b), ParamV::Null) => ParamV::Bool(b),
        (ParamV::Null, ParamV::Bool(b)) => ParamV::Bool(b),
        (ParamV::Bool(b), ParamV::Bool(b2)) => ParamV::Bool(b && b2),
        (ParamV::Identifier(s), ParamV::Identifier(s2)) => divide_left_resolved(
            s,
            ParamV::Identifier(s2),
            ram,
            fuel,
        ),
        (ParamV::Rational(s), ParamV::Identifier(ss)) => divide_right_resolved(
            ParamV::Rational(s),
            ss,
            ram,
            fuel,
        ),
        (ParamV::Identifier(ss), ParamV::Rational(s)) => divide_left_resolved(
            ss,
            ParamV::Rational(s),
            ram,
            fuel,
        ),
        (ParamV::Identifier(s), ParamV::Int(i)) => divide_left_resolved(
            s,
            ParamV::Int(i),
            ram,
            fuel,
        ),
        (ParamV::Int(i), ParamV::Identifier(s)) => {
            match divide_left_resolved(s, ParamV::Int(i), ram, fuel) {
                ParamV::Float(f) => ParamV::Float(rat_div(int_rat(1), f)),
                _ => ParamV::Null,
            }
        },
        (ParamV::Null, ParamV::Identifier(s)) => divide_left_resolved(s, ParamV::Null, ram, fuel),
        (ParamV::Identifier(s), ParamV::Null) => divide_left_resolved(s, ParamV::Null, ram, fuel),
        (ParamV::Identifier(s), ParamV::Float(i)) => divide_left_resolved(
            s,
            ParamV::Float(i),
            ram,
            fuel,
        ),
        (ParamV::Float(i), ParamV::Identifier(s)) => {
            match divide_left_resolved(s, ParamV::Float(i), ram, fuel) {
                ParamV::Float(f) => ParamV::Float(rat_div(int_rat(1), f)),
                _ => ParamV::Null,
            }
        },
        (ParamV::Bool(b), ParamV::Identifier(s)) => divide_right_resolved(
            ParamV::Bool(b),
            s,
            ram,
            fuel,
        ),
        (ParamV::Identifier(s), ParamV::Bool(b)) => divide_left_resolved(
            s,
            ParamV::Bool(b),
            ram,
            fuel,
        ),
        _ => ParamV::Identifier("@Those two values are incompatible with the / operator"@),
    }
}

fn divide_resolve(s: String, other: Parameters, ram: Option<&AssocMap<Parameters>>, fuel: u64) -> (
    r: Parameters)
    ensures
        r@ == divide_left_resolved(s@, other@, ram_view(ram), fuel as nat),
    decreases fuel, 0nat, 0nat,
{
    match ram {
        None => other,
        Some(m) => {
            match m.get(&s) {
                Some(v) => {
                    if fuel > 0 {
                        let val = v.deep_clone();
                        divide_fuel(val, other, ram, fuel - 1)
                    } else {
                        other
                    }
                },
                None => other,
            }
        },
    }
}

fn divide_resolve_rev(
    value: Parameters,
    s: String,
    ram: Option<&AssocMap<Parameters>>,
    fuel: u64,
) -> (r: Parameters)
    ensures
        r@ == divide_right_resolved(value@, s@, ram_view(ram), fuel as nat),
    decreases fuel, 0nat, 0nat,
{
    match ram {
        None => value,
        Some(m) => {
            match m.get(&s) {
                Some(v) => {
                    if fuel > 0 {
                        let val = v.deep_clone();
                        divide_fuel(value, val, ram, fuel - 1)
                    } else {
                        value
                    }
                },
                None => value,
            }
        },
    }
}

fn divide_fuel(i: Parameters, i2: Parameters, ram: Option<&AssocMap<Parameters>>, fuel: u64) -> (r:
    Parameters)
    ensures
        r@ == divide_spec(i@, i2@, ram_view(ram), fuel as nat),
    decreases fuel, 3 + pheight(i@) + pheight(i2@), 0nat,
{
    match (i, i2) {
        (Parameters::Null, Parameters::Int(v)) => Parameters::Int(v),
        (Parameters::Null, Parameters::Float(f)) => Parameters::Float(f),
        (Parameters::Int(v), Parameters::Null) => Parameters::Int(v),
        (Parameters::Float(f), Parameters::Null) => Parameters::Float(f),
        (Parameters::Int(v), Parameters::Int(v2)) => Parameters::Rational(Rationals::new(v2, v)),
        (Parameters::Int(v), Parameters::Float(f)) => Parameters::Float(
            Rationals::new(1, v).div(f),
        ),
        (Parameters::Float(v), Parameters::Float(f)) => Parameters::Float(v.div(f)),
        (Parameters::Float(v), Parameters::Int(i1)) => Parameters::Float(
            v.div(Rationals::new(1, i1)),
        ),
        (Parameters::Null, Parameters::InterpreterVector(vec)) => Parameters::InterpreterVector(
            vec,
        ),
        (Parameters::InterpreterVector(vec), Parameters::Null) => Parameters::InterpreterVector(
            vec,
        ),
        (Parameters::Rational(s), Parameters::Null) => Parameters::Rational(
            Rationals::new(1, 1).div(s),
        ),
        (Parameters::Null, Parameters::Rational(s)) => Parameters::Rational(
            Rationals::new(1, 1).div(s),
        ),
        (Parameters::Rational(s), Parameters::Rational(s2)) => Parameters::Rational(s.div(s2)),
        (Parameters::Rational(s), Parameters::Int(i)) => Parameters::Rational(
            s.div(Rationals::new(1, i)),
        ),
        (Parameters::Int(i), Parameters::Rational(s)) => Parameters::Rational(
            Rationals::new(1, i).div(s),
        ),
        (Parameters::Rational(s), Parameters::Float(f)) => Parameters::Float(s.div(f)),
        (Parameters::Float(f), Parameters::Rational(s)) => Parameters::Float(f.div(s)),
        (Parameters::Bool(_), Parameters::Int(i)) => Parameters::Int(i),
        (Parameters::Bool(_), Parameters::Float(i)) => Parameters::Float(i),
        (Parameters::Int(i), Parameters::Bool(_)) => Parameters::Int(i),
        (Parameters::Float(i), Parameters::Bool(_)) => Parameters::Float(i),
        (Parameters::Bool(b), Parameters::Null) => Parameters::Bool(b),
        (Parameters::Null, Parameters::Bool(b)) => Parameters::Bool(b),
        (Parameters::Bool(b), Parameters::Bool(b2)) => Parameters::Bool(b && b2),
        (Parameters::Identifier(s), Parameters::Identifier(s2)) => divide_resolve(
            s,
            Parameters::Identifier(s2),
            ram,
            fuel,
        ),
        (Parameters::Rational(s), Parameters::Identifier(ss)) => divide_resolve_rev(
            Parameters::Rational(s),
            ss,
            ram,
            fuel,
        ),
        (Parameters::Identifier(ss), Parameters::Rational(s)) => divide_resolve(
            ss,
            Parameters::Rational(s),
            ram,
            fuel,
        ),
        (Parameters::Identifier(s), Parameters::Int(i)) => divide_resolve(
            s,
            Parameters::Int(i),
            ram,
            fuel,
        ),
        (Parameters::Int(i), Parameters::Identifier(s)) => {
            let v = divide_resolve(s, Parameters::Int(i), ram, fuel);
            match v {
                Parameters::Float(f) => Parameters::Float(Rationals::new(1, 1).div(f)),
                _ => Parameters::Null,
            }
        },
        (Parameters::Null, Parameters::Identifier(s)) => divide_resolve(
            s,
            Parameters::Null,
            ram,
            fuel,
        ),
        (Parameters::Identifier(s), Parameters::Null) => divide_resolve(
            s,
            Parameters::Null,
            ram,
            fuel,
        ),
        (Parameters::Identifier(s), Parameters::Float(i)) => divide_resolve(
            s,
            Parameters::Float(i),
            ram,
            fuel,
        ),
        (Parameters::Float(i), Parameters::Identifier(s)) => {
            let v = divide_resolve(s, Parameters::Float(i), ram, fuel);
            match v {
                Parameters::Float(f) => Parameters::Float(Rationals::new(1, 1).div(f)),
                _ => Parameters::Null,
            }
        },
        (Parameters::Bool(b), Parameters::Identifier(s)) => divide_resolve_rev(
            Parameters::Bool(b),
            s,
            ram,
            fuel,
        ),
        (Parameters::Identifier(s), Parameters::Bool(b)) => divide_resolve(
            s,
            Parameters::Bool(b),
            ram,
            fuel,
        ),
        _ => Parameters::Identifier(
            String::from_str("@Those two values are incompatible with the / operator"),
        ),
    }
}

/// The `/` operator over the whole value tower.
pub fn divide(i: Parameters, i2: Parameters, ram: Option<&AssocMap<Parameters>>) -> (r: Parameters)
    ensures
        r@ == divide_spec(i@, i2@, ram_view(ram), default_fuel(ram)),
{
    let fuel = fuel_for(ram);
    divide_fuel(i, i2, ram, fuel)
}

/// The power of a base by a fractional exponent: exact where the exponent
/// reduces to a whole number, the diagnostic for the `^` operator
/// otherwise.
pub open spec fn expo_frac(base: Rationals, e: Rationals) -> ParamV {
    match spec_as_int_exponent(e) {
        Some(k) => ParamV::Float(rat_pow_i(base, k as int)),
        None => ParamV::Identifier("@Those two values are incompatible with the ^ operator"@),
    }
}

/// What resolving the left identifier and re-dispatching `^` returns.
pub open spec fn expo_left_resolved(
    s: Seq<char>,
    other: ParamV,
    ram: Option<Map<Seq<char>, ParamV>>,
    fuel: nat,
) -> ParamV
    decreases fuel, 0nat, 0nat,
{
    match ram {
        None => other,
        Some(m) => {
            if m.contains_key(s) && fuel > 0 {
                expo_spec(m[s], other, ram, (fuel - 1) as nat)
            } else {
                other
            }
        },
    }
}

/// As `expo_left_resolved`, with the identifier on the right.
pub open spec fn expo_right_resolved(
    value: ParamV,
    s: Seq<char>,
    ram: Option<Map<Seq<char>, ParamV>>,
    fuel: nat,
) -> ParamV
    decreases fuel, 0nat, 0nat,
{
    match ram {
        None => value,
        Some(m) => {
            if m.contains_key(s) && fuel > 0 {
                expo_spec(value, m[s], ram, (fuel - 1) as nat)
            } else {
                value
            }
        },
    }
}

/// What the `^` operator returns on each pair of value kinds.  The result
/// is exact, so only whole-number exponents are accepted.
pub open spec fn expo_spec(
    a: ParamV,
    b: ParamV,
    ram: Option<Map<Seq<char>, ParamV>>,
    fuel: nat,
) -> ParamV
    decreases fuel, 3 + pheight(a) + pheight(b), 0nat,
{
    match (a, b) {
        (ParamV::Null, ParamV::Int(v)) => ParamV::Int(v),
        (ParamV::Null, ParamV::Float(f)) => ParamV::Float(f),
        (ParamV::Int(v), ParamV::Null) => ParamV::Int(v),
        (ParamV::Float(f), ParamV::Null) => ParamV::Float(f),
        (ParamV::Int(v), ParamV::Int(v2)) => ParamV::Float(rat_pow_i(int_rat(v), v2 as int)),
        (ParamV::Int(v), ParamV::Float(f)) => expo_frac(int_rat(v), f),
        (ParamV::Float(v), ParamV::Float(f)) => expo_frac(v, f),
        (ParamV::Float(v), ParamV::Int(i1)) => ParamV::Float(rat_pow_i(v, i1 as int)),
        (ParamV::Rational(s), ParamV::Null) => ParamV::Rational(s),
        (ParamV::Null, ParamV::Rational(s)) => ParamV::Rational(s),
        (ParamV::Rational(s), ParamV::Rational(s2)) => expo_frac(s, s2),
        (ParamV::Rational(s), ParamV::Int(i)) => ParamV::Float(rat_pow_i(s, i as int)),
        (ParamV::Int(i), ParamV::Rational(s)) => expo_frac(int_rat(i), s),
        (ParamV::Rational(s), ParamV::Float(f)) => expo_frac(s, f),
        (ParamV::Float(f), ParamV::Rational(s)) => expo_frac(f, s),
        (ParamV::Bool(_), ParamV::Int(i)) => ParamV::Int(i),
        (ParamV::Bool(_), ParamV::Float(i)) => ParamV::Float(i),
        (ParamV::Int(i), ParamV::Bool(_)) => ParamV::Int(i),
        (ParamV::Float(i), ParamV::Bool(_)) => ParamV::Float(i),
        (ParamV::Bool(b), ParamV::Null) => ParamV::Bool(b),
        (ParamV::Null, ParamV::Bool(b)) => ParamV::Bool(b),
        (ParamV::Bool(b), ParamV::Bool(b2)) => ParamV::Bool(b && b2),
        (ParamV::Identifier(s), ParamV::Identifier(s2)) => expo_left_resolved(
            s,
            ParamV::Identifier(s2),
            ram,
            fuel,
        ),
        (ParamV::Identifier(s), ParamV::Int(i)) => expo_left_resolved(s, ParamV::Int(i), ram, fuel),
        (ParamV::Int(i), ParamV::Identifier(s)) => expo_right_resolved(
            ParamV::Int(i),
            s,
            ram,
            fuel,
        ),
        (ParamV::Identifier(s), ParamV::Float(i)) => expo_left_resolved(
            s,
            ParamV::Float(i),
            ram,
            fuel,
        ),
        (ParamV::Rational(s), ParamV::Identifier(ss)) => expo_right_resolved(
            ParamV::Rational(s),
            ss,
            ram,
            fuel,
        ),
        (ParamV::Identifier(ss), ParamV::Rational(s)) => expo_left_resolved(
            ss,
            ParamV::Rational(s),
            ram,
            fuel,
        ),
        (ParamV::Identifier(s), ParamV::Null) => expo_left_resolved(s, ParamV::Null, ram, fuel),
        (ParamV::Null, ParamV::Identifier(s)) => expo_left_resolved(s, ParamV::Null, ram, fuel),
        (ParamV::Float(i), ParamV::Identifier(s)) => expo_right_resolved(
            ParamV::Float(i),
            s,
            ram,
            fuel,
        ),
        (ParamV::Bool(b), ParamV::Identifier(s)) => expo_right_resolved(
            ParamV::Bool(b),
            s,
            ram,
            fuel,
        ),
        (ParamV::Identifier(s), ParamV::Bool(b)) => expo_left_resolved(
            s,
            ParamV::Bool(b),
            ram,
            fuel,
        ),
        _ => ParamV::Identifier("@Those two values are incompatible with the ^ operator"@),
    }
}

fn expo_exact(base: Rationals, e: Rationals) -> (r: Parameters)
    ensures
        r@ == expo_frac(base, e),
{
    match e.as_int_exponent() {
        Some(k) => Parameters::Float(base.pow_i(k)),
        None => Parameters::Identifier(
            String::from_str("@Those two values are incompatible with the ^ operator"),
        ),
    }
}

fn expo_resolve(s: String, other: Parameters, ram: Option<&AssocMap<Parameters>>, fuel: u64) -> (r:
    Parameters)
    ensures
        r@ == expo_left_resolved(s@, other@, ram_view(ram), fuel as nat),
    decreases fuel, 0nat, 0nat,
{
    match ram {
        None => other,
        Some(m) => {
            match m.get(&s) {
                Some(v) => {
                    if fuel > 0 {
                        let val = v.deep_clone();
                        expo_fuel(val, other, ram, fuel - 1)
                    } else {
                        other
                    }
                },
                None => other,
            }
        },
    }
}

fn expo_resolve_rev(
    value: Parameters,
    s: String,
    ram: Option<&AssocMap<Parameters>>,
    fuel: u64,
) -> (r: Parameters)
    ensures
        r@ == expo_right_resolved(value@, s@, ram_view(ram), fuel as nat),
    decreases fuel, 0nat, 0nat,
{
    match ram {
        None => value,
        Some(m) => {
            match m.get(&s) {
                Some(v) => {
                    if fuel > 0 {
                        let val = v.deep_clone();
                        expo_fuel(value, val, ram, fuel - 1)
                    } else {
                        value
                    }
                },
                None => value,
            }
        },
    }
}

fn expo_fuel(i: Parameters, i2: Parameters, ram: Option<&AssocMap<Parameters>>, fuel: u64) -> (r:
    Parameters)
    ensures
        r@ == expo_spec(i@, i2@, ram_view(ram), fuel as nat),
    decreases fuel, 3 + pheight(i@) + pheight(i2@), 0nat,
{
    match (i, i2) {
        (Parameters::Null, Parameters::Int(v)) => Parameters::Int(v),
        (Parameters::Null, Parameters::Float(f)) => Parameters::Float(f),
        (Parameters::Int(v), Parameters::Null) => Parameters::Int(v),
        (Parameters::Float(f), Parameters::Null) => Parameters::Float(f),
        (Parameters::Int(v), Parameters::Int(v2)) => Parameters::Float(
            Rationals::new(1, v).pow_i(v2),
        ),
        (Parameters::Int(v), Parameters::Float(f)) => expo_exact(Rationals::new(1, v), f),
        (Parameters::Float(v), Parameters::Float(f)) => expo_exact(v, f),
        (Parameters::Float(v), Parameters::Int(i1)) => Parameters::Float(v.pow_i(i1)),
        (Parameters::Rational(s), Parameters::Null) => Parameters::Rational(s),
        (Parameters::Null, Parameters::Rational(s)) => Parameters::Rational(s),
        (Parameters::Rational(s), Parameters::Rational(s2)) => expo_exact(s, s2),
        (Parameters::Rational(s), Parameters::Int(i)) => Parameters::Float(s.pow_i(i)),
        (Parameters::Int(i), Parameters::Rational(s)) => expo_exact(Rationals::new(1, i), s),
        (Parameters::Rational(s), Parameters::Float(f)) => expo_exact(s, f),
        (Parameters::Float(f), Parameters::Rational(s)) => expo_exact(f, s),
        (Parameters::Bool(_), Parameters::Int(i)) => Parameters::Int(i),
        (Parameters::Bool(_), Parameters::Float(i)) => Parameters::Float(i),
        (Parameters::Int(i), Parameters::Bool(_)) => Parameters::Int(i),
        (Parameters::Float(i), Parameters::Bool(_)) => Parameters::Float(i),
        (Parameters::Bool(b), Parameters::Null) => Parameters::Bool(b),
        (Parameters::Null, Parameters::Bool(b)) => Parameters::Bool(b),
        (Parameters::Bool(b), Parameters::Bool(b2)) => Parameters::Bool(b && b2),
        (Parameters::Identifier(s), Parameters::Identifier(s2)) => expo_resolve(
            s,
            Parameters::Identifier(s2),
            ram,
            fuel,
        ),
        (Parameters::Identifier(s), Parameters::Int(i)) => expo_resolve(
            s,
            Parameters::Int(i),
            ram,
            fuel,
        ),
        (Parameters::Int(i), Parameters::Identifier(s)) => expo_resolve_rev(
            Parameters::Int(i),
            s,
            ram,
            fuel,
        ),
        (Parameters::Identifier(s), Parameters::Float(i)) => expo_resolve(
            s,
            Parameters::Float(i),
            ram,
            fuel,
        ),
        (Parameters::Rational(s), Parameters::Identifier(ss)) => expo_resolve_rev(
            Parameters::Rational(s),
            ss,
            ram,
            fuel,
        ),
        (Parameters::Identifier(ss), Parameters::Rational(s)) => expo_resolve(
            ss,
            Parameters::Rational(s),
            ram,
            fuel,
        ),
        (Parameters::Identifier(s), Parameters::Null) => expo_resolve(
            s,
            Parameters::Null,
            ram,
            fuel,
        ),
        (Parameters::Null, Parameters::Identifier(s)) => expo_resolve(
            s,
            Parameters::Null,
            ram,
            fuel,
        ),
        (Parameters::Float(i), Parameters::Identifier(s)) => expo_resolve_rev(
            Parameters::Float(i),
            s,
            ram,
            fuel,
        ),
        (Parameters::Bool(b), Parameters::Identifier(s)) => expo_resolve_rev(
            Parameters::Bool(b),
            s,
            ram,
            fuel,
        ),
        (Parameters::Identifier(s), Parameters::Bool(b)) => expo_resolve(
            s,
            Parameters::Bool(b),
            ram,
            fuel,
        ),
        _ => Parameters::Identifier(
            String::from_str("@Those two values are incompatible with the ^ operator"),
        ),
    }
}

/// The `^` operator over the whole value tower.
pub fn expo(i: Parameters, i2: Parameters, ram: Option<&AssocMap<Parameters>>) -> (r: Parameters)
    ensures
        r@ == expo_spec(i@, i2@, ram_view(ram), default_fuel(ram)),
{
    let fuel = fuel_for(ram);
    expo_fuel(i, i2, ram, fuel)
}

/// What resolving the left identifier and re-dispatching `*` returns.
pub open spec fn mult_left_resolved(
    s: Seq<char>,
    other: ParamV,
    ram: Option<Map<Seq<char>, ParamV>>,
    fuel: nat,
) -> ParamV
    decreases fuel, 0nat, 0nat,
{
    match ram {
        None => other,
        Some(m) => {
            if m.contains_key(s) && fuel > 0 {
                mult_spec(m[s], other, ram, (fuel - 1) as nat)
            } else {
                other
            }
        },
    }
}

/// As `mult_left_resolved`, with the identifier on the right.
pub open spec fn mult_right_resolved(
    value: ParamV,
    s: Seq<char>,
    ram: Option<Map<Seq<char>, ParamV>>,
    fuel: nat,
) -> ParamV
    decreases fuel, 0nat, 0nat,
{
    match ram {
        None => value,
        Some(m) => {
            if m.contains_key(s) && fuel > 0 {
                mult_spec(value, m[s], ram, (fuel - 1) as nat)
            } else {
                value
            }
        },
    }
}

/// Each element multiplied by one scalar: the broadcast of `*`.
pub open spec fn mult_bcast(
    s: Seq<ParamV>,
    scal: ParamV,
    ram: Option<Map<Seq<char>, ParamV>>,
    fuel: nat,
) -> Seq<ParamV>
    decreases fuel, 3 + pheight_seq(s) + pheight(scal), s.len(),
{
    if s.len() == 0 {
        Seq::empty()
    } else {
        seq![mult_spec(s[0], scal, ram, fuel)] + mult_bcast(s.drop_first(), scal, ram, fuel)
    }
}

/// The left fold of the dot product of two vectors.
pub open spec fn mult_dot_acc(
    acc: ParamV,
    s1: Seq<ParamV>,
    s2: Seq<ParamV>,
    ram: Option<Map<Seq<char>, ParamV>>,
    fuel: nat,
) -> ParamV
    decreases fuel, 4 + pheight_seq(s1) + pheight_seq(s2), s1.len(),
{
    if s1.len() == 0 || s2.len() == 0 {
        acc
    } else {
        mult_dot_acc(
            add_spec(acc, mult_spec(s1[0], s2[0], ram, fuel), ram, fuel),
            s1.drop_first(),
            s2.drop_first(),
            ram,
            fuel,
        )
    }
}

/// A finished dot product kept only where it is a plain number; the
/// undefined marker (the zero-over-zero decimal) stands where the sum is
/// anything else.
pub open spec fn dot_result(sum: ParamV) -> ParamV {
    match sum {
        ParamV::Int(i) => ParamV::Int(i),
        ParamV::Float(f) => ParamV::Float(f),
        _ => ParamV::Float(Rationals { under: 0, over: 0 }),
    }
}

/// What the `*` operator returns on each pair of value kinds: numbers
/// multiply exactly, a scalar broadcasts over a vector, two plain vectors
/// take their dot product, and two vectors of vectors take the matrix
/// product.
pub open spec fn mult_spec(
    a: ParamV,
    b: ParamV,
    ram: Option<Map<Seq<char>, ParamV>>,
    fuel: nat,
) -> ParamV
    decreases fuel, 3 + pheight(a) + pheight(b), 0nat,
{
    match (a, b) {
        (ParamV::Null, ParamV::Int(v)) => ParamV::Int(v),
        (ParamV::Null, ParamV::Float(f)) => ParamV::Float(f),
        (ParamV::Int(v), ParamV::Null) => ParamV::Int(v),
        (ParamV::Float(f), ParamV::Null) => ParamV::Float(f),
        (ParamV::Int(v), ParamV::Int(v2)) => ParamV::Int(
            vstd::wrapping::i64_specs::wrapping_mul(v, v2),
        ),
        (ParamV::Int(v), ParamV::Float(f)) => ParamV::Float(rat_mul(int_rat(v), f)),
        (ParamV::Float(v), ParamV::Float(f)) => ParamV::Float(rat_mul(v, f)),
        (ParamV::Float(v), ParamV::Int(i1)) => ParamV::Float(rat_mul(v, int_rat(i1))),
        (ParamV::Rational(s), ParamV::Null) => ParamV::Rational(s),
        (ParamV::Null, ParamV::Rational(s)) => ParamV::Rational(s),
        (ParamV::Rational(s), ParamV::Rational(s2)) => ParamV::Rational(rat_mul(s, s2)),
        (ParamV::Rational(s), ParamV::Int(i)) => ParamV::Rational(rat_mul(s, int_rat(i))),
        (ParamV::Int(i), ParamV::Rational(s)) => ParamV::Rational(rat_mul(s, int_rat(i))),
        (ParamV::Rational(s), ParamV::Float(f)) => ParamV::Float(rat_mul(s, f)),
        (ParamV::Float(f), ParamV::Rational(s)) => ParamV::Float(rat_mul(f, s)),
        (ParamV::Null, ParamV::InterpreterVector(vec)) => ParamV::InterpreterVector(vec),
        (ParamV::InterpreterVector(vec), ParamV::Null) => ParamV::InterpreterVector(vec),
        (ParamV::InterpreterVector(vec), ParamV::Int(v)) => ParamV::InterpreterVector(
            mult_bcast(vec, ParamV::Int(v), ram, fuel),
        ),
        (ParamV::Int(v), ParamV::InterpreterVector(vec)) => ParamV::InterpreterVector(
            mult_bcast(vec, ParamV::Int(v), ram, fuel),
        ),
        (ParamV::InterpreterVector(vec), ParamV::Float(v)) => ParamV::InterpreterVector(
            mult_bcast(vec, ParamV::Float(v), ram, fuel),
        ),
        (ParamV::Float(v), ParamV::InterpreterVector(vec)) => ParamV::InterpreterVector(
            mult_bcast(vec, ParamV::Float(v), ram, fuel),
        ),
        (ParamV::InterpreterVector(vec), ParamV::InterpreterVector(vec2)) => {
            if !(crate::utils::matrix_utils::all_iv(vec) && crate::utils::matrix_utils::all_iv(
                vec2,
            )) {
                dot_result(mult_dot_acc(ParamV::Null, vec, vec2, ram, fuel))
            } else if vec.len() == 0 || vec2.len() == 0 {
                ParamV::Null
            } else {
                let aam = crate::utils::matrix_utils::rows_of(vec);
                let bbm = crate::utils::matrix_utils::rows_of(vec2);
                if !crate::utils::matrix_utils::rectangular(aam)
                    || !crate::utils::matrix_utils::rectangular(bbm) {
                    ParamV::Null
                } else if aam[0].len() != bbm.len() {
                    ParamV::Null
                } else {
                    proof {
                        crate::utils::matrix_utils::lemma_rows_of_height(vec);
                        crate::utils::matrix_utils::lemma_rows_of_height(vec2);
                    }
                    ParamV::InterpreterVector(
                        crate::utils::matrix_utils::iv_rows(
                            crate::utils::matrix_utils::mm_rows(
                                aam,
                                bbm,
                                bbm[0].len(),
                                ram,
                                fuel,
                            ),
                        ),
                    )
                }
            }
        },
        (ParamV::Bool(_), ParamV::Int(i)) => ParamV::Int(i),
        (ParamV::Bool(_), ParamV::Float(i)) => ParamV::Float(i),
        (ParamV::Int(i), ParamV::Bool(_)) => ParamV::Int(i),
        (ParamV::Float(i), ParamV::Bool(_)) => ParamV::Float(i),
        (ParamV::Bool(b), ParamV::Null) => ParamV::Bool(b),
        (ParamV::Null, ParamV::Bool(b)) => ParamV::Bool(b),
        (ParamV::Bool(b), ParamV::Bool(b2)) => ParamV::Bool(b && b2),
        (ParamV::Identifier(s), ParamV::Identifier(s2)) => mult_left_resolved(
            s,
            ParamV::Identifier(s2),
            ram,
            fuel,
        ),
        (ParamV::Identifier(s), ParamV::Int(i)) => mult_left_resolved(
            s,
            ParamV::Int(i),
            ram,
            fuel,
        ),
        (ParamV::Rational(s), ParamV::Identifier(ss)) => mult_right_resolved(
            ParamV::Rational(s),
            ss,
            ram,
            fuel,
        ),
        (ParamV::Identifier(ss), ParamV::Rational(s)) => mult_left_resolved(
            ss,
            ParamV::Rational(s),
            ram,
            fuel,
        ),
        (ParamV::Int(i), ParamV::Identifier(s)) => mult_left_resolved(
            s,
            ParamV::Int(i),
            ram,
            fuel,
        ),
        (ParamV::Identifier(s), ParamV::InterpreterVector(vec)) => mult_left_resolved(
            s,
            ParamV::InterpreterVector(vec),
            ram,
            fuel,
        ),
        (ParamV::InterpreterVector(vec), ParamV::Identifier(s)) => mult_right_resolved(
            ParamV::InterpreterVector(vec),
            s,
            ram,
            fuel,
        ),
        (ParamV::Null, ParamV::Identifier(s)) => mult_left_resolved(s, ParamV::Null, ram, fuel),
        (ParamV::Identifier(s), ParamV::Null) => mult_left_resolved(s, ParamV::Null, ram, fuel),
        (ParamV::Identifier(s), ParamV::Float(i)) => mult_left_resolved(
            s,
            ParamV::Float(i),
            ram,
            fuel,
        ),
        (ParamV::Float(i), ParamV::Identifier(s)) => mult_left_resolved(
            s,
            ParamV::Float(i),
            ram,
            fuel,
        ),
        (ParamV::Bool(b), ParamV::Identifier(s)) => mult_right_resolved(
            ParamV::Bool(b),
            s,
            ram,
            fuel,
        ),
        (ParamV::Identifier(s), ParamV::Bool(b)) => mult_left_resolved(
            s,
            ParamV::Bool(b),
            ram,
            fuel,
        ),
        _ => ParamV::Identifier("@Those two values are incompatible with the * operator"@),
    }
}

/// Indexing the broadcast products.
proof fn lemma_mult_bcast_index(
    s: Seq<ParamV>,
    scal: ParamV,
    ram: Option<Map<Seq<char>, ParamV>>,
    fuel: nat,
)
    ensures
        mult_bcast(s, scal, ram, fuel).len() == s.len(),
        forall|k: int|
            0 <= k < s.len() ==> mult_bcast(s, scal, ram, fuel)[k] == mult_spec(
                s[k],
                scal,
                ram,
                fuel,
            ),
    decreases s.len(),
{
    if s.len() > 0 {
        lemma_mult_bcast_index(s.drop_first(), scal, ram, fuel);
    }
}

fn mult_resolve(s: String, other: Parameters, ram: Option<&AssocMap<Parameters>>, fuel: u64) -> (r:
    Parameters)
    ensures
        r@ == mult_left_resolved(s@, other@, ram_view(ram), fuel as nat),
    decreases fuel, 0nat, 0nat,
{
    match ram {
        None => other,
        Some(m) => {
            match m.get(&s) {
                Some(v) => {
                    if fuel > 0 {
                        let val = v.deep_clone();
                        mult_fuel(val, other, ram, fuel - 1)
                    } else {
                        other
                    }
                },
                None => other,
            }
        },
    }
}

fn mult_resolve_rev(
    value: Parameters,
    s: String,
    ram: Option<&AssocMap<Parameters>>,
    fuel: u64,
) -> (r: Parameters)
    ensures
        r@ == mult_right_resolved(value@, s@, ram_view(ram), fuel as nat),
    decreases fuel, 0nat, 0nat,
{
    match ram {
        None => value,
        Some(m) => {
            match m.get(&s) {
                Some(v) => {
                    if fuel > 0 {
                        let val = v.deep_clone();
                        mult_fuel(value, val, ram, fuel - 1)
                    } else {
                        value
                    }
                },
                None => value,
            }
        },
    }
}

/// Extracts the inner rows of a sequence of evaluated vectors, or nothing
/// where some element is not one.
pub(crate) fn extract_rows(v: &Vec<Parameters>) -> (r: Option<Vec<Vec<Parameters>>>)
    ensures
        (r is Some) == crate::utils::matrix_utils::all_iv(pview_seq(v@)),
        r matches Some(rows) ==> crate::utils::matrix_utils::ppview(rows@)
            =~~= crate::utils::matrix_utils::rows_of(pview_seq(v@)),
{
    let ghost sv = pview_seq(v@);
    proof {
        lemma_pview_seq(v@);
    }
    let mut rows: Vec<Vec<Parameters>> = Vec::new();
    let mut i: usize = 0;
    while i < v.len()
        invariant
            i <= v.len(),
            sv == pview_seq(v@),
            sv.len() == v@.len(),
            forall|j: int| 0 <= j < sv.len() ==> sv[j] == v@[j]@,
            rows@.len() == i,
            forall|j: int| 0 <= j < i ==> sv[j] is InterpreterVector,
            forall|j: int|
                0 <= j < i ==> pview_seq((#[trigger] rows@[j])@)
                    == sv[j]->InterpreterVector_0,
        decreases v.len() - i,
    {
        match &v[i] {
            Parameters::InterpreterVector(l) => {
                let inner: &Vec<Parameters> = l;
                let mut row: Vec<Parameters> = Vec::new();
                let mut k: usize = 0;
                while k < inner.len()
                    invariant
                        k <= inner.len(),
                        row@.len() == k,
                        pview_seq(row@) =~= pview_seq(inner@.subrange(0, k as int)),
                    decreases inner.len() - k,
                {
                    let ghost pre = row@;
                    row.push(inner[k].deep_clone());
                    proof {
                        assert(row@.drop_last() =~= pre);
                        assert(inner@.subrange(0, k as int + 1).drop_last() =~= inner@.subrange(
                            0,
                            k as int,
                        ));
                    }
                    k += 1;
                }
                proof {
                    assert(inner@.subrange(0, inner@.len() as int) =~= inner@);
                }
                rows.push(row);
            },
            _ => {
                proof {
                    assert(sv[i as int] == v@[i as int]@);
                    assert(!(sv[i as int] is InterpreterVector));
                }
                return None;
            },
        }
        i += 1;
    }
    proof {
        assert(crate::utils::matrix_utils::ppview(rows@) =~~= crate::utils::matrix_utils::rows_of(
            sv,
        ));
    }
    Some(rows)
}

/// Whether every row has the first row's length.
pub(crate) fn rows_rectangular(m: &Vec<Vec<Parameters>>) -> (r: bool)
    ensures
        r == crate::utils::matrix_utils::rectangular(crate::utils::matrix_utils::ppview(m@)),
{
    let ghost mv = crate::utils::matrix_utils::ppview(m@);
    proof {
        assert(forall|i: int| 0 <= i < m@.len() ==> mv[i] == pview_seq(m@[i]@));
    }
    if m.len() == 0 {
        return true;
    }
    let w = m[0].len();
    proof {
        lemma_pview_seq(m@[0]@);
    }
    let mut i: usize = 0;
    while i < m.len()
        invariant
            i <= m@.len(),
            m@.len() > 0,
            mv == crate::utils::matrix_utils::ppview(m@),
            mv.len() == m@.len(),
            forall|j: int| 0 <= j < m@.len() ==> mv[j] == pview_seq(m@[j]@),
            w == mv[0].len(),
            forall|j: int| 0 <= j < i ==> #[trigger] mv[j].len() == mv[0].len(),
        decreases m@.len() - i,
    {
        proof {
            lemma_pview_seq(m@[i as int]@);
        }
        if m[i].len() != w {
            proof {
                lemma_pview_seq(m@[i as int]@);
                assert(mv[i as int].len() == m@[i as int]@.len());
                assert(mv[i as int].len() != mv[0].len());
            }
            return false;
        }
        i += 1;
    }
    true
}

#[verifier::loop_isolation(false)]
pub(crate) fn mult_fuel(
    i: Parameters,
    i2: Parameters,
    ram: Option<&AssocMap<Parameters>>,
    fuel: u64,
) -> (r: Parameters)
    ensures
        r@ == mult_spec(i@, i2@, ram_view(ram), fuel as nat),
    decreases fuel, 3 + pheight(i@) + pheight(i2@), 0nat,
{
    match (i, i2) {
        (Parameters::Null, Parameters::Int(v)) => Parameters::Int(v),
        (Parameters::Null, Parameters::Float(f)) => Parameters::Float(f),
        (Parameters::Int(v), Parameters::Null) => Parameters::Int(v),
        (Parameters::Float(f), Parameters::Null) => Parameters::Float(f),
        (Parameters::Int(v), Parameters::Int(v2)) => Parameters::Int(v.wrapping_mul(v2)),
        (Parameters::Int(v), Parameters::Float(f)) => Parameters::Float(
            Rationals::new(1, v).mul(f),
        ),
        (Parameters::Float(v), Parameters::Float(f)) => Parameters::Float(v.mul(f)),
        (Parameters::Float(v), Parameters::Int(i1)) => Parameters::Float(
            v.mul(Rationals::new(1, i1)),
        ),
        (Parameters::Rational(s), Parameters::Null) => Parameters::Rational(s),
        (Parameters::Null, Parameters::Rational(s)) => Parameters::Rational(s),
        (Parameters::Rational(s), Parameters::Rational(s2)) => Parameters::Rational(s.mul(s2)),
        (Parameters::Rational(s), Parameters::Int(i)) => Parameters::Rational(
            s.mul(Rationals::new(1, i)),
        ),
        (Parameters::Int(i), Parameters::Rational(s)) => Parameters::Rational(
            s.mul(Rationals::new(1, i)),
        ),
        (Parameters::Rational(s), Parameters::Float(f)) => Parameters::Float(s.mul(f)),
        (Parameters::Float(f), Parameters::Rational(s)) => Parameters::Float(f.mul(s)),
        (Parameters::Null, Parameters::InterpreterVector(vec)) => Parameters::InterpreterVector(
            vec,
        ),
        (Parameters::InterpreterVector(vec), Parameters::Null) => Parameters::InterpreterVector(
            vec,
        ),
        (Parameters::InterpreterVector(vec), Parameters::Int(v)) => mult_bcast_exec(
            &vec,
            Parameters::Int(v),
            ram,
            fuel,
        ),
        (Parameters::Int(v), Parameters::InterpreterVector(vec)) => mult_bcast_exec(
            &vec,
            Parameters::Int(v),
            ram,
            fuel,
        ),
        (Parameters::InterpreterVector(vec), Parameters::Float(v)) => mult_bcast_exec(
            &vec,
            Parameters::Float(v),
            ram,
            fuel,
        ),
        (Parameters::Float(v), Parameters::InterpreterVector(vec)) => mult_bcast_exec(
            &vec,
            Parameters::Float(v),
            ram,
            fuel,
        ),
        (Parameters::InterpreterVector(vec), Parameters::InterpreterVector(vec2)) => {
            let l1: &Vec<Parameters> = &vec;
            let l2: &Vec<Parameters> = &vec2;
            let ghost s1 = pview_seq(l1@);
            let ghost s2 = pview_seq(l2@);
            let ghost rv = ram_view(ram);
            proof {
                lemma_pview_seq(l1@);
                lemma_pview_seq(l2@);
            }
            let rows1 = extract_rows(l1);
            let rows2 = extract_rows(l2);
            match (rows1, rows2) {
                (Some(ra), Some(rb)) => {
                    if l1.len() == 0 || l2.len() == 0 {
                        Parameters::Null
                    } else if !(rows_rectangular(&ra) && rows_rectangular(&rb)) {
                        Parameters::Null
                    } else {
                        proof {
                            crate::utils::matrix_utils::lemma_rows_of_height(s1);
                            crate::utils::matrix_utils::lemma_rows_of_height(s2);
                            lemma_pview_seq(ra@[0]@);
                        }
                        if ra[0].len() != rb.len() {
                            Parameters::Null
                        } else {
                            let mr = crate::utils::matrix_utils::mult_matrix_fuel(
                                &ra,
                                &rb,
                                ram,
                                fuel,
                            );
                            proof {
                                crate::utils::matrix_utils::lemma_mm_rows_index(
                                    crate::utils::matrix_utils::rows_of(s1),
                                    crate::utils::matrix_utils::rows_of(s2),
                                    crate::utils::matrix_utils::rows_of(s2)[0].len(),
                                    rv,
                                    fuel as nat,
                                );
                            }
                            let mut out: Vec<Parameters> = Vec::new();
                            let mut idx: usize = 0;
                            let mut mrv = mr;
                            let ghost mview = crate::utils::matrix_utils::ppview(mrv@);
                            let total = mrv.len();
                            while idx < total
                                invariant
                                    idx <= total,
                                    mrv@.len() == total - idx,
                                    forall|j: int|
                                        0 <= j < mrv@.len() ==> pview_seq(
                                            (#[trigger] mrv@[j])@,
                                        ) == mview[j + idx],
                                    mview.len() == total,
                                    out@.len() == idx,
                                    pview_seq(out@).len() == idx,
                                    forall|j: int|
                                        0 <= j < idx ==> pview_seq(out@)[j]
                                            == ParamV::InterpreterVector(mview[j]),
                                decreases total - idx,
                            {
                                let row = mrv.remove(0);
                                let ghost pre = out@;
                                out.push(Parameters::InterpreterVector(Box::new(row)));
                                proof {
                                    lemma_pview_seq(pre);
                                    lemma_pview_seq(out@);
                                    assert(out@.drop_last() =~= pre);
                                    assert(forall|j: int|
                                        0 <= j < idx ==> pview_seq(out@)[j] == pview_seq(
                                            pre,
                                        )[j]);
                                }
                                idx += 1;
                            }
                            proof {
                                lemma_pview_seq(out@);
                                assert(pview_seq(out@) =~= crate::utils::matrix_utils::iv_rows(
                                    mview,
                                ));
                            }
                            Parameters::InterpreterVector(Box::new(out))
                        }
                    }
                },
                _ => {
                    let mut sum: Parameters = Parameters::Null;
                    let n: usize = if l1.len() < l2.len() {
                        l1.len()
                    } else {
                        l2.len()
                    };
                    let mut k: usize = 0;
                    proof {
                        assert(s1.skip(0) =~= s1);
                        assert(s2.skip(0) =~= s2);
                    }
                    while k < n
                        invariant
                            k <= n,
                            mult_dot_acc(
                                sum@,
                                s1.skip(k as int),
                                s2.skip(k as int),
                                rv,
                                fuel as nat,
                            ) == mult_dot_acc(ParamV::Null, s1, s2, rv, fuel as nat),
                        decreases n - k,
                    {
                        proof {
                            lemma_pheight_seq_elem(s1, k as int);
                            lemma_pheight_seq_elem(s2, k as int);
                            assert(s1.skip(k as int)[0] == s1[k as int]);
                            assert(s2.skip(k as int)[0] == s2[k as int]);
                            assert(s1.skip(k as int).drop_first() =~= s1.skip(k as int + 1));
                            assert(s2.skip(k as int).drop_first() =~= s2.skip(k as int + 1));
                        }
                        let ea = l1[k].deep_clone();
                        let eb = l2[k].deep_clone();
                        let inter = mult_fuel(ea, eb, ram, fuel);
                        sum = add_fuel(sum, inter, ram, fuel);
                        k += 1;
                    }
                    proof {
                        if l1.len() < l2.len() {
                            assert(s1.skip(n as int).len() == 0);
                        } else {
                            assert(s2.skip(n as int).len() == 0);
                        }
                    }
                    match sum {
                        Parameters::Int(x) => Parameters::Int(x),
                        Parameters::Float(f) => Parameters::Float(f),
                        _ => Parameters::Float(Rationals::new(0, 0)),
                    }
                },
            }
        },
        (Parameters::Bool(_), Parameters::Int(v)) => Parameters::Int(v),
        (Parameters::Bool(_), Parameters::Float(v)) => Parameters::Float(v),
        (Parameters::Int(v), Parameters::Bool(_)) => Parameters::Int(v),
        (Parameters::Float(v), Parameters::Bool(_)) => Parameters::Float(v),
        (Parameters::Bool(b), Parameters::Null) => Parameters::Bool(b),
        (Parameters::Null, Parameters::Bool(b)) => Parameters::Bool(b),
        (Parameters::Bool(b), Parameters::Bool(b2)) => Parameters::Bool(b && b2),
        (Parameters::Identifier(s), Parameters::Identifier(s2)) => mult_resolve(
            s,
            Parameters::Identifier(s2),
            ram,
            fuel,
        ),
        (Parameters::Identifier(s), Parameters::Int(v)) => mult_resolve(
            s,
            Parameters::Int(v),
            ram,
            fuel,
        ),
        (Parameters::Rational(s), Parameters::Identifier(ss)) => mult_resolve_rev(
            Parameters::Rational(s),
            ss,
            ram,
            fuel,
        ),
        (Parameters::Identifier(ss), Parameters::Rational(s)) => mult_resolve(
            ss,
            Parameters::Rational(s),
            ram,
            fuel,
        ),
        (Parameters::Int(v), Parameters::Identifier(s)) => mult_resolve(
            s,
            Parameters::Int(v),
            ram,
            fuel,
        ),
        (Parameters::Identifier(s), Parameters::InterpreterVector(vec)) => mult_resolve(
            s,
            Parameters::InterpreterVector(vec),
            ram,
            fuel,
        ),
        (Parameters::InterpreterVector(vec), Parameters::Identifier(s)) => mult_resolve_rev(
            Parameters::InterpreterVector(vec),
            s,
            ram,
            fuel,
        ),
        (Parameters::Null, Parameters::Identifier(s)) => mult_resolve(
            s,
            Parameters::Null,
            ram,
            fuel,
        ),
        (Parameters::Identifier(s), Parameters::Null) => mult_resolve(
            s,
            Parameters::Null,
            ram,
            fuel,
        ),
        (Parameters::Identifier(s), Parameters::Float(v)) => mult_resolve(
            s,
            Parameters::Float(v),
            ram,
            fuel,
        ),
        (Parameters::Float(v), Parameters::Identifier(s)) => mult_resolve(
            s,
            Parameters::Float(v),
            ram,
            fuel,
        ),
        (Parameters::Bool(b), Parameters::Identifier(s)) => mult_resolve_rev(
            Parameters::Bool(b),
            s,
            ram,
            fuel,
        ),
        (Parameters::Identifier(s), Parameters::Bool(b)) => mult_resolve(
            s,
            Parameters::Bool(b),
            ram,
            fuel,
        ),
        _ => Parameters::Identifier(
            String::from_str("@Those two values are incompatible with the * operator"),
        ),
    }
}

/// The broadcast of `*` over one vector, as a separate pass.
#[verifier::loop_isolation(false)]
fn mult_bcast_exec(
    l: &Vec<Parameters>,
    scal: Parameters,
    ram: Option<&AssocMap<Parameters>>,
    fuel: u64,
) -> (r: Parameters)
    requires
        pheight(scal@) == 1,
    ensures
        r@ == ParamV::InterpreterVector(
            mult_bcast(pview_seq(l@), scal@, ram_view(ram), fuel as nat),
        ),
    decreases fuel, 4 + pheight_seq(pview_seq(l@)), 1nat,
{
    let ghost s1 = pview_seq(l@);
    let ghost rv = ram_view(ram);
    proof {
        lemma_pview_seq(l@);
        lemma_mult_bcast_index(s1, scal@, rv, fuel as nat);
    }
    let mut res: Vec<Parameters> = Vec::new();
    let mut k: usize = 0;
    while k < l.len()
        invariant
            k <= l.len(),
            res@.len() == k,
            pview_seq(res@).len() == k,
            forall|j: int|
                0 <= j < k ==> pview_seq(res@)[j] == mult_spec(s1[j], scal@, rv, fuel as nat),
        decreases l.len() - k,
    {
        proof {
            lemma_pheight_seq_elem(s1, k as int);
        }
        let ea = l[k].deep_clone();
        let eb = scal.deep_clone();
        let ghost pre = res@;
        let v = mult_fuel(ea, eb, ram, fuel);
        res.push(v);
        proof {
            lemma_pview_seq(pre);
            lemma_pview_seq(res@);
            assert(res@.drop_last() =~= pre);
            assert(forall|j: int| 0 <= j < k ==> pview_seq(res@)[j] == pview_seq(pre)[j]);
        }
        k += 1;
    }
    proof {
        lemma_pview_seq(res@);
        assert(pview_seq(res@) =~= mult_bcast(s1, scal@, rv, fuel as nat));
    }
    Parameters::InterpreterVector(Box::new(res))
}

/// The `*` operator over the whole value tower.
pub fn mult(i: Parameters, i2: Parameters, ram: Option<&AssocMap<Parameters>>) -> (r: Parameters)
    ensures
        r@ == mult_spec(i@, i2@, ram_view(ram), default_fuel(ram)),
{
    let fuel = fuel_for(ram);
    mult_fuel(i, i2, ram, fuel)
}

/// A binary operator tag, standing for the operator function the
/// resolution helpers re-dispatch through.
#[derive(Debug, Clone, Copy, PartialEq, Eq, Structural)]
pub enum BinOp {
    Plus,
    Minus,
    Mult,
    Divide,
    Expo,
    Greater,
    Lesser,
    GreaterOrEqual,
    LesserOrEqual,
    Equal,
    Not,
    And,
    Or,
}

/// What the operator named by `op` returns.
pub open spec fn op_spec(
    op: BinOp,
    a: ParamV,
    b: ParamV,
    ram: Option<Map<Seq<char>, ParamV>>,
    fuel: nat,
) -> ParamV {
    match op {
        BinOp::Plus => add_spec(a, b, ram, fuel),
        BinOp::Minus => minus_spec(a, b, ram, fuel),
        BinOp::Mult => mult_spec(a, b, ram, fuel),
        BinOp::Divide => divide_spec(a, b, ram, fuel),
        BinOp::Expo => expo_spec(a, b, ram, fuel),
        BinOp::Greater => greater_spec(a, b, ram, fuel),
        BinOp::Lesser => lesser_spec(a, b, ram, fuel),
        BinOp::GreaterOrEqual => greater_or_equal_spec(a, b, ram, fuel),
        BinOp::LesserOrEqual => lesser_or_equal_spec(a, b, ram, fuel),
        BinOp::Equal => equal_spec(a, b, ram, fuel),
        BinOp::Not => not_spec(a, b, ram, fuel),
        BinOp::And => and_spec(a, b, ram, fuel),
        BinOp::Or => or_spec(a, b, ram, fuel),
    }
}

fn dispatch_op(op: BinOp, a: Parameters, b: Parameters, ram: Option<&AssocMap<Parameters>>) -> (r:
    Parameters)
    ensures
        r@ == op_spec(op, a@, b@, ram_view(ram), default_fuel(ram)),
{
    match op {
        BinOp::Plus => crate::interpreting::function::add(a, b, ram),
        BinOp::Minus => crate::interpreting::function::minus(a, b, ram),
        BinOp::Mult => crate::interpreting::function::mult(a, b, ram),
        BinOp::Divide => crate::interpreting::function::divide(a, b, ram),
        BinOp::Expo => crate::interpreting::function::expo(a, b, ram),
        BinOp::Greater => crate::interpreting::function::greater(a, b, ram),
        BinOp::Lesser => crate::interpreting::function::lesser(a, b, ram),
        BinOp::GreaterOrEqual => crate::interpreting::function::greater_or_equal(a, b, ram),
        BinOp::LesserOrEqual => crate::interpreting::function::lesser_or_equal(a, b, ram),
        BinOp::Equal => crate::interpreting::function::equal(a, b, ram),
        BinOp::Not => crate::interpreting::function::not(a, b, ram),
        BinOp::And => crate::interpreting::function::and(a, b, ram),
        BinOp::Or => crate::interpreting::function::or(a, b, ram),
    }
}

/// Resolves the left operand, which must be a named identifier, against
/// the environment and re-dispatches the operator on the bound value and
/// the right operand; an unbound name yields the right operand unchanged,
/// a non-identifier absence.
pub fn apply_operator(
    value: Parameters,
    value2: Parameters,
    ram: Option<&AssocMap<Parameters>>,
    op: BinOp,
) -> (r: Parameters)
    ensures
        !(value@ matches ParamV::Identifier(s) && s.len() > 0) ==> r@ == ParamV::Null,
        (value@ matches ParamV::Identifier(s) && s.len() > 0) ==> r@ == (match ram_view(ram) {
            None => value2@,
            Some(m) => {
                if m.contains_key(value@->Identifier_0) {
                    op_spec(
                        op,
                        m[value@->Identifier_0],
                        value2@,
                        ram_view(ram),
                        default_fuel(ram),
                    )
                } else {
                    value2@
                }
            },
        }),
{
    let s: String = match value {
        Parameters::Identifier(s) => s,
        _ => String::new(),
    };
    if s.as_str().is_empty() {
        return Parameters::Null;
    }
    match ram {
        None => value2,
        Some(i_ram) => {
            match i_ram.get(&s) {
                None => value2,
                Some(val) => dispatch_op(op, val.deep_clone(), value2, ram),
            }
        },
    }
}

/// As `apply_operator`, resolving the right operand instead; an unbound
/// name yields the left operand unchanged.
pub fn apply_operator_reverse(
    value: Parameters,
    value2: Parameters,
    ram: Option<&AssocMap<Parameters>>,
    op: BinOp,
) -> (r: Parameters)
    ensures
        !(value2@ matches ParamV::Identifier(s) && s.len() > 0) ==> r@ == ParamV::Null,
        (value2@ matches ParamV::Identifier(s) && s.len() > 0) ==> r@ == (match ram_view(ram) {
            None => value@,
            Some(m) => {
                if m.contains_key(value2@->Identifier_0) {
                    op_spec(
                        op,
                        value@,
                        m[value2@->Identifier_0],
                        ram_view(ram),
                        default_fuel(ram),
                    )
                } else {
                    value@
                }
            },
        }),
{
    let s: String = match value2 {
        Parameters::Identifier(s) => s,
        _ => String::new(),
    };
    if s.as_str().is_empty() {
        return Parameters::Null;
    }
    match ram {
        None => value,
        Some(i_ram) => {
            match i_ram.get(&s) {
                None => value,
                Some(val) => dispatch_op(op, value, val.deep_clone(), ram),
            }
        },
    }
}

/// A signed absolute value that cannot overflow: the smallest integer
/// saturates to the largest.
pub open spec fn sat_abs_i64(x: i64) -> i64 {
    if x == i64::MIN {
        i64::MAX
    } else if x < 0 {
        (-x) as i64
    } else {
        x
    }
}

pub(crate) fn sat_abs_exec(x: i64) -> (r: i64)
    ensures
        r == sat_abs_i64(x),
{
    if x == i64::MIN {
        i64::MAX
    } else if x < 0 {
        -x
    } else {
        x
    }
}

/// What taking the absolute value of a value returns: numbers lose their
/// sign, an identifier resolves first, anything else is absence.
pub open spec fn abs_spec(a: ParamV, ram: Option<Map<Seq<char>, ParamV>>, fuel: nat) -> ParamV
    decreases fuel, pheight(a),
{
    match a {
        ParamV::Int(i) => ParamV::Int(sat_abs_i64(i)),
        ParamV::Float(f) => ParamV::Float(
            Rationals { under: sat_abs_i64(f.under), over: sat_abs_i64(f.over) },
        ),
        ParamV::Rational(r) => ParamV::Rational(
            Rationals { under: sat_abs_i64(r.under), over: sat_abs_i64(r.over) },
        ),
        ParamV::Identifier(s) => match ram {
            None => ParamV::Null,
            Some(m) => {
                if m.contains_key(s) && fuel > 0 {
                    abs_spec(m[s], ram, (fuel - 1) as nat)
                } else {
                    ParamV::Null
                }
            },
        },
        _ => ParamV::Null,
    }
}

impl Parameters {
    /// The absolute value of a number, with identifiers resolved against
    /// the environment.
    pub fn abs(self, ram: Option<&AssocMap<Parameters>>) -> (r: Parameters)
        ensures
            r@ == abs_spec(self@, ram_view(ram), default_fuel(ram)),
    {
        let fuel = fuel_for(ram);
        self.abs_fuel(ram, fuel)
    }

    fn abs_fuel(self, ram: Option<&AssocMap<Parameters>>, fuel: u64) -> (r: Parameters)
        ensures
            r@ == abs_spec(self@, ram_view(ram), fuel as nat),
        decreases fuel, pheight(self@),
    {
        match self {
            Parameters::Int(i) => Parameters::Int(sat_abs_exec(i)),
            Parameters::Float(f) => Parameters::Float(
                Rationals::new(sat_abs_exec(f.under), sat_abs_exec(f.over)),
            ),
            Parameters::Rational(r) => Parameters::Rational(
                Rationals::new(sat_abs_exec(r.under), sat_abs_exec(r.over)),
            ),
            Parameters::Identifier(s) => match ram {
                None => Parameters::Null,
                Some(t) => {
                    match t.get(&s) {
                        None => Parameters::Null,
                        Some(v) => {
                            if fuel > 0 {
                                let val = v.deep_clone();
                                val.abs_fuel(ram, fuel - 1)
                            } else {
                                Parameters::Null
                            }
                        },
                    }
                },
            },
            _ => Parameters::Null,
        }
    }
}

/// Splits an assignment pair into the bound name (empty for a non-name
/// target) and the assigned value.
pub fn assign(s: Parameters, s2: Parameters) -> (r: (String, Parameters))
    ensures
        (s@ matches ParamV::Identifier(name) ==> r.0@ == name && r.1@ == s2@),
        !(s@ is Identifier) ==> r.0@ == Seq::<char>::empty() && r.1@ == s2@,
{
    match s {
        Parameters::Identifier(s) => (s, s2),
        _ => (String::new(), s2),
    }
}

} // verus!
