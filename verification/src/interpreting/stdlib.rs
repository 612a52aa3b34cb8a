//! The builtin standard functions the evaluator's call nodes reach:
//! factorial, absolute value, rounding, and the matrix functions, plus
//! the dispatch into user-defined functions.
//!
//! Each builtin resolves an identifier argument against the environment
//! before working, as the operators do.  The irrational functions
//! (roots, the trigonometric and hyperbolic family, exponential and
//! logarithm, vector norm) have no exact value in the fraction-based
//! tower and are not dispatched: their names fall through to the
//! unknown-function note.

use vstd::prelude::*;

use crate::exact_math::rationals::Rationals;
use crate::exact_math::rationals::norm_frac;
use crate::exact_math::rationals::rat_ceil;
use crate::exact_math::rationals::rat_floor;
use crate::exact_math::rationals::rat_round;
use crate::exact_math::rationals::rat_mul;
use crate::exact_math::rationals::rat_div;
use crate::exact_math::rationals::rat_pow_i;
use crate::interpreting::environment::AssocMap;
use crate::interpreting::environment::FunctionDef;
use crate::interpreting::function::default_fuel;
use crate::interpreting::function::fuel_for;
use crate::interpreting::function::int_rat;
use crate::interpreting::function::ram_view;
use crate::interpreting::function::sat_abs_i64;
use crate::parsing::ast::ParamV;
use crate::parsing::ast::Parameters;
use crate::parsing::ast::Ast;
use crate::parsing::ast::AstV;
use crate::parsing::ast::pview_seq;
use crate::parsing::ast::lemma_pview_seq;

verus! {

/// The factorial fold, multiplying downward with wrapping.
pub open spec fn spec_fact_aux(n: i64, acc: i64) -> i64
    decreases n when n >= 0
{
    if n <= 0 {
        acc
    } else {
        spec_fact_aux((n - 1) as i64, vstd::wrapping::i64_specs::wrapping_mul(n, acc))
    }
}

fn fact_aux(n: i64, acc: i64) -> (r: i64)
    requires
        n >= 0,
    ensures
        r == spec_fact_aux(n, acc),
    decreases n,
{
    if n == 0 {
        acc
    } else {
        fact_aux(n - 1, n.wrapping_mul(acc))
    }
}

/// The factorial of a non-negative integer, accumulated with wrapping
/// multiplication.
pub fn fact(n: i64) -> (r: i64)
    requires
        n >= 0,
    ensures
        r == spec_fact_aux(n, 1),
{
    fact_aux(n, 1)
}

/// The whole part of a fraction, truncated toward zero.
pub open spec fn rat_trunc(x: Rationals) -> i64 {
    let n = norm_frac(x.under as int, x.over as int);
    if n.over >= 0 {
        rat_floor(x)
    } else {
        rat_ceil(x)
    }
}

fn trunc_int(x: Rationals) -> (r: i64)
    ensures
        r == rat_trunc(x),
{
    let n = x.reduce();
    if n.over >= 0 {
        x.floor_int()
    } else {
        x.ceil_int()
    }
}

/// The uninitialised-variable message.
pub open spec fn uninit_msg() -> Seq<char> {
    "This variable is not initialized yet"@
}

/// What the factorial builtin returns: the factorial of a whole-number
/// argument (negative arguments yield absence), with identifier
/// resolution.
pub open spec fn factorial_spec(
    args: Seq<ParamV>,
    ram: Option<Map<Seq<char>, ParamV>>,
    fuel: nat,
) -> ParamV
    decreases fuel,
{
    if args.len() < 1 {
        ParamV::Null
    } else {
        match args[0] {
            ParamV::Int(i) => if i >= 0 {
                ParamV::Int(spec_fact_aux(i, 1))
            } else {
                ParamV::Null
            },
            ParamV::Float(f) => {
                let t = rat_trunc(f);
                if t >= 0 {
                    ParamV::Int(spec_fact_aux(t, 1))
                } else {
                    ParamV::Null
                }
            },
            ParamV::Identifier(s) => match ram {
                None => ParamV::Identifier(uninit_msg()),
                Some(m) => {
                    if m.contains_key(s) && fuel > 0 {
                        factorial_spec(seq![m[s]], ram, (fuel - 1) as nat)
                    } else {
                        ParamV::Null
                    }
                },
            },
            _ => ParamV::Null,
        }
    }
}

fn factorial_fuel(p: &Vec<Parameters>, ram: Option<&AssocMap<Parameters>>, fuel: u64) -> (r:
    Parameters)
    ensures
        r@ == factorial_spec(pview_seq(p@), ram_view(ram), fuel as nat),
    decreases fuel,
{
    proof {
        lemma_pview_seq(p@);
    }
    if p.len() < 1 {
        return Parameters::Null;
    }
    match &p[0] {
        Parameters::Int(i) => {
            if *i >= 0 {
                Parameters::Int(fact(*i))
            } else {
                Parameters::Null
            }
        },
        Parameters::Float(f) => {
            let t = trunc_int(*f);
            if t >= 0 {
                Parameters::Int(fact(t))
            } else {
                Parameters::Null
            }
        },
        Parameters::Identifier(s) => {
            match ram {
                None => Parameters::Identifier(
                    String::from_str("This variable is not initialized yet"),
                ),
                Some(t) => {
                    match t.get(s) {
                        None => Parameters::Null,
                        Some(v) => {
                            if fuel > 0 {
                                let mut args: Vec<Parameters> = Vec::new();
                                args.push(v.deep_clone());
                                proof {
                                    lemma_pview_seq(args@);
                                    assert(pview_seq(args@) =~= seq![ram_view(ram)->0[s@]]);
                                }
                                factorial_fuel(&args, ram, fuel - 1)
                            } else {
                                Parameters::Null
                            }
                        },
                    }
                },
            }
        },
        _ => Parameters::Null,
    }
}

/// The factorial builtin.
pub fn factorial(p: &Vec<Parameters>, ram: Option<&AssocMap<Parameters>>) -> (r: Parameters)
    ensures
        r@ == factorial_spec(pview_seq(p@), ram_view(ram), default_fuel(ram)),
{
    let fuel = fuel_for(ram);
    factorial_fuel(p, ram, fuel)
}

/// What the absolute-value builtin returns.
pub open spec fn abs_bi_spec(
    args: Seq<ParamV>,
    ram: Option<Map<Seq<char>, ParamV>>,
    fuel: nat,
) -> ParamV
    decreases fuel,
{
    if args.len() < 1 {
        ParamV::Null
    } else {
        match args[0] {
            ParamV::Int(i) => ParamV::Int(sat_abs_i64(i)),
            ParamV::Float(f) => ParamV::Float(
                Rationals { under: sat_abs_i64(f.under), over: sat_abs_i64(f.over) },
            ),
            ParamV::Rational(x) => ParamV::Rational(
                Rationals { under: sat_abs_i64(x.under), over: sat_abs_i64(x.over) },
            ),
            ParamV::Identifier(s) => match ram {
                None => ParamV::Identifier(uninit_msg()),
                Some(m) => {
                    if m.contains_key(s) && fuel > 0 {
                        abs_bi_spec(seq![m[s]], ram, (fuel - 1) as nat)
                    } else {
                        ParamV::Null
                    }
                },
            },
            _ => ParamV::Null,
        }
    }
}

fn abs_fuel_bi(p: &Vec<Parameters>, ram: Option<&AssocMap<Parameters>>, fuel: u64) -> (r:
    Parameters)
    ensures
        r@ == abs_bi_spec(pview_seq(p@), ram_view(ram), fuel as nat),
    decreases fuel,
{
    proof {
        lemma_pview_seq(p@);
    }
    if p.len() < 1 {
        return Parameters::Null;
    }
    match &p[0] {
        Parameters::Int(i) => Parameters::Int(crate::interpreting::function::sat_abs_exec(*i)),
        Parameters::Float(f) => Parameters::Float(
            Rationals::new(
                crate::interpreting::function::sat_abs_exec(f.under),
                crate::interpreting::function::sat_abs_exec(f.over),
            ),
        ),
        Parameters::Rational(x) => Parameters::Rational(
            Rationals::new(
                crate::interpreting::function::sat_abs_exec(x.under),
                crate::interpreting::function::sat_abs_exec(x.over),
            ),
        ),
        Parameters::Identifier(s) => {
            match ram {
                None => Parameters::Identifier(
                    String::from_str("This variable is not initialized yet"),
                ),
                Some(t) => {
                    match t.get(s) {
                        None => Parameters::Null,
                        Some(v) => {
                            if fuel > 0 {
                                let mut args: Vec<Parameters> = Vec::new();
                                args.push(v.deep_clone());
                                proof {
                                    lemma_pview_seq(args@);
                                    assert(pview_seq(args@) =~= seq![ram_view(ram)->0[s@]]);
                                }
                                abs_fuel_bi(&args, ram, fuel - 1)
                            } else {
                                Parameters::Null
                            }
                        },
                    }
                },
            }
        },
        _ => Parameters::Null,
    }
}

/// The absolute-value builtin.
pub fn abs(p: &Vec<Parameters>, ram: Option<&AssocMap<Parameters>>) -> (r: Parameters)
    ensures
        r@ == abs_bi_spec(pview_seq(p@), ram_view(ram), default_fuel(ram)),
{
    let fuel = fuel_for(ram);
    abs_fuel_bi(p, ram, fuel)
}

/// What the ceiling builtin returns: whole numbers as decimals.
pub open spec fn ceil_spec(args: Seq<ParamV>, ram: Option<Map<Seq<char>, ParamV>>, fuel: nat) -> ParamV
    decreases fuel,
{
    if args.len() < 1 {
        ParamV::Null
    } else {
        match args[0] {
            ParamV::Int(i) => ParamV::Float(int_rat(i)),
            ParamV::Float(f) => ParamV::Float(int_rat(rat_ceil(f))),
            ParamV::Identifier(s) => match ram {
                None => ParamV::Identifier(uninit_msg()),
                Some(m) => {
                    if m.contains_key(s) && fuel > 0 {
                        ceil_spec(seq![m[s]], ram, (fuel - 1) as nat)
                    } else {
                        ParamV::Null
                    }
                },
            },
            _ => ParamV::Null,
        }
    }
}

fn ceil_fuel(p: &Vec<Parameters>, ram: Option<&AssocMap<Parameters>>, fuel: u64) -> (r: Parameters)
    ensures
        r@ == ceil_spec(pview_seq(p@), ram_view(ram), fuel as nat),
    decreases fuel,
{
    proof {
        lemma_pview_seq(p@);
    }
    if p.len() < 1 {
        return Parameters::Null;
    }
    match &p[0] {
        Parameters::Int(i) => Parameters::Float(Rationals::new(1, *i)),
        Parameters::Float(f) => Parameters::Float(Rationals::new(1, f.ceil_int())),
        Parameters::Identifier(s) => {
            match ram {
                None => Parameters::Identifier(
                    String::from_str("This variable is not initialized yet"),
                ),
                Some(t) => {
                    match t.get(s) {
                        None => Parameters::Null,
                        Some(v) => {
                            if fuel > 0 {
                                let mut args: Vec<Parameters> = Vec::new();
                                args.push(v.deep_clone());
                                proof {
                                    lemma_pview_seq(args@);
                                    assert(pview_seq(args@) =~= seq![ram_view(ram)->0[s@]]);
                                }
                                ceil_fuel(&args, ram, fuel - 1)
                            } else {
                                Parameters::Null
                            }
                        },
                    }
                },
            }
        },
        _ => Parameters::Null,
    }
}

/// The ceiling builtin.
pub fn ceil(p: &Vec<Parameters>, ram: Option<&AssocMap<Parameters>>) -> (r: Parameters)
    ensures
        r@ == ceil_spec(pview_seq(p@), ram_view(ram), default_fuel(ram)),
{
    let fuel = fuel_for(ram);
    ceil_fuel(p, ram, fuel)
}

/// What the floor builtin returns.
pub open spec fn floor_spec(args: Seq<ParamV>, ram: Option<Map<Seq<char>, ParamV>>, fuel: nat) -> ParamV
    decreases fuel,
{
    if args.len() < 1 {
        ParamV::Null
    } else {
        match args[0] {
            ParamV::Int(i) => ParamV::Float(int_rat(i)),
            ParamV::Float(f) => ParamV::Float(int_rat(rat_floor(f))),
            ParamV::Identifier(s) => match ram {
                None => ParamV::Identifier(uninit_msg()),
                Some(m) => {
                    if m.contains_key(s) && fuel > 0 {
                        floor_spec(seq![m[s]], ram, (fuel - 1) as nat)
                    } else {
                        ParamV::Null
                    }
                },
            },
            _ => ParamV::Null,
        }
    }
}

fn floor_fuel(p: &Vec<Parameters>, ram: Option<&AssocMap<Parameters>>, fuel: u64) -> (r: Parameters)
    ensures
        r@ == floor_spec(pview_seq(p@), ram_view(ram), fuel as nat),
    decreases fuel,
{
    proof {
        lemma_pview_seq(p@);
    }
    if p.len() < 1 {
        return Parameters::Null;
    }
    match &p[0] {
        Parameters::Int(i) => Parameters::Float(Rationals::new(1, *i)),
        Parameters::Float(f) => Parameters::Float(Rationals::new(1, f.floor_int())),
        Parameters::Identifier(s) => {
            match ram {
                None => Parameters::Identifier(
                    String::from_str("This variable is not initialized yet"),
                ),
                Some(t) => {
                    match t.get(s) {
                        None => Parameters::Null,
                        Some(v) => {
                            if fuel > 0 {
                                let mut args: Vec<Parameters> = Vec::new();
                                args.push(v.deep_clone());
                                proof {
                                    lemma_pview_seq(args@);
                                    assert(pview_seq(args@) =~= seq![ram_view(ram)->0[s@]]);
                                }
                                floor_fuel(&args, ram, fuel - 1)
                            } else {
                                Parameters::Null
                            }
                        },
                    }
                },
            }
        },
        _ => Parameters::Null,
    }
}

/// The floor builtin.
pub fn floor(p: &Vec<Parameters>, ram: Option<&AssocMap<Parameters>>) -> (r: Parameters)
    ensures
        r@ == floor_spec(pview_seq(p@), ram_view(ram), default_fuel(ram)),
{
    let fuel = fuel_for(ram);
    floor_fuel(p, ram, fuel)
}

/// The rounding of a value at a whole-number precision: the value scaled
/// by that power of ten, rounded half away from zero, and scaled back.
pub open spec fn round_at(x: Rationals, k: i64) -> Rationals {
    let pw = rat_pow_i(Rationals { under: 1, over: 10 }, k as int);
    rat_div(int_rat(rat_round(rat_mul(x, pw))), pw)
}

/// What the rounding builtin returns: rounding to the nearest whole
/// number, or to the precision named by a second whole-number argument.
pub open spec fn round_spec(args: Seq<ParamV>, ram: Option<Map<Seq<char>, ParamV>>, fuel: nat) -> ParamV
    decreases fuel,
{
    if args.len() < 1 {
        ParamV::Null
    } else {
        let prec: Option<i64> = if args.len() > 1 {
            match args[1] {
                ParamV::Int(i) => Some(i),
                ParamV::Float(f) => Some(rat_trunc(f)),
                _ => Some(0),
            }
        } else {
            None
        };
        match args[0] {
            ParamV::Int(i) => match prec {
                Some(k) => ParamV::Float(round_at(int_rat(i), k)),
                None => ParamV::Float(int_rat(i)),
            },
            ParamV::Float(f) => match prec {
                Some(k) => ParamV::Float(round_at(f, k)),
                None => ParamV::Float(int_rat(rat_round(f))),
            },
            ParamV::Rational(x) => match prec {
                Some(k) => ParamV::Float(round_at(x, k)),
                None => ParamV::Float(int_rat(rat_round(x))),
            },
            ParamV::Identifier(s) => match ram {
                None => ParamV::Identifier(uninit_msg()),
                Some(m) => {
                    if m.contains_key(s) && fuel > 0 {
                        round_spec(
                            seq![
                                m[s],
                                ParamV::Float(
                                    match prec {
                                        Some(k) => int_rat(k),
                                        None => int_rat(0),
                                    },
                                ),
                            ],
                            ram,
                            (fuel - 1) as nat,
                        )
                    } else {
                        ParamV::Null
                    }
                },
            },
            _ => ParamV::Null,
        }
    }
}

fn round_fuel(p: &Vec<Parameters>, ram: Option<&AssocMap<Parameters>>, fuel: u64) -> (r: Parameters)
    ensures
        r@ == round_spec(pview_seq(p@), ram_view(ram), fuel as nat),
    decreases fuel,
{
    proof {
        lemma_pview_seq(p@);
    }
    if p.len() < 1 {
        return Parameters::Null;
    }
    let prec: Option<i64> = if p.len() > 1 {
        match &p[1] {
            Parameters::Int(i) => Some(*i),
            Parameters::Float(f) => Some(trunc_int(*f)),
            _ => Some(0),
        }
    } else {
        None
    };
    let pw10 = Rationals::new(1, 10);
    match &p[0] {
        Parameters::Int(i) => match prec {
            Some(k) => {
                let pw = pw10.pow_i(k);
                let scaled = Rationals::new(1, *i).mul(pw);
                Parameters::Float(Rationals::new(1, scaled.round_int()).div(pw))
            },
            None => Parameters::Float(Rationals::new(1, *i)),
        },
        Parameters::Float(f) => match prec {
            Some(k) => {
                let pw = pw10.pow_i(k);
                let scaled = f.mul(pw);
                Parameters::Float(Rationals::new(1, scaled.round_int()).div(pw))
            },
            None => Parameters::Float(Rationals::new(1, f.round_int())),
        },
        Parameters::Rational(x) => match prec {
            Some(k) => {
                let pw = pw10.pow_i(k);
                let scaled = x.mul(pw);
                Parameters::Float(Rationals::new(1, scaled.round_int()).div(pw))
            },
            None => Parameters::Float(Rationals::new(1, x.round_int())),
        },
        Parameters::Identifier(s) => {
            match ram {
                None => Parameters::Identifier(
                    String::from_str("This variable is not initialized yet"),
                ),
                Some(t) => {
                    match t.get(s) {
                        None => Parameters::Null,
                        Some(v) => {
                            if fuel > 0 {
                                let mut args: Vec<Parameters> = Vec::new();
                                args.push(v.deep_clone());
                                args.push(
                                    Parameters::Float(
                                        match prec {
                                            Some(k) => Rationals::new(1, k),
                                            None => Rationals::new(1, 0),
                                        },
                                    ),
                                );
                                proof {
                                    lemma_pview_seq(args@);
                                    assert(pview_seq(args@) =~= seq![
                                        ram_view(ram)->0[s@],
                                        ParamV::Float(
                                            match prec {
                                                Some(k) => int_rat(k),
                                                None => int_rat(0),
                                            },
                                        ),
                                    ]);
                                }
                                round_fuel(&args, ram, fuel - 1)
                            } else {
                                Parameters::Null
                            }
                        },
                    }
                },
            }
        },
        _ => Parameters::Null,
    }
}

/// The rounding builtin.
pub fn round(p: &Vec<Parameters>, ram: Option<&AssocMap<Parameters>>) -> (r: Parameters)
    ensures
        r@ == round_spec(pview_seq(p@), ram_view(ram), default_fuel(ram)),
{
    let fuel = fuel_for(ram);
    round_fuel(p, ram, fuel)
}

/// Wraps matrix rows back into evaluated vectors.
fn wrap_rows(rows: Vec<Vec<Parameters>>) -> (r: Parameters)
    ensures
        r@ == ParamV::InterpreterVector(
            crate::utils::matrix_utils::iv_rows(crate::utils::matrix_utils::ppview(rows@)),
        ),
{
    let ghost mv = crate::utils::matrix_utils::ppview(rows@);
    let mut out: Vec<Parameters> = Vec::new();
    let mut rest = rows;
    let total = rest.len();
    let mut idx: usize = 0;
    proof {
        assert(forall|t: int| 0 <= t < mv.len() ==> mv[t] == pview_seq(rows@[t]@));
    }
    while idx < total
        invariant
            idx <= total,
            rest@.len() == total - idx,
            mv.len() == total,
            forall|t: int|
                0 <= t < rest@.len() ==> pview_seq((#[trigger] rest@[t])@) == mv[t + idx],
            out@.len() == idx,
            pview_seq(out@).len() == idx,
            forall|t: int|
                0 <= t < idx ==> pview_seq(out@)[t] == ParamV::InterpreterVector(mv[t]),
        decreases total - idx,
    {
        let row = rest.remove(0);
        let ghost pre = out@;
        let ghost rvv = pview_seq(row@);
        out.push(Parameters::InterpreterVector(Box::new(row)));
        proof {
            lemma_pview_seq(pre);
            lemma_pview_seq(out@);
            assert(out@.drop_last() =~= pre);
            assert(forall|t: int| 0 <= t < idx ==> pview_seq(out@)[t] == pview_seq(pre)[t]);
            assert(pview_seq(out@)[idx as int] == ParamV::InterpreterVector(rvv));
        }
        idx += 1;
    }
    proof {
        lemma_pview_seq(out@);
        assert(pview_seq(out@) =~= crate::utils::matrix_utils::iv_rows(mv));
    }
    Parameters::InterpreterVector(Box::new(out))
}

/// Whether the square shape needed by the elimination holds: at least
/// `n` rows of at least `n` entries each.
fn square_enough(m: &Vec<Vec<Parameters>>, n: usize) -> (r: bool)
    ensures
        r == crate::utils::matrix_utils::shape_ok(m@, n as nat),
{
    if m.len() < n {
        return false;
    }
    let mut i: usize = 0;
    while i < n
        invariant
            i <= n,
            n <= m@.len(),
            forall|j: int| 0 <= j < i ==> (#[trigger] m@[j])@.len() >= n,
        decreases n - i,
    {
        if m[i].len() < n {
            return false;
        }
        i += 1;
    }
    true
}

/// The transpose builtin over one plain vector: each element becomes a
/// one-element row.  Scalars pass through as absolute values.
pub fn transpose_vectors(p: &Vec<Parameters>, ram: Option<&AssocMap<Parameters>>) -> (r:
    Parameters)
    ensures
        p@.len() < 1 ==> r@ == ParamV::Null,
        p@.len() >= 1 ==> (p@[0]@ matches ParamV::Int(i) ==> r@ == ParamV::Int(sat_abs_i64(i))),
        p@.len() >= 1 ==> (p@[0]@ matches ParamV::InterpreterVector(l) ==> r@ == (if l.len()
            == 0 {
            ParamV::InterpreterVector(Seq::empty())
        } else {
            ParamV::InterpreterVector(
                crate::utils::matrix_utils::iv_rows(crate::utils::matrix_utils::transpose_spec(seq![l])),
            )
        })),
{
    let fuel = fuel_for(ram);
    transpose_vectors_fuel(p, ram, fuel)
}

fn transpose_vectors_fuel(p: &Vec<Parameters>, ram: Option<&AssocMap<Parameters>>, fuel: u64) -> (
    r: Parameters)
    ensures
        p@.len() < 1 ==> r@ == ParamV::Null,
        p@.len() >= 1 ==> (p@[0]@ matches ParamV::Int(i) ==> r@ == ParamV::Int(sat_abs_i64(i))),
        p@.len() >= 1 ==> (p@[0]@ matches ParamV::InterpreterVector(l) ==> r@ == (if l.len()
            == 0 {
            ParamV::InterpreterVector(Seq::empty())
        } else {
            ParamV::InterpreterVector(
                crate::utils::matrix_utils::iv_rows(crate::utils::matrix_utils::transpose_spec(seq![l])),
            )
        })),
    decreases fuel,
{
    if p.len() < 1 {
        return Parameters::Null;
    }
    match &p[0] {
        Parameters::Int(i) => Parameters::Int(crate::interpreting::function::sat_abs_exec(*i)),
        Parameters::Float(f) => Parameters::Float(
            Rationals::new(
                crate::interpreting::function::sat_abs_exec(f.under),
                crate::interpreting::function::sat_abs_exec(f.over),
            ),
        ),
        Parameters::Rational(x) => Parameters::Rational(
            Rationals::new(
                crate::interpreting::function::sat_abs_exec(x.under),
                crate::interpreting::function::sat_abs_exec(x.over),
            ),
        ),
        Parameters::InterpreterVector(l) => {
            let lst: &Vec<Parameters> = l;
            let ghost sv = pview_seq(lst@);
            proof {
                lemma_pview_seq(lst@);
                assert(p@[0]@ matches ParamV::InterpreterVector(inner) && inner == sv);
            }
            if lst.len() == 0 {
                let empty_inner: Vec<Parameters> = Vec::new();
                let ghost ev = pview_seq(empty_inner@);
                let res = Parameters::InterpreterVector(Box::new(empty_inner));
                proof {
                    assert(ev =~= Seq::<ParamV>::empty());
                    assert(res@ == ParamV::InterpreterVector(Seq::<ParamV>::empty()));
                }
                return res;
            }
            let mut row: Vec<Parameters> = Vec::new();
            let mut k: usize = 0;
            while k < lst.len()
                invariant
                    k <= lst@.len(),
                    sv == pview_seq(lst@),
                    row@.len() == k,
                    pview_seq(row@) =~= pview_seq(lst@.subrange(0, k as int)),
                decreases lst@.len() - k,
            {
                let ghost pre = row@;
                row.push(lst[k].deep_clone());
                proof {
                    assert(row@.drop_last() =~= pre);
                    assert(lst@.subrange(0, k as int + 1).drop_last() =~= lst@.subrange(
                        0,
                        k as int,
                    ));
                }
                k += 1;
            }
            proof {
                assert(lst@.subrange(0, lst@.len() as int) =~= lst@);
            }
            let mut m: Vec<Vec<Parameters>> = Vec::new();
            m.push(row);
            proof {
                assert(crate::utils::matrix_utils::rectangular(
                    crate::utils::matrix_utils::vv_view(m@),
                ));
                assert(crate::utils::matrix_utils::ppview(m@) =~~= seq![sv]);
            }
            let ghost mg = m@;
            let t = crate::utils::matrix_utils::transpose(m);
            proof {
                crate::utils::matrix_utils::lemma_ppview_transpose(mg, t@);
                assert(crate::utils::matrix_utils::transpose_spec(
                    crate::utils::matrix_utils::ppview(mg),
                ) =~~= crate::utils::matrix_utils::transpose_spec(seq![sv]));
            }
            wrap_rows(t)
        },
        Parameters::Identifier(s) => {
            match ram {
                None => Parameters::Identifier(
                    String::from_str("This variable is not initialized yet"),
                ),
                Some(t) => {
                    match t.get(s) {
                        None => Parameters::Null,
                        Some(v) => {
                            if fuel > 0 {
                                let mut args: Vec<Parameters> = Vec::new();
                                args.push(v.deep_clone());
                                transpose_vectors_fuel(&args, ram, fuel - 1)
                            } else {
                                Parameters::Null
                            }
                        },
                    }
                },
            }
        },
        _ => Parameters::Null,
    }
}

/// The transpose builtin over a matrix: rows and columns swap; a plain
/// vector falls back to the vector transpose, and a ragged or empty
/// matrix yields absence.
pub fn transpose_matrices(p: &Vec<Parameters>, ram: Option<&AssocMap<Parameters>>) -> (r:
    Parameters)
    ensures
        p@.len() < 1 ==> r@ == ParamV::Null,
        p@.len() >= 1 ==> (p@[0]@ matches ParamV::Int(i) ==> r@ == ParamV::Int(sat_abs_i64(i))),
        (p@.len() >= 1 && p@[0]@ is InterpreterVector && crate::utils::matrix_utils::all_iv(p@[0]@->InterpreterVector_0)
            && p@[0]@->InterpreterVector_0.len() >= 1 && crate::utils::matrix_utils::rectangular(crate::utils::matrix_utils::rows_of(p@[0]@->InterpreterVector_0))) ==> r@
            == ParamV::InterpreterVector(
            crate::utils::matrix_utils::iv_rows(crate::utils::matrix_utils::transpose_spec(crate::utils::matrix_utils::rows_of(p@[0]@->InterpreterVector_0))),
        ),
{
    let fuel = fuel_for(ram);
    transpose_matrices_fuel(p, ram, fuel)
}

fn transpose_matrices_fuel(p: &Vec<Parameters>, ram: Option<&AssocMap<Parameters>>, fuel: u64) -> (
    r: Parameters)
    ensures
        p@.len() < 1 ==> r@ == ParamV::Null,
        p@.len() >= 1 ==> (p@[0]@ matches ParamV::Int(i) ==> r@ == ParamV::Int(sat_abs_i64(i))),
        (p@.len() >= 1 && p@[0]@ is InterpreterVector && crate::utils::matrix_utils::all_iv(p@[0]@->InterpreterVector_0)
            && p@[0]@->InterpreterVector_0.len() >= 1 && crate::utils::matrix_utils::rectangular(crate::utils::matrix_utils::rows_of(p@[0]@->InterpreterVector_0))) ==> r@
            == ParamV::InterpreterVector(
            crate::utils::matrix_utils::iv_rows(crate::utils::matrix_utils::transpose_spec(crate::utils::matrix_utils::rows_of(p@[0]@->InterpreterVector_0))),
        ),
    decreases fuel,
{
    if p.len() < 1 {
        return Parameters::Null;
    }
    match &p[0] {
        Parameters::Int(i) => Parameters::Int(crate::interpreting::function::sat_abs_exec(*i)),
        Parameters::Float(f) => Parameters::Float(
            Rationals::new(
                crate::interpreting::function::sat_abs_exec(f.under),
                crate::interpreting::function::sat_abs_exec(f.over),
            ),
        ),
        Parameters::Rational(x) => Parameters::Rational(
            Rationals::new(
                crate::interpreting::function::sat_abs_exec(x.under),
                crate::interpreting::function::sat_abs_exec(x.over),
            ),
        ),
        Parameters::InterpreterVector(l) => {
            let lst: &Vec<Parameters> = l;
            let ghost sv = pview_seq(lst@);
            proof {
                lemma_pview_seq(lst@);
                assert(p@[0]@ matches ParamV::InterpreterVector(inner) && inner == sv);
            }
            match crate::interpreting::function::extract_rows(lst) {
                None => transpose_vectors_fuel(p, ram, fuel),
                Some(rows) => {
                    proof {
                        assert(crate::utils::matrix_utils::ppview(rows@)
                            =~~= crate::utils::matrix_utils::rows_of(sv));
                        assert(forall|t: int|
                            0 <= t < rows@.len() ==> (#[trigger] crate::utils::matrix_utils::ppview(
                                rows@,
                            )[t]).len() == rows@[t]@.len()) by {
                            assert forall|t: int|
                                0 <= t < rows@.len() implies (
                                #[trigger] crate::utils::matrix_utils::ppview(rows@)[t]).len()
                                == rows@[t]@.len() by {
                                lemma_pview_seq(rows@[t]@);
                            }
                        }
                    }
                    if rows.len() == 0 {
                        Parameters::Null
                    } else if !crate::interpreting::function::rows_rectangular(&rows) {
                        Parameters::Null
                    } else {
                        let ok = rows_vv_rectangular(&rows);
                        proof {
                            assert forall|t: int|
                                0 <= t < crate::utils::matrix_utils::vv_view(rows@).len() implies (
                                #[trigger] crate::utils::matrix_utils::vv_view(rows@)[t]).len()
                                == crate::utils::matrix_utils::vv_view(rows@)[0].len() by {
                                assert(crate::utils::matrix_utils::vv_view(rows@)[t]
                                    == rows@[t]@);
                                assert(crate::utils::matrix_utils::vv_view(rows@)[0]
                                    == rows@[0]@);
                                assert(crate::utils::matrix_utils::ppview(rows@)[t].len()
                                    == crate::utils::matrix_utils::ppview(rows@)[0].len());
                            }
                            assert(crate::utils::matrix_utils::rectangular(
                                crate::utils::matrix_utils::vv_view(rows@),
                            ));
                            assert(ok);
                        }
                        if !ok {
                            Parameters::Null
                        } else {
                            let ghost mg = rows@;
                            let t = crate::utils::matrix_utils::transpose(rows);
                            proof {
                                crate::utils::matrix_utils::lemma_ppview_transpose(mg, t@);
                                assert(crate::utils::matrix_utils::transpose_spec(
                                    crate::utils::matrix_utils::ppview(mg),
                                ) =~~= crate::utils::matrix_utils::transpose_spec(
                                    crate::utils::matrix_utils::rows_of(sv),
                                ));
                            }
                            wrap_rows(t)
                        }
                    }
                },
            }
        },
        Parameters::Identifier(s) => {
            match ram {
                None => Parameters::Identifier(
                    String::from_str("This variable is not initialized yet"),
                ),
                Some(t) => {
                    match t.get(s) {
                        None => Parameters::Null,
                        Some(v) => {
                            if fuel > 0 {
                                let mut args: Vec<Parameters> = Vec::new();
                                args.push(v.deep_clone());
                                transpose_matrices_fuel(&args, ram, fuel - 1)
                            } else {
                                Parameters::Null
                            }
                        },
                    }
                },
            }
        },
        _ => Parameters::Null,
    }
}

/// Whether every row of a plain matrix has the first row's length.
fn rows_vv_rectangular(m: &Vec<Vec<Parameters>>) -> (r: bool)
    ensures
        r == crate::utils::matrix_utils::rectangular(crate::utils::matrix_utils::vv_view(m@)),
{
    if m.len() == 0 {
        return true;
    }
    let w = m[0].len();
    let mut i: usize = 0;
    while i < m.len()
        invariant
            i <= m@.len(),
            m@.len() > 0,
            w == m@[0]@.len(),
            forall|j: int|
                0 <= j < i ==> (#[trigger] crate::utils::matrix_utils::vv_view(m@)[j]).len()
                    == crate::utils::matrix_utils::vv_view(m@)[0].len(),
        decreases m@.len() - i,
    {
        if m[i].len() != w {
            proof {
                assert(crate::utils::matrix_utils::vv_view(m@)[i as int] == m@[i as int]@);
                assert(crate::utils::matrix_utils::vv_view(m@)[0] == m@[0]@);
            }
            return false;
        }
        i += 1;
    }
    true
}

/// The determinant builtin: LU decomposition with partial pivoting, the
/// product of the diagonal signed by the swap parity; a singular matrix
/// yields zero.  Scalars pass through as absolute values.
pub fn det_matrix(p: &Vec<Parameters>, ram: Option<&AssocMap<Parameters>>) -> (r: Parameters)
    ensures
        p@.len() < 1 ==> r@ == ParamV::Null,
        p@.len() >= 1 ==> (p@[0]@ matches ParamV::Int(i) ==> r@ == ParamV::Int(sat_abs_i64(i))),
        (p@.len() >= 1 && p@[0]@ is InterpreterVector && crate::utils::matrix_utils::all_iv(p@[0]@->InterpreterVector_0)
            && p@[0]@->InterpreterVector_0.len() >= 1 && p@[0]@->InterpreterVector_0.len() < 0x7fff_ffff && crate::utils::matrix_utils::square_rows(
            crate::utils::matrix_utils::rows_of(p@[0]@->InterpreterVector_0),
            p@[0]@->InterpreterVector_0.len() as int,
        )) ==> r@ == crate::utils::matrix_utils::det_on_rows(
            crate::utils::matrix_utils::rows_of(p@[0]@->InterpreterVector_0),
            p@[0]@->InterpreterVector_0.len() as int,
            ram_view(ram),
            default_fuel(ram),
        ),
{
    let fuel = fuel_for(ram);
    det_matrix_fuel(p, ram, fuel)
}

fn det_matrix_fuel(p: &Vec<Parameters>, ram: Option<&AssocMap<Parameters>>, fuel: u64) -> (r:
    Parameters)
    ensures
        p@.len() < 1 ==> r@ == ParamV::Null,
        p@.len() >= 1 ==> (p@[0]@ matches ParamV::Int(i) ==> r@ == ParamV::Int(sat_abs_i64(i))),
        (p@.len() >= 1 && p@[0]@ is InterpreterVector && crate::utils::matrix_utils::all_iv(p@[0]@->InterpreterVector_0)
            && p@[0]@->InterpreterVector_0.len() >= 1 && p@[0]@->InterpreterVector_0.len() < 0x7fff_ffff && crate::utils::matrix_utils::square_rows(
            crate::utils::matrix_utils::rows_of(p@[0]@->InterpreterVector_0),
            p@[0]@->InterpreterVector_0.len() as int,
        )) ==> r@ == crate::utils::matrix_utils::det_on_rows(
            crate::utils::matrix_utils::rows_of(p@[0]@->InterpreterVector_0),
            p@[0]@->InterpreterVector_0.len() as int,
            ram_view(ram),
            default_fuel(ram),
        ),
    decreases fuel,
{
    if p.len() < 1 {
        return Parameters::Null;
    }
    match &p[0] {
        Parameters::Int(i) => Parameters::Int(crate::interpreting::function::sat_abs_exec(*i)),
        Parameters::Float(f) => Parameters::Float(
            Rationals::new(
                crate::interpreting::function::sat_abs_exec(f.under),
                crate::interpreting::function::sat_abs_exec(f.over),
            ),
        ),
        Parameters::Rational(x) => Parameters::Rational(
            Rationals::new(
                crate::interpreting::function::sat_abs_exec(x.under),
                crate::interpreting::function::sat_abs_exec(x.over),
            ),
        ),
        Parameters::InterpreterVector(l) => {
            let lst: &Vec<Parameters> = l;
            let ghost sv = pview_seq(lst@);
            proof {
                lemma_pview_seq(lst@);
                assert(p@[0]@ matches ParamV::InterpreterVector(inner) && inner == sv);
            }
            match crate::interpreting::function::extract_rows(lst) {
                None => Parameters::Float(Rationals::new(1, 0)),
                Some(rows) => {
                    proof {
                        assert(crate::utils::matrix_utils::ppview(rows@) =~~= crate::utils::matrix_utils::rows_of(sv));
                        assert(forall|u: int|
                            0 <= u < rows@.len() ==> ({
                                #[trigger] crate::utils::matrix_utils::ppview(rows@)[u]
                            }).len() == rows@[u]@.len()) by {
                            assert forall|u: int|
                                0 <= u < rows@.len() implies (
                                #[trigger] crate::utils::matrix_utils::ppview(rows@)[u]).len() == rows@[u]@.len() by {
                                lemma_pview_seq(rows@[u]@);
                            }
                        }
                    }
                    let n = rows.len();
                    if n == 0 || n >= 0x7fff_ffff {
                        return Parameters::Null;
                    }
                    let sq = square_enough(&rows, n);
                    proof {
                        assert(crate::utils::matrix_utils::ppview(rows@) == crate::utils::matrix_utils::rows_of(sv));
                        assert(sq == crate::utils::matrix_utils::shape_ok(rows@, n as nat));
                        assert(crate::utils::matrix_utils::shape_ok(rows@, n as nat) ==> crate::utils::matrix_utils::square_rows(
                            crate::utils::matrix_utils::rows_of(sv),
                            n as int,
                        )) by {
                            if crate::utils::matrix_utils::shape_ok(rows@, n as nat) {
                                assert forall|u: int| 0 <= u < n implies (
                                #[trigger] crate::utils::matrix_utils::rows_of(sv)[u]).len() >= n by {
                                    assert(crate::utils::matrix_utils::ppview(rows@)[u].len() == rows@[u]@.len());
                                }
                            }
                        }
                        assert(crate::utils::matrix_utils::square_rows(crate::utils::matrix_utils::rows_of(sv), n as int) ==> crate::utils::matrix_utils::shape_ok(
                            rows@,
                            n as nat,
                        )) by {
                            if crate::utils::matrix_utils::square_rows(crate::utils::matrix_utils::rows_of(sv), n as int) {
                                assert forall|u: int| 0 <= u < n implies (
                                #[trigger] rows@[u])@.len() >= n by {
                                    assert(crate::utils::matrix_utils::ppview(rows@)[u].len() == rows@[u]@.len());
                                    assert(crate::utils::matrix_utils::rows_of(sv)[u].len() >= n);
                                }
                            }
                        }
                        assert(sq == crate::utils::matrix_utils::square_rows(crate::utils::matrix_utils::rows_of(sv), n as int));
                    }
                    if !sq {
                        return Parameters::Null;
                    }
                    let mut a = rows;
                    let mut pv: Vec<Parameters> = Vec::new();
                    let mut t: usize = 0;
                    while t < n + 1
                        invariant
                            t <= n + 1,
                            n < 0x7fff_ffff,
                            pv@.len() == t,
                            pview_seq(pv@).len() == t,
                            forall|u: int| 0 <= u < t ==> pview_seq(pv@)[u] == ParamV::Int(0),
                        decreases n + 1 - t,
                    {
                        proof {
                            lemma_pview_seq(pv@);
                        }
                        let z = Parameters::Int(0);
                        let ghost zv = z@;
                        proof {
                            assert(zv == ParamV::Int(0));
                        }
                        let ghost pvpre = pv@;
                        pv.push(z);
                        proof {
                            lemma_pview_seq(pv@);
                            assert(pview_seq(pv@)[t as int] == zv);
                            assert(forall|u: int|
                                0 <= u < t ==> #[trigger] pview_seq(pv@)[u] == pview_seq(
                                    pvpre,
                                )[u]);
                            assert(forall|u: int|
                                0 <= u < t ==> #[trigger] pview_seq(pv@)[u] == ParamV::Int(0));
                        }
                        t += 1;
                    }
                    proof {
                        assert(pview_seq(pv@) =~= crate::utils::matrix_utils::zero_perm(n as int));
                    }
                    let ghost a0 = crate::utils::matrix_utils::ppview(a@);
                    let ghost pv0 = pview_seq(pv@);
                    let rcode = crate::utils::matrix_utils::lup_decompose(&mut a, &mut pv, n, ram);
                    let ghost st = crate::utils::matrix_utils::decomp_upto(
                        a0,
                        crate::utils::matrix_utils::init_perm(pv0, n as int),
                        0,
                        n as int,
                        ram_view(ram),
                        default_fuel(ram),
                    );
                    if rcode == 0 {
                        let z = Parameters::Int(0);
                        let ghost zv = z@;
                        proof {
                            assert(zv == ParamV::Int(0));
                        }
                        z
                    } else {
                        let d = crate::utils::matrix_utils::lup_determinant(&mut a, &mut pv, n, ram);
                        proof {
                            lemma_pview_seq(pv@);
                            assert(crate::utils::matrix_utils::ppview(a@) == st.0);
                            assert(pview_seq(pv@) == st.1);
                            assert(pview_seq(pv@)[n as int] == st.1[n as int]);
                            assert(d@ == crate::utils::matrix_utils::det_on_rows(
                                crate::utils::matrix_utils::rows_of(sv),
                                n as int,
                                ram_view(ram),
                                default_fuel(ram),
                            ));
                        }
                        d
                    }
                },
            }
        },
        Parameters::Identifier(s) => {
            match ram {
                None => Parameters::Identifier(
                    String::from_str("This variable is not initialized yet"),
                ),
                Some(t) => {
                    match t.get(s) {
                        None => Parameters::Null,
                        Some(v) => {
                            if fuel > 0 {
                                let mut args: Vec<Parameters> = Vec::new();
                                args.push(v.deep_clone());
                                det_matrix_fuel(&args, ram, fuel - 1)
                            } else {
                                Parameters::Null
                            }
                        },
                    }
                },
            }
        },
        _ => Parameters::Null,
    }
}

/// The inversion builtin: LU decomposition, then forward and back
/// substitution column by column; a singular matrix yields the
/// explanatory message.
pub fn inverse_matrix(p: &Vec<Parameters>, ram: Option<&AssocMap<Parameters>>) -> (r: Parameters)
    ensures
        p@.len() < 1 ==> r@ == ParamV::Null,
        p@.len() >= 1 ==> (p@[0]@ matches ParamV::Int(i) ==> r@ == ParamV::Int(sat_abs_i64(i))),
        (p@.len() >= 1 && p@[0]@ is InterpreterVector && crate::utils::matrix_utils::all_iv(p@[0]@->InterpreterVector_0)
            && p@[0]@->InterpreterVector_0.len() >= 1 && p@[0]@->InterpreterVector_0.len() < 0x7fff_ffff && crate::utils::matrix_utils::square_rows(
            crate::utils::matrix_utils::rows_of(p@[0]@->InterpreterVector_0),
            p@[0]@->InterpreterVector_0.len() as int,
        )) ==> r@ == crate::utils::matrix_utils::inverse_on_rows(
            crate::utils::matrix_utils::rows_of(p@[0]@->InterpreterVector_0),
            p@[0]@->InterpreterVector_0.len() as int,
            ram_view(ram),
            default_fuel(ram),
        ),
{
    let fuel = fuel_for(ram);
    inverse_matrix_fuel(p, ram, fuel)
}

fn inverse_matrix_fuel(p: &Vec<Parameters>, ram: Option<&AssocMap<Parameters>>, fuel: u64) -> (r:
    Parameters)
    ensures
        p@.len() < 1 ==> r@ == ParamV::Null,
        p@.len() >= 1 ==> (p@[0]@ matches ParamV::Int(i) ==> r@ == ParamV::Int(sat_abs_i64(i))),
        (p@.len() >= 1 && p@[0]@ is InterpreterVector && crate::utils::matrix_utils::all_iv(p@[0]@->InterpreterVector_0)
            && p@[0]@->InterpreterVector_0.len() >= 1 && p@[0]@->InterpreterVector_0.len() < 0x7fff_ffff && crate::utils::matrix_utils::square_rows(
            crate::utils::matrix_utils::rows_of(p@[0]@->InterpreterVector_0),
            p@[0]@->InterpreterVector_0.len() as int,
        )) ==> r@ == crate::utils::matrix_utils::inverse_on_rows(
            crate::utils::matrix_utils::rows_of(p@[0]@->InterpreterVector_0),
            p@[0]@->InterpreterVector_0.len() as int,
            ram_view(ram),
            default_fuel(ram),
        ),
    decreases fuel,
{
    if p.len() < 1 {
        return Parameters::Null;
    }
    match &p[0] {
        Parameters::Int(i) => Parameters::Int(crate::interpreting::function::sat_abs_exec(*i)),
        Parameters::Float(f) => Parameters::Float(
            Rationals::new(
                crate::interpreting::function::sat_abs_exec(f.under),
                crate::interpreting::function::sat_abs_exec(f.over),
            ),
        ),
        Parameters::Rational(x) => Parameters::Rational(
            Rationals::new(
                crate::interpreting::function::sat_abs_exec(x.under),
                crate::interpreting::function::sat_abs_exec(x.over),
            ),
        ),
        Parameters::InterpreterVector(l) => {
            let lst: &Vec<Parameters> = l;
            let ghost sv = pview_seq(lst@);
            proof {
                lemma_pview_seq(lst@);
                assert(p@[0]@ matches ParamV::InterpreterVector(inner) && inner == sv);
            }
            match crate::interpreting::function::extract_rows(lst) {
                None => {
                    let mut kept: Vec<Parameters> = Vec::new();
                    let mut k: usize = 0;
                    while k < lst.len()
                        invariant
                            k <= lst@.len(),
                        decreases lst@.len() - k,
                    {
                        kept.push(lst[k].deep_clone());
                        k += 1;
                    }
                    Parameters::InterpreterVector(Box::new(kept))
                },
                Some(rows) => {
                    proof {
                        assert(crate::utils::matrix_utils::ppview(rows@) =~~= crate::utils::matrix_utils::rows_of(sv));
                        assert(crate::utils::matrix_utils::ppview(rows@) == crate::utils::matrix_utils::rows_of(sv));
                        assert(forall|u: int|
                            0 <= u < rows@.len() ==> (
                            #[trigger] crate::utils::matrix_utils::ppview(rows@)[u]).len() == rows@[u]@.len()) by {
                            assert forall|u: int|
                                0 <= u < rows@.len() implies (
                                #[trigger] crate::utils::matrix_utils::ppview(rows@)[u]).len() == rows@[u]@.len() by {
                                lemma_pview_seq(rows@[u]@);
                            }
                        }
                    }
                    let n = rows.len();
                    if n == 0 || n >= 0x7fff_ffff {
                        return Parameters::Null;
                    }
                    let sq = square_enough(&rows, n);
                    proof {
                        assert(sq == crate::utils::matrix_utils::shape_ok(rows@, n as nat));
                        assert(crate::utils::matrix_utils::shape_ok(rows@, n as nat) ==> crate::utils::matrix_utils::square_rows(
                            crate::utils::matrix_utils::rows_of(sv),
                            n as int,
                        )) by {
                            if crate::utils::matrix_utils::shape_ok(rows@, n as nat) {
                                assert forall|u: int| 0 <= u < n implies (
                                #[trigger] crate::utils::matrix_utils::rows_of(sv)[u]).len() >= n by {
                                    assert(crate::utils::matrix_utils::ppview(rows@)[u].len() == rows@[u]@.len());
                                }
                            }
                        }
                        assert(crate::utils::matrix_utils::square_rows(crate::utils::matrix_utils::rows_of(sv), n as int) ==> crate::utils::matrix_utils::shape_ok(
                            rows@,
                            n as nat,
                        )) by {
                            if crate::utils::matrix_utils::square_rows(crate::utils::matrix_utils::rows_of(sv), n as int) {
                                assert forall|u: int| 0 <= u < n implies (
                                #[trigger] rows@[u])@.len() >= n by {
                                    assert(crate::utils::matrix_utils::ppview(rows@)[u].len() == rows@[u]@.len());
                                    assert(crate::utils::matrix_utils::rows_of(sv)[u].len() >= n);
                                }
                            }
                        }
                    }
                    if !sq {
                        return Parameters::Null;
                    }
                    let mut a = rows;
                    let mut pv: Vec<Parameters> = Vec::new();
                    let mut t: usize = 0;
                    proof {
                        lemma_pview_seq(pv@);
                    }
                    while t < n + 1
                        invariant
                            t <= n + 1,
                            n < 0x7fff_ffff,
                            pv@.len() == t,
                            pview_seq(pv@).len() == t,
                            forall|u: int| 0 <= u < t ==> pview_seq(pv@)[u] == ParamV::Int(0),
                        decreases n + 1 - t,
                    {
                        proof {
                            lemma_pview_seq(pv@);
                        }
                        let z = Parameters::Int(0);
                        let ghost zv = z@;
                        proof {
                            assert(zv == ParamV::Int(0));
                        }
                        let ghost pvpre = pv@;
                        pv.push(z);
                        proof {
                            lemma_pview_seq(pv@);
                            assert(pview_seq(pv@)[t as int] == zv);
                            assert(forall|u: int|
                                0 <= u < t ==> #[trigger] pview_seq(pv@)[u] == pview_seq(
                                    pvpre,
                                )[u]);
                        }
                        t += 1;
                    }
                    proof {
                        assert(pview_seq(pv@) =~= crate::utils::matrix_utils::zero_perm(n as int));
                    }
                    let ghost a0 = crate::utils::matrix_utils::ppview(a@);
                    let ghost pv0 = pview_seq(pv@);
                    let rcode = crate::utils::matrix_utils::lup_decompose(&mut a, &mut pv, n, ram);
                    let ghost st = crate::utils::matrix_utils::decomp_upto(
                        a0,
                        crate::utils::matrix_utils::init_perm(pv0, n as int),
                        0,
                        n as int,
                        ram_view(ram),
                        default_fuel(ram),
                    );
                    if rcode == 0 {
                        Parameters::Null
                    } else {
                        let det = crate::utils::matrix_utils::lup_determinant(&mut a, &mut pv, n, ram);
                        proof {
                            lemma_pview_seq(pv@);
                            assert(crate::utils::matrix_utils::ppview(a@) == st.0);
                            assert(pview_seq(pv@) == st.1);
                            assert(pview_seq(pv@)[n as int] == st.1[n as int]);
                            assert(det@ == crate::utils::matrix_utils::det_on_rows(
                                crate::utils::matrix_utils::rows_of(sv),
                                n as int,
                                ram_view(ram),
                                default_fuel(ram),
                            ));
                        }
                        let singular: bool = match &det {
                            Parameters::Int(v) => *v == 0,
                            Parameters::Float(f) => f.is_null(),
                            Parameters::Rational(x) => x.is_null(),
                            _ => false,
                        };
                        proof {
                            assert(singular == crate::utils::matrix_utils::singular_det(det@));
                        }
                        if singular {
                            let msg = String::from_str(
                                "Determinant is zero, matrix is not invertible",
                            );
                            let res = Parameters::Str(msg);
                            proof {
                                assert(res@ == ParamV::Str(
                                    "Determinant is zero, matrix is not invertible"@,
                                ));
                            }
                            return res;
                        }
                        let mut ia: Vec<Vec<Parameters>> = Vec::new();
                        let mut t2: usize = 0;
                        while t2 < n
                            invariant
                                t2 <= n,
                                ia@.len() == t2,
                                forall|j: int| 0 <= j < t2 ==> (#[trigger] ia@[j])@.len() == n,
                                forall|j: int|
                                    0 <= j < t2 ==> pview_seq((#[trigger] ia@[j])@)
                                        =~= Seq::new(n as nat, |u: int| ParamV::Int(0)),
                            decreases n - t2,
                        {
                            let mut row: Vec<Parameters> = Vec::new();
                            let mut t3: usize = 0;
                            proof {
                                lemma_pview_seq(row@);
                            }
                            while t3 < n
                                invariant
                                    t3 <= n,
                                    row@.len() == t3,
                                    pview_seq(row@).len() == t3,
                                    forall|u: int|
                                        0 <= u < t3 ==> pview_seq(row@)[u] == ParamV::Int(0),
                                decreases n - t3,
                            {
                                proof {
                                    lemma_pview_seq(row@);
                                }
                                let z = Parameters::Int(0);
                                let ghost zv = z@;
                                proof {
                                    assert(zv == ParamV::Int(0));
                                }
                                let ghost rpre = row@;
                                row.push(z);
                                proof {
                                    lemma_pview_seq(row@);
                                    assert(pview_seq(row@)[t3 as int] == zv);
                                    assert(forall|u: int|
                                        0 <= u < t3 ==> #[trigger] pview_seq(row@)[u]
                                            == pview_seq(rpre)[u]);
                                }
                                t3 += 1;
                            }
                            proof {
                                assert(pview_seq(row@) =~= Seq::new(
                                    n as nat,
                                    |u: int| ParamV::Int(0),
                                ));
                            }
                            ia.push(row);
                            t2 += 1;
                        }
                        proof {
                            assert(crate::utils::matrix_utils::ppview(ia@) =~~= crate::utils::matrix_utils::zero_matrix(n as int));
                            assert(crate::utils::matrix_utils::ppview(ia@) == crate::utils::matrix_utils::zero_matrix(n as int));
                        }
                        let ghost iapre = crate::utils::matrix_utils::ppview(ia@);
                        crate::utils::matrix_utils::lup_invert(&mut a, &mut pv, n, &mut ia, ram);
                        proof {
                            assert(crate::utils::matrix_utils::ppview(ia@) == crate::utils::matrix_utils::invert_cols(
                                st.0,
                                st.1,
                                crate::utils::matrix_utils::zero_matrix(n as int),
                                0,
                                n as int,
                                ram_view(ram),
                                default_fuel(ram),
                            ));
                        }
                        wrap_rows(ia)
                    }
                },
            }
        },
        Parameters::Identifier(s) => {
            match ram {
                None => Parameters::Identifier(
                    String::from_str("This variable is not initialized yet"),
                ),
                Some(t) => {
                    match t.get(s) {
                        None => Parameters::Null,
                        Some(v) => {
                            if fuel > 0 {
                                let mut args: Vec<Parameters> = Vec::new();
                                args.push(v.deep_clone());
                                inverse_matrix_fuel(&args, ram, fuel - 1)
                            } else {
                                Parameters::Null
                            }
                        },
                    }
                },
            }
        },
        _ => Parameters::Null,
    }
}

/// The names of the formal parameters: each identifier leaf among the
/// stored parameter expressions, in order.
pub open spec fn param_names(params: Seq<AstV>) -> Seq<Seq<char>>
    decreases params,
{
    if params.len() == 0 {
        Seq::empty()
    } else {
        param_names(params.drop_last()) + (match params.last() {
            AstV::Node { value, left, right } => match value {
                ParamV::Identifier(nm) => seq![nm],
                _ => Seq::empty(),
            },
            _ => Seq::empty(),
        })
    }
}

/// The views of a sequence of strings.
pub open spec fn str_views(s: Seq<String>) -> Seq<Seq<char>> {
    s.map(|i: int, t: String| t@)
}

/// The environment a user-defined function's body runs in, before the
/// parameters are bound: only the two constants.
pub open spec fn user_fn_base() -> Map<Seq<char>, ParamV> {
    Map::empty().insert(
        "pi"@,
        ParamV::Float(Rationals { under: 281474976710656, over: 884279719003555 }),
    ).insert("e"@, ParamV::Float(Rationals { under: 2251799813685248, over: 6121026514868073 }))
}

/// Binds the formal names to the actual arguments in order, by position.
pub open spec fn bind_params(
    m: Map<Seq<char>, ParamV>,
    names: Seq<Seq<char>>,
    args: Seq<ParamV>,
) -> Map<Seq<char>, ParamV>
    decreases names.len(),
{
    if names.len() == 0 || args.len() == 0 {
        m
    } else {
        bind_params(m.insert(names[0], args[0]), names.drop_first(), args.drop_first())
    }
}

/// What applying a user-defined function returns, where its body is a
/// pure expression: the body evaluated in the fresh seeded environment.
pub open spec fn user_fn_result(
    d: crate::interpreting::environment::FunctionDefV,
    args: Seq<ParamV>,
) -> ParamV {
    let names = param_names(d.params);
    let bound = if names.len() < args.len() {
        names.len()
    } else {
        args.len()
    };
    crate::interpreting::interpreter::eval_pure(
        d.body,
        bind_params(user_fn_base(), names, args),
        (2 + bound) as nat,
    )
}

/// The unknown-function message.
pub open spec fn unknown_msg() -> Seq<char> {
    "This function is unknown"@
}

/// The names of the builtin functions this library carries.
pub open spec fn is_builtin_name(s: Seq<char>) -> bool {
    s == "fact"@ || s == "factorial"@ || s == "abs"@ || s == "ceil"@ || s == "floor"@ || s
        == "round"@ || s == "transpose_vector"@ || s == "transpose"@ || s == "det"@ || s
        == "invert"@
}

fn str_is(s: &String, lit: &str) -> (r: bool)
    ensures
        r == (s@ == lit@),
{
    let o = String::from_str(lit);
    s.eq(&o)
}

/// Dispatches a call node: a builtin by name, and otherwise the
/// user-defined function of that name, its body evaluated in a fresh
/// environment holding only the two constants and the bound parameters.
/// An unknown name yields a diagnostic value.
pub fn exec(
    s: String,
    lst: Vec<Parameters>,
    ram: Option<&AssocMap<Parameters>>,
    functions: Option<&AssocMap<FunctionDef>>,
) -> (r: Parameters)
    ensures
        (s@ == "fact"@ || s@ == "factorial"@) ==> r@ == factorial_spec(
            pview_seq(lst@),
            ram_view(ram),
            default_fuel(ram),
        ),
        s@ == "abs"@ ==> r@ == abs_bi_spec(pview_seq(lst@), ram_view(ram), default_fuel(ram)),
        s@ == "ceil"@ ==> r@ == ceil_spec(pview_seq(lst@), ram_view(ram), default_fuel(ram)),
        s@ == "floor"@ ==> r@ == floor_spec(pview_seq(lst@), ram_view(ram), default_fuel(ram)),
        s@ == "round"@ ==> r@ == round_spec(pview_seq(lst@), ram_view(ram), default_fuel(ram)),
        (s@ == "transpose_vector"@ && lst@.len() >= 1) ==> (lst@[0]@ matches
            ParamV::InterpreterVector(l) ==> r@ == (if l.len() == 0 {
            ParamV::InterpreterVector(Seq::empty())
        } else {
            ParamV::InterpreterVector(crate::utils::matrix_utils::iv_rows(crate::utils::matrix_utils::transpose_spec(seq![l])))
        })),
        (s@ == "transpose"@ && lst@.len() >= 1 && lst@[0]@ is InterpreterVector
            && crate::utils::matrix_utils::all_iv(lst@[0]@->InterpreterVector_0) && lst@[0]@->InterpreterVector_0.len() >= 1 && crate::utils::matrix_utils::rectangular(crate::utils::matrix_utils::rows_of(lst@[0]@->InterpreterVector_0)))
            ==> r@ == ParamV::InterpreterVector(
            crate::utils::matrix_utils::iv_rows(crate::utils::matrix_utils::transpose_spec(crate::utils::matrix_utils::rows_of(lst@[0]@->InterpreterVector_0))),
        ),
        (s@ == "det"@ && lst@.len() >= 1 && lst@[0]@ is InterpreterVector && crate::utils::matrix_utils::all_iv(lst@[0]@->InterpreterVector_0)
            && lst@[0]@->InterpreterVector_0.len() >= 1 && lst@[0]@->InterpreterVector_0.len() < 0x7fff_ffff && crate::utils::matrix_utils::square_rows(
            crate::utils::matrix_utils::rows_of(lst@[0]@->InterpreterVector_0),
            lst@[0]@->InterpreterVector_0.len() as int,
        )) ==> r@ == crate::utils::matrix_utils::det_on_rows(
            crate::utils::matrix_utils::rows_of(lst@[0]@->InterpreterVector_0),
            lst@[0]@->InterpreterVector_0.len() as int,
            ram_view(ram),
            default_fuel(ram),
        ),
        (s@ == "invert"@ && lst@.len() >= 1 && lst@[0]@ is InterpreterVector
            && crate::utils::matrix_utils::all_iv(lst@[0]@->InterpreterVector_0) && lst@[0]@->InterpreterVector_0.len() >= 1 && lst@[0]@->InterpreterVector_0.len() < 0x7fff_ffff
            && crate::utils::matrix_utils::square_rows(crate::utils::matrix_utils::rows_of(lst@[0]@->InterpreterVector_0), lst@[0]@->InterpreterVector_0.len() as int)) ==> r@
            == crate::utils::matrix_utils::inverse_on_rows(
            crate::utils::matrix_utils::rows_of(lst@[0]@->InterpreterVector_0),
            lst@[0]@->InterpreterVector_0.len() as int,
            ram_view(ram),
            default_fuel(ram),
        ),
        (!is_builtin_name(s@) && functions is None) ==> r@ == ParamV::Identifier(unknown_msg()),
        (!is_builtin_name(s@) && (functions matches Some(f) && !f@.contains_key(s@))) ==> r@
            == ParamV::Identifier(unknown_msg()),
        (!is_builtin_name(s@) && functions is Some && (functions->0)@.contains_key(s@)
            && crate::interpreting::interpreter::pure_ast((functions->0)@[s@].body)) ==> r@
            == user_fn_result((functions->0)@[s@], pview_seq(lst@)),
        (!is_builtin_name(s@) && functions is Some && (functions->0)@.contains_key(s@)
            && (functions->0)@[s@].body is Call
            && crate::interpreting::interpreter::pure_ast_seq(
            (functions->0)@[s@].body->Call_lst,
        ) && !is_builtin_name((functions->0)@[s@].body->Call_name)) ==> r@ == ParamV::Identifier(
            unknown_msg(),
        ),
{
    let fuel: u64 = match functions {
        None => 2,
        Some(f) => {
            let lf = f.len() as u64;
            if lf > 0xffff_ffff_ffff_fff0 {
                u64::MAX
            } else {
                lf + 2
            }
        },
    };
    exec_fuel(s, lst, ram, functions, fuel)
}

#[verifier::loop_isolation(false)]
pub(crate) fn exec_fuel(
    s: String,
    lst: Vec<Parameters>,
    ram: Option<&AssocMap<Parameters>>,
    functions: Option<&AssocMap<FunctionDef>>,
    fuel: u64,
) -> (r: Parameters)
    ensures
        (s@ == "fact"@ || s@ == "factorial"@) ==> r@ == factorial_spec(
            pview_seq(lst@),
            ram_view(ram),
            default_fuel(ram),
        ),
        s@ == "abs"@ ==> r@ == abs_bi_spec(pview_seq(lst@), ram_view(ram), default_fuel(ram)),
        s@ == "ceil"@ ==> r@ == ceil_spec(pview_seq(lst@), ram_view(ram), default_fuel(ram)),
        s@ == "floor"@ ==> r@ == floor_spec(pview_seq(lst@), ram_view(ram), default_fuel(ram)),
        s@ == "round"@ ==> r@ == round_spec(pview_seq(lst@), ram_view(ram), default_fuel(ram)),
        (s@ == "transpose_vector"@ && lst@.len() >= 1) ==> (lst@[0]@ matches
            ParamV::InterpreterVector(l) ==> r@ == (if l.len() == 0 {
            ParamV::InterpreterVector(Seq::empty())
        } else {
            ParamV::InterpreterVector(crate::utils::matrix_utils::iv_rows(crate::utils::matrix_utils::transpose_spec(seq![l])))
        })),
        (s@ == "transpose"@ && lst@.len() >= 1 && lst@[0]@ is InterpreterVector
            && crate::utils::matrix_utils::all_iv(lst@[0]@->InterpreterVector_0) && lst@[0]@->InterpreterVector_0.len() >= 1 && crate::utils::matrix_utils::rectangular(crate::utils::matrix_utils::rows_of(lst@[0]@->InterpreterVector_0)))
            ==> r@ == ParamV::InterpreterVector(
            crate::utils::matrix_utils::iv_rows(crate::utils::matrix_utils::transpose_spec(crate::utils::matrix_utils::rows_of(lst@[0]@->InterpreterVector_0))),
        ),
        (s@ == "det"@ && lst@.len() >= 1 && lst@[0]@ is InterpreterVector && crate::utils::matrix_utils::all_iv(lst@[0]@->InterpreterVector_0)
            && lst@[0]@->InterpreterVector_0.len() >= 1 && lst@[0]@->InterpreterVector_0.len() < 0x7fff_ffff && crate::utils::matrix_utils::square_rows(
            crate::utils::matrix_utils::rows_of(lst@[0]@->InterpreterVector_0),
            lst@[0]@->InterpreterVector_0.len() as int,
        )) ==> r@ == crate::utils::matrix_utils::det_on_rows(
            crate::utils::matrix_utils::rows_of(lst@[0]@->InterpreterVector_0),
            lst@[0]@->InterpreterVector_0.len() as int,
            ram_view(ram),
            default_fuel(ram),
        ),
        (s@ == "invert"@ && lst@.len() >= 1 && lst@[0]@ is InterpreterVector
            && crate::utils::matrix_utils::all_iv(lst@[0]@->InterpreterVector_0) && lst@[0]@->InterpreterVector_0.len() >= 1 && lst@[0]@->InterpreterVector_0.len() < 0x7fff_ffff
            && crate::utils::matrix_utils::square_rows(crate::utils::matrix_utils::rows_of(lst@[0]@->InterpreterVector_0), lst@[0]@->InterpreterVector_0.len() as int)) ==> r@
            == crate::utils::matrix_utils::inverse_on_rows(
            crate::utils::matrix_utils::rows_of(lst@[0]@->InterpreterVector_0),
            lst@[0]@->InterpreterVector_0.len() as int,
            ram_view(ram),
            default_fuel(ram),
        ),
        (!is_builtin_name(s@) && functions is None) ==> r@ == ParamV::Identifier(unknown_msg()),
        (!is_builtin_name(s@) && (functions matches Some(f) && !f@.contains_key(s@))) ==> r@
            == ParamV::Identifier(unknown_msg()),
        (!is_builtin_name(s@) && functions is Some && (functions->0)@.contains_key(s@)
            && crate::interpreting::interpreter::pure_ast((functions->0)@[s@].body) && fuel >= 1)
            ==> r@ == user_fn_result((functions->0)@[s@], pview_seq(lst@)),
        (!is_builtin_name(s@) && functions is Some && (functions->0)@.contains_key(s@) && fuel >= 1
            && (functions->0)@[s@].body is Call
            && crate::interpreting::interpreter::pure_ast_seq(
            (functions->0)@[s@].body->Call_lst,
        ) && !is_builtin_name((functions->0)@[s@].body->Call_name)) ==> r@ == ParamV::Identifier(
            unknown_msg(),
        ),
    decreases fuel, 0nat, 1nat,
{
    proof {
        reveal_strlit("fact");
        reveal_strlit("factorial");
        reveal_strlit("abs");
        reveal_strlit("ceil");
        reveal_strlit("floor");
        reveal_strlit("round");
        reveal_strlit("transpose_vector");
        reveal_strlit("transpose");
        reveal_strlit("det");
        reveal_strlit("invert");
    }
    proof {
        assert("fact"@.len() == 4);
        assert("factorial"@.len() == 9);
        assert("abs"@.len() == 3);
        assert("ceil"@.len() == 4);
        assert("floor"@.len() == 5);
        assert("round"@.len() == 5);
        assert("transpose_vector"@.len() == 16);
        assert("transpose"@.len() == 9);
        assert("det"@.len() == 3);
        assert("invert"@.len() == 6);
        assert("fact"@ != "factorial"@);
        assert("fact"@ != "abs"@);
        assert("fact"@[0] != "ceil"@[0]);
        assert("fact"@ != "ceil"@);
        assert("fact"@ != "floor"@);
        assert("fact"@ != "round"@);
        assert("fact"@ != "transpose_vector"@);
        assert("fact"@ != "transpose"@);
        assert("fact"@ != "det"@);
        assert("fact"@ != "invert"@);
        assert("factorial"@ != "abs"@);
        assert("factorial"@ != "ceil"@);
        assert("factorial"@ != "floor"@);
        assert("factorial"@ != "round"@);
        assert("factorial"@ != "transpose_vector"@);
        assert("factorial"@[0] != "transpose"@[0]);
        assert("factorial"@ != "transpose"@);
        assert("factorial"@ != "det"@);
        assert("factorial"@ != "invert"@);
        assert("abs"@ != "ceil"@);
        assert("abs"@ != "floor"@);
        assert("abs"@ != "round"@);
        assert("abs"@ != "transpose_vector"@);
        assert("abs"@ != "transpose"@);
        assert("abs"@[0] != "det"@[0]);
        assert("abs"@ != "det"@);
        assert("abs"@ != "invert"@);
        assert("ceil"@ != "floor"@);
        assert("ceil"@ != "round"@);
        assert("ceil"@ != "transpose_vector"@);
        assert("ceil"@ != "transpose"@);
        assert("ceil"@ != "det"@);
        assert("ceil"@ != "invert"@);
        assert("floor"@[0] != "round"@[0]);
        assert("floor"@ != "round"@);
        assert("floor"@ != "transpose_vector"@);
        assert("floor"@ != "transpose"@);
        assert("floor"@ != "det"@);
        assert("floor"@ != "invert"@);
        assert("round"@ != "transpose_vector"@);
        assert("round"@ != "transpose"@);
        assert("round"@ != "det"@);
        assert("round"@ != "invert"@);
        assert("transpose_vector"@ != "transpose"@);
        assert("transpose_vector"@ != "det"@);
        assert("transpose_vector"@ != "invert"@);
        assert("transpose"@ != "det"@);
        assert("transpose"@ != "invert"@);
        assert("det"@ != "invert"@);
    }
    if str_is(&s, "fact") || str_is(&s, "factorial") {
        factorial(&lst, ram)
    } else if str_is(&s, "abs") {
        abs(&lst, ram)
    } else if str_is(&s, "ceil") {
        ceil(&lst, ram)
    } else if str_is(&s, "floor") {
        floor(&lst, ram)
    } else if str_is(&s, "round") {
        round(&lst, ram)
    } else if str_is(&s, "transpose_vector") {
        transpose_vectors(&lst, ram)
    } else if str_is(&s, "transpose") {
        transpose_matrices(&lst, ram)
    } else if str_is(&s, "det") {
        det_matrix(&lst, ram)
    } else if str_is(&s, "invert") {
        inverse_matrix(&lst, ram)
    } else {
        match functions {
            None => Parameters::Identifier(String::from_str("This function is unknown")),
            Some(f) => {
                match f.get(&s) {
                    None => Parameters::Identifier(String::from_str("This function is unknown")),
                    Some(def) => {
                        if fuel == 0 {
                            return Parameters::Identifier(
                                String::from_str("This function is unknown"),
                            );
                        }
                        let d = def.deep_clone();
                        let ghost dv = d@;
                        let ghost argv = pview_seq(lst@);
                        proof {
                            lemma_pview_seq(lst@);
                        }
                        let mut sram: AssocMap<Parameters> = AssocMap::new();
                        sram.insert(
                            String::from_str("pi"),
                            Parameters::Float(Rationals::new(281474976710656, 884279719003555)),
                        );
                        sram.insert(
                            String::from_str("e"),
                            Parameters::Float(Rationals::new(2251799813685248, 6121026514868073)),
                        );
                        proof {
                            assert(sram@ =~= user_fn_base());
                            crate::parsing::ast::lemma_aview_seq(d.params@);
                            assert(crate::parsing::ast::aview_seq(d.params@).take(0)
                                =~= Seq::<AstV>::empty());
                        }
                        let mut names: Vec<String> = Vec::new();
                        let mut i: usize = 0;
                        while i < d.params.len()
                            invariant
                                i <= d.params@.len(),
                                str_views(names@) =~= param_names(
                                    crate::parsing::ast::aview_seq(d.params@).take(i as int),
                                ),
                                crate::parsing::ast::aview_seq(d.params@).len()
                                    == d.params@.len(),
                                forall|j: int|
                                    0 <= j < d.params@.len()
                                        ==> crate::parsing::ast::aview_seq(d.params@)[j]
                                        == d.params@[j]@,
                            decreases d.params@.len() - i,
                        {
                            let ghost pv = crate::parsing::ast::aview_seq(d.params@);
                            proof {
                                assert(pv.take(i as int + 1).drop_last() =~= pv.take(i as int));
                                assert(pv.take(i as int + 1).last() == pv[i as int]);
                            }
                            proof {
                                assert(pv[i as int] == d.params@[i as int]@);
                            }
                            match &d.params[i] {
                                Ast::Node { value, left: _, right: _ } => {
                                    proof {
                                        assert(pv[i as int] matches AstV::Node {
                                            value: vv,
                                            left: l4,
                                            right: r4,
                                        } && vv == (*value)@);
                                    }
                                    match value {
                                        Parameters::Identifier(nm) => {
                                            let ghost pre = names@;
                                            names.push(nm.clone());
                                            proof {
                                                assert(names@.drop_last() =~= pre);
                                                assert(str_views(names@) =~= str_views(
                                                    pre,
                                                ).push(nm@));
                                                assert(str_views(names@) =~= param_names(
                                                    pv.take(i as int + 1),
                                                ));
                                            }
                                        },
                                        _ => {
                                            proof {
                                                assert(!((*value)@ is Identifier));
                                                assert(str_views(names@) =~= param_names(
                                                    pv.take(i as int + 1),
                                                ));
                                            }
                                        },
                                    }
                                },
                                _ => {
                                    proof {
                                        assert(!(pv[i as int] is Node));
                                        assert(str_views(names@) =~= param_names(
                                            pv.take(i as int + 1),
                                        ));
                                    }
                                },
                            }
                            i += 1;
                        }
                        proof {
                            assert(crate::parsing::ast::aview_seq(d.params@).take(
                                d.params@.len() as int,
                            ) =~= crate::parsing::ast::aview_seq(d.params@));
                        }
                        let ghost nv = str_views(names@);
                        let bound: usize = if names.len() < lst.len() {
                            names.len()
                        } else {
                            lst.len()
                        };
                        let mut k: usize = 0;
                        proof {
                            assert(nv.skip(0) =~= nv);
                            assert(argv.skip(0) =~= argv);
                        }
                        while k < bound
                            invariant
                                k <= bound,
                                bound <= names@.len(),
                                bound <= lst@.len(),
                                nv == str_views(names@),
                                argv == pview_seq(lst@),
                                nv.len() == names@.len(),
                                argv.len() == lst@.len(),
                                forall|j: int| 0 <= j < nv.len() ==> nv[j] == names@[j]@,
                                forall|j: int| 0 <= j < argv.len() ==> argv[j] == lst@[j]@,
                                bound == if nv.len() < argv.len() {
                                    nv.len()
                                } else {
                                    argv.len()
                                },
                                sram.spec_len() == 2 + k,
                                bind_params(sram@, nv.skip(k as int), argv.skip(k as int))
                                    == bind_params(user_fn_base(), nv, argv),
                            decreases bound - k,
                        {
                            proof {
                                assert(nv.skip(k as int)[0] == nv[k as int]);
                                assert(argv.skip(k as int)[0] == argv[k as int]);
                                assert(nv.skip(k as int).drop_first() =~= nv.skip(k as int + 1));
                                assert(argv.skip(k as int).drop_first() =~= argv.skip(
                                    k as int + 1,
                                ));
                            }
                            sram.insert(names[k].clone(), lst[k].deep_clone());
                            k += 1;
                        }
                        proof {
                            if nv.len() < argv.len() {
                                assert(nv.skip(bound as int).len() == 0);
                            } else {
                                assert(argv.skip(bound as int).len() == 0);
                            }
                            assert(bind_params(
                                sram@,
                                nv.skip(bound as int),
                                argv.skip(bound as int),
                            ) == sram@);
                        }
                        let mut sfun: AssocMap<FunctionDef> = AssocMap::new();
                        crate::interpreting::interpreter::interpret_fuel(
                            &d.body,
                            &mut sram,
                            &mut sfun,
                            fuel - 1,
                        )
                    },
                }
            },
        }
    }
}

} // verus!
