//! The tree-walking evaluator: a recursive walk over the syntax tree,
//! dispatching binary nodes through the numeric tower, handling
//! assignment and function definition, and sending call nodes to the
//! standard library or to user-defined functions.
//!
//! The contract fixes the result of every pure expression (one without
//! calls or assignments) through the `eval_pure` mirror, fixes what a
//! top-level variable assignment or function definition does to the
//! environments, and fixes a call with pure arguments wherever its callee
//! is determined: a scalar builtin, an unknown name, or a user-defined
//! function whose body is pure (or whose body calls a name that its
//! fresh environment cannot hold).

use vstd::prelude::*;

use crate::interpreting::environment::AssocMap;
use crate::interpreting::environment::FunctionDef;
use crate::interpreting::function;
use crate::interpreting::function::fuel_of_len;
use crate::parsing::ast::Ast;
use crate::parsing::ast::AstV;
use crate::parsing::ast::ParamV;
use crate::parsing::ast::Parameters;
use crate::parsing::ast::aheight;
use crate::parsing::ast::lemma_aheight_seq_elem;
use crate::parsing::ast::lemma_aview_seq;
use crate::parsing::ast::aview_seq;
use vstd::string::StringExecFns;

verus! {

/// An expression that neither calls a function nor assigns: evaluating
/// it cannot touch the environments.
pub open spec fn pure_ast(a: AstV) -> bool
    decreases a,
{
    match a {
        AstV::Nil => true,
        AstV::Node { value, left, right } => !(value is Assign) && pure_param(value) && pure_ast(
            *left,
        ) && pure_ast(*right),
        AstV::Call { name, lst } => false,
    }
}

pub open spec fn pure_ast_seq(s: Seq<AstV>) -> bool
    decreases s,
{
    if s.len() == 0 {
        true
    } else {
        pure_ast(s[0]) && pure_ast_seq(s.drop_first())
    }
}

pub open spec fn pure_param(p: ParamV) -> bool
    decreases p,
{
    match p {
        ParamV::Vector(l) => pure_ast_seq(l),
        _ => true,
    }
}

/// What looking a name up returns: the bound value, following chains of
/// name-to-name bindings; an unbound name comes back as the identifier
/// itself, the recoverable placeholder.
pub open spec fn resolve_spec(s: Seq<char>, ram: Map<Seq<char>, ParamV>, fuel: nat) -> ParamV
    decreases fuel,
{
    if ram.contains_key(s) {
        if fuel > 0 {
            match ram[s] {
                ParamV::Identifier(s2) => resolve_spec(s2, ram, (fuel - 1) as nat),
                v => v,
            }
        } else {
            ParamV::Identifier(s)
        }
    } else {
        ParamV::Identifier(s)
    }
}

/// What evaluating a pure expression returns, over an environment with
/// `elen` entries.
pub open spec fn eval_pure(a: AstV, ram: Map<Seq<char>, ParamV>, elen: nat) -> ParamV
    decreases a,
{
    match a {
        AstV::Nil => ParamV::Null,
        AstV::Node { value, left, right } => {
            let p1 = eval_pure(*left, ram, elen);
            let p2 = eval_pure(*right, ram, elen);
            let fuel = fuel_of_len(elen);
            match value {
                ParamV::PlusOperation => function::add_spec(p1, p2, Some(ram), fuel),
                ParamV::MinusOperation => function::minus_spec(p1, p2, Some(ram), fuel),
                ParamV::MultiplicationOperation => function::mult_spec(p1, p2, Some(ram), fuel),
                ParamV::DivideOperation => function::divide_spec(p1, p2, Some(ram), fuel),
                ParamV::ExpoOperation => function::expo_spec(p1, p2, Some(ram), fuel),
                ParamV::Equal => function::equal_spec(p1, p2, Some(ram), fuel),
                ParamV::Not => function::not_spec(p1, p2, Some(ram), fuel),
                ParamV::GreaterOperation => function::greater_spec(p1, p2, Some(ram), fuel),
                ParamV::GreaterOrEqualOperation => function::greater_or_equal_spec(
                    p1,
                    p2,
                    Some(ram),
                    fuel,
                ),
                ParamV::LesserOperation => function::lesser_spec(p1, p2, Some(ram), fuel),
                ParamV::LesserOrEqualOperation => function::lesser_or_equal_spec(
                    p1,
                    p2,
                    Some(ram),
                    fuel,
                ),
                ParamV::AndOperation => function::and_spec(p1, p2, Some(ram), fuel),
                ParamV::OrOperation => function::or_spec(p1, p2, Some(ram), fuel),
                ParamV::Str(s) => ParamV::Str(s),
                ParamV::Assign => ParamV::Null,
                ParamV::Float(f) => ParamV::Float(f),
                ParamV::Int(i) => ParamV::Int(i),
                ParamV::Rational(x) => ParamV::Rational(x),
                ParamV::Identifier(s) => resolve_spec(s, ram, fuel_of_len(elen)),
                ParamV::Bool(b) => ParamV::Bool(b),
                ParamV::Null => ParamV::Null,
                ParamV::Vector(l) => ParamV::InterpreterVector(eval_pure_seq(l, ram, elen)),
                ParamV::InterpreterVector(l) => ParamV::InterpreterVector(l),
            }
        },
        AstV::Call { name, lst } => ParamV::Null,
    }
}

/// The evaluations of a sequence of pure expressions, in order.
pub open spec fn eval_pure_seq(s: Seq<AstV>, ram: Map<Seq<char>, ParamV>, elen: nat) -> Seq<
    ParamV,
>
    decreases s,
{
    if s.len() == 0 {
        Seq::empty()
    } else {
        seq![eval_pure(s[0], ram, elen)] + eval_pure_seq(s.drop_first(), ram, elen)
    }
}

proof fn lemma_eval_pure_seq_index(s: Seq<AstV>, ram: Map<Seq<char>, ParamV>, elen: nat)
    ensures
        eval_pure_seq(s, ram, elen).len() == s.len(),
        forall|k: int|
            0 <= k < s.len() ==> eval_pure_seq(s, ram, elen)[k] == eval_pure(s[k], ram, elen),
    decreases s.len(),
{
    if s.len() > 0 {
        lemma_eval_pure_seq_index(s.drop_first(), ram, elen);
    }
}

proof fn lemma_pure_ast_seq_index(s: Seq<AstV>)
    requires
        pure_ast_seq(s),
    ensures
        forall|k: int| 0 <= k < s.len() ==> pure_ast(#[trigger] s[k]),
    decreases s.len(),
{
    if s.len() > 0 {
        lemma_pure_ast_seq_index(s.drop_first());
        assert(forall|k: int| 1 <= k < s.len() ==> s.drop_first()[k - 1] == s[k]);
    }
}

/// A node that assigns a pure expression to a plain variable name.
pub open spec fn is_var_assign(a: AstV) -> bool {
    &&& a is Node
    &&& a->Node_value is Assign
    &&& (*a->Node_left) is Node
    &&& (*a->Node_left)->Node_value is Identifier
    &&& ((*a->Node_left)->Node_value)->Identifier_0.len() > 0
    &&& (*(*a->Node_left)->Node_left) is Nil
    &&& (*(*a->Node_left)->Node_right) is Nil
    &&& pure_ast(*a->Node_right)
}

/// The name such an assignment binds.
pub open spec fn assign_name(a: AstV) -> Seq<char> {
    ((*a->Node_left)->Node_value)->Identifier_0
}

/// The expression it binds the name to.
pub open spec fn assign_rhs(a: AstV) -> AstV {
    *a->Node_right
}

/// A node that defines a function: a call-shaped left side under an
/// assignment, with pure formal-parameter expressions and a pure body.
pub open spec fn is_fun_def(a: AstV) -> bool {
    &&& a is Node
    &&& a->Node_value is Assign
    &&& (*a->Node_left) is Call
    &&& pure_ast_seq((*a->Node_left)->Call_lst)
    &&& pure_ast(*a->Node_right)
}

/// The name such a definition binds.
pub open spec fn fun_def_name(a: AstV) -> Seq<char> {
    (*a->Node_left)->Call_name
}

/// The definition it stores: the formal parameter expressions and the
/// body.
pub open spec fn fun_def_value(a: AstV) -> crate::interpreting::environment::FunctionDefV {
    crate::interpreting::environment::FunctionDefV {
        params: (*a->Node_left)->Call_lst,
        body: *a->Node_right,
    }
}

/// Evaluates one expression: the result value, with the variable and
/// function environments updated by any assignment or definition inside
/// it.
pub fn interpret(
    ast: &Ast,
    ram: &mut AssocMap<Parameters>,
    function: &mut AssocMap<FunctionDef>,
) -> (r: Parameters)
    ensures
        pure_ast(ast@) ==> r@ == eval_pure(ast@, old(ram)@, old(ram).spec_len()) && final(ram)@
            == old(ram)@ && final(ram).spec_len() == old(ram).spec_len() && final(function)@
            == old(function)@ && final(function).spec_len() == old(function).spec_len(),
        is_var_assign(ast@) ==> final(ram)@ == old(ram)@.insert(
            assign_name(ast@),
            eval_pure(assign_rhs(ast@), old(ram)@, old(ram).spec_len()),
        ) && final(ram).spec_len() == old(ram).spec_len() + 1 && r@ is Identifier && final(function)@ == old(function)@ && (
        crate::parsing::pretty::is_scalar(
            eval_pure(assign_rhs(ast@), old(ram)@, old(ram).spec_len()),
        ) ==> r@ == ParamV::Identifier(
            "@ "@ + assign_name(ast@) + " = "@ + crate::parsing::pretty::scalar_text(
                eval_pure(assign_rhs(ast@), old(ram)@, old(ram).spec_len()),
            ),
        )),
        (ast@ matches AstV::Call { name: cn, lst: cl } && pure_ast_seq(cl)) ==> (final(ram)@
            == old(ram)@ && final(ram).spec_len() == old(ram).spec_len() && final(function)@
            == old(function)@ && final(function).spec_len() == old(function).spec_len()),
        (ast@ is Call && pure_ast_seq(ast@->Call_lst) && (ast@->Call_name == "fact"@
            || ast@->Call_name == "factorial"@)) ==> r@
            == crate::interpreting::stdlib::factorial_spec(
            eval_pure_seq(ast@->Call_lst, old(ram)@, old(ram).spec_len()),
            Some(old(ram)@),
            fuel_of_len(old(ram).spec_len()),
        ),
        (ast@ is Call && pure_ast_seq(ast@->Call_lst) && ast@->Call_name == "abs"@) ==> r@
            == crate::interpreting::stdlib::abs_bi_spec(
            eval_pure_seq(ast@->Call_lst, old(ram)@, old(ram).spec_len()),
            Some(old(ram)@),
            fuel_of_len(old(ram).spec_len()),
        ),
        (ast@ is Call && pure_ast_seq(ast@->Call_lst) && ast@->Call_name == "ceil"@) ==> r@
            == crate::interpreting::stdlib::ceil_spec(
            eval_pure_seq(ast@->Call_lst, old(ram)@, old(ram).spec_len()),
            Some(old(ram)@),
            fuel_of_len(old(ram).spec_len()),
        ),
        (ast@ is Call && pure_ast_seq(ast@->Call_lst) && ast@->Call_name == "floor"@) ==> r@
            == crate::interpreting::stdlib::floor_spec(
            eval_pure_seq(ast@->Call_lst, old(ram)@, old(ram).spec_len()),
            Some(old(ram)@),
            fuel_of_len(old(ram).spec_len()),
        ),
        (ast@ is Call && pure_ast_seq(ast@->Call_lst) && ast@->Call_name == "round"@) ==> r@
            == crate::interpreting::stdlib::round_spec(
            eval_pure_seq(ast@->Call_lst, old(ram)@, old(ram).spec_len()),
            Some(old(ram)@),
            fuel_of_len(old(ram).spec_len()),
        ),
        (ast@ is Call && pure_ast_seq(ast@->Call_lst)
            && !crate::interpreting::stdlib::is_builtin_name(ast@->Call_name)
            && !old(function)@.contains_key(ast@->Call_name)) ==> r@ == ParamV::Identifier(
            crate::interpreting::stdlib::unknown_msg(),
        ),
        (ast@ is Call && pure_ast_seq(ast@->Call_lst)
            && !crate::interpreting::stdlib::is_builtin_name(ast@->Call_name)
            && old(function)@.contains_key(ast@->Call_name) && pure_ast(
            old(function)@[ast@->Call_name].body,
        )) ==> r@ == crate::interpreting::stdlib::user_fn_result(
            old(function)@[ast@->Call_name],
            eval_pure_seq(ast@->Call_lst, old(ram)@, old(ram).spec_len()),
        ),
        (is_fun_def(ast@) && fun_def_name(ast@).len() > 0 && !old(function)@.contains_key(
            fun_def_name(ast@),
        )) ==> (final(function)@ == old(function)@.insert(fun_def_name(ast@), fun_def_value(ast@))
            && final(ram)@ == old(ram)@ && final(ram).spec_len() == old(ram).spec_len() && r@
            == ParamV::Identifier("@The function "@ + fun_def_name(ast@) + " has been set"@)),
        (is_fun_def(ast@) && old(function)@.contains_key(fun_def_name(ast@))) ==> (final(function)@
            == old(function)@ && final(ram)@ == old(ram)@ && r@ == ParamV::Str(
            "This function has already been set"@,
        )),
{
    let lf: u64 = function.len() as u64;
    let fuel: u64 = if lf > 0xffff_ffff_ffff_fff0 {
        u64::MAX
    } else {
        lf + 2
    };
    interpret_fuel(ast, ram, function, fuel)
}


/// Looks a name up in the environment, following chains of name-to-name
/// bindings; an unbound name comes back unchanged.
fn resolve_name(s: String, ram: &AssocMap<Parameters>, fuel: u64) -> (r: Parameters)
    ensures
        r@ == resolve_spec(s@, ram@, fuel as nat),
    decreases fuel,
{
    match ram.get(&s) {
        None => Parameters::Identifier(s),
        Some(v) => {
            if fuel > 0 {
                match v {
                    Parameters::Identifier(s2) => resolve_name(s2.clone(), ram, fuel - 1),
                    _ => v.deep_clone(),
                }
            } else {
                Parameters::Identifier(s)
            }
        },
    }
}

/// Performs an assignment node: a call-shaped left side defines a user
/// function; a name binds the evaluated right side; anything else binds
/// nothing.  The result is the displayable note about what happened.
fn assign_node(
    left: &Ast,
    right: &Ast,
    param1: Parameters,
    param2: Parameters,
    ram: &mut AssocMap<Parameters>,
    function: &mut AssocMap<FunctionDef>,
) -> (r: Parameters)
    ensures
        (left@ is Node && left@->Node_value is Identifier
            && left@->Node_value->Identifier_0.len() > 0) ==> (final(ram)@ == old(ram)@.insert(
            left@->Node_value->Identifier_0,
            param2@,
        ) && final(ram).spec_len() == old(ram).spec_len() + 1 && r@ is Identifier
            && final(function)@ == old(function)@
            && final(function).spec_len() == old(function).spec_len() && (
        crate::parsing::pretty::is_scalar(param2@) ==> r@ == ParamV::Identifier(
            "@ "@ + left@->Node_value->Identifier_0 + " = "@ + crate::parsing::pretty::scalar_text(
                param2@,
            ),
        ))),
        (left@ is Call && left@->Call_name.len() > 0 && !old(function)@.contains_key(
            left@->Call_name,
        )) ==> (final(function)@ == old(function)@.insert(
            left@->Call_name,
            (crate::interpreting::environment::FunctionDefV {
                params: left@->Call_lst,
                body: right@,
            }),
        ) && final(ram)@ == old(ram)@ && final(ram).spec_len() == old(ram).spec_len() && r@
            == ParamV::Identifier("@The function "@ + left@->Call_name + " has been set"@)),
        (left@ is Call && old(function)@.contains_key(left@->Call_name)) ==> (final(function)@
            == old(function)@ && final(ram)@ == old(ram)@ && r@ == ParamV::Str(
            "This function has already been set"@,
        )),
        (left@ is Call && left@->Call_name.len() == 0 && !old(function)@.contains_key(
            left@->Call_name,
        )) ==> (final(function)@ == old(function)@ && final(ram)@ == old(ram)@ && r@
            == ParamV::Identifier("@The function "@ + left@->Call_name + " has been set"@)),
{
    match left {
        Ast::Call { name: n, lst: list } => {
            if function.contains_key(n) {
                Parameters::Str(String::from_str("This function has already been set"))
            } else {
                if !n.as_str().is_empty() {
                    let mut params: Vec<Ast> = Vec::new();
                    let mut i: usize = 0;
                    while i < list.len()
                        invariant
                            i <= list@.len(),
                            params@.len() == i,
                            aview_seq(params@) =~= aview_seq(list@.subrange(0, i as int)),
                        decreases list@.len() - i,
                    {
                        let ghost pre = params@;
                        params.push(list[i].deep_clone());
                        proof {
                            assert(params@.drop_last() =~= pre);
                            assert(list@.subrange(0, i as int + 1).drop_last() =~= list@.subrange(
                                0,
                                i as int,
                            ));
                            assert(aview_seq(params@) =~= aview_seq(
                                list@.subrange(0, i as int + 1),
                            ));
                        }
                        i += 1;
                    }
                    proof {
                        assert(list@.subrange(0, list@.len() as int) =~= list@);
                    }
                    function.insert(n.clone(), FunctionDef { params, body: right.deep_clone() });
                }
                let mut msg = String::from_str("@The function ");
                msg.append(n.as_str());
                msg.append(" has been set");
                proof {
                    assert(msg@ =~= "@The function "@ + n@ + " has been set"@);
                }
                Parameters::Identifier(msg)
            }
        },
        _ => {
            let name: String = match left {
                Ast::Node { value, left: _, right: _ } => {
                    proof {
                        assert(left@ matches AstV::Node { value: lv, left: l9, right: r9 } && lv
                            == (*value)@);
                    }
                    match value {
                        Parameters::Identifier(s2) => s2.clone(),
                        _ => match &param1 {
                            Parameters::Identifier(s3) => s3.clone(),
                            _ => String::new(),
                        },
                    }
                },
                _ => match &param1 {
                    Parameters::Identifier(s3) => s3.clone(),
                    _ => String::new(),
                },
            };
            let bound = param2.deep_clone();
            if !name.as_str().is_empty() {
                ram.insert(name.clone(), param2);
            }
            let shown = bound.pretty_print(Some(&*ram), Some(&*function));
            let mut msg = String::from_str("@ ");
            msg.append(name.as_str());
            msg.append(" = ");
            msg.append(shown.as_str());
            proof {
                assert(msg@ =~= "@ "@ + name@ + " = "@ + shown@);
            }
            Parameters::Identifier(msg)
        },
    }
}


/// Evaluates the elements of a vector literal in order, threading the
/// environments through; where every element is pure, the results are
/// their pure evaluations and the environments are untouched.
#[verifier::loop_isolation(false)]
fn eval_vector_elements(
    lst: &Vec<Ast>,
    ram: &mut AssocMap<Parameters>,
    function: &mut AssocMap<FunctionDef>,
    fuel: u64,
) -> (vec: Vec<Parameters>)
    ensures
        pure_ast_seq(aview_seq(lst@)) ==> (crate::parsing::ast::pview_seq(vec@) == eval_pure_seq(
            aview_seq(lst@),
            old(ram)@,
            old(ram).spec_len(),
        ) && final(ram)@ == old(ram)@ && final(ram).spec_len() == old(ram).spec_len()
            && final(function)@ == old(function)@
            && final(function).spec_len() == old(function).spec_len()),
    decreases fuel, 1 + crate::parsing::ast::aheight_seq(aview_seq(lst@)), 1nat,
{
    let ghost sv = aview_seq(lst@);
    let ghost ram0 = old(ram)@;
    let ghost elen0 = old(ram).spec_len();
    let ghost fun0 = old(function)@;
    let ghost flen0 = old(function).spec_len();
    let ghost pure = pure_ast_seq(sv);
    proof {
        lemma_aview_seq(lst@);
        lemma_eval_pure_seq_index(sv, ram0, elen0);
        if pure {
            lemma_pure_ast_seq_index(sv);
        }
    }
    let mut vec: Vec<Parameters> = Vec::new();
    let mut i: usize = 0;
    while i < lst.len()
        invariant
            i <= lst@.len(),
            vec@.len() == i,
            crate::parsing::ast::pview_seq(vec@).len() == i,
            pure ==> ram@ == ram0 && ram.spec_len() == elen0 && function@ == fun0
                && function.spec_len() == flen0,
            pure ==> forall|k: int|
                0 <= k < i ==> crate::parsing::ast::pview_seq(vec@)[k] == eval_pure(
                    sv[k],
                    ram0,
                    elen0,
                ),
        decreases lst@.len() - i,
    {
        proof {
            lemma_aheight_seq_elem(sv, i as int);
        }
        let ghost pre = vec@;
        let v = interpret_fuel(&lst[i], ram, function, fuel);
        vec.push(v);
        proof {
            crate::parsing::ast::lemma_pview_seq(pre);
            crate::parsing::ast::lemma_pview_seq(vec@);
            assert(vec@.drop_last() =~= pre);
            assert(forall|k: int|
                0 <= k < i ==> crate::parsing::ast::pview_seq(vec@)[k]
                    == crate::parsing::ast::pview_seq(pre)[k]);
        }
        i += 1;
    }
    proof {
        crate::parsing::ast::lemma_pview_seq(vec@);
        if pure {
            assert(crate::parsing::ast::pview_seq(vec@) =~= eval_pure_seq(sv, ram0, elen0));
        }
    }
    vec
}

#[verifier::loop_isolation(false)]
#[verifier::rlimit(100)]
#[verifier::spinoff_prover]
pub(crate) fn interpret_fuel(
    ast: &Ast,
    ram: &mut AssocMap<Parameters>,
    function: &mut AssocMap<FunctionDef>,
    fuel: u64,
) -> (r: Parameters)
    ensures
        pure_ast(ast@) ==> r@ == eval_pure(ast@, old(ram)@, old(ram).spec_len()) && final(ram)@
            == old(ram)@ && final(ram).spec_len() == old(ram).spec_len() && final(function)@
            == old(function)@ && final(function).spec_len() == old(function).spec_len(),
        is_var_assign(ast@) ==> final(ram)@ == old(ram)@.insert(
            assign_name(ast@),
            eval_pure(assign_rhs(ast@), old(ram)@, old(ram).spec_len()),
        ) && final(ram).spec_len() == old(ram).spec_len() + 1 && r@ is Identifier && final(function)@ == old(function)@ && (
        crate::parsing::pretty::is_scalar(
            eval_pure(assign_rhs(ast@), old(ram)@, old(ram).spec_len()),
        ) ==> r@ == ParamV::Identifier(
            "@ "@ + assign_name(ast@) + " = "@ + crate::parsing::pretty::scalar_text(
                eval_pure(assign_rhs(ast@), old(ram)@, old(ram).spec_len()),
            ),
        )),
        (ast@ matches AstV::Call { name: cn, lst: cl } && pure_ast_seq(cl)) ==> (final(ram)@
            == old(ram)@ && final(ram).spec_len() == old(ram).spec_len() && final(function)@
            == old(function)@ && final(function).spec_len() == old(function).spec_len()),
        (ast@ is Call && pure_ast_seq(ast@->Call_lst) && (ast@->Call_name == "fact"@
            || ast@->Call_name == "factorial"@)) ==> r@
            == crate::interpreting::stdlib::factorial_spec(
            eval_pure_seq(ast@->Call_lst, old(ram)@, old(ram).spec_len()),
            Some(old(ram)@),
            fuel_of_len(old(ram).spec_len()),
        ),
        (ast@ is Call && pure_ast_seq(ast@->Call_lst) && ast@->Call_name == "abs"@) ==> r@
            == crate::interpreting::stdlib::abs_bi_spec(
            eval_pure_seq(ast@->Call_lst, old(ram)@, old(ram).spec_len()),
            Some(old(ram)@),
            fuel_of_len(old(ram).spec_len()),
        ),
        (ast@ is Call && pure_ast_seq(ast@->Call_lst) && ast@->Call_name == "ceil"@) ==> r@
            == crate::interpreting::stdlib::ceil_spec(
            eval_pure_seq(ast@->Call_lst, old(ram)@, old(ram).spec_len()),
            Some(old(ram)@),
            fuel_of_len(old(ram).spec_len()),
        ),
        (ast@ is Call && pure_ast_seq(ast@->Call_lst) && ast@->Call_name == "floor"@) ==> r@
            == crate::interpreting::stdlib::floor_spec(
            eval_pure_seq(ast@->Call_lst, old(ram)@, old(ram).spec_len()),
            Some(old(ram)@),
            fuel_of_len(old(ram).spec_len()),
        ),
        (ast@ is Call && pure_ast_seq(ast@->Call_lst) && ast@->Call_name == "round"@) ==> r@
            == crate::interpreting::stdlib::round_spec(
            eval_pure_seq(ast@->Call_lst, old(ram)@, old(ram).spec_len()),
            Some(old(ram)@),
            fuel_of_len(old(ram).spec_len()),
        ),
        (ast@ is Call && pure_ast_seq(ast@->Call_lst)
            && !crate::interpreting::stdlib::is_builtin_name(ast@->Call_name)
            && !old(function)@.contains_key(ast@->Call_name)) ==> r@ == ParamV::Identifier(
            crate::interpreting::stdlib::unknown_msg(),
        ),
        (ast@ is Call && pure_ast_seq(ast@->Call_lst)
            && !crate::interpreting::stdlib::is_builtin_name(ast@->Call_name)
            && old(function)@.contains_key(ast@->Call_name) && pure_ast(
            old(function)@[ast@->Call_name].body,
        ) && fuel >= 1) ==> r@ == crate::interpreting::stdlib::user_fn_result(
            old(function)@[ast@->Call_name],
            eval_pure_seq(ast@->Call_lst, old(ram)@, old(ram).spec_len()),
        ),
        (is_fun_def(ast@) && fun_def_name(ast@).len() > 0 && !old(function)@.contains_key(
            fun_def_name(ast@),
        )) ==> (final(function)@ == old(function)@.insert(fun_def_name(ast@), fun_def_value(ast@))
            && final(ram)@ == old(ram)@ && final(ram).spec_len() == old(ram).spec_len() && r@
            == ParamV::Identifier("@The function "@ + fun_def_name(ast@) + " has been set"@)),
        (is_fun_def(ast@) && old(function)@.contains_key(fun_def_name(ast@))) ==> (final(function)@
            == old(function)@ && final(ram)@ == old(ram)@ && r@ == ParamV::Str(
            "This function has already been set"@,
        )),
    decreases fuel, aheight(ast@), 0nat,
{
    match ast {
        Ast::Nil => Parameters::Null,
        Ast::Node { value, left, right } => {
            proof {
                assert(ast@ matches AstV::Node { value: v2, left: l2, right: r2 } && *l2 == (
                **left)@ && *r2 == (**right)@ && v2 == (*value)@);
                if pure_ast(ast@) {
                    assert(pure_ast((**left)@));
                    assert(pure_ast((**right)@));
                }
                if is_fun_def(ast@) {
                    assert((**left)@ matches AstV::Call { name: cn, lst: cl } && pure_ast_seq(cl));
                    assert(pure_ast((**right)@));
                }
                if is_var_assign(ast@) {
                    let lv = (**left)@;
                    assert(lv matches AstV::Node { value: vv, left: l3, right: r3 } && vv
                        is Identifier && *l3 is Nil && *r3 is Nil);
                    assert(pure_param(lv->Node_value));
                    assert(pure_ast(AstV::Nil));
                    assert(pure_ast(lv));
                    assert(pure_ast((**right)@));
                }
            }
            let param1 = interpret_fuel(left, ram, function, fuel);
            let param2 = interpret_fuel(right, ram, function, fuel);
            match value {
                Parameters::PlusOperation => function::add(param1, param2, Some(&*ram)),
                Parameters::MinusOperation => function::minus(param1, param2, Some(&*ram)),
                Parameters::MultiplicationOperation => function::mult(param1, param2, Some(&*ram)),
                Parameters::DivideOperation => function::divide(param1, param2, Some(&*ram)),
                Parameters::ExpoOperation => function::expo(param1, param2, Some(&*ram)),
                Parameters::Equal => function::equal(param1, param2, Some(&*ram)),
                Parameters::Not => function::not(param1, param2, Some(&*ram)),
                Parameters::GreaterOperation => function::greater(param1, param2, Some(&*ram)),
                Parameters::GreaterOrEqualOperation => function::greater_or_equal(
                    param1,
                    param2,
                    Some(&*ram),
                ),
                Parameters::LesserOperation => function::lesser(param1, param2, Some(&*ram)),
                Parameters::LesserOrEqualOperation => function::lesser_or_equal(
                    param1,
                    param2,
                    Some(&*ram),
                ),
                Parameters::AndOperation => function::and(param1, param2, Some(&*ram)),
                Parameters::OrOperation => function::or(param1, param2, Some(&*ram)),
                Parameters::Str(s) => Parameters::Str(s.clone()),
                Parameters::Assign => assign_node(left, right, param1, param2, ram, function),
                Parameters::Float(f) => Parameters::Float(*f),
                Parameters::Int(i) => Parameters::Int(*i),
                Parameters::Rational(x) => Parameters::Rational(*x),
                Parameters::Identifier(s) => {
                    let fuel2 = crate::interpreting::function::fuel_for(Some(&*ram));
                    resolve_name(s.clone(), &*ram, fuel2)
                },
                Parameters::Bool(b) => Parameters::Bool(*b),
                Parameters::Null => Parameters::Null,
                Parameters::Vector(a) => {
                    let lst: &Vec<Ast> = a;
                    let ghost pure = pure_ast(ast@);
                    proof {
                        assert((*value)@ == ParamV::Vector(aview_seq(lst@)));
                        assert(crate::parsing::ast::pheight((*value)@) == 1
                            + crate::parsing::ast::aheight_seq(aview_seq(lst@)));
                        assert(aheight(ast@) >= 1 + crate::parsing::ast::pheight((*value)@));
                        if pure {
                            assert(pure_param(ParamV::Vector(aview_seq(lst@))));
                            assert(pure_ast_seq(aview_seq(lst@)));
                        }
                    }
                    let vec = eval_vector_elements(lst, ram, function, fuel);
                    Parameters::InterpreterVector(Box::new(vec))
                },
                Parameters::InterpreterVector(a) => {
                    let lst: &Vec<Parameters> = a;
                    let mut vec: Vec<Parameters> = Vec::new();
                    let mut i: usize = 0;
                    while i < lst.len()
                        invariant
                            i <= lst@.len(),
                            vec@.len() == i,
                            crate::parsing::ast::pview_seq(vec@) =~= crate::parsing::ast::pview_seq(
                                lst@.subrange(0, i as int),
                            ),
                        decreases lst@.len() - i,
                    {
                        let ghost pre = vec@;
                        vec.push(lst[i].deep_clone());
                        proof {
                            assert(vec@.drop_last() =~= pre);
                            assert(lst@.subrange(0, i as int + 1).drop_last() =~= lst@.subrange(
                                0,
                                i as int,
                            ));
                        }
                        i += 1;
                    }
                    proof {
                        assert(lst@.subrange(0, lst@.len() as int) =~= lst@);
                    }
                    Parameters::InterpreterVector(Box::new(vec))
                },
            }
        },
        Ast::Call { name, lst } => {
            let ghost sv = aview_seq(lst@);
            let ghost ram0 = ram@;
            let ghost elen0 = ram.spec_len();
            let ghost fun0 = function@;
            let ghost flen0 = function.spec_len();
            let ghost pure_args = pure_ast_seq(sv);
            proof {
                lemma_aview_seq(lst@);
                lemma_eval_pure_seq_index(sv, ram0, elen0);
                if pure_args {
                    lemma_pure_ast_seq_index(sv);
                }
            }
            let mut v: Vec<Parameters> = Vec::new();
            let mut i: usize = 0;
            while i < lst.len()
                invariant
                    i <= lst@.len(),
                    v@.len() == i,
                    crate::parsing::ast::pview_seq(v@).len() == i,
                    pure_args ==> ram@ == ram0 && ram.spec_len() == elen0 && function@ == fun0
                        && function.spec_len() == flen0,
                    pure_args ==> forall|k: int|
                        0 <= k < i ==> crate::parsing::ast::pview_seq(v@)[k] == eval_pure(
                            sv[k],
                            ram0,
                            elen0,
                        ),
                decreases lst@.len() - i,
            {
                proof {
                    lemma_aheight_seq_elem(sv, i as int);
                }
                let ghost pre = v@;
                let x = interpret_fuel(&lst[i], ram, function, fuel);
                v.push(x);
                proof {
                    crate::parsing::ast::lemma_pview_seq(pre);
                    crate::parsing::ast::lemma_pview_seq(v@);
                    assert(v@.drop_last() =~= pre);
                    assert(forall|k: int|
                        0 <= k < i ==> crate::parsing::ast::pview_seq(v@)[k]
                            == crate::parsing::ast::pview_seq(pre)[k]);
                }
                i += 1;
            }
            proof {
                crate::parsing::ast::lemma_pview_seq(v@);
                if pure_args {
                    assert(crate::parsing::ast::pview_seq(v@) =~= eval_pure_seq(sv, ram0, elen0));
                }
            }
            crate::interpreting::stdlib::exec_fuel(
                name.clone(),
                v,
                Some(&*ram),
                Some(&*function),
                fuel,
            )
        },
    }
}

/// An expression naming an unbound identifier still evaluates: the name
/// comes back as a recoverable placeholder value rather than an error,
/// and evaluating it leaves the environments untouched, so the session
/// stays usable.
pub proof fn lemma_unbound_identifier_recovers(
    name: Seq<char>,
    ram: Map<Seq<char>, ParamV>,
    elen: nat,
)
    requires
        !ram.contains_key(name),
    ensures
        eval_pure(
            AstV::Node {
                value: ParamV::Identifier(name),
                left: Box::new(AstV::Nil),
                right: Box::new(AstV::Nil),
            },
            ram,
            elen,
        ) == ParamV::Identifier(name),
{
}

/// Printing a positive decimal value that reduces to a proper fraction
/// and reading the printed text back yields the same number, now carried
/// as an exact fraction value: the reduced text `o/u` tokenizes as o
/// divided by u, parses as the division node, evaluates to the fraction
/// o/u itself whatever the environment, and that fraction equals the
/// original value under the tower's numeric equality.
pub proof fn lemma_decimal_print_reparse(
    x: crate::exact_math::rationals::Rationals,
    ram: Map<Seq<char>, ParamV>,
    elen: nat,
)
    requires
        x.under >= 1,
        x.over >= 1,
        crate::exact_math::rationals::norm_frac(x.under as int, x.over as int).under >= 2,
    ensures
        ({
            let n = crate::exact_math::rationals::norm_frac(x.under as int, x.over as int);
            let toks = crate::lexing::lexer::lex_spec(crate::parsing::pretty::rat_text(x), 0);
            toks =~= seq![
                crate::lexing::token::TokenV::INT(n.over),
                crate::lexing::token::TokenV::OPE(crate::lexing::token::Operator::DIVIDE),
                crate::lexing::token::TokenV::INT(n.under),
            ] && eval_pure(crate::parsing::parser::parse_expr_spec(toks, 0, 0).0, ram, elen)
                == ParamV::Rational(n) && function::equal_spec(
                ParamV::Rational(n),
                ParamV::Float(x),
                Some(ram),
                fuel_of_len(elen),
            ) == ParamV::Bool(true)
        }),
{
    let n = crate::exact_math::rationals::norm_frac(x.under as int, x.over as int);
    crate::exact_math::rationals::lemma_norm_preserves_value(x);
    crate::lexing::lexer::lemma_fraction_text_lexes(n.over, n.under);
    assert(crate::parsing::pretty::rat_text(x) == crate::parsing::pretty::int_decimal(
        n.over as int,
    ) + seq!['/'] + crate::parsing::pretty::int_decimal(n.under as int));
    let t0 = crate::lexing::token::TokenV::INT(n.over);
    let t1 = crate::lexing::token::TokenV::OPE(crate::lexing::token::Operator::DIVIDE);
    let t2 = crate::lexing::token::TokenV::INT(n.under);
    let toks = seq![t0, t1, t2];
    assert(crate::lexing::lexer::lex_spec(crate::parsing::pretty::rat_text(x), 0) == toks);
    assert(crate::parsing::parser::peek_at(toks, 0) == t0);
    assert(crate::parsing::parser::peek_at(toks, 1) == t1);
    assert(crate::parsing::parser::peek_at(toks, 2) == t2);
    crate::parsing::parser::lemma_operator_token_payload(t1);
    let lo = crate::parsing::parser::leafv(ParamV::Int(n.over));
    let lu = crate::parsing::parser::leafv(ParamV::Int(n.under));
    assert(crate::parsing::parser::infix_loop_spec(toks, 3, lu, 5) == (lu, 3nat));
    assert(crate::parsing::parser::parse_expr_spec(toks, 2, 5) == (lu, 3nat));
    let node = AstV::Node {
        value: ParamV::DivideOperation,
        left: Box::new(lo),
        right: Box::new(lu),
    };
    assert(crate::parsing::parser::infix_loop_spec(toks, 3, node, 0) == (node, 3nat));
    assert(crate::parsing::parser::infix_loop_spec(toks, 1, lo, 0) == (node, 3nat));
    assert(crate::parsing::parser::parse_expr_spec(toks, 0, 0) == (node, 3nat));
    assert(eval_pure(lo, ram, elen) == ParamV::Int(n.over));
    assert(eval_pure(lu, ram, elen) == ParamV::Int(n.under));
    assert(eval_pure(node, ram, elen) == function::divide_spec(
        ParamV::Int(n.over),
        ParamV::Int(n.under),
        Some(ram),
        fuel_of_len(elen),
    ));
    assert(function::divide_spec(
        ParamV::Int(n.over),
        ParamV::Int(n.under),
        Some(ram),
        fuel_of_len(elen),
    ) == ParamV::Rational(
        crate::exact_math::rationals::Rationals { under: n.under, over: n.over },
    ));
    assert(crate::exact_math::rationals::Rationals { under: n.under, over: n.over } == n);
}

/// A bound name evaluates to its bound value: after an assignment, the
/// assigned name reads back as the value it was given.
pub proof fn lemma_bound_identifier_resolves(
    name: Seq<char>,
    ram: Map<Seq<char>, ParamV>,
    elen: nat,
)
    requires
        ram.contains_key(name),
        !(ram[name] is Identifier),
    ensures
        eval_pure(
            AstV::Node {
                value: ParamV::Identifier(name),
                left: Box::new(AstV::Nil),
                right: Box::new(AstV::Nil),
            },
            ram,
            elen,
        ) == ram[name],
{
    assert(fuel_of_len(elen) > 0);
}

} // verus!
