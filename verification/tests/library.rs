use mini_calc::configuration::loader::{load_color, load_rgb_color, ColorSpec};
use mini_calc::exact_math::rationals::Rationals;
use mini_calc::interpreting::environment::{AssocMap, FunctionDef};
use mini_calc::interpreting::function::{add, divide, expo, greater, mult, not};
use mini_calc::interpreting::interpreter::interpret;
use mini_calc::interpreting::stdlib::{exec, fact};
use mini_calc::lexing::lexer::lex;
use mini_calc::parsing::ast::{Ast, Parameters};
use mini_calc::parsing::parser::init_calc_parser;
use mini_calc::parsing::pretty::i64_to_string;
use mini_calc::utils::integer_utils::gcd;
use mini_calc::utils::matrix_utils::transpose;

fn run(line: &str, ram: &mut AssocMap<Parameters>, fun: &mut AssocMap<FunctionDef>) -> Parameters {
    let tokens = lex(line.to_string());
    let mut parser = init_calc_parser(&tokens);
    let ast = parser.parse();
    interpret(&ast, ram, fun)
}

#[test]
fn rational_denominator_scaling() {
    let a = Rationals::new(3, 2);
    let b = Rationals::new(21, 14);
    assert_eq!(a, b);
}

#[test]
fn rational_sum_thirds() {
    let value = Rationals::new(3, 2).add(Rationals::new(3, 1));
    assert_eq!(value, Rationals::new(1, 1));
}

#[test]
fn assignment_then_lookup() {
    let mut ram: AssocMap<Parameters> = AssocMap::new();
    let mut fun: AssocMap<FunctionDef> = AssocMap::new();
    let first = run("i=1", &mut ram, &mut fun);
    match first {
        Parameters::Identifier(_) => (),
        other => panic!("assignment returned {:?}", other),
    }
    let direct = run("i", &mut ram, &mut fun);
    assert_eq!(direct, Parameters::Int(1));
    let looked = run("i+0", &mut ram, &mut fun);
    assert_eq!(looked, Parameters::Int(1));
}

#[test]
fn vector_elementwise_sum() {
    let v1 = Parameters::InterpreterVector(Box::new(vec![Parameters::Int(1), Parameters::Int(2)]));
    let v2 = Parameters::InterpreterVector(Box::new(vec![Parameters::Int(3), Parameters::Int(4)]));
    let expected =
        Parameters::InterpreterVector(Box::new(vec![Parameters::Int(4), Parameters::Int(6)]));
    assert_eq!(add(v1, v2, None), expected);
}

#[test]
fn transpose_involution() {
    let m = vec![vec![1i64, 2, 3], vec![4, 5, 6]];
    let back = transpose(transpose(m.clone()));
    assert_eq!(back, m);
}

#[test]
fn determinant_of_concrete_matrix() {
    let mut ram: AssocMap<Parameters> = AssocMap::new();
    let mut fun: AssocMap<FunctionDef> = AssocMap::new();
    let det = run("det([[1,2,3],[4,0,6],[7,8,9]])", &mut ram, &mut fun);
    assert_eq!(
        mini_calc::interpreting::function::equal(det, Parameters::Int(60), None),
        Parameters::Bool(true)
    );
}

#[test]
fn numeric_literal_round_trip() {
    let printed = i64_to_string(314);
    let mut ram: AssocMap<Parameters> = AssocMap::new();
    let mut fun: AssocMap<FunctionDef> = AssocMap::new();
    let before = run("314", &mut ram, &mut fun);
    let after = run(printed.as_str(), &mut ram, &mut fun);
    assert_eq!(before, after);
    assert_eq!(after, Parameters::Int(314));
}

#[test]
fn decimal_literal_round_trip() {
    let mut ram: AssocMap<Parameters> = AssocMap::new();
    let mut fun: AssocMap<FunctionDef> = AssocMap::new();
    let before = run("0.5", &mut ram, &mut fun);
    assert_eq!(before, Parameters::Float(Rationals::new(10, 5)));
    let printed = before.pretty_print(None, None);
    assert_eq!(printed.as_str(), "1/2");
    let after = run(printed.as_str(), &mut ram, &mut fun);
    assert_eq!(after, Parameters::Rational(Rationals::new(2, 1)));
    assert_eq!(
        mini_calc::interpreting::function::equal(after, before, None),
        Parameters::Bool(true)
    );
}

#[test]
fn user_function_body_cannot_call_other_user_functions() {
    let mut ram: AssocMap<Parameters> = AssocMap::new();
    let mut fun: AssocMap<FunctionDef> = AssocMap::new();
    let _ = run("g(x)=x+1", &mut ram, &mut fun);
    let _ = run("f(x)=g(x)", &mut ram, &mut fun);
    let r = run("f(1)", &mut ram, &mut fun);
    assert_eq!(
        r,
        Parameters::Identifier("This function is unknown".to_string())
    );
}

#[test]
fn unbound_identifier_is_recoverable() {
    let mut ram: AssocMap<Parameters> = AssocMap::new();
    let mut fun: AssocMap<FunctionDef> = AssocMap::new();
    let ghosted = run("nosuchname", &mut ram, &mut fun);
    assert_eq!(ghosted, Parameters::Identifier("nosuchname".to_string()));
    let still_works = run("1+1", &mut ram, &mut fun);
    assert_eq!(still_works, Parameters::Int(2));
}

#[test]
fn incompatible_operands_yield_note() {
    let r = add(
        Parameters::Str("a".to_string()),
        Parameters::Int(1),
        None,
    );
    assert_eq!(
        r,
        Parameters::Identifier(
            "@Those two values are incompatible with the + operator".to_string()
        )
    );
}

#[test]
fn unknown_function_yields_note() {
    let mut ram: AssocMap<Parameters> = AssocMap::new();
    let mut fun: AssocMap<FunctionDef> = AssocMap::new();
    let r = run("nofn(1)", &mut ram, &mut fun);
    assert_eq!(
        r,
        Parameters::Identifier("This function is unknown".to_string())
    );
}

#[test]
fn singular_matrix_determinant_is_zero() {
    let mut ram: AssocMap<Parameters> = AssocMap::new();
    let mut fun: AssocMap<FunctionDef> = AssocMap::new();
    let det = run("det([[1,2],[2,4]])", &mut ram, &mut fun);
    assert_eq!(det, Parameters::Int(0));
}

#[test]
fn integer_division_gives_fraction() {
    // An integer quotient is carried exactly as a fraction, so 1/1 is the
    // unit fraction rather than a rounded decimal.
    let r = divide(Parameters::Int(1), Parameters::Int(3), None);
    assert_eq!(r, Parameters::Rational(Rationals::new(3, 1)));
}

#[test]
fn exponent_is_exact() {
    let r = expo(Parameters::Int(2), Parameters::Int(10), None);
    assert_eq!(r, Parameters::Float(Rationals::new(1, 1024)));
    let inv = expo(Parameters::Int(2), Parameters::Int(-1), None);
    assert_eq!(inv, Parameters::Float(Rationals::new(2, 1)));
}

#[test]
fn factorial_of_five() {
    assert_eq!(fact(5), 120);
    let r = exec(
        "fact".to_string(),
        vec![Parameters::Int(5)],
        None,
        None,
    );
    assert_eq!(r, Parameters::Int(120));
}

#[test]
fn rounding_builtins() {
    let mut ram: AssocMap<Parameters> = AssocMap::new();
    let mut fun: AssocMap<FunctionDef> = AssocMap::new();
    let fl = run("floor(3.5)", &mut ram, &mut fun);
    assert_eq!(fl, Parameters::Float(Rationals::new(1, 3)));
    let ce = run("ceil(3.5)", &mut ram, &mut fun);
    assert_eq!(ce, Parameters::Float(Rationals::new(1, 4)));
    let ro = run("round(3.5)", &mut ram, &mut fun);
    assert_eq!(ro, Parameters::Float(Rationals::new(1, 4)));
    let plain = run("floor(7/2)", &mut ram, &mut fun);
    assert_eq!(plain, Parameters::Null);
}

#[test]
fn user_function_definition_and_call() {
    let mut ram: AssocMap<Parameters> = AssocMap::new();
    let mut fun: AssocMap<FunctionDef> = AssocMap::new();
    let defined = run("f(x)=x+1", &mut ram, &mut fun);
    match defined {
        Parameters::Identifier(_) => (),
        other => panic!("definition returned {:?}", other),
    }
    let called = run("f(41)", &mut ram, &mut fun);
    assert_eq!(called, Parameters::Int(42));
}

#[test]
fn comparison_and_logic() {
    let g = greater(Parameters::Int(3), Parameters::Int(2), None);
    assert_eq!(g, Parameters::Bool(true));
    let n = not(Parameters::Bool(true), Parameters::Null, None);
    assert_eq!(n, Parameters::Bool(false));
    let m = mult(
        Parameters::Int(3),
        Parameters::Rational(Rationals::new(3, 1)),
        None,
    );
    assert_eq!(m, Parameters::Rational(Rationals::new(1, 1)));
}

#[test]
fn gcd_of_known_pair() {
    assert_eq!(gcd(12, 18), 6);
    assert_eq!(gcd(17, 5), 1);
}

#[test]
fn printing_values() {
    assert_eq!(i64_to_string(0).as_str(), "0");
    assert_eq!(i64_to_string(-42).as_str(), "-42");
    let third = Parameters::Rational(Rationals::new(30, 10));
    assert_eq!(third.pretty_print(None, None).as_str(), "1/3");
    let whole = Parameters::Rational(Rationals::new(5, 10));
    assert_eq!(whole.pretty_print(None, None).as_str(), "2");
    let vec2 = Parameters::InterpreterVector(Box::new(vec![
        Parameters::Int(1),
        Parameters::Int(2),
    ]));
    assert_eq!(vec2.pretty_print(None, None).as_str(), "|1 2|");
}

#[test]
fn hex_colors() {
    assert_eq!(load_rgb_color("ff00a0"), (255, 0, 160));
    assert_eq!(load_color("blue".to_string()), ColorSpec::Blue);
    assert_eq!(load_color("#102030".to_string()), ColorSpec::Rgb(16, 32, 48));
    assert_eq!(load_color("nonsense".to_string()), ColorSpec::Cyan);
}

#[test]
fn quoted_strings_parse() {
    let mut ram: AssocMap<Parameters> = AssocMap::new();
    let mut fun: AssocMap<FunctionDef> = AssocMap::new();
    let s = run("\"hello world\"", &mut ram, &mut fun);
    assert_eq!(s, Parameters::Str("hello world".to_string()));
}

#[test]
fn greeting_placeholders_fill_in() {
    let s = mini_calc::configuration::loader::replace_variable(
        "Calc %version% by %author%".to_string(),
    );
    assert_eq!(s.as_str(), "Calc v2.7.0 by Charlotte Thomas");
}
