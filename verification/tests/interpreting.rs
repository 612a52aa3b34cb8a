use mini_calc::exact_math::rationals::Rationals;
use mini_calc::interpreting::environment::{AssocMap, FunctionDef};
use mini_calc::interpreting::interpreter::interpret;
use mini_calc::parsing::ast::{Ast, Parameters};

#[test]
fn test_interpreter_int() {
    let mut ram: AssocMap<Parameters> = AssocMap::new();
    let mut function: AssocMap<FunctionDef> = AssocMap::new();
    let expected = Parameters::Int(2);
    let ast = Ast::Node {
        value: Parameters::Int(2),
        left: Box::new(Ast::Nil),
        right: Box::new(Ast::Nil),
    };
    let result = interpret(&ast, &mut ram, &mut function);
    assert_eq!(result, expected)
}

#[test]
fn test_interpreter_float() {
    let mut ram: AssocMap<Parameters> = AssocMap::new();
    let mut function: AssocMap<FunctionDef> = AssocMap::new();
    let expected = Parameters::Float(Rationals::new(1, 2));
    let ast = Ast::Node {
        value: Parameters::Float(Rationals::new(1, 2)),
        left: Box::new(Ast::Nil),
        right: Box::new(Ast::Nil),
    };
    let result = interpret(&ast, &mut ram, &mut function);
    assert_eq!(result, expected)
}

#[test]
fn test_interpreter_plus_operation() {
    let mut ram: AssocMap<Parameters> = AssocMap::new();
    let mut function: AssocMap<FunctionDef> = AssocMap::new();
    let expected = Parameters::Int(2);
    let ast = Ast::Node {
        value: Parameters::PlusOperation,
        left: Box::new(Ast::new(Parameters::Int(1))),
        right: Box::new(Ast::new(Parameters::Int(1))),
    };
    let result = interpret(&ast, &mut ram, &mut function);
    assert_eq!(result, expected)
}

#[test]
fn test_interpreter_minus_operation() {
    let mut ram: AssocMap<Parameters> = AssocMap::new();
    let mut function: AssocMap<FunctionDef> = AssocMap::new();
    let expected = Parameters::Int(0);
    let ast = Ast::Node {
        value: Parameters::MinusOperation,
        left: Box::new(Ast::new(Parameters::Int(1))),
        right: Box::new(Ast::new(Parameters::Int(1))),
    };
    let result = interpret(&ast, &mut ram, &mut function);
    assert_eq!(result, expected)
}

#[test]
fn test_interpreter_mult_operation() {
    let mut ram: AssocMap<Parameters> = AssocMap::new();
    let mut function: AssocMap<FunctionDef> = AssocMap::new();
    let expected = Parameters::Int(1);
    let ast = Ast::Node {
        value: Parameters::MultiplicationOperation,
        left: Box::new(Ast::new(Parameters::Int(1))),
        right: Box::new(Ast::new(Parameters::Int(1))),
    };
    let result = interpret(&ast, &mut ram, &mut function);
    assert_eq!(result, expected)
}

#[test]
fn test_interpreter_divide_operation() {
    // Dividing two integers yields the exact unit fraction here: the
    // division operator carries integer quotients as rationals, and the
    // degenerate-fraction design (zero denominators get sentinel forms)
    // only works over the rational channel.
    let mut ram: AssocMap<Parameters> = AssocMap::new();
    let mut function: AssocMap<FunctionDef> = AssocMap::new();
    let expected = Parameters::Rational(Rationals::new(1, 1));
    let ast = Ast::Node {
        value: Parameters::DivideOperation,
        left: Box::new(Ast::new(Parameters::Int(1))),
        right: Box::new(Ast::new(Parameters::Int(1))),
    };
    let result = interpret(&ast, &mut ram, &mut function);
    assert_eq!(result, expected)
}
