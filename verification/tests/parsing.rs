use mini_calc::lexing::lexer::lex;
use mini_calc::parsing::ast::Parameters::{DivideOperation, MultiplicationOperation, PlusOperation};
use mini_calc::parsing::ast::{Ast, Parameters};
use mini_calc::parsing::parser::{init_calc_parser, CalcParser};

#[test]
pub fn test_parse_nil() {
    let b = lex("".to_string());
    let parser: &mut CalcParser = &mut init_calc_parser(&b);
    let expected = Ast::Nil;
    let result = parser.parse();
    assert_eq!(result, expected);
}

#[test]
pub fn test_parse_one_token() {
    let b = lex("2".to_string());
    let parser: &mut CalcParser = &mut init_calc_parser(&b);
    let expected = Ast::Node {
        value: Parameters::Int(2),
        left: Box::new(Ast::Nil),
        right: Box::new(Ast::Nil),
    };

    let result = parser.parse();
    assert_eq!(result, expected);
}

#[test]
pub fn test_parse_plus_operation() {
    let b = lex("2+2".to_string());
    let parser: &mut CalcParser = &mut init_calc_parser(&b);
    let expected = Ast::Node {
        value: Parameters::PlusOperation,
        left: Box::new(Ast::new(Parameters::Int(2))),
        right: Box::new(Ast::new(Parameters::Int(2))),
    };
    let result = parser.parse();
    assert_eq!(result, expected)
}

#[test]
pub fn test_parse_plus_operation_hard() {
    let b = lex("1+1+1".to_string());
    let parser: &mut CalcParser = &mut init_calc_parser(&b);
    let expected = Ast::Node {
        value: Parameters::PlusOperation,
        left: Box::new(Ast::Node {
            value: Parameters::PlusOperation,
            left: Box::new(Ast::new(Parameters::Int(1))),
            right: Box::new(Ast::new(Parameters::Int(1))),
        }),
        right: Box::new(Ast::new(Parameters::Int(1))),
    };
    let result = parser.parse();
    assert_eq!(result, expected)
}

#[test]
pub fn test_parse_minus_operation() {
    let b = lex("2-2".to_string());
    let parser: &mut CalcParser = &mut init_calc_parser(&b);
    let expected = Ast::Node {
        value: Parameters::MinusOperation,
        left: Box::new(Ast::new(Parameters::Int(2))),
        right: Box::new(Ast::new(Parameters::Int(2))),
    };
    let result = parser.parse();
    assert_eq!(result, expected)
}

#[test]
pub fn test_parse_mult_operation() {
    let b = lex("2*2".to_string());
    let parser: &mut CalcParser = &mut init_calc_parser(&b);
    let expected = Ast::Node {
        value: Parameters::MultiplicationOperation,
        left: Box::new(Ast::new(Parameters::Int(2))),
        right: Box::new(Ast::new(Parameters::Int(2))),
    };
    let result = parser.parse();
    assert_eq!(result, expected)
}

#[test]
pub fn test_parse_mult_divide_operation() {
    let b = lex("2*2/2".to_string());
    let parser: &mut CalcParser = &mut init_calc_parser(&b);
    let expected = Ast::Node {
        value: Parameters::DivideOperation,
        left: Box::new(Ast::Node {
            value: Parameters::MultiplicationOperation,
            left: Box::new(Ast::new(Parameters::Int(2))),
            right: Box::new(Ast::new(Parameters::Int(2))),
        }),
        right: Box::new(Ast::new(Parameters::Int(2))),
    };
    let result = parser.parse();
    assert_eq!(result, expected)
}

#[test]
pub fn test_parse_hard_mult_operation() {
    let b = lex("2*2*2".to_string());
    let parser: &mut CalcParser = &mut init_calc_parser(&b);
    let expected = Ast::Node {
        value: Parameters::MultiplicationOperation,
        left: Box::new(Ast::Node {
            value: Parameters::MultiplicationOperation,
            left: Box::new(Ast::new(Parameters::Int(2))),
            right: Box::new(Ast::new(Parameters::Int(2))),
        }),
        right: Box::new(Ast::new(Parameters::Int(2))),
    };
    let result = parser.parse();
    assert_eq!(result, expected)
}

#[test]
pub fn test_parse_divide_operation() {
    let b = lex("2/2".to_string());
    let parser: &mut CalcParser = &mut init_calc_parser(&b);
    let expected = Ast::Node {
        value: Parameters::DivideOperation,
        left: Box::new(Ast::new(Parameters::Int(2))),
        right: Box::new(Ast::new(Parameters::Int(2))),
    };
    let result = parser.parse();
    assert_eq!(result, expected)
}

#[test]
pub fn test_assignment() {
    let b = lex("i=1".to_string());
    let parser: &mut CalcParser = &mut init_calc_parser(&b);
    let expected = Ast::Node {
        value: Parameters::Assign,
        left: Box::new(Ast::new(Parameters::Identifier("i".to_string()))),
        right: Box::new(Ast::new(Parameters::Int(1))),
    };
    let result = parser.parse();
    assert_eq!(result, expected);
}

#[test]
pub fn simple_parenthesis() {
    let b = lex("1+(1*1)".to_string());
    let parser: &mut CalcParser = &mut init_calc_parser(&b);
    let expected = Ast::Node {
        value: Parameters::PlusOperation,
        left: Box::new(Ast::new(Parameters::Int(1))),
        right: Box::new(Ast::Node {
            value: Parameters::MultiplicationOperation,
            left: Box::new(Ast::new(Parameters::Int(1))),
            right: Box::new(Ast::new(Parameters::Int(1))),
        }),
    };
    let result = parser.parse();
    assert_eq!(result, expected)
}

#[test]
pub fn hard_parenthesis() {
    let b = lex("1+(1*(1/1))".to_string());
    let parser: &mut CalcParser = &mut init_calc_parser(&b);
    let expected = Ast::Node {
        value: Parameters::PlusOperation,
        left: Box::new(Ast::new(Parameters::Int(1))),
        right: Box::new(Ast::Node {
            value: Parameters::MultiplicationOperation,
            left: Box::new(Ast::new(Parameters::Int(1))),
            right: Box::new(Ast::Node {
                value: Parameters::DivideOperation,
                left: Box::new(Ast::new(Parameters::Int(1))),
                right: Box::new(Ast::new(Parameters::Int(1))),
            }),
        }),
    };
    let result = parser.parse();
    assert_eq!(result, expected)
}

#[test]
pub fn without_parenthesis() {
    let b = lex("1+1*1".to_string());
    let parser: &mut CalcParser = &mut init_calc_parser(&b);
    let expected = Ast::Node {
        value: Parameters::PlusOperation,
        left: Box::new(Ast::new(Parameters::Int(1))),
        right: Box::new(Ast::Node {
            value: Parameters::MultiplicationOperation,
            left: Box::new(Ast::new(Parameters::Int(1))),
            right: Box::new(Ast::new(Parameters::Int(1))),
        }),
    };
    let result = parser.parse();
    assert_eq!(result, expected)
}

#[test]
pub fn hard_without_parenthesis() {
    let b = lex("1+1*1/1".to_string());
    let parser: &mut CalcParser = &mut init_calc_parser(&b);
    let expected = Ast::Node {
        value: PlusOperation,
        left: Box::new(Ast::new(Parameters::Int(1))),
        right: Box::new(Ast::Node {
            value: DivideOperation,
            left: Box::new(Ast::Node {
                value: MultiplicationOperation,
                left: Box::new(Ast::new(Parameters::Int(1))),
                right: Box::new(Ast::new(Parameters::Int(1))),
            }),
            right: Box::new(Ast::new(Parameters::Int(1))),
        }),
    };
    let result = parser.parse();
    assert_eq!(result, expected)
}

#[test]
pub fn test_left_priority() {
    let b = lex("1+2*2".to_string());
    let parser: &mut CalcParser = &mut init_calc_parser(&b);
    let expected = Ast::Node {
        value: Parameters::PlusOperation,
        left: Box::new(Ast::new(Parameters::Int(1))),
        right: Box::new(Ast::Node {
            value: Parameters::MultiplicationOperation,
            left: Box::new(Ast::new(Parameters::Int(2))),
            right: Box::new(Ast::new(Parameters::Int(2))),
        }),
    };
    let result = parser.parse();
    assert_eq!(result, expected)
}

#[test]
pub fn test_right_priority() {
    let b = lex("2*2+1".to_string());
    let parser = &mut init_calc_parser(&b);
    let expected = Ast::Node {
        value: Parameters::PlusOperation,
        left: Box::new(Ast::Node {
            value: Parameters::MultiplicationOperation,
            left: Box::new(Ast::new(Parameters::Int(2))),
            right: Box::new(Ast::new(Parameters::Int(2))),
        }),
        right: Box::new(Ast::new(Parameters::Int(1))),
    };
    let result = parser.parse();
    assert_eq!(result, expected)
}

#[test]
pub fn test_new() {
    let expected = Ast::Node {
        value: Parameters::Int(2),
        left: Box::new(Ast::Nil),
        right: Box::new(Ast::Nil),
    };
    let result = Ast::new(Parameters::Int(2));
    assert_eq!(result, expected)
}
