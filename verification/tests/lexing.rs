use mini_calc::exact_math::rationals::Rationals;
use mini_calc::lexing::lexer::is_an_allowed_char;
use mini_calc::lexing::lexer::lex;
use mini_calc::lexing::token::Operator::{DIVIDE, MINUS, MULTIPLICATION, PLUS};
use mini_calc::lexing::token::Token::{EQUAL, FLOAT, IDENTIFIER, INT, LPAR, OPE, RPAR};

#[test]
fn lex_plus() {
    let mut expected = Vec::new();
    expected.push(OPE(PLUS));
    let result = lex("+".to_string());
    assert_eq!(result, expected)
}

#[test]
fn lex_minus() {
    let mut expected = Vec::new();
    expected.push(OPE(MINUS));
    let result = lex("-".to_string());
    assert_eq!(result, expected)
}

#[test]
fn lex_mult() {
    let mut expected = Vec::new();
    expected.push(OPE(MULTIPLICATION));
    let result = lex("*".to_string());
    assert_eq!(result, expected)
}

#[test]
fn lex_divide() {
    let mut expected = Vec::new();
    expected.push(OPE(DIVIDE));
    let result = lex("/".to_string());
    assert_eq!(result, expected)
}

#[test]
fn lex_operators() {
    let mut expected = Vec::new();
    expected.push(OPE(PLUS));
    expected.push(OPE(MULTIPLICATION));
    expected.push(OPE(MINUS));
    expected.push(OPE(DIVIDE));
    let result = lex("+*-/".to_string());
    assert_eq!(result, expected)
}

#[test]
fn lex_lpar() {
    let mut expected = Vec::new();
    expected.push(LPAR);
    let result = lex("(".to_string());
    assert_eq!(result, expected)
}

#[test]
fn lex_rpar() {
    let mut expected = Vec::new();
    expected.push(RPAR);
    let result = lex(")".to_string());
    assert_eq!(result, expected)
}

#[test]
fn lex_equal() {
    let mut expected = Vec::new();
    expected.push(EQUAL);
    let result = lex("=".to_string());
    assert_eq!(result, expected);
}

#[test]
fn lex_tokens() {
    let mut expected = Vec::new();
    expected.push(LPAR);
    expected.push(RPAR);
    expected.push(EQUAL);
    let result = lex("()=".to_string());
    assert_eq!(result, expected)
}

#[test]
fn lex_simple_int() {
    let mut expected = Vec::new();
    expected.push(INT(1));
    let result = lex("1".to_string());
    assert_eq!(result, expected);
}

#[test]
fn lex_complex_int() {
    let mut expected = Vec::new();
    expected.push(INT(100));
    let result = lex("100".to_string());
    assert_eq!(result, expected);
}

#[test]
fn lex_simple_string() {
    let mut expected = Vec::new();
    expected.push(IDENTIFIER("test".to_string()));
    let result = lex("test".to_string());
    assert_eq!(result, expected);
}

#[test]
fn test_complex_operation() {
    let mut expected = Vec::new();
    expected.push(INT(1));
    expected.push(OPE(PLUS));
    expected.push(INT(1));
    let result = lex("1 + 1".to_string());
    assert_eq!(result, expected);
}

#[test]
fn test_complex_equality() {
    let mut expected = Vec::new();
    expected.push(IDENTIFIER("var1".to_string()));
    expected.push(EQUAL);
    expected.push(INT(100));
    let result = lex("var1 = 100".to_string());
    assert_eq!(result, expected)
}

#[test]
fn test_simple_float() {
    let mut expected = Vec::new();
    expected.push(FLOAT(Rationals::new(100, 14)));
    let result = lex(".14".to_string());
    assert_eq!(result, expected);
}

#[test]
fn test_complex_float() {
    let mut expected = Vec::new();
    expected.push(FLOAT(Rationals::new(100, 31405)));
    let result = lex("314.05".to_string());
    assert_eq!(result, expected)
}

#[test]
fn lex_unicode_identifier() {
    let mut expected = Vec::new();
    expected.push(IDENTIFIER("café".to_string()));
    let result = lex("café".to_string());
    assert_eq!(result, expected);
}

#[test]
fn lex_unicode_identifier_in_expression() {
    let mut expected = Vec::new();
    expected.push(IDENTIFIER("héllo".to_string()));
    expected.push(OPE(PLUS));
    expected.push(INT(1));
    let result = lex("héllo + 1".to_string());
    assert_eq!(result, expected);
}

#[test]
fn allowed_characters_follow_the_unicode_classes() {
    assert!(is_an_allowed_char('é'));
    assert!(is_an_allowed_char('Δ'));
    assert!(is_an_allowed_char('7'));
    assert!(is_an_allowed_char(' '));
    assert!(is_an_allowed_char('['));
    assert!(!is_an_allowed_char('¤'));
    assert!(!is_an_allowed_char('§'));
    assert!(!is_an_allowed_char('€'));
}
