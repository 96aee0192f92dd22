//! End-to-end scenarios: lex, parse, and run the evaluation schedule
//! over floating-point arithmetic.

use ll1_calc::ast::{Ast, BinOp, Terminal};
use ll1_calc::evaluator::{exec, EvalStep};
use ll1_calc::grammar::NonTerminal;
use ll1_calc::lexer::lex;
use ll1_calc::parser::{parse, SyntaxError};

fn tokens_of(s: &str) -> Vec<ll1_calc::ast::Token> {
    lex(s.chars().collect()).expect("lexing failed")
}

fn parse_str(s: &str) -> Result<Ast, SyntaxError> {
    parse(tokens_of(s))
}

/// The floating-point stack machine the schedule is made for.
fn run_schedule(steps: &[EvalStep]) -> f64 {
    let mut stack: Vec<f64> = Vec::new();
    for step in steps {
        match *step {
            EvalStep::Push(v) => stack.push(v as f64),
            EvalStep::Apply(op) => {
                let b = stack.pop().expect("operand missing");
                let a = stack.pop().expect("operand missing");
                stack.push(match op {
                    BinOp::Mul => a * b,
                    BinOp::Div => a / b,
                    BinOp::Add => a + b,
                    BinOp::Sub => a - b,
                });
            }
        }
    }
    assert_eq!(stack.len(), 1);
    stack[0]
}

fn eval_str(s: &str) -> f64 {
    run_schedule(&exec(parse_str(s).expect("parse failed")))
}

#[test]
fn single_literal() {
    assert_eq!(eval_str("42"), 42.0);
}

#[test]
fn left_associative_subtraction() {
    assert_eq!(eval_str("8-3-2"), 3.0);
}

#[test]
fn left_associative_division() {
    assert_eq!(eval_str("8/4/2"), 1.0);
}

#[test]
fn precedence_multiplication_binds_first() {
    assert_eq!(eval_str("2+3*4"), 14.0);
}

#[test]
fn precedence_grouping_overrides() {
    assert_eq!(eval_str("(2+3)*4"), 20.0);
}

#[test]
fn nested_grouping() {
    assert_eq!(eval_str("((1+2))*3"), 9.0);
}

#[test]
fn valid_inputs_parse_and_evaluate() {
    let cases = [
        ("0", 0.0),
        ("1+2+3+4", 10.0),
        ("10-2*3", 4.0),
        ("(1)", 1.0),
        ("((8-3)-2)*10+6/3", 32.0),
        ("100/10/5*2", 4.0),
        ("7-(2-1)", 6.0),
    ];
    for (src, expected) in cases {
        let value = eval_str(src);
        assert!(value.is_finite());
        assert_eq!(value, expected);
    }
}

#[test]
fn division_by_zero_yields_positive_infinity() {
    let value = eval_str("1/0");
    assert!(value.is_infinite());
    assert!(value.is_sign_positive());
}

#[test]
fn missing_close_paren_is_syntax_error() {
    assert_eq!(
        parse_str("(1+2"),
        Err(SyntaxError::MissingCloseParen { found: Terminal::End })
    );
}

#[test]
fn leading_operator_is_syntax_error() {
    assert_eq!(
        parse_str("+1"),
        Err(SyntaxError::NoProduction { nt: NonTerminal::E, found: Terminal::Plus })
    );
}

#[test]
fn empty_input_is_syntax_error() {
    assert_eq!(
        parse_str(""),
        Err(SyntaxError::NoProduction { nt: NonTerminal::E, found: Terminal::End })
    );
}

#[test]
fn dangling_operator_is_syntax_error() {
    assert_eq!(
        parse_str("1+"),
        Err(SyntaxError::NoProduction { nt: NonTerminal::T, found: Terminal::End })
    );
}

#[test]
fn doubled_operator_is_syntax_error() {
    assert_eq!(
        parse_str("1**2"),
        Err(SyntaxError::NoProduction { nt: NonTerminal::F, found: Terminal::Star })
    );
}

#[test]
fn tokens_after_expression_are_left_unread() {
    // The top-level expression ends at a closing parenthesis the grammar
    // cannot use; what follows is not read.
    assert!(parse_str("1)").is_ok());
}

#[test]
fn reparsing_yields_equal_trees_and_results() {
    let a = parse_str("1+2*(3-4)").expect("parse failed");
    let b = parse_str("1+2*(3-4)").expect("parse failed");
    assert_eq!(a, b);
    let va = run_schedule(&exec(a));
    let vb = run_schedule(&exec(b));
    assert_eq!(va, vb);
}

#[test]
fn whitespace_is_removed_before_numbers_form() {
    // Whitespace vanishes before tokens form, so split digits join.
    assert_eq!(eval_str("1 2"), 12.0);
    assert_eq!(eval_str(" 8 - 3 - 2 "), 3.0);
}

#[test]
fn schedule_of_subtraction_chain_is_left_to_right() {
    let steps = exec(parse_str("8-3-2").expect("parse failed"));
    assert_eq!(
        steps,
        vec![
            EvalStep::Push(8),
            EvalStep::Push(3),
            EvalStep::Apply(BinOp::Sub),
            EvalStep::Push(2),
            EvalStep::Apply(BinOp::Sub),
        ]
    );
}

#[test]
fn schedule_applies_multiplication_before_addition() {
    let steps = exec(parse_str("2+3*4").expect("parse failed"));
    assert_eq!(
        steps,
        vec![
            EvalStep::Push(2),
            EvalStep::Push(3),
            EvalStep::Push(4),
            EvalStep::Apply(BinOp::Mul),
            EvalStep::Apply(BinOp::Add),
        ]
    );
}

#[test]
fn largest_literal_evaluates() {
    assert_eq!(eval_str("18446744073709551615"), u64::MAX as f64);
}
