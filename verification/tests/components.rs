//! Component-level checks: the lexer, the grammar table, and the token
//! renderings.

use ll1_calc::ast::{BinOp, Paren, Terminal, Token};
use ll1_calc::grammar::{get_table, NonTerminal, Symbol};
use ll1_calc::lexer::{lex, Lexer, LexError};

fn lex_str(s: &str) -> Result<Vec<Token>, LexError> {
    lex(s.chars().collect())
}

#[test]
fn lexer_reads_tokens_in_order() {
    assert_eq!(
        lex_str("1+(23)"),
        Ok(vec![
            Token::Number(1),
            Token::Operator(BinOp::Add),
            Token::Parenthesis(Paren::OParen),
            Token::Number(23),
            Token::Parenthesis(Paren::CParen),
            Token::Eos,
        ])
    );
}

#[test]
fn lexer_rejects_unrecognized_character() {
    assert_eq!(lex_str("1a"), Err(LexError::UnrecognizedChar('a')));
}

#[test]
fn lexer_rejects_numeral_too_large() {
    // One more than the largest 64-bit value.
    assert_eq!(lex_str("18446744073709551616"), Err(LexError::NumberTooLarge));
    assert_eq!(lex_str("99999999999999999999"), Err(LexError::NumberTooLarge));
}

#[test]
fn lexer_accepts_largest_numeral() {
    assert_eq!(
        lex_str("18446744073709551615"),
        Ok(vec![Token::Number(u64::MAX), Token::Eos])
    );
}

#[test]
fn lexer_keeps_yielding_end_of_stream() {
    let mut lx = Lexer::new("7".chars().collect());
    assert_eq!(lx.next_token(), Ok(Token::Number(7)));
    assert_eq!(lx.next_token(), Ok(Token::Eos));
    assert_eq!(lx.next_token(), Ok(Token::Eos));
    assert_eq!(lx.next_token(), Ok(Token::Eos));
}

#[test]
fn table_has_no_production_for_expression_on_operator() {
    let table = get_table();
    assert_eq!(table.lookup(NonTerminal::E, Terminal::Plus), None);
    assert_eq!(table.lookup(NonTerminal::E, Terminal::End), None);
    assert_eq!(table.lookup(NonTerminal::F, Terminal::CParen), None);
}

#[test]
fn table_epsilon_entries_are_empty_productions() {
    let table = get_table();
    assert_eq!(table.lookup(NonTerminal::Ep, Terminal::End), Some(vec![]));
    assert_eq!(table.lookup(NonTerminal::Ep, Terminal::CParen), Some(vec![]));
    assert_eq!(table.lookup(NonTerminal::Tp, Terminal::Plus), Some(vec![]));
}

#[test]
fn table_expands_factor_to_grouped_expression() {
    let table = get_table();
    assert_eq!(
        table.lookup(NonTerminal::F, Terminal::OParen),
        Some(vec![
            Symbol::Terminal(Terminal::OParen),
            Symbol::NonTerminal(NonTerminal::E),
            Symbol::Terminal(Terminal::CParen),
        ])
    );
    assert_eq!(
        table.lookup(NonTerminal::E, Terminal::Id),
        Some(vec![
            Symbol::NonTerminal(NonTerminal::T),
            Symbol::NonTerminal(NonTerminal::Ep),
        ])
    );
}

#[test]
fn terminal_renderings() {
    assert_eq!(Paren::OParen.as_terminal(), "(");
    assert_eq!(Paren::CParen.as_terminal(), ")");
    assert_eq!(BinOp::Mul.as_terminal(), "*");
    assert_eq!(BinOp::Div.as_terminal(), "/");
    assert_eq!(BinOp::Add.as_terminal(), "+");
    assert_eq!(BinOp::Sub.as_terminal(), "-");
    assert_eq!(Token::Number(5).as_terminal(), "id");
    assert_eq!(Token::Eos.as_terminal(), "$");
    assert_eq!(Token::Operator(BinOp::Sub).as_terminal(), "-");
    assert_eq!(Token::Parenthesis(Paren::OParen).as_terminal(), "(");
}

#[test]
fn token_accessors_return_payloads() {
    assert_eq!(Token::Parenthesis(Paren::CParen).get_paren(), Paren::CParen);
    assert_eq!(Token::Operator(BinOp::Add).get_op(), BinOp::Add);
    assert_eq!(Token::Number(9).get_num(), 9);
}
