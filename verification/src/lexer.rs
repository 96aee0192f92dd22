//! The lexer: turns a character sequence into the token stream the parser
//! consumes. Whitespace is removed up front, so a digit run interrupted by
//! spaces forms a single numeral. After the end of the input the lexer
//! keeps yielding the end-of-stream token.

use vstd::prelude::*;
use crate::ast::{BinOp, Paren, Token};

verus! {

/// A failure of tokenization.
#[derive(Clone, Copy, Debug, PartialEq, Eq, Structural)]
pub enum LexError {
    /// No token starts with this character.
    UnrecognizedChar(char),
    /// A numeral whose value does not fit in a 64-bit literal.
    NumberTooLarge,
}

/// Whether `c` has the Unicode `White_Space` property, the set the lexer
/// removes before forming tokens.
pub open spec fn is_space(c: char) -> bool {
    ||| c == ' '
    ||| c == '\t'
    ||| c == '\n'
    ||| c == '\r'
    ||| c == '\u{b}'
    ||| c == '\u{c}'
    ||| c == '\u{85}'
    ||| c == '\u{a0}'
    ||| c == '\u{1680}'
    ||| (c >= '\u{2000}' && c <= '\u{200a}')
    ||| c == '\u{2028}'
    ||| c == '\u{2029}'
    ||| c == '\u{202f}'
    ||| c == '\u{205f}'
    ||| c == '\u{3000}'
}

/// Whether `c` is an ASCII decimal digit.
pub open spec fn is_digit(c: char) -> bool {
    c >= '0' && c <= '9'
}

/// The value of a digit character.
pub open spec fn digit_val(c: char) -> nat {
    if c == '0' { 0 }
    else if c == '1' { 1 }
    else if c == '2' { 2 }
    else if c == '3' { 3 }
    else if c == '4' { 4 }
    else if c == '5' { 5 }
    else if c == '6' { 6 }
    else if c == '7' { 7 }
    else if c == '8' { 8 }
    else if c == '9' { 9 }
    else { arbitrary() }
}

/// `cs` with its whitespace characters removed.
pub open spec fn strip_spaces(cs: Seq<char>) -> Seq<char>
    decreases cs.len(),
{
    if cs.len() == 0 {
        Seq::empty()
    } else if is_space(cs.last()) {
        strip_spaces(cs.drop_last())
    } else {
        strip_spaces(cs.drop_last()).push(cs.last())
    }
}

/// The first position at or after `i` that does not hold a digit: the end
/// of the digit run starting at `i`.
pub open spec fn digits_end(cs: Seq<char>, i: nat) -> nat
    decreases cs.len() - i,
{
    if i < cs.len() && is_digit(cs[i as int]) {
        digits_end(cs, (i + 1) as nat)
    } else {
        i
    }
}

/// The end of a digit run lies between its start and the end of the input,
/// and is not itself a digit position.
pub proof fn lemma_digits_end(cs: Seq<char>, i: nat)
    ensures
        i <= digits_end(cs, i),
        i <= cs.len() ==> digits_end(cs, i) <= cs.len(),
        digits_end(cs, i) < cs.len() ==> !is_digit(cs[digits_end(cs, i) as int]),
        i < cs.len() && is_digit(cs[i as int]) ==> digits_end(cs, i) > i,
    decreases cs.len() - i,
{
    if i < cs.len() && is_digit(cs[i as int]) {
        lemma_digits_end(cs, (i + 1) as nat);
    }
}

/// The numeric value of a digit run, most significant digit first.
pub open spec fn numeral_val(ds: Seq<char>) -> nat
    decreases ds.len(),
{
    if ds.len() == 0 {
        0
    } else {
        numeral_val(ds.drop_last()) * 10 + digit_val(ds.last())
    }
}

/// A numeral is at least as large as any of its prefixes.
pub proof fn lemma_numeral_prefix(ds: Seq<char>, k: int)
    requires
        0 <= k <= ds.len(),
    ensures
        numeral_val(ds.take(k)) <= numeral_val(ds),
    decreases ds.len() - k,
{
    if k < ds.len() {
        lemma_numeral_prefix(ds, k + 1);
        assert(ds.take(k + 1).drop_last() =~= ds.take(k));
        assert(numeral_val(ds.take(k)) <= numeral_val(ds.take(k + 1)));
    } else {
        assert(ds.take(k) =~= ds);
    }
}

/// One token of the stream, together with where the stream stands after
/// it: `Ok(toks)` holds the tokens from position `i` on, ending in `Eos`.
pub open spec fn spec_tokenize(cs: Seq<char>, i: nat) -> Result<Seq<Token>, LexError>
    decreases cs.len() - i,
{
    if i >= cs.len() {
        Ok(seq![Token::Eos])
    } else if is_digit(cs[i as int]) {
        let j = digits_end(cs, i);
        let v = numeral_val(cs.subrange(i as int, j as int));
        if v > u64::MAX {
            Err(LexError::NumberTooLarge)
        } else if i < j && j <= cs.len() {
            match spec_tokenize(cs, j) {
                Ok(rest) => Ok(seq![Token::Number(v as u64)] + rest),
                Err(e) => Err(e),
            }
        } else {
            arbitrary()
        }
    } else {
        match char_token(cs[i as int]) {
            Some(tok) => match spec_tokenize(cs, (i + 1) as nat) {
                Ok(rest) => Ok(seq![tok] + rest),
                Err(e) => Err(e),
            },
            None => Err(LexError::UnrecognizedChar(cs[i as int])),
        }
    }
}

/// The token a single (non-digit) character forms, if any.
pub open spec fn char_token(c: char) -> Option<Token> {
    if c == '(' { Some(Token::Parenthesis(Paren::OParen)) }
    else if c == ')' { Some(Token::Parenthesis(Paren::CParen)) }
    else if c == '*' { Some(Token::Operator(BinOp::Mul)) }
    else if c == '/' { Some(Token::Operator(BinOp::Div)) }
    else if c == '+' { Some(Token::Operator(BinOp::Add)) }
    else if c == '-' { Some(Token::Operator(BinOp::Sub)) }
    else { None }
}

/// The token stream of an input: whitespace is stripped, then the stream
/// is read left to right, ending in `Eos`.
pub open spec fn spec_lex(input: Seq<char>) -> Result<Seq<Token>, LexError> {
    spec_tokenize(strip_spaces(input), 0)
}

/// Whether the lexer made a correct step from position `i` to position `j`
/// by emitting `tok`: the stream at `i` is `tok` followed by the stream at
/// `j`, or fails exactly where the stream at `j` fails.
pub open spec fn tokenize_step_ok(cs: Seq<char>, i: nat, tok: Token, j: nat) -> bool {
    match spec_tokenize(cs, j) {
        Ok(rest) => spec_tokenize(cs, i) == Ok::<Seq<Token>, LexError>(seq![tok] + rest),
        Err(e) => spec_tokenize(cs, i) == Err::<Seq<Token>, LexError>(e),
    }
}

/// Whether `c` has the Unicode `White_Space` property.
fn is_space_char(c: char) -> (r: bool)
    ensures
        r == is_space(c),
{
    match c {
        ' ' | '\t' | '\n' | '\r' | '\u{b}' | '\u{c}' | '\u{85}' | '\u{a0}' | '\u{1680}'
            | '\u{2000}'..='\u{200a}' | '\u{2028}' | '\u{2029}' | '\u{202f}' | '\u{205f}'
            | '\u{3000}' => true,
        _ => false,
    }
}

/// Whether `c` is an ASCII decimal digit.
fn is_digit_char(c: char) -> (r: bool)
    ensures
        r == is_digit(c),
{
    matches!(c, '0'..='9')
}

/// The value of a digit character.
fn digit_value(c: char) -> (d: u64)
    requires
        is_digit(c),
    ensures
        d == digit_val(c),
        d <= 9,
{
    match c {
        '0' => 0,
        '1' => 1,
        '2' => 2,
        '3' => 3,
        '4' => 4,
        '5' => 5,
        '6' => 6,
        '7' => 7,
        '8' => 8,
        '9' => 9,
        _ => unreached(),
    }
}

/// The character stream the tokens are read from, with the position of the
/// next unread character.
pub struct Lexer {
    pub chars: Vec<char>,
    pub pos: usize,
}

impl Lexer {
    /// The position never runs past the end of the characters.
    pub open spec fn wf(self) -> bool {
        self.pos <= self.chars.len()
    }

    /// Builds a lexer over `input` with its whitespace removed.
    pub fn new(input: Vec<char>) -> (l: Lexer)
        ensures
            l.chars@ == strip_spaces(input@),
            l.pos == 0,
            l.wf(),
    {
        let mut kept: Vec<char> = Vec::new();
        let mut i: usize = 0;
        while i < input.len()
            invariant
                i <= input.len(),
                kept@ == strip_spaces(input@.take(i as int)),
            decreases input.len() - i,
        {
            let c = input[i];
            if !is_space_char(c) {
                kept.push(c);
            }
            proof {
                assert(input@.take(i + 1).drop_last() =~= input@.take(i as int));
                assert(input@.take(i + 1).last() == input@[i as int]);
            }
            i = i + 1;
        }
        proof {
            assert(input@.take(input@.len() as int) =~= input@);
        }
        Lexer { chars: kept, pos: 0 }
    }

    /// The next unread character, if one is left.
    pub fn peek_char(&self) -> (r: Option<char>)
        ensures
            r == (if self.pos < self.chars.len() {
                Some(self.chars@[self.pos as int])
            } else {
                None::<char>
            }),
    {
        if self.pos < self.chars.len() {
            Some(self.chars[self.pos])
        } else {
            None
        }
    }

    /// Reads one character and moves past it.
    pub fn next_char(&mut self) -> (c: char)
        requires
            old(self).pos < old(self).chars.len(),
        ensures
            final(self).chars == old(self).chars,
            final(self).pos == old(self).pos + 1,
            c == old(self).chars@[old(self).pos as int],
    {
        let c = self.chars[self.pos];
        self.pos = self.pos + 1;
        c
    }

    /// Reads the maximal digit run that starts here and returns its value,
    /// or fails when the numeral does not fit in a `u64`.
    #[verifier::loop_isolation(false)]
    pub fn get_num(&mut self) -> (r: Result<u64, LexError>)
        requires
            old(self).wf(),
            old(self).pos < old(self).chars.len(),
            is_digit(old(self).chars@[old(self).pos as int]),
        ensures
            final(self).wf(),
            final(self).chars@ == old(self).chars@,
            final(self).pos >= old(self).pos,
            match r {
                Ok(v) => {
                    &&& final(self).pos == digits_end(old(self).chars@, old(self).pos as nat)
                    &&& v == numeral_val(
                        old(self).chars@.subrange(old(self).pos as int, final(self).pos as int),
                    )
                },
                Err(e) => {
                    &&& e == LexError::NumberTooLarge
                    &&& numeral_val(
                        old(self).chars@.subrange(
                            old(self).pos as int,
                            digits_end(old(self).chars@, old(self).pos as nat) as int,
                        ),
                    ) > u64::MAX
                },
            },
    {
        let ghost cs = self.chars@;
        let ghost start = self.pos as nat;
        let ghost end = digits_end(cs, start);
        proof {
            lemma_digits_end(cs, start);
        }
        let mut val: u64 = 0;
        while self.pos < self.chars.len() && is_digit_char(self.chars[self.pos])
            invariant
                self.chars@ == cs,
                start <= self.pos <= self.chars.len(),
                digits_end(cs, self.pos as nat) == end,
                val == numeral_val(cs.subrange(start as int, self.pos as int)),
                start <= end <= cs.len(),
            decreases self.chars.len() - self.pos,
        {
            let c = self.chars[self.pos];
            let d = digit_value(c);
            let ghost prev = self.pos as nat;
            proof {
                assert(cs.subrange(start as int, prev as int + 1).drop_last() =~= cs.subrange(
                    start as int,
                    prev as int,
                ));
                assert(cs.subrange(start as int, prev as int + 1).last() == cs[prev as int]);
            }
            let next = match val.checked_mul(10) {
                Some(x) => x.checked_add(d),
                None => None,
            };
            match next {
                Some(x) => {
                    val = x;
                    self.pos = self.pos + 1;
                },
                None => {
                    proof {
                        // The digits seen so far already overflow, and the
                        // full run is at least as large.
                        lemma_digits_end(cs, prev as nat);
                        assert(end >= prev + 1);
                        assert(numeral_val(cs.subrange(start as int, prev as int + 1)) == val * 10 + d);
                        assert(numeral_val(cs.subrange(start as int, prev as int + 1)) > u64::MAX);
                        let full = cs.subrange(start as int, end as int);
                        lemma_numeral_prefix(full, prev as int + 1 - start);
                        assert(full.take(prev as int + 1 - start) =~= cs.subrange(start as int, prev as int + 1));
                    }
                    return Err(LexError::NumberTooLarge);
                },
            }
        }
        proof {
            assert(digits_end(cs, self.pos as nat) == self.pos as nat);
        }
        Ok(val)
    }

    /// The next token of the stream. At the end of the input it yields
    /// `Eos`, and keeps doing so on every later call.
    pub fn next_token(&mut self) -> (r: Result<Token, LexError>)
        requires
            old(self).wf(),
        ensures
            final(self).wf(),
            final(self).chars@ == old(self).chars@,
            final(self).pos >= old(self).pos,
            match r {
                Ok(tok) => if (tok matches Token::Eos) {
                    &&& final(self).pos == old(self).pos
                    &&& spec_tokenize(old(self).chars@, old(self).pos as nat)
                        == Ok::<Seq<Token>, LexError>(seq![Token::Eos])
                } else {
                    &&& final(self).pos > old(self).pos
                    &&& tokenize_step_ok(
                        old(self).chars@,
                        old(self).pos as nat,
                        tok,
                        final(self).pos as nat,
                    )
                },
                Err(e) => spec_tokenize(old(self).chars@, old(self).pos as nat)
                    == Err::<Seq<Token>, LexError>(e),
            },
    {
        let ghost cs = self.chars@;
        let ghost i = self.pos as nat;
        match self.peek_char() {
            None => Ok(Token::Eos),
            Some(c) => {
                if is_digit_char(c) {
                    proof {
                        lemma_digits_end(cs, i);
                    }
                    match self.get_num() {
                        Ok(v) => Ok(Token::Number(v)),
                        Err(e) => Err(e),
                    }
                } else {
                    let tok = match c {
                        '(' => Token::Parenthesis(Paren::OParen),
                        ')' => Token::Parenthesis(Paren::CParen),
                        '*' => Token::Operator(BinOp::Mul),
                        '/' => Token::Operator(BinOp::Div),
                        '+' => Token::Operator(BinOp::Add),
                        '-' => Token::Operator(BinOp::Sub),
                        _ => {
                            return Err(LexError::UnrecognizedChar(c));
                        },
                    };
                    let _ = self.next_char();
                    proof {
                        assert(char_token(cs[i as int]) == Some(tok));
                    }
                    Ok(tok)
                }
            },
        }
    }
}

/// Tokenizes a whole input: strips whitespace, then reads tokens left to
/// right until the end-of-stream token, which is included as the last
/// element of the result.
#[verifier::loop_isolation(false)]
pub fn lex(input: Vec<char>) -> (r: Result<Vec<Token>, LexError>)
    ensures
        match r {
            Ok(v) => spec_lex(input@) == Ok::<Seq<Token>, LexError>(v@),
            Err(e) => spec_lex(input@) == Err::<Seq<Token>, LexError>(e),
        },
{
    let mut lx = Lexer::new(input);
    let ghost cs = lx.chars@;
    let mut out: Vec<Token> = Vec::new();
    proof {
        assert(spec_tokenize(cs, 0) matches Ok(rest) ==> out@ + rest =~= rest);
    }
    loop
        invariant
            lx.wf(),
            lx.chars@ == cs,
            match spec_tokenize(cs, lx.pos as nat) {
                Ok(rest) => spec_tokenize(cs, 0) == Ok::<Seq<Token>, LexError>(out@ + rest),
                Err(e) => spec_tokenize(cs, 0) == Err::<Seq<Token>, LexError>(e),
            },
        decreases cs.len() - lx.pos,
    {
        let ghost before = lx.pos as nat;
        match lx.next_token() {
            Err(e) => {
                return Err(e);
            },
            Ok(tok) => {
                let ghost out_before = out@;
                let is_end = matches!(tok, Token::Eos);
                out.push(tok);
                if is_end {
                    proof {
                        assert(out_before + seq![Token::Eos] =~= out@);
                    }
                    return Ok(out);
                }
                proof {
                    assert(spec_tokenize(cs, lx.pos as nat) matches Ok(rest)
                        ==> out_before + (seq![tok] + rest) =~= out@ + rest);
                }
            },
        }
    }
}

} // verus!
