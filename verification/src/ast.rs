//! Tokens, operators, and the syntax tree of the expression grammar.
//!
//! The grammar the tree mirrors, one node shape per production:
//! ```text
//! E  -> T E'
//! E' -> + T E' | - T E' | ''
//! T  -> F T'
//! T' -> * F T' | / F T' | ''
//! F  -> id | ( E )
//! ```

use vstd::prelude::*;

verus! {

/// A parenthesis marker.
#[derive(Clone, Copy, Debug, PartialEq, Eq, Structural)]
pub enum Paren {
    OParen,
    CParen,
}

/// A binary arithmetic operator.
#[derive(Clone, Copy, Debug, PartialEq, Eq, Structural)]
pub enum BinOp {
    Mul,
    Div,
    Add,
    Sub,
}

/// A terminal symbol of the grammar: what a lookahead token is classified
/// as when a production is looked up.
#[derive(Clone, Copy, Debug, PartialEq, Eq, Structural)]
pub enum Terminal {
    /// A numeric literal (rendered `id`).
    Id,
    OParen,
    CParen,
    Plus,
    Minus,
    Star,
    Slash,
    /// End of the token stream (rendered `$`).
    End,
}

/// The characters of a terminal's textual rendering.
pub open spec fn terminal_chars(t: Terminal) -> Seq<char> {
    match t {
        Terminal::Id => seq!['i', 'd'],
        Terminal::OParen => seq!['('],
        Terminal::CParen => seq![')'],
        Terminal::Plus => seq!['+'],
        Terminal::Minus => seq!['-'],
        Terminal::Star => seq!['*'],
        Terminal::Slash => seq!['/'],
        Terminal::End => seq!['$'],
    }
}

impl Paren {
    /// The terminal this parenthesis is classified as.
    pub open spec fn terminal_spec(self) -> Terminal {
        match self {
            Paren::OParen => Terminal::OParen,
            Paren::CParen => Terminal::CParen,
        }
    }

    /// The textual rendering of this parenthesis.
    pub fn as_terminal(&self) -> (r: &str)
        ensures
            r@ == terminal_chars(self.terminal_spec()),
    {
        match self {
            Paren::OParen => {
                let r = "(";
                proof {
                    reveal_strlit("(");
                    assert(r@ =~= terminal_chars(Terminal::OParen));
                }
                r
            },
            Paren::CParen => {
                let r = ")";
                proof {
                    reveal_strlit(")");
                    assert(r@ =~= terminal_chars(Terminal::CParen));
                }
                r
            },
        }
    }
}

impl BinOp {
    /// The terminal this operator is classified as.
    pub open spec fn terminal_spec(self) -> Terminal {
        match self {
            BinOp::Mul => Terminal::Star,
            BinOp::Div => Terminal::Slash,
            BinOp::Add => Terminal::Plus,
            BinOp::Sub => Terminal::Minus,
        }
    }

    /// The textual rendering of this operator.
    pub fn as_terminal(&self) -> (r: &str)
        ensures
            r@ == terminal_chars(self.terminal_spec()),
    {
        match self {
            BinOp::Mul => {
                let r = "*";
                proof {
                    reveal_strlit("*");
                    assert(r@ =~= terminal_chars(Terminal::Star));
                }
                r
            },
            BinOp::Div => {
                let r = "/";
                proof {
                    reveal_strlit("/");
                    assert(r@ =~= terminal_chars(Terminal::Slash));
                }
                r
            },
            BinOp::Add => {
                let r = "+";
                proof {
                    reveal_strlit("+");
                    assert(r@ =~= terminal_chars(Terminal::Plus));
                }
                r
            },
            BinOp::Sub => {
                let r = "-";
                proof {
                    reveal_strlit("-");
                    assert(r@ =~= terminal_chars(Terminal::Minus));
                }
                r
            },
        }
    }
}

/// A lexical token: the alphabet the parser consumes.
///
/// A numeric literal carries the value of its digit run.
#[derive(Clone, Copy, Debug, PartialEq, Eq, Structural)]
pub enum Token {
    Parenthesis(Paren),
    Operator(BinOp),
    Number(u64),
    Eos,
}

impl Token {
    /// The terminal this token is classified as for table lookup.
    pub open spec fn terminal_spec(self) -> Terminal {
        match self {
            Token::Parenthesis(p) => p.terminal_spec(),
            Token::Operator(op) => op.terminal_spec(),
            Token::Number(_) => Terminal::Id,
            Token::Eos => Terminal::End,
        }
    }

    /// The operator a `Token::Operator` carries.
    pub open spec fn op_spec(self) -> BinOp {
        match self {
            Token::Operator(op) => op,
            _ => arbitrary(),
        }
    }

    /// The value a `Token::Number` carries.
    pub open spec fn num_spec(self) -> u64 {
        match self {
            Token::Number(v) => v,
            _ => arbitrary(),
        }
    }

    /// The terminal this token is classified as.
    pub fn terminal(&self) -> (t: Terminal)
        ensures
            t == self.terminal_spec(),
    {
        match self {
            Token::Parenthesis(Paren::OParen) => Terminal::OParen,
            Token::Parenthesis(Paren::CParen) => Terminal::CParen,
            Token::Operator(BinOp::Mul) => Terminal::Star,
            Token::Operator(BinOp::Div) => Terminal::Slash,
            Token::Operator(BinOp::Add) => Terminal::Plus,
            Token::Operator(BinOp::Sub) => Terminal::Minus,
            Token::Number(_) => Terminal::Id,
            Token::Eos => Terminal::End,
        }
    }

    /// The parenthesis inside; only a parenthesis token has one.
    pub fn get_paren(self) -> (r: Paren)
        requires
            self matches Token::Parenthesis(_),
        ensures
            self == Token::Parenthesis(r),
    {
        match self {
            Token::Parenthesis(p) => p,
            _ => unreached(),
        }
    }

    /// The operator inside; only an operator token has one.
    pub fn get_op(self) -> (r: BinOp)
        requires
            self matches Token::Operator(_),
        ensures
            self == Token::Operator(r),
    {
        match self {
            Token::Operator(op) => op,
            _ => unreached(),
        }
    }

    /// The literal value inside; only a number token has one.
    pub fn get_num(self) -> (r: u64)
        requires
            self matches Token::Number(_),
        ensures
            self == Token::Number(r),
    {
        match self {
            Token::Number(v) => v,
            _ => unreached(),
        }
    }

    /// The textual rendering of the terminal this token is classified as.
    pub fn as_terminal(&self) -> (r: &str)
        ensures
            r@ == terminal_chars(self.terminal_spec()),
    {
        match self {
            Token::Parenthesis(p) => p.as_terminal(),
            Token::Operator(op) => op.as_terminal(),
            Token::Number(_) => {
                let r = "id";
                proof {
                    reveal_strlit("id");
                    assert(r@ =~= terminal_chars(Terminal::Id));
                }
                r
            },
            Token::Eos => {
                let r = "$";
                proof {
                    reveal_strlit("$");
                    assert(r@ =~= terminal_chars(Terminal::End));
                }
                r
            },
        }
    }
}

/// A factor: the grammar's `F`, a literal or a parenthesized sub-expression.
#[derive(Debug, PartialEq, Eq)]
pub enum Factor {
    /// `F -> id`
    Num(u64),
    /// `F -> ( E )`
    Paren(Box<Expr>),
}

/// A multiplicative tail: the grammar's `T'`.
///
/// Every chain ends in `Eps`; the right-leaning shape mirrors the grammar,
/// and left-to-right evaluation order is restored by the evaluator.
#[derive(Debug, PartialEq, Eq)]
pub enum TermPrime {
    /// `T' -> op F T'` with `op` one of `*`, `/`.
    Prime { op: BinOp, f: Factor, tp: Box<TermPrime> },
    /// `T' -> ''`
    Eps,
}

/// A term: the grammar's `T`, a factor and its multiplicative tail.
#[derive(Debug, PartialEq, Eq)]
pub struct Term {
    pub f: Factor,
    pub tp: TermPrime,
}

/// An additive tail: the grammar's `E'`.
#[derive(Debug, PartialEq, Eq)]
pub enum ExprPrime {
    /// `E' -> op T E'` with `op` one of `+`, `-`.
    Prime { op: BinOp, t: Term, ep: Box<ExprPrime> },
    /// `E' -> ''`
    Eps,
}

/// An expression: the grammar's `E`, a term and its additive tail.
#[derive(Debug, PartialEq, Eq)]
pub struct Expr {
    pub t: Term,
    pub ep: ExprPrime,
}

/// The tree invariant the grammar imposes beyond the node types: an
/// additive tail carries only `+` or `-`.
pub open spec fn wf_expr(e: Expr) -> bool
    decreases e,
{
    wf_term(e.t) && wf_expr_prime(e.ep)
}

/// Every link of an additive tail carries an additive operator.
pub open spec fn wf_expr_prime(ep: ExprPrime) -> bool
    decreases ep,
{
    match ep {
        ExprPrime::Prime { op, t, ep: rest } => (op == BinOp::Add || op == BinOp::Sub)
            && wf_term(t) && wf_expr_prime(*rest),
        ExprPrime::Eps => true,
    }
}

/// A term is well formed when its factor and tail are.
pub open spec fn wf_term(t: Term) -> bool
    decreases t,
{
    wf_factor(t.f) && wf_term_prime(t.tp)
}

/// Every link of a multiplicative tail carries `*` or `/`.
pub open spec fn wf_term_prime(tp: TermPrime) -> bool
    decreases tp,
{
    match tp {
        TermPrime::Prime { op, f, tp: rest } => (op == BinOp::Mul || op == BinOp::Div)
            && wf_factor(f) && wf_term_prime(*rest),
        TermPrime::Eps => true,
    }
}

/// A factor is well formed when any grouped sub-expression is.
pub open spec fn wf_factor(f: Factor) -> bool
    decreases f,
{
    match f {
        Factor::Num(_) => true,
        Factor::Paren(e) => wf_expr(*e),
    }
}

/// The result of a parse: a wrapper around the root expression.
#[derive(Debug, PartialEq, Eq)]
pub struct Ast {
    pub root: Expr,
}

impl Ast {
    pub fn new(root: Expr) -> (a: Ast)
        ensures
            a.root == root,
    {
        Ast { root }
    }
}

} // verus!
