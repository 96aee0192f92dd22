//! The predictive parser: consumes a token stream exactly once, left to
//! right, and builds the syntax tree, or fails with a syntax error.
//!
//! Prediction is table-driven: each non-terminal's procedure asks the
//! grammar table which production applies under the current lookahead; a
//! miss is a syntax error, never a cue to try another production. The
//! spec functions `spec_expr` .. `spec_paren` state the same table-driven
//! parse over the token sequence, and every procedure returns exactly
//! what they say.

use vstd::prelude::*;
use crate::ast::{Ast, Expr, ExprPrime, Factor, Term, TermPrime, Terminal, Token};
use crate::ast::{wf_expr, wf_expr_prime, wf_factor, wf_term, wf_term_prime};
use crate::grammar::{get_table, table_spec, GrammarTable, NonTerminal};

verus! {

/// A failure of parsing, carrying the non-terminal being expanded and the
/// unexpected terminal found.
#[derive(Clone, Copy, Debug, PartialEq, Eq, Structural)]
pub enum SyntaxError {
    /// The grammar table has no production for `nt` under lookahead
    /// `found`.
    NoProduction { nt: NonTerminal, found: Terminal },
    /// A parenthesized sub-expression ends in `found` where `)` is
    /// required.
    MissingCloseParen { found: Terminal },
}

/// The lookahead terminal at position `i`: end-of-stream at or past the
/// end of the tokens, so reading past the end stays at end-of-stream.
pub open spec fn la_at(ts: Seq<Token>, i: nat) -> Terminal {
    if i < ts.len() {
        ts[i as int].terminal_spec()
    } else {
        Terminal::End
    }
}

/// Parsing `E -> T E'` from position `i`: the tree built and the position
/// after it, or the syntax error raised.
pub open spec fn spec_expr(ts: Seq<Token>, i: nat) -> Result<(Expr, nat), SyntaxError>
    decreases ts.len() - i, 3int,
{
    match table_spec(NonTerminal::E, la_at(ts, i)) {
        None => Err(SyntaxError::NoProduction { nt: NonTerminal::E, found: la_at(ts, i) }),
        Some(_) => match spec_term(ts, i) {
            Err(e) => Err(e),
            Ok((t, j)) => if i < j && j <= ts.len() {
                match spec_expr_prime(ts, j) {
                    Err(e) => Err(e),
                    Ok((ep, k)) => Ok((Expr { t, ep }, k)),
                }
            } else {
                arbitrary()
            },
        },
    }
}

/// Parsing `E' -> + T E' | - T E' | ''` from position `i`.
pub open spec fn spec_expr_prime(ts: Seq<Token>, i: nat) -> Result<(ExprPrime, nat), SyntaxError>
    decreases ts.len() - i, 4int,
{
    match table_spec(NonTerminal::Ep, la_at(ts, i)) {
        None => Err(SyntaxError::NoProduction { nt: NonTerminal::Ep, found: la_at(ts, i) }),
        Some(prod) => if prod.len() == 0 {
            Ok((ExprPrime::Eps, i))
        } else if i < ts.len() {
            // the lookahead is + or -, so a token stands at i
            let op = ts[i as int].op_spec();
            match spec_term(ts, (i + 1) as nat) {
                Err(e) => Err(e),
                Ok((t, j)) => if i < j && j <= ts.len() {
                    match spec_expr_prime(ts, j) {
                        Err(e) => Err(e),
                        Ok((ep, k)) => Ok((ExprPrime::Prime { op, t, ep: Box::new(ep) }, k)),
                    }
                } else {
                    arbitrary()
                },
            }
        } else {
            arbitrary()
        },
    }
}

/// Parsing `T -> F T'` from position `i`.
pub open spec fn spec_term(ts: Seq<Token>, i: nat) -> Result<(Term, nat), SyntaxError>
    decreases ts.len() - i, 2int,
{
    match table_spec(NonTerminal::T, la_at(ts, i)) {
        None => Err(SyntaxError::NoProduction { nt: NonTerminal::T, found: la_at(ts, i) }),
        Some(_) => match spec_factor(ts, i) {
            Err(e) => Err(e),
            Ok((f, j)) => if i < j && j <= ts.len() {
                match spec_term_prime(ts, j) {
                    Err(e) => Err(e),
                    Ok((tp, k)) => Ok((Term { f, tp }, k)),
                }
            } else {
                arbitrary()
            },
        },
    }
}

/// Parsing `T' -> * F T' | / F T' | ''` from position `i`.
pub open spec fn spec_term_prime(ts: Seq<Token>, i: nat) -> Result<(TermPrime, nat), SyntaxError>
    decreases ts.len() - i, 4int,
{
    match table_spec(NonTerminal::Tp, la_at(ts, i)) {
        None => Err(SyntaxError::NoProduction { nt: NonTerminal::Tp, found: la_at(ts, i) }),
        Some(prod) => if prod.len() == 0 {
            Ok((TermPrime::Eps, i))
        } else if i < ts.len() {
            // the lookahead is * or /, so a token stands at i
            let op = ts[i as int].op_spec();
            match spec_factor(ts, (i + 1) as nat) {
                Err(e) => Err(e),
                Ok((f, j)) => if i < j && j <= ts.len() {
                    match spec_term_prime(ts, j) {
                        Err(e) => Err(e),
                        Ok((tp, k)) => Ok((TermPrime::Prime { op, f, tp: Box::new(tp) }, k)),
                    }
                } else {
                    arbitrary()
                },
            }
        } else {
            arbitrary()
        },
    }
}

/// Parsing `F -> id | ( E )` from position `i`.
pub open spec fn spec_factor(ts: Seq<Token>, i: nat) -> Result<(Factor, nat), SyntaxError>
    decreases ts.len() - i, 1int,
{
    match table_spec(NonTerminal::F, la_at(ts, i)) {
        None => Err(SyntaxError::NoProduction { nt: NonTerminal::F, found: la_at(ts, i) }),
        Some(_) => if la_at(ts, i) == Terminal::Id {
            Ok((Factor::Num(ts[i as int].num_spec()), (i + 1) as nat))
        } else {
            // the remaining entry of the F row: the lookahead is (
            spec_paren(ts, i)
        },
    }
}

/// Parsing `( E )` from position `i`, which holds the opening parenthesis.
pub open spec fn spec_paren(ts: Seq<Token>, i: nat) -> Result<(Factor, nat), SyntaxError>
    decreases ts.len() - i, 0int,
{
    if i < ts.len() {
        match spec_expr(ts, (i + 1) as nat) {
            Err(e) => Err(e),
            Ok((e, j)) => if la_at(ts, j) == Terminal::CParen {
                Ok((Factor::Paren(Box::new(e)), (j + 1) as nat))
            } else {
                Err(SyntaxError::MissingCloseParen { found: la_at(ts, j) })
            },
        }
    } else {
        arbitrary()
    }
}

/// Parsing a whole stream: the top-level expression from the front.
/// Tokens after it (necessarily beginning with a closing parenthesis, the
/// one lookahead besides end-of-stream that ends an expression) are left
/// unread.
pub open spec fn spec_parse(ts: Seq<Token>) -> Result<(Expr, nat), SyntaxError> {
    spec_expr(ts, 0)
}

/// A successful expression parse consumes at least one token and ends
/// inside the stream, so the spec parser's range guards always hold.
pub proof fn lemma_spec_expr_bounds(ts: Seq<Token>, i: nat)
    requires
        i <= ts.len(),
    ensures
        spec_expr(ts, i) matches Ok(p) ==> i < p.1 <= ts.len(),
    decreases ts.len() - i, 3int,
{
    if table_spec(NonTerminal::E, la_at(ts, i)) is Some {
        lemma_spec_term_bounds(ts, i);
        match spec_term(ts, i) {
            Ok((t, j)) => {
                if i < j && j <= ts.len() {
                    lemma_spec_expr_prime_bounds(ts, j);
                }
            },
            Err(_) => {},
        }
    }
}

/// A successful additive-tail parse never moves backwards and ends inside
/// the stream.
pub proof fn lemma_spec_expr_prime_bounds(ts: Seq<Token>, i: nat)
    requires
        i <= ts.len(),
    ensures
        spec_expr_prime(ts, i) matches Ok(p) ==> i <= p.1 <= ts.len(),
    decreases ts.len() - i, 4int,
{
    match table_spec(NonTerminal::Ep, la_at(ts, i)) {
        Some(prod) => if prod.len() != 0 && i < ts.len() {
            lemma_spec_term_bounds(ts, (i + 1) as nat);
            match spec_term(ts, (i + 1) as nat) {
                Ok((t, j)) => {
                    if i < j && j <= ts.len() {
                        lemma_spec_expr_prime_bounds(ts, j);
                    }
                },
                Err(_) => {},
            }
        },
        None => {},
    }
}

/// A successful term parse consumes at least one token and ends inside
/// the stream.
pub proof fn lemma_spec_term_bounds(ts: Seq<Token>, i: nat)
    requires
        i <= ts.len(),
    ensures
        spec_term(ts, i) matches Ok(p) ==> i < p.1 <= ts.len(),
    decreases ts.len() - i, 2int,
{
    if table_spec(NonTerminal::T, la_at(ts, i)) is Some {
        lemma_spec_factor_bounds(ts, i);
        match spec_factor(ts, i) {
            Ok((f, j)) => {
                if i < j && j <= ts.len() {
                    lemma_spec_term_prime_bounds(ts, j);
                }
            },
            Err(_) => {},
        }
    }
}

/// A successful multiplicative-tail parse never moves backwards and ends
/// inside the stream.
pub proof fn lemma_spec_term_prime_bounds(ts: Seq<Token>, i: nat)
    requires
        i <= ts.len(),
    ensures
        spec_term_prime(ts, i) matches Ok(p) ==> i <= p.1 <= ts.len(),
    decreases ts.len() - i, 4int,
{
    match table_spec(NonTerminal::Tp, la_at(ts, i)) {
        Some(prod) => if prod.len() != 0 && i < ts.len() {
            lemma_spec_factor_bounds(ts, (i + 1) as nat);
            match spec_factor(ts, (i + 1) as nat) {
                Ok((f, j)) => {
                    if i < j && j <= ts.len() {
                        lemma_spec_term_prime_bounds(ts, j);
                    }
                },
                Err(_) => {},
            }
        },
        None => {},
    }
}

/// A successful factor parse consumes at least one token and ends inside
/// the stream.
pub proof fn lemma_spec_factor_bounds(ts: Seq<Token>, i: nat)
    requires
        i <= ts.len(),
    ensures
        spec_factor(ts, i) matches Ok(p) ==> i < p.1 <= ts.len(),
    decreases ts.len() - i, 1int,
{
    if table_spec(NonTerminal::F, la_at(ts, i)) is Some {
        if la_at(ts, i) != Terminal::Id && i < ts.len() {
            lemma_spec_expr_bounds(ts, (i + 1) as nat);
        }
    }
}

/// Every tree the grammar derives is well formed: its additive tails
/// carry only `+` and `-`, its multiplicative tails only `*` and `/`.
pub proof fn lemma_spec_expr_wf(ts: Seq<Token>, i: nat)
    ensures
        spec_expr(ts, i) matches Ok(p) ==> wf_expr(p.0),
    decreases ts.len() - i, 3int,
{
    if table_spec(NonTerminal::E, la_at(ts, i)) is Some {
        assert(i < ts.len());
        lemma_spec_term_bounds(ts, i);
        lemma_spec_term_wf(ts, i);
        match spec_term(ts, i) {
            Ok((t, j)) => {
                lemma_spec_expr_prime_wf(ts, j);
            },
            Err(_) => {},
        }
    }
}

/// Every additive tail the grammar derives carries only `+` and `-`.
pub proof fn lemma_spec_expr_prime_wf(ts: Seq<Token>, i: nat)
    ensures
        spec_expr_prime(ts, i) matches Ok(p) ==> wf_expr_prime(p.0),
    decreases ts.len() - i, 4int,
{
    match table_spec(NonTerminal::Ep, la_at(ts, i)) {
        Some(prod) => if prod.len() != 0 {
            assert(la_at(ts, i) == Terminal::Plus || la_at(ts, i) == Terminal::Minus);
            assert(i < ts.len());
            lemma_spec_term_bounds(ts, (i + 1) as nat);
            lemma_spec_term_wf(ts, (i + 1) as nat);
            match spec_term(ts, (i + 1) as nat) {
                Ok((t, j)) => {
                    lemma_spec_expr_prime_wf(ts, j);
                },
                Err(_) => {},
            }
        },
        None => {},
    }
}

/// Every term the grammar derives is well formed.
pub proof fn lemma_spec_term_wf(ts: Seq<Token>, i: nat)
    ensures
        spec_term(ts, i) matches Ok(p) ==> wf_term(p.0),
    decreases ts.len() - i, 2int,
{
    if table_spec(NonTerminal::T, la_at(ts, i)) is Some {
        assert(i < ts.len());
        lemma_spec_factor_bounds(ts, i);
        lemma_spec_factor_wf(ts, i);
        match spec_factor(ts, i) {
            Ok((f, j)) => {
                lemma_spec_term_prime_wf(ts, j);
            },
            Err(_) => {},
        }
    }
}

/// Every multiplicative tail the grammar derives carries only `*` and `/`.
pub proof fn lemma_spec_term_prime_wf(ts: Seq<Token>, i: nat)
    ensures
        spec_term_prime(ts, i) matches Ok(p) ==> wf_term_prime(p.0),
    decreases ts.len() - i, 4int,
{
    match table_spec(NonTerminal::Tp, la_at(ts, i)) {
        Some(prod) => if prod.len() != 0 {
            assert(la_at(ts, i) == Terminal::Star || la_at(ts, i) == Terminal::Slash);
            assert(i < ts.len());
            lemma_spec_factor_bounds(ts, (i + 1) as nat);
            lemma_spec_factor_wf(ts, (i + 1) as nat);
            match spec_factor(ts, (i + 1) as nat) {
                Ok((f, j)) => {
                    lemma_spec_term_prime_wf(ts, j);
                },
                Err(_) => {},
            }
        },
        None => {},
    }
}

/// Every factor the grammar derives is well formed.
pub proof fn lemma_spec_factor_wf(ts: Seq<Token>, i: nat)
    ensures
        spec_factor(ts, i) matches Ok(p) ==> wf_factor(p.0),
    decreases ts.len() - i, 1int,
{
    if table_spec(NonTerminal::F, la_at(ts, i)) is Some {
        if la_at(ts, i) != Terminal::Id && i < ts.len() {
            lemma_spec_expr_wf(ts, (i + 1) as nat);
        }
    }
}

/// Re-parsing is reproducible: two trees that both satisfy the parser's
/// contract for the same token stream are structurally equal.
pub proof fn lemma_reparse_equal(ts: Seq<Token>, a: Ast, b: Ast)
    requires
        spec_parse(ts) matches Ok(p) && p.0 == a.root,
        spec_parse(ts) matches Ok(q) && q.0 == b.root,
    ensures
        a == b,
{
}

/// The predictive parser: the grammar table, the token stream, and the
/// position of the current lookahead.
pub struct LL1 {
    pub table: GrammarTable,
    pub toks: Vec<Token>,
    pub pos: usize,
}

impl LL1 {
    /// The lookahead position never runs past the end of the tokens.
    pub open spec fn wf(self) -> bool {
        self.pos <= self.toks.len()
    }

    /// Builds a parser over a token stream, with the grammar table it
    /// predicts from.
    pub fn new(toks: Vec<Token>) -> (p: LL1)
        ensures
            p.toks@ == toks@,
            p.pos == 0,
            p.wf(),
    {
        LL1 { table: get_table(), toks, pos: 0 }
    }

    /// The current lookahead terminal.
    fn peek(&self) -> (t: Terminal)
        ensures
            t == la_at(self.toks@, self.pos as nat),
    {
        if self.pos < self.toks.len() {
            self.toks[self.pos].terminal()
        } else {
            Terminal::End
        }
    }

    /// Consumes the current token and returns it.
    fn advance(&mut self) -> (tok: Token)
        requires
            old(self).pos < old(self).toks.len(),
        ensures
            final(self).toks@ == old(self).toks@,
            final(self).pos == old(self).pos + 1,
            tok == old(self).toks@[old(self).pos as int],
    {
        let t = self.toks[self.pos];
        self.pos = self.pos + 1;
        t
    }

    /// Expands `E`.
    fn expr(&mut self) -> (r: Result<Expr, SyntaxError>)
        requires
            old(self).wf(),
        ensures
            final(self).wf(),
            final(self).toks@ == old(self).toks@,
            match r {
                Ok(e) => {
                    &&& spec_expr(old(self).toks@, old(self).pos as nat)
                        == Ok::<(Expr, nat), SyntaxError>((e, final(self).pos as nat))
                    &&& old(self).pos < final(self).pos
                },
                Err(er) => spec_expr(old(self).toks@, old(self).pos as nat)
                    == Err::<(Expr, nat), SyntaxError>(er),
            },
        decreases old(self).toks@.len() - old(self).pos, 3int,
    {
        let la = self.peek();
        match self.table.lookup(NonTerminal::E, la) {
            None => Err(SyntaxError::NoProduction { nt: NonTerminal::E, found: la }),
            Some(_) => match self.term() {
                Err(e) => Err(e),
                Ok(t) => match self.expr_prime() {
                    Err(e) => Err(e),
                    Ok(ep) => Ok(Expr { t, ep }),
                },
            },
        }
    }

    /// Expands `E'`.
    fn expr_prime(&mut self) -> (r: Result<ExprPrime, SyntaxError>)
        requires
            old(self).wf(),
        ensures
            final(self).wf(),
            final(self).toks@ == old(self).toks@,
            match r {
                Ok(ep) => {
                    &&& spec_expr_prime(old(self).toks@, old(self).pos as nat)
                        == Ok::<(ExprPrime, nat), SyntaxError>((ep, final(self).pos as nat))
                    &&& old(self).pos <= final(self).pos
                },
                Err(er) => spec_expr_prime(old(self).toks@, old(self).pos as nat)
                    == Err::<(ExprPrime, nat), SyntaxError>(er),
            },
        decreases old(self).toks@.len() - old(self).pos, 4int,
    {
        let la = self.peek();
        match self.table.lookup(NonTerminal::Ep, la) {
            None => Err(SyntaxError::NoProduction { nt: NonTerminal::Ep, found: la }),
            Some(prod) => {
                if prod.len() == 0 {
                    Ok(ExprPrime::Eps)
                } else {
                    proof {
                        assert(la == Terminal::Plus || la == Terminal::Minus);
                        assert(self.pos < self.toks.len());
                    }
                    let tok = self.advance();
                    let op = tok.get_op();
                    match self.term() {
                        Err(e) => Err(e),
                        Ok(t) => match self.expr_prime() {
                            Err(e) => Err(e),
                            Ok(ep) => Ok(ExprPrime::Prime { op, t, ep: Box::new(ep) }),
                        },
                    }
                }
            },
        }
    }

    /// Expands `T`.
    fn term(&mut self) -> (r: Result<Term, SyntaxError>)
        requires
            old(self).wf(),
        ensures
            final(self).wf(),
            final(self).toks@ == old(self).toks@,
            match r {
                Ok(t) => {
                    &&& spec_term(old(self).toks@, old(self).pos as nat)
                        == Ok::<(Term, nat), SyntaxError>((t, final(self).pos as nat))
                    &&& old(self).pos < final(self).pos
                },
                Err(er) => spec_term(old(self).toks@, old(self).pos as nat)
                    == Err::<(Term, nat), SyntaxError>(er),
            },
        decreases old(self).toks@.len() - old(self).pos, 2int,
    {
        let la = self.peek();
        match self.table.lookup(NonTerminal::T, la) {
            None => Err(SyntaxError::NoProduction { nt: NonTerminal::T, found: la }),
            Some(_) => match self.factor() {
                Err(e) => Err(e),
                Ok(f) => match self.term_prime() {
                    Err(e) => Err(e),
                    Ok(tp) => Ok(Term { f, tp }),
                },
            },
        }
    }

    /// Expands `T'`.
    fn term_prime(&mut self) -> (r: Result<TermPrime, SyntaxError>)
        requires
            old(self).wf(),
        ensures
            final(self).wf(),
            final(self).toks@ == old(self).toks@,
            match r {
                Ok(tp) => {
                    &&& spec_term_prime(old(self).toks@, old(self).pos as nat)
                        == Ok::<(TermPrime, nat), SyntaxError>((tp, final(self).pos as nat))
                    &&& old(self).pos <= final(self).pos
                },
                Err(er) => spec_term_prime(old(self).toks@, old(self).pos as nat)
                    == Err::<(TermPrime, nat), SyntaxError>(er),
            },
        decreases old(self).toks@.len() - old(self).pos, 4int,
    {
        let la = self.peek();
        match self.table.lookup(NonTerminal::Tp, la) {
            None => Err(SyntaxError::NoProduction { nt: NonTerminal::Tp, found: la }),
            Some(prod) => {
                if prod.len() == 0 {
                    Ok(TermPrime::Eps)
                } else {
                    proof {
                        assert(la == Terminal::Star || la == Terminal::Slash);
                        assert(self.pos < self.toks.len());
                    }
                    let tok = self.advance();
                    let op = tok.get_op();
                    match self.factor() {
                        Err(e) => Err(e),
                        Ok(f) => match self.term_prime() {
                            Err(e) => Err(e),
                            Ok(tp) => Ok(TermPrime::Prime { op, f, tp: Box::new(tp) }),
                        },
                    }
                }
            },
        }
    }

    /// Expands `F`.
    fn factor(&mut self) -> (r: Result<Factor, SyntaxError>)
        requires
            old(self).wf(),
        ensures
            final(self).wf(),
            final(self).toks@ == old(self).toks@,
            match r {
                Ok(f) => {
                    &&& spec_factor(old(self).toks@, old(self).pos as nat)
                        == Ok::<(Factor, nat), SyntaxError>((f, final(self).pos as nat))
                    &&& old(self).pos < final(self).pos
                },
                Err(er) => spec_factor(old(self).toks@, old(self).pos as nat)
                    == Err::<(Factor, nat), SyntaxError>(er),
            },
        decreases old(self).toks@.len() - old(self).pos, 1int,
    {
        let la = self.peek();
        match self.table.lookup(NonTerminal::F, la) {
            None => Err(SyntaxError::NoProduction { nt: NonTerminal::F, found: la }),
            Some(_) => {
                if matches!(la, Terminal::Id) {
                    proof {
                        assert(self.pos < self.toks.len());
                    }
                    let tok = self.advance();
                    let v = tok.get_num();
                    Ok(Factor::Num(v))
                } else {
                    proof {
                        assert(la == Terminal::OParen);
                    }
                    self.paren()
                }
            },
        }
    }

    /// Expands the `( E )` production of `F`: consumes the opening
    /// parenthesis, the inner expression, and the required `)`.
    fn paren(&mut self) -> (r: Result<Factor, SyntaxError>)
        requires
            old(self).wf(),
            la_at(old(self).toks@, old(self).pos as nat) == Terminal::OParen,
        ensures
            final(self).wf(),
            final(self).toks@ == old(self).toks@,
            match r {
                Ok(f) => {
                    &&& spec_paren(old(self).toks@, old(self).pos as nat)
                        == Ok::<(Factor, nat), SyntaxError>((f, final(self).pos as nat))
                    &&& old(self).pos < final(self).pos
                },
                Err(er) => spec_paren(old(self).toks@, old(self).pos as nat)
                    == Err::<(Factor, nat), SyntaxError>(er),
            },
        decreases old(self).toks@.len() - old(self).pos, 0int,
    {
        proof {
            assert(self.pos < self.toks.len());
        }
        let _ = self.advance();
        match self.expr() {
            Err(e) => Err(e),
            Ok(e) => {
                let la = self.peek();
                if matches!(la, Terminal::CParen) {
                    proof {
                        assert(self.pos < self.toks.len());
                    }
                    let _ = self.advance();
                    Ok(Factor::Paren(Box::new(e)))
                } else {
                    Err(SyntaxError::MissingCloseParen { found: la })
                }
            },
        }
    }

    /// Parses the whole stream into a syntax tree, or fails with the
    /// syntax error the grammar assigns to it.
    pub fn get_ast(&mut self) -> (r: Result<Ast, SyntaxError>)
        requires
            old(self).wf(),
        ensures
            final(self).wf(),
            final(self).toks@ == old(self).toks@,
            match r {
                Ok(ast) => spec_expr(old(self).toks@, old(self).pos as nat) matches Ok(p)
                    && p.0 == ast.root,
                Err(er) => spec_expr(old(self).toks@, old(self).pos as nat)
                    == Err::<(Expr, nat), SyntaxError>(er),
            },
    {
        match self.expr() {
            Ok(root) => Ok(Ast::new(root)),
            Err(e) => Err(e),
        }
    }
}

/// Parses a token stream into a syntax tree: succeeds with the tree
/// `spec_parse` assigns to the stream, and fails with exactly the syntax
/// error `spec_parse` raises otherwise.
pub fn parse(toks: Vec<Token>) -> (r: Result<Ast, SyntaxError>)
    ensures
        match r {
            Ok(ast) => {
                &&& spec_parse(toks@) matches Ok(p) && p.0 == ast.root
                &&& wf_expr(ast.root)
            },
            Err(e) => spec_parse(toks@) == Err::<(Expr, nat), SyntaxError>(e),
        },
{
    let mut p = LL1::new(toks);
    proof {
        lemma_spec_expr_wf(p.toks@, 0);
    }
    p.get_ast()
}

} // verus!
