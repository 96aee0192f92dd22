//! The LL(1) grammar table: a static lookup from (non-terminal, lookahead
//! terminal) to the production's right-hand side, or nothing when no
//! production applies. A miss always means invalid input.

use vstd::prelude::*;
use crate::ast::Terminal;

verus! {

/// A non-terminal of the grammar. `Ep` and `Tp` are the primed
/// non-terminals `E'` and `T'`.
#[derive(Clone, Copy, Debug, PartialEq, Eq, Structural)]
pub enum NonTerminal {
    E,
    Ep,
    T,
    Tp,
    F,
}

/// A grammar symbol: a terminal or a non-terminal.
#[derive(Clone, Copy, Debug, PartialEq, Eq, Structural)]
pub enum Symbol {
    Terminal(Terminal),
    NonTerminal(NonTerminal),
}

/// The grammar table: the right-hand side, in grammar order, of the
/// production to apply for a non-terminal and a lookahead terminal.
/// An empty sequence is the epsilon production; `None` means no
/// production applies and the input is invalid.
pub open spec fn table_spec(nt: NonTerminal, la: Terminal) -> Option<Seq<Symbol>> {
    match nt {
        NonTerminal::E => match la {
            Terminal::Id | Terminal::OParen => Some(
                seq![Symbol::NonTerminal(NonTerminal::T), Symbol::NonTerminal(NonTerminal::Ep)],
            ),
            _ => None,
        },
        NonTerminal::Ep => match la {
            Terminal::CParen | Terminal::End => Some(Seq::empty()),
            Terminal::Plus => Some(
                seq![
                    Symbol::Terminal(Terminal::Plus),
                    Symbol::NonTerminal(NonTerminal::T),
                    Symbol::NonTerminal(NonTerminal::Ep),
                ],
            ),
            Terminal::Minus => Some(
                seq![
                    Symbol::Terminal(Terminal::Minus),
                    Symbol::NonTerminal(NonTerminal::T),
                    Symbol::NonTerminal(NonTerminal::Ep),
                ],
            ),
            _ => None,
        },
        NonTerminal::T => match la {
            Terminal::Id | Terminal::OParen => Some(
                seq![Symbol::NonTerminal(NonTerminal::F), Symbol::NonTerminal(NonTerminal::Tp)],
            ),
            _ => None,
        },
        NonTerminal::Tp => match la {
            Terminal::CParen | Terminal::Plus | Terminal::Minus | Terminal::End => Some(
                Seq::empty(),
            ),
            Terminal::Star => Some(
                seq![
                    Symbol::Terminal(Terminal::Star),
                    Symbol::NonTerminal(NonTerminal::F),
                    Symbol::NonTerminal(NonTerminal::Tp),
                ],
            ),
            Terminal::Slash => Some(
                seq![
                    Symbol::Terminal(Terminal::Slash),
                    Symbol::NonTerminal(NonTerminal::F),
                    Symbol::NonTerminal(NonTerminal::Tp),
                ],
            ),
            _ => None,
        },
        NonTerminal::F => match la {
            Terminal::Id => Some(seq![Symbol::Terminal(Terminal::Id)]),
            Terminal::OParen => Some(
                seq![
                    Symbol::Terminal(Terminal::OParen),
                    Symbol::NonTerminal(NonTerminal::E),
                    Symbol::Terminal(Terminal::CParen),
                ],
            ),
            _ => None,
        },
    }
}

/// The grammar table as a value. It is pure configuration: `lookup`
/// returns exactly what `table_spec` says, entry for entry.
pub struct GrammarTable {}

/// Builds the table consulted by the parser.
pub fn get_table() -> (t: GrammarTable) {
    GrammarTable {  }
}

impl GrammarTable {
    /// The production for `nt` under lookahead `la`, or `None` when no
    /// production applies.
    pub fn lookup(&self, nt: NonTerminal, la: Terminal) -> (r: Option<Vec<Symbol>>)
        ensures
            match r {
                Some(v) => table_spec(nt, la) == Some(v@),
                None => table_spec(nt, la) is None,
            },
    {
        match nt {
            NonTerminal::E => match la {
                Terminal::Id | Terminal::OParen => {
                    let v = vec![
                        Symbol::NonTerminal(NonTerminal::T),
                        Symbol::NonTerminal(NonTerminal::Ep),
                    ];
                    proof {
                        assert(v@ =~= table_spec(nt, la)->Some_0);
                    }
                    Some(v)
                },
                _ => None,
            },
            NonTerminal::Ep => match la {
                Terminal::CParen | Terminal::End => {
                    let v: Vec<Symbol> = Vec::new();
                    proof {
                        assert(v@ =~= table_spec(nt, la)->Some_0);
                    }
                    Some(v)
                },
                Terminal::Plus => {
                    let v = vec![
                        Symbol::Terminal(Terminal::Plus),
                        Symbol::NonTerminal(NonTerminal::T),
                        Symbol::NonTerminal(NonTerminal::Ep),
                    ];
                    proof {
                        assert(v@ =~= table_spec(nt, la)->Some_0);
                    }
                    Some(v)
                },
                Terminal::Minus => {
                    let v = vec![
                        Symbol::Terminal(Terminal::Minus),
                        Symbol::NonTerminal(NonTerminal::T),
                        Symbol::NonTerminal(NonTerminal::Ep),
                    ];
                    proof {
                        assert(v@ =~= table_spec(nt, la)->Some_0);
                    }
                    Some(v)
                },
                _ => None,
            },
            NonTerminal::T => match la {
                Terminal::Id | Terminal::OParen => {
                    let v = vec![
                        Symbol::NonTerminal(NonTerminal::F),
                        Symbol::NonTerminal(NonTerminal::Tp),
                    ];
                    proof {
                        assert(v@ =~= table_spec(nt, la)->Some_0);
                    }
                    Some(v)
                },
                _ => None,
            },
            NonTerminal::Tp => match la {
                Terminal::CParen | Terminal::Plus | Terminal::Minus | Terminal::End => {
                    let v: Vec<Symbol> = Vec::new();
                    proof {
                        assert(v@ =~= table_spec(nt, la)->Some_0);
                    }
                    Some(v)
                },
                Terminal::Star => {
                    let v = vec![
                        Symbol::Terminal(Terminal::Star),
                        Symbol::NonTerminal(NonTerminal::F),
                        Symbol::NonTerminal(NonTerminal::Tp),
                    ];
                    proof {
                        assert(v@ =~= table_spec(nt, la)->Some_0);
                    }
                    Some(v)
                },
                Terminal::Slash => {
                    let v = vec![
                        Symbol::Terminal(Terminal::Slash),
                        Symbol::NonTerminal(NonTerminal::F),
                        Symbol::NonTerminal(NonTerminal::Tp),
                    ];
                    proof {
                        assert(v@ =~= table_spec(nt, la)->Some_0);
                    }
                    Some(v)
                },
                _ => None,
            },
            NonTerminal::F => match la {
                Terminal::Id => {
                    let v = vec![Symbol::Terminal(Terminal::Id)];
                    proof {
                        assert(v@ =~= table_spec(nt, la)->Some_0);
                    }
                    Some(v)
                },
                Terminal::OParen => {
                    let v = vec![
                        Symbol::Terminal(Terminal::OParen),
                        Symbol::NonTerminal(NonTerminal::E),
                        Symbol::Terminal(Terminal::CParen),
                    ];
                    proof {
                        assert(v@ =~= table_spec(nt, la)->Some_0);
                    }
                    Some(v)
                },
                _ => None,
            },
        }
    }
}

} // verus!
