//! The evaluator: folds a syntax tree into a single result, applying
//! operators of a same-precedence chain left to right even though the
//! tree's tail chains lean right.
//!
//! The fold is produced as an explicit evaluation schedule: the sequence
//! of operand loads and operator applications, in the exact order a
//! left-to-right evaluation performs them. Running the schedule on a
//! stack machine — under any interpretation of the literals and the
//! operators, numeric or not — yields the left-associative fold of the
//! tree; `lemma_schedule_evaluates` proves it.

use vstd::prelude::*;
use crate::ast::{Ast, BinOp, Expr, ExprPrime, Factor, Term, TermPrime};

verus! {

/// One step of an evaluation schedule.
#[derive(Clone, Copy, Debug, PartialEq, Eq, Structural)]
pub enum EvalStep {
    /// Load a literal operand.
    Push(u64),
    /// Apply an operator to the two most recent values.
    Apply(BinOp),
}

/// The schedule of an expression: its term, then its additive tail.
pub open spec fn steps_expr(e: Expr) -> Seq<EvalStep>
    decreases e,
{
    steps_term(e.t) + steps_expr_prime(e.ep)
}

/// The schedule of an additive tail: each chain link evaluates its own
/// term, then applies its operator to what stands before it.
pub open spec fn steps_expr_prime(ep: ExprPrime) -> Seq<EvalStep>
    decreases ep,
{
    match ep {
        ExprPrime::Prime { op, t, ep: rest } => steps_term(t) + seq![EvalStep::Apply(op)]
            + steps_expr_prime(*rest),
        ExprPrime::Eps => Seq::empty(),
    }
}

/// The schedule of a term: its factor, then its multiplicative tail.
pub open spec fn steps_term(t: Term) -> Seq<EvalStep>
    decreases t,
{
    steps_factor(t.f) + steps_term_prime(t.tp)
}

/// The schedule of a multiplicative tail.
pub open spec fn steps_term_prime(tp: TermPrime) -> Seq<EvalStep>
    decreases tp,
{
    match tp {
        TermPrime::Prime { op, f, tp: rest } => steps_factor(f) + seq![EvalStep::Apply(op)]
            + steps_term_prime(*rest),
        TermPrime::Eps => Seq::empty(),
    }
}

/// The schedule of a factor: a literal loads itself; a grouped
/// sub-expression evaluates from scratch.
pub open spec fn steps_factor(f: Factor) -> Seq<EvalStep>
    decreases f,
{
    match f {
        Factor::Num(v) => seq![EvalStep::Push(v)],
        Factor::Paren(e) => steps_expr(*e),
    }
}

/// The left-to-right value of an expression under an interpretation:
/// `lit` gives each literal a value and `sem` gives each operator a
/// meaning.
pub open spec fn value_expr<V>(e: Expr, lit: spec_fn(u64) -> V, sem: spec_fn(BinOp, V, V) -> V) -> V
    decreases e,
{
    value_expr_prime(value_term(e.t, lit, sem), e.ep, lit, sem)
}

/// The left-to-right fold of an additive tail onto the accumulated value
/// of everything to its left.
pub open spec fn value_expr_prime<V>(
    acc: V,
    ep: ExprPrime,
    lit: spec_fn(u64) -> V,
    sem: spec_fn(BinOp, V, V) -> V,
) -> V
    decreases ep,
{
    match ep {
        ExprPrime::Prime { op, t, ep: rest } => value_expr_prime(
            sem(op, acc, value_term(t, lit, sem)),
            *rest,
            lit,
            sem,
        ),
        ExprPrime::Eps => acc,
    }
}

/// The left-to-right value of a term.
pub open spec fn value_term<V>(t: Term, lit: spec_fn(u64) -> V, sem: spec_fn(BinOp, V, V) -> V) -> V
    decreases t,
{
    value_term_prime(value_factor(t.f, lit, sem), t.tp, lit, sem)
}

/// The left-to-right fold of a multiplicative tail.
pub open spec fn value_term_prime<V>(
    acc: V,
    tp: TermPrime,
    lit: spec_fn(u64) -> V,
    sem: spec_fn(BinOp, V, V) -> V,
) -> V
    decreases tp,
{
    match tp {
        TermPrime::Prime { op, f, tp: rest } => value_term_prime(
            sem(op, acc, value_factor(f, lit, sem)),
            *rest,
            lit,
            sem,
        ),
        TermPrime::Eps => acc,
    }
}

/// The value of a factor.
pub open spec fn value_factor<V>(
    f: Factor,
    lit: spec_fn(u64) -> V,
    sem: spec_fn(BinOp, V, V) -> V,
) -> V
    decreases f,
{
    match f {
        Factor::Num(v) => lit(v),
        Factor::Paren(e) => value_expr(*e, lit, sem),
    }
}

/// One step of the stack machine that runs a schedule: a load pushes its
/// value; an application replaces the two topmost values by the
/// operator's result. An application on a shorter stack leaves it
/// unchanged (a well-formed schedule never reaches that case).
pub open spec fn machine_step<V>(
    s: EvalStep,
    stack: Seq<V>,
    lit: spec_fn(u64) -> V,
    sem: spec_fn(BinOp, V, V) -> V,
) -> Seq<V> {
    match s {
        EvalStep::Push(v) => stack.push(lit(v)),
        EvalStep::Apply(op) => if stack.len() >= 2 {
            stack.take(stack.len() - 2).push(
                sem(op, stack[stack.len() - 2], stack[stack.len() - 1]),
            )
        } else {
            stack
        },
    }
}

/// The stack after running a whole schedule.
pub open spec fn run_steps<V>(
    steps: Seq<EvalStep>,
    stack: Seq<V>,
    lit: spec_fn(u64) -> V,
    sem: spec_fn(BinOp, V, V) -> V,
) -> Seq<V>
    decreases steps.len(),
{
    if steps.len() == 0 {
        stack
    } else {
        run_steps(steps.drop_first(), machine_step(steps[0], stack, lit, sem), lit, sem)
    }
}

/// Running two schedules in sequence runs the first, then the second.
proof fn lemma_run_append<V>(
    a: Seq<EvalStep>,
    b: Seq<EvalStep>,
    stack: Seq<V>,
    lit: spec_fn(u64) -> V,
    sem: spec_fn(BinOp, V, V) -> V,
)
    ensures
        run_steps(a + b, stack, lit, sem) == run_steps(b, run_steps(a, stack, lit, sem), lit, sem),
    decreases a.len(),
{
    if a.len() == 0 {
        assert(a + b =~= b);
    } else {
        assert((a + b).drop_first() =~= a.drop_first() + b);
        lemma_run_append(a.drop_first(), b, machine_step(a[0], stack, lit, sem), lit, sem);
    }
}

/// The schedule of an expression, run on any stack, pushes exactly the
/// expression's left-to-right value — under every interpretation of
/// literals and operators. In particular a chain `a - b - c` is folded as
/// `(a - b) - c`, not `a - (b - c)`, and a multiplicative tail binds
/// before the additive chain around it.
pub proof fn lemma_schedule_evaluates<V>(
    e: Expr,
    stack: Seq<V>,
    lit: spec_fn(u64) -> V,
    sem: spec_fn(BinOp, V, V) -> V,
)
    ensures
        run_steps(steps_expr(e), stack, lit, sem) == stack.push(value_expr(e, lit, sem)),
    decreases e,
{
    lemma_run_append(steps_term(e.t), steps_expr_prime(e.ep), stack, lit, sem);
    lemma_schedule_term(e.t, stack, lit, sem);
    lemma_schedule_expr_prime(value_term(e.t, lit, sem), e.ep, stack, lit, sem);
}

/// The schedule of an additive tail, run on a stack whose top is the
/// accumulated value of everything to its left, replaces that top by the
/// tail's left-to-right fold.
pub proof fn lemma_schedule_expr_prime<V>(
    acc: V,
    ep: ExprPrime,
    stack: Seq<V>,
    lit: spec_fn(u64) -> V,
    sem: spec_fn(BinOp, V, V) -> V,
)
    ensures
        run_steps(steps_expr_prime(ep), stack.push(acc), lit, sem) == stack.push(
            value_expr_prime(acc, ep, lit, sem),
        ),
    decreases ep,
{
    match ep {
        ExprPrime::Prime { op, t, ep: rest } => {
            let s1 = stack.push(acc);
            lemma_run_append(
                steps_term(t) + seq![EvalStep::Apply(op)],
                steps_expr_prime(*rest),
                s1,
                lit,
                sem,
            );
            lemma_run_append(steps_term(t), seq![EvalStep::Apply(op)], s1, lit, sem);
            lemma_schedule_term(t, s1, lit, sem);
            let tv = value_term(t, lit, sem);
            let s2 = s1.push(tv);
            reveal_with_fuel(run_steps, 2);
            assert(run_steps(seq![EvalStep::Apply(op)], s2, lit, sem) == machine_step(
                EvalStep::Apply(op),
                s2,
                lit,
                sem,
            ));
            assert(s2.take(s2.len() - 2) =~= stack);
            lemma_schedule_expr_prime(sem(op, acc, tv), *rest, stack, lit, sem);
        },
        ExprPrime::Eps => {},
    }
}

/// The schedule of a term pushes exactly the term's value.
pub proof fn lemma_schedule_term<V>(
    t: Term,
    stack: Seq<V>,
    lit: spec_fn(u64) -> V,
    sem: spec_fn(BinOp, V, V) -> V,
)
    ensures
        run_steps(steps_term(t), stack, lit, sem) == stack.push(value_term(t, lit, sem)),
    decreases t,
{
    lemma_run_append(steps_factor(t.f), steps_term_prime(t.tp), stack, lit, sem);
    lemma_schedule_factor(t.f, stack, lit, sem);
    lemma_schedule_term_prime(value_factor(t.f, lit, sem), t.tp, stack, lit, sem);
}

/// The schedule of a multiplicative tail folds it left to right, like the
/// additive one.
pub proof fn lemma_schedule_term_prime<V>(
    acc: V,
    tp: TermPrime,
    stack: Seq<V>,
    lit: spec_fn(u64) -> V,
    sem: spec_fn(BinOp, V, V) -> V,
)
    ensures
        run_steps(steps_term_prime(tp), stack.push(acc), lit, sem) == stack.push(
            value_term_prime(acc, tp, lit, sem),
        ),
    decreases tp,
{
    match tp {
        TermPrime::Prime { op, f, tp: rest } => {
            let s1 = stack.push(acc);
            lemma_run_append(
                steps_factor(f) + seq![EvalStep::Apply(op)],
                steps_term_prime(*rest),
                s1,
                lit,
                sem,
            );
            lemma_run_append(steps_factor(f), seq![EvalStep::Apply(op)], s1, lit, sem);
            lemma_schedule_factor(f, s1, lit, sem);
            let fv = value_factor(f, lit, sem);
            let s2 = s1.push(fv);
            reveal_with_fuel(run_steps, 2);
            assert(run_steps(seq![EvalStep::Apply(op)], s2, lit, sem) == machine_step(
                EvalStep::Apply(op),
                s2,
                lit,
                sem,
            ));
            assert(s2.take(s2.len() - 2) =~= stack);
            lemma_schedule_term_prime(sem(op, acc, fv), *rest, stack, lit, sem);
        },
        TermPrime::Eps => {},
    }
}

/// The schedule of a factor pushes exactly the factor's value.
pub proof fn lemma_schedule_factor<V>(
    f: Factor,
    stack: Seq<V>,
    lit: spec_fn(u64) -> V,
    sem: spec_fn(BinOp, V, V) -> V,
)
    ensures
        run_steps(steps_factor(f), stack, lit, sem) == stack.push(value_factor(f, lit, sem)),
    decreases f,
{
    match f {
        Factor::Num(_) => {
            reveal_with_fuel(run_steps, 2);
        },
        Factor::Paren(e) => {
            lemma_schedule_evaluates(*e, stack, lit, sem);
        },
    }
}

/// Appends the schedule step that applies `op`.
fn binop_exec(op: BinOp, out: &mut Vec<EvalStep>)
    ensures
        final(out)@ == old(out)@ + seq![EvalStep::Apply(op)],
{
    out.push(EvalStep::Apply(op));
    proof {
        assert(final(out)@ =~= old(out)@ + seq![EvalStep::Apply(op)]);
    }
}

/// Appends the schedule of an expression.
fn expr(e: &Expr, out: &mut Vec<EvalStep>)
    ensures
        final(out)@ == old(out)@ + steps_expr(*e),
    decreases *e,
{
    term(&e.t, out);
    expr_prime(&e.ep, out);
    proof {
        assert(final(out)@ =~= old(out)@ + steps_expr(*e));
    }
}

/// Appends the schedule of an additive tail.
fn expr_prime(ep: &ExprPrime, out: &mut Vec<EvalStep>)
    ensures
        final(out)@ == old(out)@ + steps_expr_prime(*ep),
    decreases *ep,
{
    match ep {
        ExprPrime::Prime { op, t, ep: rest } => {
            term(t, out);
            binop_exec(*op, out);
            expr_prime(rest, out);
            proof {
                assert(final(out)@ =~= old(out)@ + steps_expr_prime(*ep));
            }
        },
        ExprPrime::Eps => {
            proof {
                assert(final(out)@ =~= old(out)@ + steps_expr_prime(*ep));
            }
        },
    }
}

/// Appends the schedule of a term.
fn term(t: &Term, out: &mut Vec<EvalStep>)
    ensures
        final(out)@ == old(out)@ + steps_term(*t),
    decreases *t,
{
    factor(&t.f, out);
    term_prime(&t.tp, out);
    proof {
        assert(final(out)@ =~= old(out)@ + steps_term(*t));
    }
}

/// Appends the schedule of a multiplicative tail.
fn term_prime(tp: &TermPrime, out: &mut Vec<EvalStep>)
    ensures
        final(out)@ == old(out)@ + steps_term_prime(*tp),
    decreases *tp,
{
    match tp {
        TermPrime::Prime { op, f, tp: rest } => {
            factor(f, out);
            binop_exec(*op, out);
            term_prime(rest, out);
            proof {
                assert(final(out)@ =~= old(out)@ + steps_term_prime(*tp));
            }
        },
        TermPrime::Eps => {
            proof {
                assert(final(out)@ =~= old(out)@ + steps_term_prime(*tp));
            }
        },
    }
}

/// Appends the schedule of a factor.
fn factor(f: &Factor, out: &mut Vec<EvalStep>)
    ensures
        final(out)@ == old(out)@ + steps_factor(*f),
    decreases *f,
{
    match f {
        Factor::Num(v) => {
            out.push(EvalStep::Push(*v));
            proof {
                assert(final(out)@ =~= old(out)@ + steps_factor(*f));
            }
        },
        Factor::Paren(e) => {
            expr(e, out);
        },
    }
}

/// Evaluates a syntax tree into its evaluation schedule: exactly the
/// operand loads and operator applications of the left-to-right fold, in
/// order. Running the schedule (for instance over floating-point
/// arithmetic) yields the expression's value, as `lemma_schedule_evaluates`
/// states.
pub fn exec(ast: Ast) -> (r: Vec<EvalStep>)
    ensures
        r@ == steps_expr(ast.root),
{
    let mut out: Vec<EvalStep> = Vec::new();
    expr(&ast.root, &mut out);
    proof {
        assert(out@ =~= steps_expr(ast.root));
    }
    out
}

} // verus!
