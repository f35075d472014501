//! Reduction: substitution, the single beta-step, and the driver that
//! steps until nothing changes or a budget is spent.
//!
//! A step normalises the argument of a redex before it substitutes it.
//! That inner work is counted by fuel, so that every function here ends;
//! the fuel of a plain step is the largest machine word.

use vstd::prelude::*;
pub use crate::bind::{bind_var, bind_vars, try_bind_vars, Binder};
use crate::expr::{decimal, format_term, write_decimal, Expr, Ident, Term, VarName};

verus! {

/// `body` with `val` in place of every variable whose name and identity
/// are those of `arg`. No binder is renamed: a free variable of `val` may
/// come to stand under a binder of `body` that has its name.
pub open spec fn substitute(arg: Ident, body: Term, val: Term) -> Term
    decreases body,
{
    match body {
        Term::Var(name) => if name == arg {
            val
        } else {
            body
        },
        Term::Fun(name, inner) => Term::Fun(name, Box::new(substitute(arg, *inner, val))),
        Term::App(lhs, rhs) => Term::App(
            Box::new(substitute(arg, *lhs, val)),
            Box::new(substitute(arg, *rhs, val)),
        ),
    }
}

/// One step of reduction, with `fuel` for the work on arguments.
///
/// A variable stays. An abstraction steps in its body. An application
/// steps in its function where that changes anything, and leaves the
/// argument alone then. Else, if the function is an abstraction, the
/// argument is brought to its normal form and put in place of the
/// parameter throughout the body. Else the argument steps.
pub open spec fn step_within(term: Term, fuel: nat) -> Term
    decreases fuel, 1int, term,
{
    match term {
        Term::Var(_) => term,
        Term::Fun(arg, body) => Term::Fun(arg, Box::new(step_within(*body, fuel))),
        Term::App(lhs, rhs) => {
            let new_lhs = step_within(*lhs, fuel);
            if new_lhs != *lhs {
                Term::App(Box::new(new_lhs), rhs)
            } else {
                match *lhs {
                    Term::Fun(arg, body) => substitute(arg, *body, normalize_within(*rhs, fuel)),
                    _ => Term::App(lhs, Box::new(step_within(*rhs, fuel))),
                }
            }
        },
    }
}

/// The term brought to its normal form: stepped until a step changes
/// nothing. Each step takes one unit of `fuel` and works with what is
/// left of it; when the fuel is spent the term is taken as it stands.
pub open spec fn normalize_within(term: Term, fuel: nat) -> Term
    decreases fuel, 0int, term,
{
    if fuel == 0 {
        term
    } else {
        let next = step_within(term, (fuel - 1) as nat);
        if next == term {
            term
        } else {
            normalize_within(next, (fuel - 1) as nat)
        }
    }
}

/// One step of reduction. An argument is brought to its normal form
/// before it is substituted; the count of the steps that this may take is
/// bounded by the machine word alone.
pub open spec fn step(term: Term) -> Term {
    step_within(term, usize::MAX as nat)
}

/// A term is normal when a step leaves it as it is.
pub open spec fn is_normal(term: Term) -> bool {
    step(term) == term
}

/// The term after `n` steps.
pub open spec fn iterate(term: Term, n: nat) -> Term
    decreases n,
{
    if n == 0 {
        term
    } else {
        step(iterate(term, (n - 1) as nat))
    }
}

/// The number of steps that change the term, counted up to `max`: the
/// steps taken before a normal term is reached or the budget is spent.
pub open spec fn steps_taken(term: Term, max: nat) -> nat
    decreases max,
{
    if max == 0 || is_normal(term) {
        0
    } else {
        1 + steps_taken(step(term), (max - 1) as nat)
    }
}

/// Whether the driver gives up: with a budget of one step or more,
/// whether it takes all of them, so that none was left to find the term
/// unchanged and the term reached may not be normal; with no budget,
/// whether the term can still be reduced.
pub open spec fn truncated(term: Term, max: nat) -> bool {
    if max == 0 {
        !is_normal(term)
    } else {
        steps_taken(term, max) == max
    }
}

/// The term reached by stepping until nothing changes, at most `max` times.
pub open spec fn reduce(term: Term, max: nat) -> Term {
    iterate(term, steps_taken(term, max))
}

/// The heading of step `k` in a printed trace.
pub open spec fn step_heading(k: nat) -> Seq<char> {
    if k == 0 {
        "Step 0:"@
    } else {
        "\nStep "@ + decimal(k) + ":"@
    }
}

/// The printed trace of the first `n` steps of `term`: for the term
/// itself and for each step, a heading and then the term as text.
pub open spec fn trace_lines(term: Term, n: nat, show_id: bool) -> Seq<Seq<char>>
    decreases n,
{
    if n == 0 {
        seq![step_heading(0), format_term(term, show_id)]
    } else {
        trace_lines(term, (n - 1) as nat, show_id) + seq![
            step_heading(n),
            format_term(iterate(term, n), show_id),
        ]
    }
}

/// The contents of a list of strings.
pub open spec fn texts(lines: Seq<String>) -> Seq<Seq<char>> {
    lines.map_values(|line: String| line@)
}

/// Puts `val` in place of every variable of `body` whose name and
/// identity are those of `arg`.
pub fn replace(arg: &VarName, body: Expr, val: &Expr) -> (r: Expr)
    ensures
        r@ == substitute(arg@, body@, val@),
    decreases body,
{
    match body {
        Expr::Var(name) => {
            if name.name == arg.name && name.id == arg.id {
                val.clone()
            } else {
                Expr::Var(name)
            }
        },
        Expr::Fun(name, inner) => Expr::Fun(name, Box::new(replace(arg, *inner, val))),
        Expr::App(lhs, rhs) => Expr::App(
            Box::new(replace(arg, *lhs, val)),
            Box::new(replace(arg, *rhs, val)),
        ),
    }
}

/// Takes one step of reduction with `fuel` for the work on arguments:
/// an argument is stepped towards its normal form at most `fuel` times
/// before it is substituted, and the steps that this takes get what is
/// left of the fuel.
pub fn eval_within(expr: Expr, fuel: usize) -> (r: Expr)
    ensures
        r@ == step_within(expr@, fuel as nat),
    decreases fuel, 1int, expr,
{
    match expr {
        Expr::Var(name) => Expr::Var(name),
        Expr::Fun(arg, body) => {
            let new_body = eval_within(*body, fuel);
            Expr::Fun(arg, Box::new(new_body))
        },
        Expr::App(lhs, rhs) => {
            let lhs_expr = *lhs;
            let new_lhs = eval_within(lhs_expr.clone(), fuel);
            if new_lhs != lhs_expr {
                return Expr::App(Box::new(new_lhs), rhs);
            }
            match new_lhs {
                Expr::Fun(arg, body) => {
                    let evaled_rhs = normalize(*rhs, fuel);
                    replace(&arg, *body, &evaled_rhs)
                },
                _ => {
                    let new_rhs = eval_within(*rhs, fuel);
                    Expr::App(Box::new(new_lhs), Box::new(new_rhs))
                },
            }
        },
    }
}

/// Steps `expr` until a step changes nothing, or until `fuel` is spent.
pub fn normalize(expr: Expr, fuel: usize) -> (r: Expr)
    ensures
        r@ == normalize_within(expr@, fuel as nat),
    decreases fuel, 0int, expr,
{
    let mut current = expr;
    let mut left = fuel;
    while left > 0
        invariant
            left <= fuel,
            normalize_within(current@, left as nat) == normalize_within(expr@, fuel as nat),
        decreases left,
    {
        let next = eval_within(current.clone(), left - 1);
        if next == current {
            return current;
        }
        current = next;
        left -= 1;
    }
    current
}

/// Takes one step of reduction. The result equals `expr` exactly when
/// `expr` is normal.
pub fn eval(expr: Expr) -> (r: Expr)
    ensures
        r@ == step(expr@),
{
    eval_within(expr, usize::MAX)
}

/// The fuel that is left when `normalize_within` stops: `0` if it
/// stopped because the fuel was spent.
pub open spec fn fuel_left(term: Term, fuel: nat) -> nat
    decreases fuel,
{
    if fuel == 0 {
        0
    } else {
        let next = step_within(term, (fuel - 1) as nat);
        if next == term {
            fuel
        } else {
            fuel_left(next, (fuel - 1) as nat)
        }
    }
}

/// Unless the fuel was spent, `normalize_within` stops at a term that
/// the step it last took leaves as it is.
pub proof fn lemma_normalize_reaches_fixpoint(term: Term, fuel: nat)
    ensures
        fuel_left(term, fuel) <= fuel,
        fuel_left(term, fuel) > 0 ==> step_within(
            normalize_within(term, fuel),
            (fuel_left(term, fuel) - 1) as nat,
        ) == normalize_within(term, fuel),
    decreases fuel,
{
    if fuel > 0 {
        let next = step_within(term, (fuel - 1) as nat);
        if next != term {
            lemma_normalize_reaches_fixpoint(next, (fuel - 1) as nat);
        }
    }
}

/// Whether a term holds no redex: no abstraction stands in the place of
/// a function.
pub open spec fn redex_free(term: Term) -> bool
    decreases term,
{
    match term {
        Term::Var(_) => true,
        Term::Fun(_, body) => redex_free(*body),
        Term::App(lhs, rhs) => !(*lhs is Fun) && redex_free(*lhs) && redex_free(*rhs),
    }
}

/// A term without a redex is its own normal form, whatever the fuel.
pub proof fn lemma_redex_free_is_normal(term: Term, fuel: nat)
    requires
        redex_free(term),
    ensures
        normalize_within(term, fuel) == term,
        is_normal(term),
{
    lemma_redex_free_step(term, usize::MAX as nat);
    if fuel > 0 {
        lemma_redex_free_step(term, (fuel - 1) as nat);
    }
}

/// A step leaves a term without a redex as it is, whatever the fuel.
pub proof fn lemma_redex_free_step(term: Term, fuel: nat)
    requires
        redex_free(term),
    ensures
        step_within(term, fuel) == term,
    decreases term,
{
    match term {
        Term::Var(_) => {},
        Term::Fun(_, body) => {
            lemma_redex_free_step(*body, fuel);
        },
        Term::App(lhs, rhs) => {
            lemma_redex_free_step(*lhs, fuel);
            lemma_redex_free_step(*rhs, fuel);
        },
    }
}

/// Taking a step first and `n` steps then is taking `n + 1` steps.
pub proof fn lemma_iterate_shift(term: Term, n: nat)
    ensures
        iterate(step(term), n) == iterate(term, n + 1),
    decreases n,
{
    if n > 0 {
        lemma_iterate_shift(term, (n - 1) as nat);
    } else {
        assert(iterate(term, 0) == term);
    }
}

/// A step leaves a normal term as it is, and so does a second one.
pub proof fn lemma_step_idempotent_when_normal(term: Term)
    requires
        step(term) == term,
    ensures
        step(step(term)) == term,
{
}

/// No number of steps changes a normal term.
pub proof fn lemma_iterate_normal(term: Term, n: nat)
    requires
        is_normal(term),
    ensures
        iterate(term, n) == term,
    decreases n,
{
    if n > 0 {
        lemma_iterate_normal(term, (n - 1) as nat);
    }
}

/// The steps taken stay within the budget, every term before the last
/// one is not normal, and the last one is normal unless the budget is spent.
pub proof fn lemma_steps_taken(term: Term, max: nat)
    ensures
        steps_taken(term, max) <= max,
        forall|k: nat| k < steps_taken(term, max) ==> !is_normal(#[trigger] iterate(term, k)),
        steps_taken(term, max) < max ==> is_normal(reduce(term, max)),
    decreases max,
{
    if max > 0 && !is_normal(term) {
        let next = step(term);
        let rest = steps_taken(next, (max - 1) as nat);
        lemma_steps_taken(next, (max - 1) as nat);
        lemma_iterate_shift(term, rest);
        assert forall|k: nat| k < 1 + rest implies !is_normal(#[trigger] iterate(term, k)) by {
            if k > 0 {
                lemma_iterate_shift(term, (k - 1) as nat);
            }
        }
    }
}

/// The driver never takes more than `max` steps. With a budget of one
/// step or more it gives up exactly when none of the steps within the
/// budget starts from a normal term: not the given term, and none of
/// those after one step, two steps, up to `max - 1` steps. With no budget
/// it gives up exactly when the given term is not normal. Where it does
/// not give up, the term it reaches is normal.
pub proof fn lemma_truncated_iff_no_fixpoint_in_budget(term: Term, max: nat)
    ensures
        steps_taken(term, max) <= max,
        max >= 1 ==> (truncated(term, max) <==> (forall|k: nat|
            k < max ==> !is_normal(#[trigger] iterate(term, k)))),
        max == 0 ==> (truncated(term, max) <==> !is_normal(term)),
        !truncated(term, max) ==> is_normal(reduce(term, max)),
{
    lemma_steps_taken(term, max);
    let taken = steps_taken(term, max);
    if max >= 1 && taken < max {
        assert(is_normal(iterate(term, taken)));
    }
}

/// Whether the terms are a reduction: each steps to the next, which is
/// another term, and the last is normal.
pub open spec fn is_reduction(chain: Seq<Term>) -> bool {
    &&& chain.len() >= 1
    &&& forall|i: int|
        0 <= i < chain.len() - 1 ==> step(#[trigger] chain[i]) == chain[i + 1] && chain[i + 1]
            != chain[i]
    &&& is_normal(chain.last())
}

/// With a budget that leaves one step to find the last term unchanged,
/// the driver walks a reduction from its first term to its last and does
/// not give up.
pub proof fn lemma_reduction(chain: Seq<Term>, max: nat)
    requires
        is_reduction(chain),
        max >= chain.len(),
    ensures
        steps_taken(chain[0], max) == chain.len() - 1,
        reduce(chain[0], max) == chain.last(),
        !truncated(chain[0], max),
    decreases chain.len(),
{
    if chain.len() > 1 {
        let rest = chain.drop_first();
        assert(step(chain[0]) == chain[1] && chain[1] != chain[0]);
        assert forall|i: int| 0 <= i < rest.len() - 1 implies step(#[trigger] rest[i]) == rest[i
            + 1] && rest[i + 1] != rest[i] by {
            assert(rest[i] == chain[i + 1]);
            assert(step(chain[i + 1]) == chain[i + 2] && chain[i + 2] != chain[i + 1]);
        }
        assert(rest.last() == chain.last());
        lemma_reduction(rest, (max - 1) as nat);
        lemma_iterate_shift(chain[0], (rest.len() - 1) as nat);
    }
}

/// The heading of step `k` of a trace, as a string.
fn heading(k: usize) -> (r: String)
    ensures
        r@ == step_heading(k as nat),
{
    if k == 0 {
        "Step 0:".to_owned()
    } else {
        let mut line = "\nStep ".to_owned();
        write_decimal(k, &mut line);
        line.append(":");
        line
    }
}

/// Steps `expr` until a step changes nothing, at most `max_iterations`
/// times, and says whether it gave up: whether every step of the budget
/// changed the term, so that the term reached may not be normal. With a
/// budget of `0` it says whether `expr` can still be reduced.
///
/// With `print_step` the trace is appended to `out`, one entry for each
/// line block to print: for the term itself and for each step taken, a
/// heading and then the term as text, with identities if
/// `show_unique_id` asks for them. Without it `out` stays as it is.
pub fn trace_eval(
    expr: Expr,
    max_iterations: usize,
    show_unique_id: bool,
    print_step: bool,
    out: &mut Vec<String>,
) -> (r: (Expr, bool))
    ensures
        r.0@ == reduce(expr@, max_iterations as nat),
        r.1 == truncated(expr@, max_iterations as nat),
        texts(final(out)@) == texts(old(out)@) + (if print_step {
            trace_lines(expr@, steps_taken(expr@, max_iterations as nat), show_unique_id)
        } else {
            Seq::<Seq<char>>::empty()
        }),
{
    let ghost start = expr@;
    let ghost before = texts(old(out)@);
    let mut current = expr;
    if print_step {
        let first = heading(0);
        let second = current.format(show_unique_id);
        out.push(first);
        out.push(second);
    }
    let mut i: usize = 0;
    while i < max_iterations
        invariant
            start == expr@,
            before == texts(old(out)@),
            i <= max_iterations,
            current@ == iterate(start, i as nat),
            steps_taken(start, max_iterations as nat) == i + steps_taken(
                current@,
                (max_iterations - i) as nat,
            ),
            texts(out@) == before + (if print_step {
                trace_lines(start, i as nat, show_unique_id)
            } else {
                Seq::<Seq<char>>::empty()
            }),
        decreases max_iterations - i,
    {
        let next = eval(current.clone());
        if next == current {
            return (current, false);
        }
        i += 1;
        if print_step {
            let first = heading(i);
            let second = next.format(show_unique_id);
            out.push(first);
            out.push(second);
            proof {
                assert(before + trace_lines(start, (i - 1) as nat, show_unique_id) + seq![
                    first@,
                    second@,
                ] =~= before + trace_lines(start, i as nat, show_unique_id));
            }
        }
        current = next;
    }
    if max_iterations == 0 {
        let next = eval(current.clone());
        let reducible = next != current;
        (current, reducible)
    } else {
        (current, true)
    }
}

} // verus!
