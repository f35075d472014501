//! Worked examples: Church-encoded terms bound and traced step by step.
//!
//! Each example appends to a list the lines to show: a title, then the
//! trace of at most ten steps with identities. Showing them is left to
//! the caller.

use vstd::prelude::*;
use crate::bind::{abstractions, resolve, Binder};
use crate::church::{
    add_term, and_term, church_add, church_and, church_false, church_if, church_is_zero,
    church_mult, church_not, church_one, church_succ, church_three, church_true, church_two,
    church_zero, false_term, if_term, is_zero_term, mult_term, not_term, one_term, succ_term,
    three_term, true_term, two_term, v, zero_term,
};
use crate::eval::{steps_taken, texts, trace_eval, trace_lines};
use crate::expr::{app, app_term, var, Expr, Term};

verus! {

/// The lines of one example: the title, then the trace of `term`, bound
/// with identities from `next` on, over at most ten steps.
pub open spec fn example_lines(title: Seq<char>, term: Term, next: nat) -> Seq<Seq<char>> {
    let bound = resolve(term, Map::empty(), next);
    seq![title] + trace_lines(bound, steps_taken(bound, 10), true)
}

/// Appends the lines of one example to `out`.
fn run_example(title: &str, test: Box<Expr>, binder: &mut Binder, out: &mut Vec<String>)
    requires
        old(binder).next() + abstractions(test@) <= usize::MAX,
    ensures
        final(binder).next() == old(binder).next() + abstractions(test@),
        texts(final(out)@) == texts(old(out)@) + example_lines(
            title@,
            test@,
            old(binder).next(),
        ),
{
    let heading = title.to_owned();
    out.push(heading);
    let bound = binder.bind_vars(*test);
    trace_eval(bound, 10, true, true, out);
}

/// Appends one line to `out`.
fn put_line(line: &str, out: &mut Vec<String>)
    ensures
        texts(final(out)@) == texts(old(out)@) + seq![line@],
{
    let owned = line.to_owned();
    out.push(owned);
}

/// The term of the example `IF TRUE THEN x ELSE y`.
pub open spec fn if_true_term() -> Term {
    if_term(true_term(), v("x"), v("y"))
}

/// The term of the example `IF FALSE THEN x ELSE y`.
pub open spec fn if_false_term() -> Term {
    if_term(false_term(), v("x"), v("y"))
}

/// The term of the example `NOT TRUE`.
pub open spec fn not_true_term() -> Term {
    not_term(true_term())
}

/// The term of the example `NOT FALSE`.
pub open spec fn not_false_term() -> Term {
    not_term(false_term())
}

/// The term of the example `AND TRUE TRUE`.
pub open spec fn and_true_true_term() -> Term {
    and_term(true_term(), true_term())
}

/// The term of the example `AND TRUE FALSE`.
pub open spec fn and_true_false_term() -> Term {
    and_term(true_term(), false_term())
}

/// The term of the example `SUCC 0`.
pub open spec fn succ_zero_term() -> Term {
    app_term(succ_term(), zero_term())
}

/// The term of the example `SUCC 2`.
pub open spec fn succ_two_term() -> Term {
    app_term(succ_term(), two_term())
}

/// The term of the example `ADD 1 2`.
pub open spec fn add_one_two_term() -> Term {
    app_term(app_term(add_term(), one_term()), two_term())
}

/// The term of the example `ADD 0 2`.
pub open spec fn add_zero_two_term() -> Term {
    app_term(app_term(add_term(), zero_term()), two_term())
}

/// The term of the example `MULT 2 3`.
pub open spec fn mult_two_three_term() -> Term {
    app_term(app_term(mult_term(), two_term()), three_term())
}

/// The term of the example `MULT 0 3`.
pub open spec fn mult_zero_three_term() -> Term {
    app_term(app_term(mult_term(), zero_term()), three_term())
}

/// The term of the example `IS_ZERO 0`.
pub open spec fn is_zero_zero_term() -> Term {
    app_term(is_zero_term(), zero_term())
}

/// The term of the example `IS_ZERO 1`.
pub open spec fn is_zero_one_term() -> Term {
    app_term(is_zero_term(), one_term())
}

/// The term of the example `IS_ZERO 2`.
pub open spec fn is_zero_two_term() -> Term {
    app_term(is_zero_term(), two_term())
}

/// Appends to `out` the title and the trace of the choice of `x` by true.
pub fn test_if_true(binder: &mut Binder, out: &mut Vec<String>)
    requires
        old(binder).next() + abstractions(if_true_term()) <= usize::MAX,
    ensures
        final(binder).next() == old(binder).next() + abstractions(if_true_term()),
        texts(final(out)@) == texts(old(out)@) + example_lines(
            "=== Test: IF TRUE THEN x ELSE y ==="@,
            if_true_term(),
            old(binder).next(),
        ),
{
    let test = church_if(church_true(), var("x".to_string()), var("y".to_string()));
    run_example("=== Test: IF TRUE THEN x ELSE y ===", test, binder, out);
}

/// Appends to `out` the title and the trace of the choice of `y` by false.
pub fn test_if_false(binder: &mut Binder, out: &mut Vec<String>)
    requires
        old(binder).next() + abstractions(if_false_term()) <= usize::MAX,
    ensures
        final(binder).next() == old(binder).next() + abstractions(if_false_term()),
        texts(final(out)@) == texts(old(out)@) + example_lines(
            "=== Test: IF FALSE THEN x ELSE y ==="@,
            if_false_term(),
            old(binder).next(),
        ),
{
    let test = church_if(church_false(), var("x".to_string()), var("y".to_string()));
    run_example("=== Test: IF FALSE THEN x ELSE y ===", test, binder, out);
}

/// Appends to `out` the title and the trace of the negation of true.
pub fn test_not_true(binder: &mut Binder, out: &mut Vec<String>)
    requires
        old(binder).next() + abstractions(not_true_term()) <= usize::MAX,
    ensures
        final(binder).next() == old(binder).next() + abstractions(not_true_term()),
        texts(final(out)@) == texts(old(out)@) + example_lines(
            "=== Test: NOT TRUE ==="@,
            not_true_term(),
            old(binder).next(),
        ),
{
    let test = church_not(church_true());
    run_example("=== Test: NOT TRUE ===", test, binder, out);
}

/// Appends to `out` the title and the trace of the negation of false.
pub fn test_not_false(binder: &mut Binder, out: &mut Vec<String>)
    requires
        old(binder).next() + abstractions(not_false_term()) <= usize::MAX,
    ensures
        final(binder).next() == old(binder).next() + abstractions(not_false_term()),
        texts(final(out)@) == texts(old(out)@) + example_lines(
            "=== Test: NOT FALSE ==="@,
            not_false_term(),
            old(binder).next(),
        ),
{
    let test = church_not(church_false());
    run_example("=== Test: NOT FALSE ===", test, binder, out);
}

/// Appends to `out` the title and the trace of the conjunction of true and true.
pub fn test_and_true_true(binder: &mut Binder, out: &mut Vec<String>)
    requires
        old(binder).next() + abstractions(and_true_true_term()) <= usize::MAX,
    ensures
        final(binder).next() == old(binder).next() + abstractions(and_true_true_term()),
        texts(final(out)@) == texts(old(out)@) + example_lines(
            "=== Test: AND TRUE TRUE ==="@,
            and_true_true_term(),
            old(binder).next(),
        ),
{
    let test = church_and(church_true(), church_true());
    run_example("=== Test: AND TRUE TRUE ===", test, binder, out);
}

/// Appends to `out` the title and the trace of the conjunction of true and false.
pub fn test_and_true_false(binder: &mut Binder, out: &mut Vec<String>)
    requires
        old(binder).next() + abstractions(and_true_false_term()) <= usize::MAX,
    ensures
        final(binder).next() == old(binder).next() + abstractions(and_true_false_term()),
        texts(final(out)@) == texts(old(out)@) + example_lines(
            "=== Test: AND TRUE FALSE ==="@,
            and_true_false_term(),
            old(binder).next(),
        ),
{
    let test = church_and(church_true(), church_false());
    run_example("=== Test: AND TRUE FALSE ===", test, binder, out);
}

/// Appends to `out` the title and the trace of the successor of zero.
pub fn test_succ_zero(binder: &mut Binder, out: &mut Vec<String>)
    requires
        old(binder).next() + abstractions(succ_zero_term()) <= usize::MAX,
    ensures
        final(binder).next() == old(binder).next() + abstractions(succ_zero_term()),
        texts(final(out)@) == texts(old(out)@) + example_lines(
            "=== Test: SUCC 0 (should give 1) ==="@,
            succ_zero_term(),
            old(binder).next(),
        ),
{
    let test = app(church_succ(), church_zero());
    run_example("=== Test: SUCC 0 (should give 1) ===", test, binder, out);
}

/// Appends to `out` the title and the trace of the successor of two.
pub fn test_succ_two(binder: &mut Binder, out: &mut Vec<String>)
    requires
        old(binder).next() + abstractions(succ_two_term()) <= usize::MAX,
    ensures
        final(binder).next() == old(binder).next() + abstractions(succ_two_term()),
        texts(final(out)@) == texts(old(out)@) + example_lines(
            "=== Test: SUCC 2 (should give 3) ==="@,
            succ_two_term(),
            old(binder).next(),
        ),
{
    let test = app(church_succ(), church_two());
    run_example("=== Test: SUCC 2 (should give 3) ===", test, binder, out);
}

/// Appends to `out` the title and the trace of the sum of one and two.
pub fn test_add_one_two(binder: &mut Binder, out: &mut Vec<String>)
    requires
        old(binder).next() + abstractions(add_one_two_term()) <= usize::MAX,
    ensures
        final(binder).next() == old(binder).next() + abstractions(add_one_two_term()),
        texts(final(out)@) == texts(old(out)@) + example_lines(
            "=== Test: ADD 1 2 (should give 3) ==="@,
            add_one_two_term(),
            old(binder).next(),
        ),
{
    let test = app(app(church_add(), church_one()), church_two());
    run_example("=== Test: ADD 1 2 (should give 3) ===", test, binder, out);
}

/// Appends to `out` the title and the trace of the sum of zero and two.
pub fn test_add_zero_two(binder: &mut Binder, out: &mut Vec<String>)
    requires
        old(binder).next() + abstractions(add_zero_two_term()) <= usize::MAX,
    ensures
        final(binder).next() == old(binder).next() + abstractions(add_zero_two_term()),
        texts(final(out)@) == texts(old(out)@) + example_lines(
            "=== Test: ADD 0 2 (should give 2) ==="@,
            add_zero_two_term(),
            old(binder).next(),
        ),
{
    let test = app(app(church_add(), church_zero()), church_two());
    run_example("=== Test: ADD 0 2 (should give 2) ===", test, binder, out);
}

/// Appends to `out` the title and the trace of the product of two and three.
pub fn test_mult_two_three(binder: &mut Binder, out: &mut Vec<String>)
    requires
        old(binder).next() + abstractions(mult_two_three_term()) <= usize::MAX,
    ensures
        final(binder).next() == old(binder).next() + abstractions(mult_two_three_term()),
        texts(final(out)@) == texts(old(out)@) + example_lines(
            "=== Test: MULT 2 3 (should give 6) ==="@,
            mult_two_three_term(),
            old(binder).next(),
        ),
{
    let test = app(app(church_mult(), church_two()), church_three());
    run_example("=== Test: MULT 2 3 (should give 6) ===", test, binder, out);
}

/// Appends to `out` the title and the trace of the product of zero and three.
pub fn test_mult_zero_three(binder: &mut Binder, out: &mut Vec<String>)
    requires
        old(binder).next() + abstractions(mult_zero_three_term()) <= usize::MAX,
    ensures
        final(binder).next() == old(binder).next() + abstractions(mult_zero_three_term()),
        texts(final(out)@) == texts(old(out)@) + example_lines(
            "=== Test: MULT 0 3 (should give 0) ==="@,
            mult_zero_three_term(),
            old(binder).next(),
        ),
{
    let test = app(app(church_mult(), church_zero()), church_three());
    run_example("=== Test: MULT 0 3 (should give 0) ===", test, binder, out);
}

/// Appends to `out` the title and the trace of the test of zero for zero.
pub fn test_is_zero_zero(binder: &mut Binder, out: &mut Vec<String>)
    requires
        old(binder).next() + abstractions(is_zero_zero_term()) <= usize::MAX,
    ensures
        final(binder).next() == old(binder).next() + abstractions(is_zero_zero_term()),
        texts(final(out)@) == texts(old(out)@) + example_lines(
            "=== Test: IS_ZERO 0 ==="@,
            is_zero_zero_term(),
            old(binder).next(),
        ),
{
    let test = app(church_is_zero(), church_zero());
    run_example("=== Test: IS_ZERO 0 ===", test, binder, out);
}

/// Appends to `out` the title and the trace of the test of one for zero.
pub fn test_is_zero_one(binder: &mut Binder, out: &mut Vec<String>)
    requires
        old(binder).next() + abstractions(is_zero_one_term()) <= usize::MAX,
    ensures
        final(binder).next() == old(binder).next() + abstractions(is_zero_one_term()),
        texts(final(out)@) == texts(old(out)@) + example_lines(
            "=== Test: IS_ZERO 1 ==="@,
            is_zero_one_term(),
            old(binder).next(),
        ),
{
    let test = app(church_is_zero(), church_one());
    run_example("=== Test: IS_ZERO 1 ===", test, binder, out);
}

/// Appends to `out` the title and the trace of the test of two for zero.
pub fn test_is_zero_two(binder: &mut Binder, out: &mut Vec<String>)
    requires
        old(binder).next() + abstractions(is_zero_two_term()) <= usize::MAX,
    ensures
        final(binder).next() == old(binder).next() + abstractions(is_zero_two_term()),
        texts(final(out)@) == texts(old(out)@) + example_lines(
            "=== Test: IS_ZERO 2 ==="@,
            is_zero_two_term(),
            old(binder).next(),
        ),
{
    let test = app(church_is_zero(), church_two());
    run_example("=== Test: IS_ZERO 2 ===", test, binder, out);
}

/// The identities that the examples on truth values take together.
pub open spec fn boolean_identities() -> nat {
    abstractions(if_true_term()) + abstractions(if_false_term()) + abstractions(not_true_term()) + abstractions(not_false_term()) + abstractions(and_true_true_term()) + abstractions(and_true_false_term())
}

/// The lines of the examples on truth values, bound with identities from `next` on: a
/// heading, then the examples with an empty line between them.
pub open spec fn boolean_lines(next: nat) -> Seq<Seq<char>> {
    let n0: nat = next;
    let n1: nat = n0 + abstractions(if_true_term());
    let n2: nat = n1 + abstractions(if_false_term());
    let n3: nat = n2 + abstractions(not_true_term());
    let n4: nat = n3 + abstractions(not_false_term());
    let n5: nat = n4 + abstractions(and_true_true_term());
    seq!["========== BOOLEAN TESTS ==========\n"@]
        + example_lines("=== Test: IF TRUE THEN x ELSE y ==="@, if_true_term(), n0) + seq![""@]
        + example_lines("=== Test: IF FALSE THEN x ELSE y ==="@, if_false_term(), n1) + seq![""@]
        + example_lines("=== Test: NOT TRUE ==="@, not_true_term(), n2) + seq![""@]
        + example_lines("=== Test: NOT FALSE ==="@, not_false_term(), n3) + seq![""@]
        + example_lines("=== Test: AND TRUE TRUE ==="@, and_true_true_term(), n4) + seq![""@]
        + example_lines("=== Test: AND TRUE FALSE ==="@, and_true_false_term(), n5)
}

/// The identities that the examples on numbers take together.
pub open spec fn numeral_identities() -> nat {
    abstractions(succ_zero_term()) + abstractions(succ_two_term()) + abstractions(add_one_two_term()) + abstractions(add_zero_two_term()) + abstractions(mult_two_three_term()) + abstractions(mult_zero_three_term()) + abstractions(is_zero_zero_term()) + abstractions(is_zero_one_term()) + abstractions(is_zero_two_term())
}

/// The lines of the examples on numbers, bound with identities from `next` on: a
/// heading, then the examples with an empty line between them.
pub open spec fn numeral_lines(next: nat) -> Seq<Seq<char>> {
    let n0: nat = next;
    let n1: nat = n0 + abstractions(succ_zero_term());
    let n2: nat = n1 + abstractions(succ_two_term());
    let n3: nat = n2 + abstractions(add_one_two_term());
    let n4: nat = n3 + abstractions(add_zero_two_term());
    let n5: nat = n4 + abstractions(mult_two_three_term());
    let n6: nat = n5 + abstractions(mult_zero_three_term());
    let n7: nat = n6 + abstractions(is_zero_zero_term());
    let n8: nat = n7 + abstractions(is_zero_one_term());
    seq!["\n========== NUMERAL TESTS ==========\n"@]
        + example_lines("=== Test: SUCC 0 (should give 1) ==="@, succ_zero_term(), n0) + seq![""@]
        + example_lines("=== Test: SUCC 2 (should give 3) ==="@, succ_two_term(), n1) + seq![""@]
        + example_lines("=== Test: ADD 1 2 (should give 3) ==="@, add_one_two_term(), n2) + seq![""@]
        + example_lines("=== Test: ADD 0 2 (should give 2) ==="@, add_zero_two_term(), n3) + seq![""@]
        + example_lines("=== Test: MULT 2 3 (should give 6) ==="@, mult_two_three_term(), n4) + seq![""@]
        + example_lines("=== Test: MULT 0 3 (should give 0) ==="@, mult_zero_three_term(), n5) + seq![""@]
        + example_lines("=== Test: IS_ZERO 0 ==="@, is_zero_zero_term(), n6) + seq![""@]
        + example_lines("=== Test: IS_ZERO 1 ==="@, is_zero_one_term(), n7) + seq![""@]
        + example_lines("=== Test: IS_ZERO 2 ==="@, is_zero_two_term(), n8)
}

/// Appends to `out` the lines of the examples on truth values.
fn run_boolean_examples(binder: &mut Binder, out: &mut Vec<String>)
    requires
        old(binder).next() + boolean_identities() <= usize::MAX,
    ensures
        final(binder).next() == old(binder).next() + boolean_identities(),
        texts(final(out)@) == texts(old(out)@) + boolean_lines(old(binder).next()),
{
    put_line("========== BOOLEAN TESTS ==========\n", out);
    test_if_true(binder, out);
    put_line("", out);
    test_if_false(binder, out);
    put_line("", out);
    test_not_true(binder, out);
    put_line("", out);
    test_not_false(binder, out);
    put_line("", out);
    test_and_true_true(binder, out);
    put_line("", out);
    test_and_true_false(binder, out);
}

/// Appends to `out` the lines of the examples on numbers.
fn run_numeral_examples(binder: &mut Binder, out: &mut Vec<String>)
    requires
        old(binder).next() + numeral_identities() <= usize::MAX,
    ensures
        final(binder).next() == old(binder).next() + numeral_identities(),
        texts(final(out)@) == texts(old(out)@) + numeral_lines(old(binder).next()),
{
    put_line("\n========== NUMERAL TESTS ==========\n", out);
    test_succ_zero(binder, out);
    put_line("", out);
    test_succ_two(binder, out);
    put_line("", out);
    test_add_one_two(binder, out);
    put_line("", out);
    test_add_zero_two(binder, out);
    put_line("", out);
    test_mult_two_three(binder, out);
    put_line("", out);
    test_mult_zero_three(binder, out);
    put_line("", out);
    test_is_zero_zero(binder, out);
    put_line("", out);
    test_is_zero_one(binder, out);
    put_line("", out);
    test_is_zero_two(binder, out);
}

/// Appends to `out` the lines of all the examples: those on truth
/// values, then those on numbers. No identity is used twice.
pub fn run_all_examples(binder: &mut Binder, out: &mut Vec<String>)
    requires
        old(binder).next() + boolean_identities() + numeral_identities() <= usize::MAX,
    ensures
        final(binder).next() == old(binder).next() + boolean_identities() + numeral_identities(),
        texts(final(out)@) == texts(old(out)@) + boolean_lines(old(binder).next())
            + numeral_lines(old(binder).next() + boolean_identities()),
{
    run_boolean_examples(binder, out);
    run_numeral_examples(binder, out);
}

/// The number of identities that all the examples take together.
pub const EXAMPLE_IDENTITIES: usize = 92;

/// The examples take `EXAMPLE_IDENTITIES` identities together: 28 those
/// on truth values, 64 those on numbers.
pub proof fn lemma_example_identities()
    ensures
        abstractions(if_true_term()) == 2,
        abstractions(if_false_term()) == 2,
        abstractions(not_true_term()) == 6,
        abstractions(not_false_term()) == 6,
        abstractions(and_true_true_term()) == 6,
        abstractions(and_true_false_term()) == 6,
        abstractions(succ_zero_term()) == 5,
        abstractions(succ_two_term()) == 5,
        abstractions(add_one_two_term()) == 8,
        abstractions(add_zero_two_term()) == 8,
        abstractions(mult_two_three_term()) == 7,
        abstractions(mult_zero_three_term()) == 7,
        abstractions(is_zero_zero_term()) == 8,
        abstractions(is_zero_one_term()) == 8,
        abstractions(is_zero_two_term()) == 8,
        boolean_identities() == 28,
        numeral_identities() == 64,
        boolean_identities() + numeral_identities() == EXAMPLE_IDENTITIES,
{
    reveal_with_fuel(abstractions, 12);
}

} // verus!
