//! What the Church-encoded truth values and numbers reduce to, once
//! bound with identities from `1` on.

use vstd::prelude::*;
use crate::bind::{abstractions, resolve};
use crate::church::{
    add_term, false_term, is_zero_term, mult_term, one_term, succ_term, three_term, true_term,
    two_term, v, zero_term,
};
use crate::eval::{
    lemma_redex_free_is_normal, lemma_redex_free_step, lemma_reduction, normalize_within,
    redex_free, reduce, step_within, steps_taken, substitute, truncated,
};
use crate::examples::{
    add_one_two_term, and_true_false_term, if_false_term, if_true_term, is_zero_one_term,
    is_zero_zero_term, mult_zero_three_term, not_true_term,
};
use crate::expr::{app_term, erase, Ident, Term};

verus! {

/// The variable with a name and an identity.
spec fn var(name: &str, id: nat) -> Term {
    Term::Var(Ident { name: name@, id })
}

/// The abstraction over a parameter with a name and an identity.
spec fn fun(name: &str, id: nat, body: Term) -> Term {
    Term::Fun(Ident { name: name@, id }, Box::new(body))
}

/// `\x.\y.inner` with the identities `id` and `id + 1`.
spec fn choice(id: nat, inner: Term) -> Term {
    fun("x", id, fun("y", id + 1, inner))
}

/// True with the identities `id` and `id + 1`.
spec fn tru(id: nat) -> Term {
    choice(id, var("x", id))
}

/// False with the identities `id` and `id + 1`.
spec fn fls(id: nat) -> Term {
    choice(id, var("y", id + 1))
}

/// `\f.\x.inner` with the identities `id` and `id + 1`.
spec fn numeral(id: nat, inner: Term) -> Term {
    fun("f", id, fun("x", id + 1, inner))
}

/// Zero with the identities `id` and `id + 1`.
spec fn zero(id: nat) -> Term {
    numeral(id, var("x", id + 1))
}

/// One with the identities `id` and `id + 1`.
spec fn one(id: nat) -> Term {
    numeral(id, app_term(var("f", id), var("x", id + 1)))
}

/// Two with the identities `id` and `id + 1`.
spec fn two(id: nat) -> Term {
    numeral(id, app_term(var("f", id), app_term(var("f", id), var("x", id + 1))))
}

/// Three with the identities `id` and `id + 1`.
spec fn three(id: nat) -> Term {
    numeral(
        id,
        app_term(
            var("f", id),
            app_term(var("f", id), app_term(var("f", id), var("x", id + 1))),
        ),
    )
}

/// `f (arg f x)` with the identities `id` and `id + 1`.
spec fn once_more(id: nat, arg: Term) -> Term {
    app_term(var("f", id), app_term(app_term(arg, var("f", id)), var("x", id + 1)))
}

/// The successor with the identities `id`, `id + 1` and `id + 2`.
spec fn succ(id: nat) -> Term {
    fun("n", id, numeral(id + 1, once_more(id + 1, var("n", id))))
}

/// `(n f) x` with the identities `id`, `id + 1` and `id + 2`.
spec fn tail(id: nat) -> Term {
    app_term(app_term(var("n", id), var("f", id + 1)), var("x", id + 2))
}

/// `\n.\f.\x.inner` with the identities `id`, `id + 1` and `id + 2`.
spec fn under(id: nat, inner: Term) -> Term {
    fun("n", id, numeral(id + 1, inner))
}

/// Addition with the identities from `id` to `id + 3`.
spec fn addition(id: nat) -> Term {
    fun(
        "m",
        id,
        under(id + 1, app_term(app_term(var("m", id), var("f", id + 2)), tail(id + 1))),
    )
}

/// `\n.\f.inner` with the identities `id` and `id + 1`.
spec fn over(id: nat, inner: Term) -> Term {
    fun("n", id, fun("f", id + 1, inner))
}

/// Multiplication with the identities `id`, `id + 1` and `id + 2`.
spec fn mult(id: nat) -> Term {
    fun(
        "m",
        id,
        over(id + 1, app_term(var("m", id), app_term(var("n", id + 1), var("f", id + 2)))),
    )
}

/// `\x.FALSE` with the identities from `id` to `id + 2`.
spec fn always_false(id: nat) -> Term {
    fun("x", id, fls(id + 1))
}

/// The test for zero with the identities from `id` to `id + 5`.
spec fn is_zero(id: nat) -> Term {
    fun(
        "n",
        id,
        app_term(app_term(var("n", id), always_false(id + 1)), tru(id + 4)),
    )
}

/// `\x.f arg` with the identity `x` on the parameter and `f` on the function.
spec fn apply_to(x: nat, f: nat, arg: Term) -> Term {
    fun("x", x, app_term(var("f", f), arg))
}

/// The names of the Church terms differ from one another.
proof fn lemma_names_differ()
    ensures
        "m"@ != "n"@,
        "m"@ != "f"@,
        "m"@ != "x"@,
        "n"@ != "f"@,
        "n"@ != "x"@,
        "n"@ != "y"@,
        "f"@ != "x"@,
        "x"@ != "y"@,
{
    reveal_strlit("m");
    reveal_strlit("n");
    reveal_strlit("f");
    reveal_strlit("x");
    reveal_strlit("y");
    assert("m"@[0] == 'm');
    assert("n"@[0] == 'n');
    assert("f"@[0] == 'f');
    assert("x"@[0] == 'x');
    assert("y"@[0] == 'y');
}

/// The truth values are closed: bound in any scope with identities from
/// `id` on, they are the truth values with these identities.
proof fn lemma_truth_bound(scope: Map<Seq<char>, nat>, id: nat)
    ensures
        resolve(true_term(), scope, id) == tru(id),
        resolve(false_term(), scope, id) == fls(id),
        abstractions(true_term()) == 2,
        abstractions(false_term()) == 2,
{
    lemma_names_differ();
    reveal_with_fuel(resolve, 4);
    reveal_with_fuel(abstractions, 4);
}

/// The numbers are closed.
proof fn lemma_numbers_bound(scope: Map<Seq<char>, nat>, id: nat)
    ensures
        resolve(zero_term(), scope, id) == zero(id),
        resolve(one_term(), scope, id) == one(id),
        resolve(two_term(), scope, id) == two(id),
        resolve(three_term(), scope, id) == three(id),
        abstractions(zero_term()) == 2,
        abstractions(one_term()) == 2,
        abstractions(two_term()) == 2,
        abstractions(three_term()) == 2,
{
    lemma_names_differ();
    reveal_with_fuel(resolve, 8);
    reveal_with_fuel(abstractions, 8);
}

/// The successor is closed.
proof fn lemma_succ_bound(scope: Map<Seq<char>, nat>, id: nat)
    ensures
        resolve(succ_term(), scope, id) == succ(id),
        abstractions(succ_term()) == 3,
{
    lemma_names_differ();
    reveal_with_fuel(resolve, 8);
    reveal_with_fuel(abstractions, 8);
}

/// Addition is closed.
proof fn lemma_add_bound(scope: Map<Seq<char>, nat>, id: nat)
    ensures
        resolve(add_term(), scope, id) == addition(id),
        abstractions(add_term()) == 4,
{
    lemma_names_differ();
    reveal_with_fuel(resolve, 8);
    reveal_with_fuel(abstractions, 8);
}

/// Multiplication is closed.
proof fn lemma_mult_bound(scope: Map<Seq<char>, nat>, id: nat)
    ensures
        resolve(mult_term(), scope, id) == mult(id),
        abstractions(mult_term()) == 3,
{
    lemma_names_differ();
    reveal_with_fuel(resolve, 8);
    reveal_with_fuel(abstractions, 8);
}

/// The test for zero is closed.
proof fn lemma_is_zero_bound(scope: Map<Seq<char>, nat>, id: nat)
    ensures
        resolve(is_zero_term(), scope, id) == is_zero(id),
        abstractions(is_zero_term()) == 6,
{
    lemma_names_differ();
    let inner = scope.insert("n"@, id);
    lemma_truth_bound(inner.insert("x"@, id + 1), id + 2);
    lemma_truth_bound(inner, id + 4);
    reveal_with_fuel(resolve, 4);
    reveal_with_fuel(abstractions, 4);
}

// The choice between two branches.

proof fn lemma_choice_steps(fuel: nat, picked: Term, first: Term, second: Term)
    requires
        redex_free(first),
        redex_free(second),
        picked == var("x", 1) || picked == var("y", 2),
    ensures
        step_within(app_term(app_term(choice(1, picked), first), second), fuel) == app_term(
            fun("y", 2, if picked == var("x", 1) {
                first
            } else {
                picked
            }),
            second,
        ),
        step_within(app_term(fun("y", 2, first), second), fuel) == substitute(
            Ident { name: "y"@, id: 2 },
            first,
            second,
        ),
        step_within(app_term(fun("y", 2, var("y", 2)), second), fuel) == second,
{
    reveal_with_fuel(step_within, 4);
    reveal_with_fuel(substitute, 4);
    reveal_with_fuel(redex_free, 4);
    lemma_redex_free_step(choice(1, picked), fuel);
    lemma_redex_free_step(fun("y", 2, first), fuel);
    lemma_redex_free_step(fun("y", 2, var("y", 2)), fuel);
    lemma_redex_free_is_normal(first, fuel);
    lemma_redex_free_is_normal(second, fuel);
}

/// `IF TRUE x y` reduces to `x` within any budget of three steps or more.
pub proof fn lemma_if_true_is_first(max: nat)
    requires
        max >= 3,
    ensures
        steps_taken(resolve(if_true_term(), Map::empty(), 1), max) == 2,
        !truncated(resolve(if_true_term(), Map::empty(), 1), max),
        reduce(resolve(if_true_term(), Map::empty(), 1), max) == v("x"),
{
    let scope = Map::<Seq<char>, nat>::empty();
    lemma_truth_bound(scope, 1);
    let x = var("x", 0);
    let y = var("y", 0);
    let t0 = app_term(app_term(tru(1), x), y);
    let t1 = app_term(fun("y", 2, x), y);
    assert(resolve(v("x"), scope, 3) == x && resolve(v("y"), scope, 3) == y);
    assert(resolve(app_term(true_term(), v("x")), scope, 1) == app_term(tru(1), x));
    assert(abstractions(v("x")) == 0);
    assert(abstractions(app_term(true_term(), v("x"))) == 2);
    assert(resolve(if_true_term(), scope, 1) == t0);
    lemma_choice_steps(usize::MAX as nat, var("x", 1), x, y);
    lemma_redex_free_is_normal(x, 0);
    lemma_reduction(seq![t0, t1, x], max);
}

/// `IF FALSE x y` reduces to `y` within any budget of three steps or more.
pub proof fn lemma_if_false_is_second(max: nat)
    requires
        max >= 3,
    ensures
        steps_taken(resolve(if_false_term(), Map::empty(), 1), max) == 2,
        !truncated(resolve(if_false_term(), Map::empty(), 1), max),
        reduce(resolve(if_false_term(), Map::empty(), 1), max) == v("y"),
{
    let scope = Map::<Seq<char>, nat>::empty();
    lemma_truth_bound(scope, 1);
    let x = var("x", 0);
    let y = var("y", 0);
    let t0 = app_term(app_term(fls(1), x), y);
    let t1 = app_term(fun("y", 2, var("y", 2)), y);
    assert(resolve(v("x"), scope, 3) == x && resolve(v("y"), scope, 3) == y);
    assert(resolve(app_term(false_term(), v("x")), scope, 1) == app_term(fls(1), x));
    assert(abstractions(v("x")) == 0);
    assert(abstractions(app_term(false_term(), v("x"))) == 2);
    assert(resolve(if_false_term(), scope, 1) == t0);
    lemma_choice_steps(usize::MAX as nat, var("y", 2), x, y);
    lemma_redex_free_is_normal(y, 0);
    lemma_reduction(seq![t0, t1, y], max);
}

/// `NOT TRUE` reduces to false within any budget of three steps or more.
pub proof fn lemma_not_true_is_false(max: nat)
    requires
        max >= 3,
    ensures
        steps_taken(resolve(not_true_term(), Map::empty(), 1), max) == 2,
        !truncated(resolve(not_true_term(), Map::empty(), 1), max),
        erase(reduce(resolve(not_true_term(), Map::empty(), 1), max)) == false_term(),
{
    let scope = Map::<Seq<char>, nat>::empty();
    lemma_truth_bound(scope, 1);
    lemma_truth_bound(scope, 3);
    lemma_truth_bound(scope, 5);
    let t0 = app_term(app_term(tru(1), fls(3)), tru(5));
    let t1 = app_term(fun("y", 2, fls(3)), tru(5));
    assert(resolve(app_term(true_term(), false_term()), scope, 1) == app_term(tru(1), fls(3)));
    assert(resolve(not_true_term(), scope, 1) == t0);
    reveal_with_fuel(redex_free, 4);
    reveal_with_fuel(substitute, 4);
    lemma_choice_steps(usize::MAX as nat, var("x", 1), fls(3), tru(5));
    lemma_redex_free_is_normal(fls(3), 0);
    lemma_reduction(seq![t0, t1, fls(3)], max);
    reveal_with_fuel(erase, 4);
}

/// `AND TRUE FALSE` reduces to false within any budget of three steps or
/// more.
pub proof fn lemma_and_true_false_is_false(max: nat)
    requires
        max >= 3,
    ensures
        steps_taken(resolve(and_true_false_term(), Map::empty(), 1), max) == 2,
        !truncated(resolve(and_true_false_term(), Map::empty(), 1), max),
        erase(reduce(resolve(and_true_false_term(), Map::empty(), 1), max)) == false_term(),
{
    let scope = Map::<Seq<char>, nat>::empty();
    lemma_truth_bound(scope, 1);
    lemma_truth_bound(scope, 3);
    lemma_truth_bound(scope, 5);
    let t0 = app_term(app_term(tru(1), fls(3)), fls(5));
    let t1 = app_term(fun("y", 2, fls(3)), fls(5));
    assert(resolve(app_term(true_term(), false_term()), scope, 1) == app_term(tru(1), fls(3)));
    assert(resolve(and_true_false_term(), scope, 1) == t0);
    reveal_with_fuel(redex_free, 4);
    reveal_with_fuel(substitute, 4);
    lemma_choice_steps(usize::MAX as nat, var("x", 1), fls(3), fls(5));
    lemma_redex_free_is_normal(fls(3), 0);
    lemma_reduction(seq![t0, t1, fls(3)], max);
    reveal_with_fuel(erase, 4);
}

// The product of zero and three.

spec fn product0() -> Term {
    app_term(app_term(mult(1), zero(4)), three(6))
}

spec fn product1() -> Term {
    app_term(over(2, app_term(zero(4), app_term(var("n", 2), var("f", 3)))), three(6))
}

spec fn product2() -> Term {
    app_term(over(2, fun("x", 5, var("x", 5))), three(6))
}

spec fn product3() -> Term {
    fun("f", 3, fun("x", 5, var("x", 5)))
}

proof fn lemma_product_steps(fuel: nat)
    ensures
        step_within(product0(), fuel) == product1(),
        step_within(product1(), fuel) == product2(),
        step_within(product2(), fuel) == product3(),
        redex_free(product3()),
{
    reveal_with_fuel(step_within, 8);
    reveal_with_fuel(substitute, 8);
    reveal_with_fuel(redex_free, 8);
    lemma_redex_free_step(mult(1), fuel);
    lemma_redex_free_step(zero(4), fuel);
    lemma_redex_free_step(over(2, fun("x", 5, var("x", 5))), fuel);
    lemma_redex_free_is_normal(zero(4), fuel);
    lemma_redex_free_is_normal(three(6), fuel);
    lemma_redex_free_is_normal(app_term(var("n", 2), var("f", 3)), fuel);
}

/// `MULT ZERO THREE` reduces to zero within any budget of four steps or
/// more.
pub proof fn lemma_mult_zero_three_is_zero(max: nat)
    requires
        max >= 4,
    ensures
        steps_taken(resolve(mult_zero_three_term(), Map::empty(), 1), max) == 3,
        !truncated(resolve(mult_zero_three_term(), Map::empty(), 1), max),
        erase(reduce(resolve(mult_zero_three_term(), Map::empty(), 1), max)) == zero_term(),
{
    let scope = Map::<Seq<char>, nat>::empty();
    lemma_mult_bound(scope, 1);
    lemma_numbers_bound(scope, 4);
    lemma_numbers_bound(scope, 6);
    assert(resolve(app_term(mult_term(), zero_term()), scope, 1) == app_term(mult(1), zero(4)));
    assert(resolve(mult_zero_three_term(), scope, 1) == product0());
    lemma_product_steps(usize::MAX as nat);
    lemma_redex_free_is_normal(product3(), 0);
    lemma_reduction(seq![product0(), product1(), product2(), product3()], max);
    reveal_with_fuel(erase, 4);
}

// The test of zero and of one for zero.

spec fn test0(number: Term) -> Term {
    app_term(is_zero(1), number)
}

spec fn test1(number: Term) -> Term {
    app_term(app_term(number, always_false(2)), tru(5))
}

spec fn test2(inner: Term) -> Term {
    app_term(fun("x", 8, inner), tru(5))
}

proof fn lemma_test_steps(fuel: nat, number: Term)
    requires
        redex_free(number),
        number is Fun,
    ensures
        step_within(test0(number), fuel) == test1(number),
        step_within(test1(zero(7)), fuel) == test2(var("x", 8)),
        step_within(test2(var("x", 8)), fuel) == tru(5),
        step_within(test1(one(7)), fuel) == test2(app_term(always_false(2), var("x", 8))),
        step_within(test2(app_term(always_false(2), var("x", 8))), fuel) == test2(fls(3)),
        step_within(test2(fls(3)), fuel) == fls(3),
        redex_free(tru(5)),
        redex_free(fls(3)),
{
    reveal_with_fuel(step_within, 8);
    reveal_with_fuel(substitute, 8);
    reveal_with_fuel(redex_free, 8);
    lemma_redex_free_step(is_zero(1), fuel);
    lemma_redex_free_step(zero(7), fuel);
    lemma_redex_free_step(one(7), fuel);
    lemma_redex_free_step(always_false(2), fuel);
    lemma_redex_free_step(fun("x", 8, var("x", 8)), fuel);
    lemma_redex_free_step(fun("x", 8, fls(3)), fuel);
    lemma_redex_free_is_normal(number, fuel);
    lemma_redex_free_is_normal(always_false(2), fuel);
    lemma_redex_free_is_normal(tru(5), fuel);
    lemma_redex_free_is_normal(var("x", 8), fuel);
}

proof fn lemma_test_bound(number: Term)
    ensures
        resolve(app_term(is_zero_term(), number), Map::empty(), 1) == app_term(
            is_zero(1),
            resolve(number, Map::empty(), 7),
        ),
{
    lemma_is_zero_bound(Map::empty(), 1);
}

/// `IS_ZERO ZERO` reduces to true within any budget of four steps or more.
pub proof fn lemma_is_zero_zero_is_true(max: nat)
    requires
        max >= 4,
    ensures
        steps_taken(resolve(is_zero_zero_term(), Map::empty(), 1), max) == 3,
        !truncated(resolve(is_zero_zero_term(), Map::empty(), 1), max),
        erase(reduce(resolve(is_zero_zero_term(), Map::empty(), 1), max)) == true_term(),
{
    lemma_test_bound(zero_term());
    lemma_numbers_bound(Map::empty(), 7);
    reveal_with_fuel(redex_free, 4);
    lemma_test_steps(usize::MAX as nat, zero(7));
    lemma_redex_free_is_normal(tru(5), 0);
    lemma_reduction(seq![test0(zero(7)), test1(zero(7)), test2(var("x", 8)), tru(5)], max);
    reveal_with_fuel(erase, 4);
}

/// `IS_ZERO ONE` reduces to false within any budget of five steps or more.
pub proof fn lemma_is_zero_one_is_false(max: nat)
    requires
        max >= 5,
    ensures
        steps_taken(resolve(is_zero_one_term(), Map::empty(), 1), max) == 4,
        !truncated(resolve(is_zero_one_term(), Map::empty(), 1), max),
        erase(reduce(resolve(is_zero_one_term(), Map::empty(), 1), max)) == false_term(),
{
    lemma_test_bound(one_term());
    lemma_numbers_bound(Map::empty(), 7);
    reveal_with_fuel(redex_free, 4);
    lemma_test_steps(usize::MAX as nat, one(7));
    lemma_redex_free_is_normal(fls(3), 0);
    lemma_reduction(
        seq![
            test0(one(7)),
            test1(one(7)),
            test2(app_term(always_false(2), var("x", 8))),
            test2(fls(3)),
            fls(3),
        ],
        max,
    );
    reveal_with_fuel(erase, 4);
}

// The sum of one and two.

spec fn sum0() -> Term {
    app_term(app_term(addition(1), one(5)), two(7))
}

spec fn sum1() -> Term {
    app_term(under(2, app_term(app_term(one(5), var("f", 3)), tail(2))), two(7))
}

spec fn sum2() -> Term {
    app_term(under(2, app_term(apply_to(6, 3, var("x", 6)), tail(2))), two(7))
}

spec fn sum3() -> Term {
    app_term(under(2, app_term(var("f", 3), tail(2))), two(7))
}

spec fn sum4() -> Term {
    numeral(3, once_more(3, two(7)))
}

spec fn sum5() -> Term {
    numeral(
        3,
        app_term(
            var("f", 3),
            app_term(apply_to(8, 3, app_term(var("f", 3), var("x", 8))), var("x", 4)),
        ),
    )
}

proof fn lemma_sum_steps(fuel: nat)
    ensures
        step_within(sum0(), fuel) == sum1(),
        step_within(sum1(), fuel) == sum2(),
        step_within(sum2(), fuel) == sum3(),
        step_within(sum3(), fuel) == sum4(),
        redex_free(three(3)),
{
    reveal_with_fuel(step_within, 8);
    reveal_with_fuel(substitute, 10);
    reveal_with_fuel(redex_free, 10);
    lemma_redex_free_step(addition(1), fuel);
    lemma_redex_free_step(one(5), fuel);
    lemma_redex_free_step(apply_to(6, 3, var("x", 6)), fuel);
    lemma_redex_free_step(under(2, app_term(var("f", 3), tail(2))), fuel);
    lemma_redex_free_is_normal(one(5), fuel);
    lemma_redex_free_is_normal(two(7), fuel);
    lemma_redex_free_is_normal(tail(2), fuel);
    lemma_redex_free_is_normal(var("f", 3), fuel);
}

proof fn lemma_sum_last_steps(fuel: nat)
    ensures
        step_within(sum4(), fuel) == sum5(),
        step_within(sum5(), fuel) == three(3),
{
    reveal_with_fuel(step_within, 8);
    reveal_with_fuel(substitute, 10);
    reveal_with_fuel(redex_free, 10);
    lemma_redex_free_step(two(7), fuel);
    lemma_redex_free_step(apply_to(8, 3, app_term(var("f", 3), var("x", 8))), fuel);
    lemma_redex_free_is_normal(var("f", 3), fuel);
    lemma_redex_free_is_normal(var("x", 4), fuel);
}

/// `ADD ONE TWO` reduces to three within any budget of seven steps or
/// more: six steps change the term, the seventh finds it unchanged.
pub proof fn lemma_add_one_two_is_three(max: nat)
    requires
        max >= 7,
    ensures
        steps_taken(resolve(add_one_two_term(), Map::empty(), 1), max) == 6,
        !truncated(resolve(add_one_two_term(), Map::empty(), 1), max),
        erase(reduce(resolve(add_one_two_term(), Map::empty(), 1), max)) == three_term(),
{
    let scope = Map::<Seq<char>, nat>::empty();
    lemma_add_bound(scope, 1);
    lemma_numbers_bound(scope, 5);
    lemma_numbers_bound(scope, 7);
    assert(resolve(app_term(add_term(), one_term()), scope, 1) == app_term(addition(1), one(5)));
    assert(resolve(add_one_two_term(), scope, 1) == sum0());
    lemma_sum_steps(usize::MAX as nat);
    lemma_sum_last_steps(usize::MAX as nat);
    lemma_redex_free_is_normal(three(3), 0);
    lemma_reduction(seq![sum0(), sum1(), sum2(), sum3(), sum4(), sum5(), three(3)], max);
    reveal_with_fuel(erase, 8);
}

// Three successors of zero: the innermost on its way to one, the next on
// its way to two, the outermost on its way to three.

/// Three successors applied to zero.
pub open spec fn three_successors_term() -> Term {
    app_term(succ_term(), app_term(succ_term(), app_term(succ_term(), zero_term())))
}

spec fn inner0() -> Term {
    app_term(succ(7), zero(10))
}

spec fn inner1() -> Term {
    numeral(8, once_more(8, zero(10)))
}

spec fn inner2() -> Term {
    numeral(
        8,
        app_term(var("f", 8), app_term(fun("x", 11, var("x", 11)), var("x", 9))),
    )
}

spec fn middle0() -> Term {
    app_term(succ(4), inner0())
}

spec fn middle1() -> Term {
    numeral(5, once_more(5, one(8)))
}

spec fn middle2() -> Term {
    numeral(
        5,
        app_term(var("f", 5), app_term(apply_to(9, 5, var("x", 9)), var("x", 6))),
    )
}

spec fn outer0() -> Term {
    app_term(succ(1), middle0())
}

spec fn outer1() -> Term {
    numeral(2, once_more(2, two(5)))
}

spec fn outer2() -> Term {
    numeral(
        2,
        app_term(
            var("f", 2),
            app_term(apply_to(6, 2, app_term(var("f", 2), var("x", 6))), var("x", 3)),
        ),
    )
}

proof fn lemma_inner_steps(fuel: nat)
    ensures
        step_within(inner0(), fuel) == inner1(),
        step_within(inner1(), fuel) == inner2(),
        step_within(inner2(), fuel) == one(8),
        redex_free(one(8)),
{
    reveal_with_fuel(step_within, 8);
    reveal_with_fuel(substitute, 10);
    reveal_with_fuel(redex_free, 10);
    lemma_redex_free_step(succ(7), fuel);
    lemma_redex_free_step(zero(10), fuel);
    lemma_redex_free_step(fun("x", 11, var("x", 11)), fuel);
    lemma_redex_free_is_normal(zero(10), fuel);
    lemma_redex_free_is_normal(var("f", 8), fuel);
    lemma_redex_free_is_normal(var("x", 9), fuel);
}

/// The successor of zero has the normal form one.
proof fn lemma_inner_normal_form(fuel: nat)
    requires
        fuel >= 4,
    ensures
        normalize_within(inner0(), fuel) == one(8),
{
    lemma_inner_steps((fuel - 1) as nat);
    lemma_inner_steps((fuel - 2) as nat);
    lemma_inner_steps((fuel - 3) as nat);
    lemma_redex_free_is_normal(one(8), (fuel - 3) as nat);
    assert(normalize_within(inner2(), (fuel - 2) as nat) == one(8));
    assert(normalize_within(inner1(), (fuel - 1) as nat) == one(8));
}

proof fn lemma_middle_steps(fuel: nat)
    requires
        fuel >= 4,
    ensures
        step_within(middle0(), fuel) == middle1(),
        step_within(middle1(), fuel) == middle2(),
        step_within(middle2(), fuel) == two(5),
        redex_free(two(5)),
{
    reveal_with_fuel(step_within, 8);
    reveal_with_fuel(substitute, 10);
    reveal_with_fuel(redex_free, 10);
    lemma_inner_normal_form(fuel);
    lemma_redex_free_step(succ(4), fuel);
    lemma_redex_free_step(one(8), fuel);
    lemma_redex_free_step(apply_to(9, 5, var("x", 9)), fuel);
    lemma_redex_free_is_normal(var("f", 5), fuel);
    lemma_redex_free_is_normal(var("x", 6), fuel);
}

/// The successor of the successor of zero has the normal form two.
proof fn lemma_middle_normal_form(fuel: nat)
    requires
        fuel >= 8,
    ensures
        normalize_within(middle0(), fuel) == two(5),
{
    lemma_middle_steps((fuel - 1) as nat);
    lemma_middle_steps((fuel - 2) as nat);
    lemma_middle_steps((fuel - 3) as nat);
    lemma_redex_free_is_normal(two(5), (fuel - 3) as nat);
    assert(normalize_within(middle2(), (fuel - 2) as nat) == two(5));
    assert(normalize_within(middle1(), (fuel - 1) as nat) == two(5));
}

proof fn lemma_outer_steps(fuel: nat)
    requires
        fuel >= 8,
    ensures
        step_within(outer0(), fuel) == outer1(),
        step_within(outer1(), fuel) == outer2(),
        step_within(outer2(), fuel) == three(2),
        redex_free(three(2)),
{
    reveal_with_fuel(step_within, 8);
    reveal_with_fuel(substitute, 10);
    reveal_with_fuel(redex_free, 10);
    lemma_middle_normal_form(fuel);
    lemma_redex_free_step(succ(1), fuel);
    lemma_redex_free_step(two(5), fuel);
    lemma_redex_free_step(apply_to(6, 2, app_term(var("f", 2), var("x", 6))), fuel);
    lemma_redex_free_is_normal(var("f", 2), fuel);
    lemma_redex_free_is_normal(var("x", 3), fuel);
}

/// `SUCC (SUCC (SUCC ZERO))` reduces to three within any budget of four
/// steps or more: three steps change the term, each of the first two of
/// them after bringing the argument to its normal form, and the fourth
/// finds the term unchanged.
pub proof fn lemma_three_successors_of_zero_are_three(max: nat)
    requires
        max >= 4,
    ensures
        steps_taken(resolve(three_successors_term(), Map::empty(), 1), max) == 3,
        !truncated(resolve(three_successors_term(), Map::empty(), 1), max),
        erase(reduce(resolve(three_successors_term(), Map::empty(), 1), max)) == three_term(),
{
    let scope = Map::<Seq<char>, nat>::empty();
    lemma_succ_bound(scope, 1);
    lemma_succ_bound(scope, 4);
    lemma_succ_bound(scope, 7);
    lemma_numbers_bound(scope, 10);
    let inner = app_term(succ_term(), zero_term());
    let middle = app_term(succ_term(), inner);
    assert(resolve(inner, scope, 7) == inner0());
    assert(resolve(middle, scope, 4) == middle0());
    assert(resolve(three_successors_term(), scope, 1) == outer0());
    lemma_outer_steps(usize::MAX as nat);
    lemma_redex_free_is_normal(three(2), 0);
    lemma_reduction(seq![outer0(), outer1(), outer2(), three(2)], max);
    reveal_with_fuel(erase, 8);
}

} // verus!
