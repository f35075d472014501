//! Church encodings of truth values and numbers, built from the
//! constructors of the term model.

use vstd::prelude::*;
use crate::expr::{app, app_term, fun, fun_term, var, var_term, Expr, Term};

verus! {

/// The variable named by a string.
pub open spec fn v(name: &str) -> Term {
    var_term(name@)
}

/// The abstraction over the parameter named by a string.
pub open spec fn lam(name: &str, body: Term) -> Term {
    fun_term(name@, body)
}

/// `\x.\y.x`
pub open spec fn true_term() -> Term {
    lam("x", lam("y", v("x")))
}

/// `\x.\y.y`
pub open spec fn false_term() -> Term {
    lam("x", lam("y", v("y")))
}

/// `cond then_branch else_branch`
pub open spec fn if_term(cond: Term, then_branch: Term, else_branch: Term) -> Term {
    app_term(app_term(cond, then_branch), else_branch)
}

/// `p FALSE TRUE`
pub open spec fn not_term(p: Term) -> Term {
    app_term(app_term(p, false_term()), true_term())
}

/// `p q FALSE`
pub open spec fn and_term(p: Term, q: Term) -> Term {
    app_term(app_term(p, q), false_term())
}

/// `\f.\x.x`
pub open spec fn zero_term() -> Term {
    lam("f", lam("x", v("x")))
}

/// `\f.\x.f x`
pub open spec fn one_term() -> Term {
    lam("f", lam("x", app_term(v("f"), v("x"))))
}

/// `\f.\x.f (f x)`
pub open spec fn two_term() -> Term {
    lam("f", lam("x", app_term(v("f"), app_term(v("f"), v("x")))))
}

/// `\f.\x.f (f (f x))`
pub open spec fn three_term() -> Term {
    lam("f", lam("x", app_term(v("f"), app_term(v("f"), app_term(v("f"), v("x"))))))
}

/// `\n.\f.\x.f (n f x)`
pub open spec fn succ_term() -> Term {
    lam("n", lam("f", lam("x", app_term(v("f"), app_term(app_term(v("n"), v("f")), v("x"))))))
}

/// `\m.\n.\f.\x.m f (n f x)`
pub open spec fn add_term() -> Term {
    lam(
        "m",
        lam(
            "n",
            lam(
                "f",
                lam(
                    "x",
                    app_term(
                        app_term(v("m"), v("f")),
                        app_term(app_term(v("n"), v("f")), v("x")),
                    ),
                ),
            ),
        ),
    )
}

/// `\m.\n.\f.m (n f)`
pub open spec fn mult_term() -> Term {
    lam("m", lam("n", lam("f", app_term(v("m"), app_term(v("n"), v("f"))))))
}

/// `\n.n (\x.FALSE) TRUE`
pub open spec fn is_zero_term() -> Term {
    lam("n", app_term(app_term(v("n"), lam("x", false_term())), true_term()))
}

/// The truth value true: `\x.\y.x`.
pub fn church_true() -> (r: Box<Expr>)
    ensures
        r@ == true_term(),
{
    fun("x".to_string(), fun("y".to_string(), var("x".to_string())))
}

/// The truth value false: `\x.\y.y`.
pub fn church_false() -> (r: Box<Expr>)
    ensures
        r@ == false_term(),
{
    fun("x".to_string(), fun("y".to_string(), var("y".to_string())))
}

/// The choice between two branches: `cond then_branch else_branch`.
pub fn church_if(cond: Box<Expr>, then_branch: Box<Expr>, else_branch: Box<Expr>) -> (r: Box<Expr>)
    ensures
        r@ == if_term(cond@, then_branch@, else_branch@),
{
    app(app(cond, then_branch), else_branch)
}

/// Negation: `p FALSE TRUE`.
pub fn church_not(p: Box<Expr>) -> (r: Box<Expr>)
    ensures
        r@ == not_term(p@),
{
    app(app(p, church_false()), church_true())
}

/// Conjunction: `p q FALSE`.
pub fn church_and(p: Box<Expr>, q: Box<Expr>) -> (r: Box<Expr>)
    ensures
        r@ == and_term(p@, q@),
{
    app(app(p, q), church_false())
}

/// The number zero: `\f.\x.x`.
pub fn church_zero() -> (r: Box<Expr>)
    ensures
        r@ == zero_term(),
{
    fun("f".to_string(), fun("x".to_string(), var("x".to_string())))
}

/// The number one: `\f.\x.f x`.
pub fn church_one() -> (r: Box<Expr>)
    ensures
        r@ == one_term(),
{
    fun(
        "f".to_string(),
        fun("x".to_string(), app(var("f".to_string()), var("x".to_string()))),
    )
}

/// The number two: `\f.\x.f (f x)`.
pub fn church_two() -> (r: Box<Expr>)
    ensures
        r@ == two_term(),
{
    fun(
        "f".to_string(),
        fun(
            "x".to_string(),
            app(var("f".to_string()), app(var("f".to_string()), var("x".to_string()))),
        ),
    )
}

/// The number three: `\f.\x.f (f (f x))`.
pub fn church_three() -> (r: Box<Expr>)
    ensures
        r@ == three_term(),
{
    fun(
        "f".to_string(),
        fun(
            "x".to_string(),
            app(
                var("f".to_string()),
                app(var("f".to_string()), app(var("f".to_string()), var("x".to_string()))),
            ),
        ),
    )
}

/// The successor: `\n.\f.\x.f (n f x)`.
pub fn church_succ() -> (r: Box<Expr>)
    ensures
        r@ == succ_term(),
{
    fun(
        "n".to_string(),
        fun(
            "f".to_string(),
            fun(
                "x".to_string(),
                app(
                    var("f".to_string()),
                    app(app(var("n".to_string()), var("f".to_string())), var("x".to_string())),
                ),
            ),
        ),
    )
}

/// Addition: `\m.\n.\f.\x.m f (n f x)`.
pub fn church_add() -> (r: Box<Expr>)
    ensures
        r@ == add_term(),
{
    fun(
        "m".to_string(),
        fun(
            "n".to_string(),
            fun(
                "f".to_string(),
                fun(
                    "x".to_string(),
                    app(
                        app(var("m".to_string()), var("f".to_string())),
                        app(app(var("n".to_string()), var("f".to_string())), var("x".to_string())),
                    ),
                ),
            ),
        ),
    )
}

/// Multiplication: `\m.\n.\f.m (n f)`.
pub fn church_mult() -> (r: Box<Expr>)
    ensures
        r@ == mult_term(),
{
    fun(
        "m".to_string(),
        fun(
            "n".to_string(),
            fun(
                "f".to_string(),
                app(var("m".to_string()), app(var("n".to_string()), var("f".to_string()))),
            ),
        ),
    )
}

/// The test for zero: `\n.n (\x.FALSE) TRUE`.
pub fn church_is_zero() -> (r: Box<Expr>)
    ensures
        r@ == is_zero_term(),
{
    fun(
        "n".to_string(),
        app(app(var("n".to_string()), fun("x".to_string(), church_false())), church_true()),
    )
}

} // verus!
