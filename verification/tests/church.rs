use lambdust::church::{
    church_add, church_and, church_false, church_if, church_is_zero, church_mult, church_not,
    church_one, church_succ, church_three, church_true, church_two, church_zero,
};
use lambdust::eval::{bind_vars, eval};
use lambdust::expr::{app, structural_eq, var, Expr};

/// Binds the expression and steps it until nothing changes.
fn eval_to_normal(expr: Box<Expr>) -> Expr {
    let bound = bind_vars(*expr);
    let mut current = bound;
    for _ in 0..100 {
        let next = eval(current.clone());
        if next == current {
            return current;
        }
        current = next;
    }
    current
}

#[test]
fn test_if_true() {
    let result = eval_to_normal(church_if(
        church_true(),
        var("x".to_string()),
        var("y".to_string()),
    ));
    match result {
        Expr::Var(name) => assert_eq!(name.name, "x"),
        _ => panic!("Expected variable x, got {:?}", result),
    }
}

#[test]
fn test_if_false() {
    let result = eval_to_normal(church_if(
        church_false(),
        var("x".to_string()),
        var("y".to_string()),
    ));
    match result {
        Expr::Var(name) => assert_eq!(name.name, "y"),
        _ => panic!("Expected variable y, got {:?}", result),
    }
}

#[test]
fn test_not_true() {
    let result = eval_to_normal(church_not(church_true()));
    let expected = eval_to_normal(church_false());
    assert!(
        structural_eq(&result, &expected),
        "NOT TRUE should equal FALSE"
    );
}

#[test]
fn test_not_false() {
    let result = eval_to_normal(church_not(church_false()));
    let expected = eval_to_normal(church_true());
    assert!(
        structural_eq(&result, &expected),
        "NOT FALSE should equal TRUE"
    );
}

#[test]
fn test_and_true_true() {
    let result = eval_to_normal(church_and(church_true(), church_true()));
    let expected = eval_to_normal(church_true());
    assert!(
        structural_eq(&result, &expected),
        "AND TRUE TRUE should equal TRUE"
    );
}

#[test]
fn test_and_true_false() {
    let result = eval_to_normal(church_and(church_true(), church_false()));
    let expected = eval_to_normal(church_false());
    assert!(
        structural_eq(&result, &expected),
        "AND TRUE FALSE should equal FALSE"
    );
}

#[test]
fn test_succ_zero() {
    let result = eval_to_normal(app(church_succ(), church_zero()));
    let expected = eval_to_normal(church_one());
    assert!(structural_eq(&result, &expected), "SUCC 0 should equal 1");
}

#[test]
fn test_succ_two() {
    let result = eval_to_normal(app(church_succ(), church_two()));
    let expected = eval_to_normal(church_three());
    assert!(structural_eq(&result, &expected), "SUCC 2 should equal 3");
}

#[test]
fn test_add_one_two() {
    let result = eval_to_normal(app(app(church_add(), church_one()), church_two()));
    let expected = eval_to_normal(church_three());
    assert!(structural_eq(&result, &expected), "ADD 1 2 should equal 3");
}

#[test]
fn test_add_zero_two() {
    let result = eval_to_normal(app(app(church_add(), church_zero()), church_two()));
    let expected = eval_to_normal(church_two());
    assert!(structural_eq(&result, &expected), "ADD 0 2 should equal 2");
}

#[test]
fn test_mult_two_three() {
    let result = eval_to_normal(app(app(church_mult(), church_two()), church_three()));
    let six = eval_to_normal(app(app(church_add(), church_three()), church_three()));
    assert!(structural_eq(&result, &six), "MULT 2 3 should equal 6");
}

#[test]
fn test_mult_zero_three() {
    let result = eval_to_normal(app(app(church_mult(), church_zero()), church_three()));
    let expected = eval_to_normal(church_zero());
    assert!(structural_eq(&result, &expected), "MULT 0 3 should equal 0");
}

#[test]
fn test_is_zero_zero() {
    let result = eval_to_normal(app(church_is_zero(), church_zero()));
    let expected = eval_to_normal(church_true());
    assert!(
        structural_eq(&result, &expected),
        "IS_ZERO 0 should equal TRUE"
    );
}

#[test]
fn test_is_zero_one() {
    let result = eval_to_normal(app(church_is_zero(), church_one()));
    let expected = eval_to_normal(church_false());
    assert!(
        structural_eq(&result, &expected),
        "IS_ZERO 1 should equal FALSE"
    );
}

#[test]
fn test_is_zero_two() {
    let result = eval_to_normal(app(church_is_zero(), church_two()));
    let expected = eval_to_normal(church_false());
    assert!(
        structural_eq(&result, &expected),
        "IS_ZERO 2 should equal FALSE"
    );
}
