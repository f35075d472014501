use lambdust::eval::{bind_vars, eval, replace};
use lambdust::expr::{app, fun, var, Expr, VarName};

#[test]
fn test_eval_variable() {
    let expr = *var("x".to_string());
    let result = eval(expr.clone());
    assert_eq!(result, expr);
}

#[test]
fn test_eval_identity() {
    // (\x.x) y -> y
    let expr = *app(
        fun("x".to_string(), var("x".to_string())),
        var("y".to_string()),
    );
    let bound = bind_vars(expr);
    let result = eval(bound);

    match result {
        Expr::Var(name) => {
            assert_eq!(name.name, "y");
        }
        _ => panic!("Expected a variable"),
    }
}

#[test]
fn test_replace() {
    // x with y in: x
    let arg = VarName {
        name: "x".to_string(),
        id: 1,
    };
    let body = Expr::Var(VarName {
        name: "x".to_string(),
        id: 1,
    });
    let val = Expr::Var(VarName {
        name: "y".to_string(),
        id: 0,
    });

    let result = replace(&arg, body, &val);
    assert_eq!(result, val);
}
