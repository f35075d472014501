use lambdust::expr::{app, fun, var};
use lambdust::parser::parse;

#[test]
fn test_parse_variable() {
    let expr = parse("x").unwrap();
    assert_eq!(expr, var("x".to_string()));
}

#[test]
fn test_parse_identity() {
    let expr = parse("\\x.x").unwrap();
    assert_eq!(expr, fun("x".to_string(), var("x".to_string())));
}

#[test]
fn test_parse_const() {
    let expr = parse("\\x.\\y.x").unwrap();
    assert_eq!(
        expr,
        fun("x".to_string(), fun("y".to_string(), var("x".to_string())))
    );
}

#[test]
fn test_parse_application() {
    let expr = parse("f x").unwrap();
    assert_eq!(expr, app(var("f".to_string()), var("x".to_string())));
}

#[test]
fn test_parse_multiple_application() {
    let expr = parse("f x y").unwrap();
    assert_eq!(
        expr,
        app(
            app(var("f".to_string()), var("x".to_string())),
            var("y".to_string())
        )
    );
}

#[test]
fn test_parse_parentheses() {
    let expr = parse("f (g x)").unwrap();
    assert_eq!(
        expr,
        app(
            var("f".to_string()),
            app(var("g".to_string()), var("x".to_string()))
        )
    );
}

#[test]
fn test_parse_lambda_application() {
    let expr = parse("(\\x.x) y").unwrap();
    assert_eq!(
        expr,
        app(
            fun("x".to_string(), var("x".to_string())),
            var("y".to_string())
        )
    );
}

#[test]
fn test_parse_complex() {
    let expr = parse("(\\f.\\x.f (f x)) (\\y.y) z").unwrap();
    let expected = app(
        app(
            fun(
                "f".to_string(),
                fun(
                    "x".to_string(),
                    app(
                        var("f".to_string()),
                        app(var("f".to_string()), var("x".to_string())),
                    ),
                ),
            ),
            fun("y".to_string(), var("y".to_string())),
        ),
        var("z".to_string()),
    );
    assert_eq!(expr, expected);
}

#[test]
fn test_parse_unicode_lambda() {
    let expr = parse("λx.x").unwrap();
    assert_eq!(expr, fun("x".to_string(), var("x".to_string())));
}

#[test]
fn test_parse_whitespace() {
    let expr = parse("  \\x . x  ").unwrap();
    assert_eq!(expr, fun("x".to_string(), var("x".to_string())));
}

#[test]
fn test_parse_error_unexpected_char() {
    let result = parse("x + y");
    assert!(result.is_err());
}

#[test]
fn test_parse_error_missing_dot() {
    let result = parse("\\x x");
    assert!(result.is_err());
}

#[test]
fn test_parse_error_unmatched_paren() {
    let result = parse("(x");
    assert!(result.is_err());
}
