use lambdust::eval::{
    bind_var, bind_vars, eval, eval_within, normalize, replace, trace_eval, try_bind_vars, Binder,
};
use lambdust::church::{
    church_add, church_and, church_false, church_if, church_is_zero, church_mult, church_not,
    church_one, church_succ, church_three, church_true, church_two, church_zero,
};
use lambdust::expr::{app, structural_eq, var, Expr, VarName};
use lambdust::parser::parse;

fn bound(text: &str) -> Expr {
    bind_vars(*parse(text).unwrap())
}

fn v(name: &str, id: usize) -> Expr {
    Expr::Var(VarName::new_bound(name.to_string(), id))
}

#[test]
fn inner_binder_wins() {
    let expr = bound("\\x.\\x.x");
    assert_eq!(expr.format(true), "(\\x1.(\\x2.x2))");
    match expr {
        Expr::Fun(outer, body) => match *body {
            Expr::Fun(inner, body) => match *body {
                Expr::Var(occurrence) => {
                    assert_eq!(occurrence.id, inner.id);
                    assert_ne!(occurrence.id, outer.id);
                }
                other => panic!("{:?}", other),
            },
            other => panic!("{:?}", other),
        },
        other => panic!("{:?}", other),
    }
}

#[test]
fn binding_follows_lexical_scope() {
    let expr = bound("\\x.(\\y.x y) (\\x.x) x z");
    assert_eq!(expr.format(true), "(\\x1.((((\\y2.(x1 y2)) (\\x3.x3)) x1) z0))");
}

#[test]
fn binding_numbers_abstractions_from_left_to_right() {
    let expr = bound("(\\a.\\b.a) (\\c.c) (\\d.\\e.e)");
    assert_eq!(expr.format(true), "(((\\a1.(\\b2.a1)) (\\c3.c3)) (\\d4.(\\e5.e5)))");
}

#[test]
fn free_variables_keep_identity_zero() {
    let expr = bound("x (\\y.x)");
    assert_eq!(expr.format(true), "(x0 (\\y1.x0))");
}

#[test]
fn binding_keeps_shape_and_names() {
    let parsed = *parse("(\\f.\\x.f (f x)) (\\y.y) z").unwrap();
    let expr = bind_vars(parsed.clone());
    assert!(structural_eq(&parsed, &expr));
    assert_ne!(parsed, expr);
    assert_eq!(expr.format(false), parsed.format(false));
}

#[test]
fn a_binder_never_hands_out_an_identity_twice() {
    let mut binder = Binder::new();
    assert_eq!(binder.next_id(), 1);
    let first = binder.bind_vars(*parse("\\x.\\y.x").unwrap());
    assert_eq!(binder.next_id(), 3);
    let second = binder.bind_vars(*parse("\\x.x").unwrap());
    assert_eq!(binder.next_id(), 4);
    let third = binder.bind_vars(*parse("z").unwrap());
    assert_eq!(binder.next_id(), 4);
    assert_eq!(first.format(true), "(\\x1.(\\y2.x1))");
    assert_eq!(second.format(true), "(\\x3.x3)");
    assert_eq!(third.format(true), "z0");
}

#[test]
fn a_binder_knows_whether_it_has_room() {
    let binder = Binder::new();
    assert!(binder.has_room(&parse("\\x.\\y.x").unwrap()));
    assert!(binder.has_room(&parse("x").unwrap()));
}

#[test]
fn try_bind_vars_binds_where_there_is_room() {
    let mut binder = Binder::new();
    let bound = try_bind_vars(&mut binder, *parse("\\x.\\y.x y").unwrap()).unwrap();
    assert_eq!(bound.format(true), "(\\x1.(\\y2.(x1 y2)))");
    assert_eq!(binder.next_id(), 3);
}

#[test]
fn bind_var_tags_every_occurrence_of_the_name() {
    let body = *parse("x (\\x.x y) y").unwrap();
    let tagged = bind_var(body, &VarName::new_bound("x".to_string(), 7));
    assert_eq!(tagged.format(true), "((x7 (\\x0.(x7 y0))) y0)");
}

#[test]
fn replace_matches_name_and_identity() {
    let arg = VarName::new_bound("x".to_string(), 1);
    let body = Expr::App(
        Box::new(v("x", 1)),
        Box::new(Expr::Fun(
            VarName::new_bound("x".to_string(), 2),
            Box::new(Expr::App(Box::new(v("x", 2)), Box::new(Expr::App(Box::new(v("x", 1)), Box::new(v("y", 1)))))),
        )),
    );
    let result = replace(&arg, body, &v("z", 0));
    assert_eq!(result.format(true), "(z0 (\\x2.(x2 (z0 y1))))");
}

#[test]
fn replace_does_not_rename_binders() {
    // (\x.\y.x) y: the free y comes to stand under the binder y.
    let expr = bound("(\\x.\\y.x) y");
    let result = eval(expr);
    assert_eq!(result.format(true), "(\\y2.y0)");
    assert_eq!(result.format(false), "(\\y.y)");
}

#[test]
fn eval_leaves_normal_terms_alone() {
    for text in ["x", "\\x.x", "f x", "\\x.f (g x)", "x (\\y.y)"] {
        let expr = bound(text);
        let once = eval(expr.clone());
        assert_eq!(once, expr);
        assert_eq!(eval(once), expr);
    }
}

#[test]
fn eval_steps_the_function_first() {
    // The function part changes: the argument is left as it is.
    let expr = bound("((\\a.a) f) ((\\b.b) x)");
    let once = eval(expr);
    assert_eq!(once.format(false), "(f ((\\b.b) x))");
    let twice = eval(once);
    assert_eq!(twice.format(false), "(f x)");
}

#[test]
fn eval_steps_under_binders() {
    let expr = bound("\\z.(\\x.x) z");
    assert_eq!(eval(expr).format(false), "(\\z.z)");
}

#[test]
fn eval_normalises_the_argument_before_it_substitutes() {
    // The argument takes two steps to its normal form p.
    let expr = bound("(\\x.x) ((\\a.\\b.a) p q)");
    let once = eval(expr);
    assert_eq!(once.format(false), "p");

    let expr = bound("(\\x.f x x) ((\\y.y) ((\\z.z) w))");
    assert_eq!(eval(expr).format(false), "((f w) w)");
}

#[test]
fn eval_within_stops_the_work_on_the_argument_when_the_fuel_is_spent() {
    let text = "(\\x.x) ((\\a.\\b.a) p q)";
    assert_eq!(eval_within(bound(text), 0).format(false), "(((\\a.(\\b.a)) p) q)");
    assert_eq!(eval_within(bound(text), 1).format(false), "((\\b.p) q)");
    assert_eq!(eval_within(bound(text), 2).format(false), "p");
    assert_eq!(eval_within(bound(text), 3).format(false), "p");
    assert_eq!(eval_within(bound(text), usize::MAX), eval(bound(text)));
}

#[test]
fn normalize_steps_until_nothing_changes_or_the_fuel_is_spent() {
    let text = "(\\a.\\b.a) p q";
    assert_eq!(normalize(bound(text), 0).format(false), "(((\\a.(\\b.a)) p) q)");
    assert_eq!(normalize(bound(text), 1).format(false), "((\\b.p) q)");
    assert_eq!(normalize(bound(text), 2).format(false), "p");
    assert_eq!(normalize(bound(text), 100).format(false), "p");
    assert_eq!(normalize(bound("x"), 100), bound("x"));
}

#[test]
fn a_diverging_argument_is_cut_off_by_the_fuel() {
    let expr = bound("(\\y.z) ((\\x.x x x) (\\x.x x x))");
    assert_eq!(eval_within(expr, 5).format(false), "z");
}

#[test]
fn eval_steps_the_argument_of_a_stuck_function() {
    let expr = bound("f ((\\x.x) y)");
    assert_eq!(eval(expr).format(false), "(f y)");
}

#[test]
fn trace_stops_at_the_normal_form() {
    let mut out = Vec::new();
    let (result, truncated) = trace_eval(bound("(\\x.x) y"), 10, true, true, &mut out);
    assert_eq!(result.format(true), "y0");
    assert!(!truncated);
    assert_eq!(out, vec!["Step 0:", "((\\x1.x1) y0)", "\nStep 1:", "y0"]);
}

#[test]
fn trace_appends_and_shows_identities_only_when_asked() {
    let mut out = vec!["before".to_string()];
    trace_eval(bound("(\\x.x) y"), 10, false, true, &mut out);
    assert_eq!(out, vec!["before", "Step 0:", "((\\x.x) y)", "\nStep 1:", "y"]);
}

#[test]
fn trace_is_silent_unless_steps_are_shown() {
    let mut out = vec!["before".to_string()];
    let (result, truncated) = trace_eval(bound("(\\x.x) y"), 10, true, false, &mut out);
    assert_eq!(result.format(false), "y");
    assert!(!truncated);
    assert_eq!(out, vec!["before"]);
}

#[test]
fn trace_with_no_budget_says_whether_the_term_is_normal() {
    let mut out = Vec::new();
    let expr = bound("(\\x.x) y");
    let (result, truncated) = trace_eval(expr.clone(), 0, false, true, &mut out);
    assert_eq!(result, expr);
    assert!(truncated);
    assert_eq!(out, vec!["Step 0:", "((\\x.x) y)"]);

    let mut out = Vec::new();
    let expr = bound("\\x.x");
    let (result, truncated) = trace_eval(expr.clone(), 0, false, true, &mut out);
    assert_eq!(result, expr);
    assert!(!truncated);
    assert_eq!(out, vec!["Step 0:", "(\\x.x)"]);
}

#[test]
fn trace_that_ends_with_the_budget_is_truncated() {
    // The last step of the budget reaches the normal form: no step is
    // left to find it unchanged.
    let mut out = Vec::new();
    let (result, truncated) = trace_eval(bound("(\\x.x) y"), 1, false, false, &mut out);
    assert_eq!(result.format(false), "y");
    assert!(truncated);

    let (result, truncated) = trace_eval(bound("(\\x.x) y"), 2, false, false, &mut out);
    assert_eq!(result.format(false), "y");
    assert!(!truncated);

    let (result, truncated) = trace_eval(bound("y"), 1, false, false, &mut out);
    assert_eq!(result.format(false), "y");
    assert!(!truncated);
}

#[test]
fn trace_flag_says_whether_a_step_within_the_budget_changed_nothing() {
    for text in ["x", "(\\x.x) y", "((\\a.a) f) ((\\b.b) x)", "(\\x.x x x) (\\x.x x x)"] {
        for max in 1usize..6 {
            let mut terms = vec![bound(text)];
            for i in 0..max {
                let next = eval(terms[i].clone());
                terms.push(next);
            }
            let first_fixed = (0..max).find(|&k| terms[k + 1] == terms[k]);
            let mut out = Vec::new();
            let (result, truncated) = trace_eval(bound(text), max, false, false, &mut out);
            match first_fixed {
                Some(k) => {
                    assert!(!truncated, "{:?} with {}", text, max);
                    assert_eq!(result, terms[k]);
                    assert_eq!(eval(result.clone()), result);
                }
                None => {
                    assert!(truncated, "{:?} with {}", text, max);
                    assert_eq!(result, terms[max]);
                }
            }
        }
    }
}

#[test]
fn trace_never_takes_more_steps_than_the_budget() {
    let text = "(\\x.x x x) (\\x.x x x)";
    for max in 0usize..6 {
        let mut out = Vec::new();
        let (result, truncated) = trace_eval(bound(text), max, false, true, &mut out);
        assert!(truncated);
        assert_eq!(out.len(), 2 * (max + 1));
        let mut expected = bound(text);
        for _ in 0..max {
            expected = eval(expected);
        }
        assert_eq!(result, expected);
        if max > 0 {
            assert_eq!(out[out.len() - 2], format!("\nStep {}:", max));
        }
    }
}

#[test]
fn trace_numbers_steps_in_decimal() {
    let mut out = Vec::new();
    trace_eval(bound("(\\x.x x x) (\\x.x x x)"), 12, false, true, &mut out);
    assert_eq!(out[20], "\nStep 10:");
    assert_eq!(out[24], "\nStep 12:");
    assert_eq!(out.len(), 26);
}

#[test]
fn self_application_reaches_a_fixpoint() {
    let mut out = Vec::new();
    let (result, truncated) = trace_eval(bound("(\\x.x x) (\\x.x x)"), 10, true, false, &mut out);
    assert!(!truncated);
    assert_eq!(result.format(true), "((\\x2.(x2 x2)) (\\x2.(x2 x2)))");
}

#[test]
fn structural_eq_ignores_identities_only() {
    let a = bound("\\x.\\y.x");
    let b = *parse("\\x.\\y.x").unwrap();
    let c = *parse("\\x.\\y.y").unwrap();
    let d = *parse("\\x.x").unwrap();
    assert!(structural_eq(&a, &b));
    assert!(!structural_eq(&a, &c));
    assert!(!structural_eq(&a, &d));
    assert_ne!(a, b);
}

#[test]
fn three_successors_of_zero_are_three() {
    let term = app(church_succ(), app(church_succ(), app(church_succ(), church_zero())));
    let mut out = Vec::new();
    let (result, truncated) = trace_eval(bind_vars(*term), 100, false, false, &mut out);
    assert!(!truncated);
    assert!(structural_eq(&result, &church_three()));
    assert_eq!(result.format(false), "(\\f.(\\x.(f (f (f x)))))");
}

#[test]
fn one_and_two_are_three() {
    let term = app(app(church_add(), church_one()), church_two());
    let mut out = Vec::new();
    let (result, truncated) = trace_eval(bind_vars(*term), 100, false, false, &mut out);
    assert!(!truncated);
    assert!(structural_eq(&result, &church_three()));
    assert_eq!(result.format(false), "(\\f.(\\x.(f (f (f x)))))");
}

#[test]
fn church_terms_reduce_in_as_many_steps_as_stated() {
    let x = || var("x".to_string());
    let y = || var("y".to_string());
    let cases: Vec<(Box<Expr>, usize, Box<Expr>)> = vec![
        (church_if(church_true(), x(), y()), 2, x()),
        (church_if(church_false(), x(), y()), 2, y()),
        (church_not(church_true()), 2, church_false()),
        (church_and(church_true(), church_false()), 2, church_false()),
        (app(app(church_mult(), church_zero()), church_three()), 3, church_zero()),
        (app(church_is_zero(), church_zero()), 3, church_true()),
        (app(church_is_zero(), church_one()), 4, church_false()),
        (app(app(church_add(), church_one()), church_two()), 6, church_three()),
        (
            app(church_succ(), app(church_succ(), app(church_succ(), church_zero()))),
            3,
            church_three(),
        ),
    ];
    for (term, steps, expected) in cases {
        let mut out = Vec::new();
        let bound = bind_vars(*term);
        let (result, truncated) = trace_eval(bound.clone(), 100, false, true, &mut out);
        assert!(!truncated);
        assert!(structural_eq(&result, &expected), "{}", result.format(false));
        assert_eq!(out.len(), 2 * (steps + 1));

        // One step more than the steps that change the term is enough.
        let (result, truncated) = trace_eval(bound.clone(), steps + 1, false, false, &mut out);
        assert!(!truncated);
        assert!(structural_eq(&result, &expected));

        // With exactly those steps the normal form is reached but not found.
        let (result, truncated) = trace_eval(bound, steps, false, false, &mut out);
        assert!(truncated);
        assert!(structural_eq(&result, &expected));
    }
}
