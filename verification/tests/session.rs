use lambdust::args::Args;
use lambdust::church::{church_add, church_is_zero, church_three, church_true};
use lambdust::eval::Binder;
use lambdust::examples::{run_all_examples, test_if_true, test_succ_zero, EXAMPLE_IDENTITIES};
use lambdust::repl::{handle_line, read_command, respond, Command, Outcome};

fn session() -> (Args, Binder, Vec<String>) {
    (Args::default(), Binder::new(), Vec::new())
}

#[test]
fn settings_start_with_ten_steps_and_nothing_shown() {
    let args = Args::default();
    assert_eq!(args.trace, 10);
    assert!(!args.unique_id);
    assert!(!args.print_step);
}

#[test]
fn blank_lines_ask_for_nothing() {
    for line in ["", "\n", "   \t \n", "\u{3000}"] {
        assert!(matches!(read_command(line), Command::Empty));
    }
}

#[test]
fn command_words_are_read() {
    assert!(matches!(read_command(":q\n"), Command::Quit));
    assert!(matches!(read_command("  :quit  \n"), Command::Quit));
    assert!(matches!(read_command(":h"), Command::Help));
    assert!(matches!(read_command(":help me"), Command::Help));
    assert!(matches!(read_command(":p"), Command::TogglePrint));
    assert!(matches!(read_command(":print"), Command::TogglePrint));
    assert!(matches!(read_command(":u"), Command::ToggleUnique));
    assert!(matches!(read_command(":unique"), Command::ToggleUnique));
    assert!(matches!(read_command(":t"), Command::ShowTrace));
    assert!(matches!(read_command(":trace \n"), Command::ShowTrace));
    assert!(matches!(read_command("x"), Command::Evaluate));
    assert!(matches!(read_command("  \\x.x\n"), Command::Evaluate));
    assert!(matches!(read_command("q :q"), Command::Evaluate));
}

#[test]
fn unknown_commands_are_named_by_their_first_word() {
    match read_command(" :quux 3\n") {
        Command::Unknown(word) => assert_eq!(word, ":quux"),
        other => panic!("{:?}", other),
    }
    match read_command(":") {
        Command::Unknown(word) => assert_eq!(word, ":"),
        other => panic!("{:?}", other),
    }
    match read_command(":Q") {
        Command::Unknown(word) => assert_eq!(word, ":Q"),
        other => panic!("{:?}", other),
    }
}

#[test]
fn trace_limits_are_numbers_as_std_reads_them() {
    for word in [
        "0", "7", "25", "007", "+5", "+0", "18446744073709551615", "18446744073709551616",
        "99999999999999999999999", "", "+", "-", "-1", "+-1", "++1", "1_0", "12a", "a", "1.5",
        "0x10", "٣",
    ] {
        let line = format!(":t {}\n", word);
        let expected = word.parse::<usize>();
        match (read_command(&line), expected) {
            (Command::SetTrace(n), Ok(m)) => assert_eq!(n, m, "{:?}", word),
            (Command::BadTrace, Err(_)) if !word.is_empty() => {}
            (Command::ShowTrace, Err(_)) if word.is_empty() => {}
            (command, expected) => panic!("{:?}: {:?}, {:?}", word, command, expected),
        }
    }
}

#[test]
fn only_the_second_word_is_the_trace_limit() {
    assert!(matches!(read_command(":trace 12 x"), Command::SetTrace(12)));
    assert!(matches!(read_command(":t\t3\n"), Command::SetTrace(3)));
    assert!(matches!(read_command(":t x 12"), Command::BadTrace));
}

#[test]
fn commands_change_the_settings_and_reply() {
    let (mut args, mut binder, mut out) = session();
    assert_eq!(handle_line(":p\n", &mut args, &mut binder, &mut out), Outcome::Continue);
    assert!(args.print_step);
    assert_eq!(handle_line(":u\n", &mut args, &mut binder, &mut out), Outcome::Continue);
    assert!(args.unique_id);
    assert_eq!(handle_line(":t 3\n", &mut args, &mut binder, &mut out), Outcome::Continue);
    assert_eq!(args.trace, 3);
    assert_eq!(handle_line(":t\n", &mut args, &mut binder, &mut out), Outcome::Continue);
    assert_eq!(handle_line(":t x\n", &mut args, &mut binder, &mut out), Outcome::Continue);
    assert_eq!(args.trace, 3);
    assert_eq!(handle_line(":p\n", &mut args, &mut binder, &mut out), Outcome::Continue);
    assert!(!args.print_step);
    assert_eq!(handle_line(":nope\n", &mut args, &mut binder, &mut out), Outcome::Continue);
    assert_eq!(handle_line("\n", &mut args, &mut binder, &mut out), Outcome::Continue);
    assert_eq!(
        out,
        vec![
            "Print step: true",
            "Unique ID: true",
            "Trace limit: 3",
            "Current trace limit: 3",
            "Error: Invalid number for trace limit",
            "Print step: false",
            "Unknown command: :nope. Type :help for available commands.",
        ]
    );
    assert_eq!(binder.next_id(), 1);
}

#[test]
fn help_lists_the_commands_and_the_settings() {
    let (mut args, mut binder, mut out) = session();
    args.unique_id = true;
    args.trace = 25;
    assert_eq!(handle_line(":help\n", &mut args, &mut binder, &mut out), Outcome::Continue);
    assert_eq!(
        out,
        vec![
            "Available commands:",
            "  :h, :help          - Show this help message",
            "  :q, :quit          - Exit the program",
            "  :p, :print         - Toggle print step (current: false)",
            "  :u, :unique        - Toggle unique ID (current: true)",
            "  :t, :trace [num]   - Show or set trace limit (current: 25)",
        ]
    );
}

#[test]
fn quit_ends_the_session_and_says_nothing() {
    let (mut args, mut binder, mut out) = session();
    assert_eq!(handle_line(":q\n", &mut args, &mut binder, &mut out), Outcome::Quit);
    assert_eq!(handle_line(" :quit now\n", &mut args, &mut binder, &mut out), Outcome::Quit);
    assert!(out.is_empty());
}

#[test]
fn respond_does_nothing_for_what_is_no_setting() {
    let (mut args, _, mut out) = session();
    respond(&Command::Quit, &mut args, &mut out);
    respond(&Command::Empty, &mut args, &mut out);
    respond(&Command::Evaluate, &mut args, &mut out);
    assert!(out.is_empty());
    assert_eq!(args.trace, 10);
}

#[test]
fn expressions_are_bound_reduced_and_shown() {
    let (mut args, mut binder, mut out) = session();
    assert_eq!(handle_line("(\\x.x) y\n", &mut args, &mut binder, &mut out), Outcome::Continue);
    assert_eq!(out, vec!["y"]);
    assert_eq!(binder.next_id(), 2);

    args.unique_id = true;
    args.print_step = true;
    out.clear();
    assert_eq!(handle_line("(\\x.x) y\n", &mut args, &mut binder, &mut out), Outcome::Continue);
    assert_eq!(out, vec!["Step 0:", "((\\x2.x2) y0)", "\nStep 1:", "y0", "y0"]);
    assert_eq!(binder.next_id(), 3);
}

#[test]
fn truncated_reductions_end_with_dots() {
    let (mut args, mut binder, mut out) = session();
    args.trace = 2;
    handle_line("(\\x.x x x) (\\x.x x x)\n", &mut args, &mut binder, &mut out);
    assert_eq!(out.len(), 2);
    assert_eq!(out[1], "...");

    args.trace = 1;
    out.clear();
    handle_line("(\\x.x) y\n", &mut args, &mut binder, &mut out);
    assert_eq!(out, vec!["y", "..."]);

    args.trace = 2;
    out.clear();
    handle_line("(\\x.x) y\n", &mut args, &mut binder, &mut out);
    assert_eq!(out, vec!["y"]);

    args.trace = 0;
    out.clear();
    handle_line("(\\x.x) y\n", &mut args, &mut binder, &mut out);
    assert_eq!(out, vec!["((\\x.x) y)", "..."]);

    out.clear();
    handle_line("\\x.x\n", &mut args, &mut binder, &mut out);
    assert_eq!(out, vec!["(\\x.x)"]);
}

#[test]
fn syntax_errors_are_shown_and_bind_nothing() {
    let (mut args, mut binder, mut out) = session();
    assert_eq!(handle_line("x + y\n", &mut args, &mut binder, &mut out), Outcome::Continue);
    assert_eq!(handle_line("\\x x\n", &mut args, &mut binder, &mut out), Outcome::Continue);
    assert_eq!(handle_line("(\\x.x\n", &mut args, &mut binder, &mut out), Outcome::Continue);
    assert_eq!(
        out,
        vec![
            "Error: unexpected character: +",
            "Error: expected Dot, got Name(\"x\")",
            "Error: expected CParen, got end of input",
        ]
    );
    assert_eq!(binder.next_id(), 1);
}

#[test]
fn church_terms_print_as_written() {
    assert_eq!(church_true().format(false), "(\\x.(\\y.x))");
    assert_eq!(church_three().format(false), "(\\f.(\\x.(f (f (f x)))))");
    assert_eq!(church_add().format(false), "(\\m.(\\n.(\\f.(\\x.((m f) ((n f) x))))))");
    assert_eq!(
        church_is_zero().format(true),
        "(\\n0.((n0 (\\x0.(\\x0.(\\y0.y0)))) (\\x0.(\\y0.x0))))"
    );
}

#[test]
fn an_example_is_a_title_and_a_trace() {
    let mut binder = Binder::new();
    let mut out = Vec::new();
    test_if_true(&mut binder, &mut out);
    assert_eq!(binder.next_id(), 3);
    assert_eq!(
        out,
        vec![
            "=== Test: IF TRUE THEN x ELSE y ===",
            "Step 0:",
            "(((\\x1.(\\y2.x1)) x0) y0)",
            "\nStep 1:",
            "((\\y2.x0) y0)",
            "\nStep 2:",
            "x0",
        ]
    );
    out.clear();
    test_succ_zero(&mut binder, &mut out);
    assert_eq!(binder.next_id(), 8);
    assert_eq!(out[0], "=== Test: SUCC 0 (should give 1) ===");
    assert_eq!(out[2], "((\\n3.(\\f4.(\\x5.(f4 ((n3 f4) x5))))) (\\f6.(\\x7.x7)))");
}

#[test]
fn all_examples_use_each_identity_once() {
    let mut binder = Binder::new();
    let mut out = Vec::new();
    run_all_examples(&mut binder, &mut out);
    assert_eq!(EXAMPLE_IDENTITIES, 92);
    assert_eq!(binder.next_id(), 1 + EXAMPLE_IDENTITIES);
    assert_eq!(out[0], "========== BOOLEAN TESTS ==========\n");
    assert_eq!(out[1], "=== Test: IF TRUE THEN x ELSE y ===");
    assert_eq!(out.iter().filter(|line| line.starts_with("=== Test: ")).count(), 15);
    assert_eq!(out.iter().filter(|line| line.is_empty()).count(), 13);
    assert!(out.contains(&"\n========== NUMERAL TESTS ==========\n".to_string()));
    assert_eq!(out.last().unwrap(), "(\\x87.(\\y88.y88))");
}
