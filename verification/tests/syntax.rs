use lambdust::chars::{continues_name, is_whitespace, starts_name};
use lambdust::expr::{app, fun, var, Expr, VarName};
use lambdust::lexer::Lexer;
use lambdust::parser::{parse, Parser};
use lambdust::token::{Expected, ParseError, Token};

fn name(s: &str) -> Token {
    Token::Name(s.to_string())
}

#[test]
fn whitespace_is_what_std_calls_whitespace() {
    for n in 0u32..=0x10FFFF {
        if let Some(c) = char::from_u32(n) {
            assert_eq!(is_whitespace(c), c.is_whitespace(), "U+{:04X}", n);
        }
    }
}

#[test]
fn name_characters_are_ascii_letters_digits_and_underscore() {
    for n in 0u32..=0x10FFFF {
        if let Some(c) = char::from_u32(n) {
            assert_eq!(starts_name(c), c.is_ascii_alphabetic() || c == '_', "U+{:04X}", n);
            assert_eq!(continues_name(c), c.is_ascii_alphanumeric() || c == '_', "U+{:04X}", n);
        }
    }
}

#[test]
fn tokenize_gives_each_kind_of_token() {
    let tokens = Lexer::new("\\ λ . ( ) foo_1 _x9").tokenize().unwrap();
    assert_eq!(
        tokens,
        vec![
            Token::Lambda,
            Token::Lambda,
            Token::Dot,
            Token::OParen,
            Token::CParen,
            name("foo_1"),
            name("_x9"),
        ]
    );
}

#[test]
fn tokenize_takes_the_longest_name() {
    let tokens = Lexer::new("ab12_c(d").tokenize().unwrap();
    assert_eq!(tokens, vec![name("ab12_c"), Token::OParen, name("d")]);
}

#[test]
fn tokenize_skips_unicode_whitespace() {
    let tokens = Lexer::new("\u{2003}x\u{00A0}\t\ny\u{3000}").tokenize().unwrap();
    assert_eq!(tokens, vec![name("x"), name("y")]);
}

#[test]
fn tokenize_of_nothing_is_nothing() {
    assert_eq!(Lexer::new("").tokenize().unwrap(), Vec::<Token>::new());
    assert_eq!(Lexer::new("  \t ").tokenize().unwrap(), Vec::<Token>::new());
}

#[test]
fn tokenize_rejects_a_digit_at_the_start_of_a_name() {
    match Lexer::new("x 1y").tokenize() {
        Err(ParseError::UnexpectedChar(c)) => assert_eq!(c, '1'),
        other => panic!("{:?}", other),
    }
}

#[test]
fn parse_reports_the_offending_character() {
    match parse("x + y") {
        Err(ParseError::UnexpectedChar(c)) => assert_eq!(c, '+'),
        other => panic!("{:?}", other),
    }
    assert_eq!(parse("x + y").unwrap_err().message(), "unexpected character: +");
}

#[test]
fn parse_reports_the_missing_dot() {
    match parse("\\x x") {
        Err(ParseError::Mismatch { expected: Expected::Token(Token::Dot), found: Some(found) }) => {
            assert_eq!(found, name("x"))
        }
        other => panic!("{:?}", other),
    }
    assert_eq!(parse("\\x x").unwrap_err().message(), "expected Dot, got Name(\"x\")");
    assert_eq!(parse("\\x").unwrap_err().message(), "expected Dot, got end of input");
}

#[test]
fn parse_reports_the_unmatched_parenthesis() {
    match parse("(x") {
        Err(ParseError::Mismatch { expected: Expected::Token(Token::CParen), found: None }) => {}
        other => panic!("{:?}", other),
    }
    assert_eq!(parse("(x").unwrap_err().message(), "expected CParen, got end of input");
    assert_eq!(parse("(x .").unwrap_err().message(), "expected CParen, got Dot");
}

#[test]
fn parse_reports_the_missing_parameter() {
    match parse("\\ .x") {
        Err(ParseError::Mismatch { expected: Expected::ParameterName, found: Some(Token::Dot) }) => {}
        other => panic!("{:?}", other),
    }
    assert_eq!(parse("\\ .x").unwrap_err().message(), "expected parameter name, got Dot");
    assert_eq!(parse("\\").unwrap_err().message(), "expected parameter name, got end of input");
    assert_eq!(parse("\\(").unwrap_err().message(), "expected parameter name, got OParen");
}

#[test]
fn parse_reports_the_missing_expression() {
    for text in ["", "   ", ")", ".", "()", "\\x.", "f ()"] {
        match parse(text) {
            Err(ParseError::Mismatch { expected: Expected::Expression, .. }) => {}
            other => panic!("{:?}: {:?}", text, other),
        }
        assert_eq!(parse(text).unwrap_err().message(), "expected expression");
    }
    match parse("()") {
        Err(ParseError::Mismatch { found: Some(Token::CParen), .. }) => {}
        other => panic!("{:?}", other),
    }
    match parse("") {
        Err(ParseError::Mismatch { found: None, .. }) => {}
        other => panic!("{:?}", other),
    }
}

#[test]
fn parse_reports_what_is_left_over() {
    for text in ["x )", "x . y", "(x) \\y.y", "f x )"] {
        match parse(text) {
            Err(ParseError::Mismatch { expected: Expected::EndOfInput, found: Some(_) }) => {}
            other => panic!("{:?}: {:?}", text, other),
        }
        assert_eq!(parse(text).unwrap_err().message(), "unexpected tokens after expression");
    }
    match parse("f x \\y.y") {
        Err(ParseError::Mismatch { found: Some(Token::Lambda), .. }) => {}
        other => panic!("{:?}", other),
    }
}

#[test]
fn parse_atom_reports_what_is_no_atom() {
    let mut parser = Parser::new(vec![Token::Dot]);
    let error = parser.parse_atom().unwrap_err();
    match &error {
        ParseError::Mismatch { expected: Expected::Atom, found: Some(Token::Dot) } => {}
        other => panic!("{:?}", other),
    }
    assert_eq!(error.message(), "expected identifier or '(', got Dot");
    let mut parser = Parser::new(Vec::new());
    let error = parser.parse_atom().unwrap_err();
    match &error {
        ParseError::Mismatch { expected: Expected::Atom, found: None } => {}
        other => panic!("{:?}", other),
    }
    assert_eq!(error.message(), "unexpected end of input");
}

#[test]
fn expect_moves_past_the_token_or_names_both() {
    let mut parser = Parser::new(vec![Token::Lambda, name("x")]);
    assert!(parser.expect(Token::Lambda).is_ok());
    let error = parser.expect(Token::Lambda).unwrap_err();
    assert_eq!(error.message(), "expected Lambda, got Name(\"x\")");
    assert!(parser.expect(name("x")).is_ok());
    let error = parser.expect(Token::OParen).unwrap_err();
    assert_eq!(error.message(), "expected OParen, got end of input");
}

#[test]
fn parser_reads_tokens_as_the_text_would_be_read() {
    let mut parser = Parser::new(vec![Token::Lambda, name("x"), Token::Dot, name("f"), name("x")]);
    assert_eq!(parser.parse().unwrap(), parse("\\x.f x").unwrap());
}

#[test]
fn lambda_body_reaches_as_far_right_as_it_can() {
    let expr = parse("\\x. f x").unwrap();
    assert_eq!(
        expr,
        fun("x".to_string(), app(var("f".to_string()), var("x".to_string())))
    );
    let expr = parse("(\\x. f) x").unwrap();
    assert_eq!(
        expr,
        app(fun("x".to_string(), var("f".to_string())), var("x".to_string()))
    );
}

#[test]
fn lambda_is_no_atom_of_an_application() {
    assert!(parse("f \\x.x").is_err());
    assert!(parse("f (\\x.x)").is_ok());
}

#[test]
fn application_nests_to_the_left() {
    let expr = parse("a b c d").unwrap();
    let a = || var("a".to_string());
    let b = || var("b".to_string());
    let c = || var("c".to_string());
    let d = || var("d".to_string());
    assert_eq!(expr, app(app(app(a(), b()), c()), d()));
    let expr = parse("a (b c) d").unwrap();
    assert_eq!(expr, app(app(a(), app(b(), c())), d()));
}

#[test]
fn parsed_names_are_free() {
    match *parse("\\x.x").unwrap() {
        Expr::Fun(VarName { id: 0, .. }, body) => match *body {
            Expr::Var(VarName { id: 0, name }) => assert_eq!(name, "x"),
            other => panic!("{:?}", other),
        },
        other => panic!("{:?}", other),
    }
}

#[test]
fn long_names_come_through_whole() {
    let expr = parse("alpha_1 Beta2").unwrap();
    assert_eq!(expr.format(false), "(alpha_1 Beta2)");
}

#[test]
fn format_shows_structure_and_identities() {
    let expr = Expr::App(
        Box::new(Expr::Fun(
            VarName::new_bound("x".to_string(), 12),
            Box::new(Expr::Var(VarName::new_bound("x".to_string(), 12))),
        )),
        Box::new(Expr::Var(VarName::new_free("y".to_string()))),
    );
    assert_eq!(expr.format(false), "((\\x.x) y)");
    assert_eq!(expr.format(true), "((\\x12.x12) y0)");
    assert_eq!(expr.to_string(), "((\\x12.x12) y0)");
}

#[test]
fn format_writes_identities_in_decimal() {
    for id in [0usize, 7, 9, 10, 99, 100, 1234567890, usize::MAX] {
        let expr = Expr::Var(VarName::new_bound("v".to_string(), id));
        assert_eq!(expr.format(true), format!("v{}", id));
        assert_eq!(expr.format(false), "v");
    }
}

#[test]
fn printed_form_parses_back() {
    for text in [
        "x",
        "\\x.x",
        "f x y",
        "f (g x)",
        "(\\f.\\x.f (f x)) (\\y.y) z",
        "λn.λf.λx.f (n f x)",
        "  \\a_1 . (b2 (c d)) e  ",
    ] {
        let first = parse(text).unwrap();
        let printed = first.format(false);
        let second = parse(&printed).unwrap();
        assert_eq!(first, second, "{:?} printed as {:?}", text, printed);
        assert_eq!(second.format(false), printed);
    }
}
