//! Tokens of the concrete syntax and the errors of reading it.

use vstd::prelude::*;
use vstd::std_specs::cmp::PartialEqSpecImpl;
use crate::chars::push_char;

verus! {

/// The mathematical value of a token.
pub enum Lexeme {
    Lambda,
    Dot,
    OParen,
    CParen,
    Name(Seq<char>),
}

/// A token: `\` or the Greek letter lambda, `.`, `(`, `)`, or a name.
#[derive(Debug)]
pub enum Token {
    Lambda,
    Dot,
    OParen,
    CParen,
    Name(String),
}

impl View for Token {
    type V = Lexeme;

    open spec fn view(&self) -> Lexeme {
        match self {
            Token::Lambda => Lexeme::Lambda,
            Token::Dot => Lexeme::Dot,
            Token::OParen => Lexeme::OParen,
            Token::CParen => Lexeme::CParen,
            Token::Name(name) => Lexeme::Name(name@),
        }
    }
}

/// The values of a sequence of tokens.
pub open spec fn lexemes(tokens: Seq<Token>) -> Seq<Lexeme> {
    tokens.map_values(|t: Token| t@)
}

impl Clone for Token {
    fn clone(&self) -> (r: Self)
        ensures
            r@ == self@,
    {
        match self {
            Token::Lambda => Token::Lambda,
            Token::Dot => Token::Dot,
            Token::OParen => Token::OParen,
            Token::CParen => Token::CParen,
            Token::Name(name) => Token::Name(name.clone()),
        }
    }
}

impl PartialEq for Token {
    fn eq(&self, other: &Self) -> (r: bool) {
        match self {
            Token::Lambda => match other {
                Token::Lambda => true,
                _ => false,
            },
            Token::Dot => match other {
                Token::Dot => true,
                _ => false,
            },
            Token::OParen => match other {
                Token::OParen => true,
                _ => false,
            },
            Token::CParen => match other {
                Token::CParen => true,
                _ => false,
            },
            Token::Name(a) => match other {
                Token::Name(b) => *a == *b,
                _ => false,
            },
        }
    }
}

impl PartialEqSpecImpl for Token {
    open spec fn obeys_eq_spec() -> bool {
        true
    }

    open spec fn eq_spec(&self, other: &Self) -> bool {
        self@ == other@
    }
}

/// The mathematical value of what a parser was looking for.
pub enum Wanted {
    Token(Lexeme),
    ParameterName,
    Expression,
    Atom,
    EndOfInput,
}

/// What the parser was looking for when it gave up.
#[derive(Debug)]
pub enum Expected {
    /// This very token.
    Token(Token),
    /// The name of an abstraction's parameter.
    ParameterName,
    /// An expression.
    Expression,
    /// A name or an opening parenthesis.
    Atom,
    /// The end of the input.
    EndOfInput,
}

impl View for Expected {
    type V = Wanted;

    open spec fn view(&self) -> Wanted {
        match self {
            Expected::Token(token) => Wanted::Token(token@),
            Expected::ParameterName => Wanted::ParameterName,
            Expected::Expression => Wanted::Expression,
            Expected::Atom => Wanted::Atom,
            Expected::EndOfInput => Wanted::EndOfInput,
        }
    }
}

/// The mathematical value of a syntax error.
pub enum Failure {
    UnexpectedChar(char),
    Mismatch { expected: Wanted, found: Option<Lexeme> },
}

/// Why a text is not an expression.
#[derive(Debug)]
pub enum ParseError {
    /// The text holds a character that begins no token.
    UnexpectedChar(char),
    /// The tokens do not follow the grammar: `expected` was looked for where
    /// `found` stands, or where the input ends if `found` is `None`.
    Mismatch { expected: Expected, found: Option<Token> },
}

/// The value of a token that may be missing.
pub open spec fn found_view(found: Option<Token>) -> Option<Lexeme> {
    match found {
        Some(token) => Some(token@),
        None => None,
    }
}

impl View for ParseError {
    type V = Failure;

    open spec fn view(&self) -> Failure {
        match self {
            ParseError::UnexpectedChar(c) => Failure::UnexpectedChar(*c),
            ParseError::Mismatch { expected, found } => Failure::Mismatch {
                expected: expected@,
                found: found_view(*found),
            },
        }
    }
}

/// How a token is called in a message.
pub open spec fn lexeme_text(lexeme: Lexeme) -> Seq<char> {
    match lexeme {
        Lexeme::Lambda => "Lambda"@,
        Lexeme::Dot => "Dot"@,
        Lexeme::OParen => "OParen"@,
        Lexeme::CParen => "CParen"@,
        Lexeme::Name(name) => "Name(\""@ + name + "\")"@,
    }
}

/// How what was found is called in a message: the token, or the end of
/// the input.
pub open spec fn found_text(found: Option<Lexeme>) -> Seq<char> {
    match found {
        Some(lexeme) => lexeme_text(lexeme),
        None => "end of input"@,
    }
}

/// The message of a syntax error.
pub open spec fn message_text(failure: Failure) -> Seq<char> {
    match failure {
        Failure::UnexpectedChar(c) => "unexpected character: "@.push(c),
        Failure::Mismatch { expected, found } => match expected {
            Wanted::Token(lexeme) => "expected "@ + lexeme_text(lexeme) + ", got "@ + found_text(
                found,
            ),
            Wanted::ParameterName => "expected parameter name, got "@ + found_text(found),
            Wanted::Expression => "expected expression"@,
            Wanted::Atom => match found {
                Some(lexeme) => "expected identifier or '(', got "@ + lexeme_text(lexeme),
                None => "unexpected end of input"@,
            },
            Wanted::EndOfInput => "unexpected tokens after expression"@,
        },
    }
}

impl Token {
    /// Appends to `out` how the token is called in a message.
    pub fn write_to(&self, out: &mut String)
        ensures
            final(out)@ == old(out)@ + lexeme_text(self@),
    {
        match self {
            Token::Lambda => out.append("Lambda"),
            Token::Dot => out.append("Dot"),
            Token::OParen => out.append("OParen"),
            Token::CParen => out.append("CParen"),
            Token::Name(name) => {
                out.append("Name(\"");
                out.append(name.as_str());
                out.append("\")");
            },
        }
    }
}

/// Appends to `out` how what was found is called in a message.
fn write_found(found: &Option<Token>, out: &mut String)
    ensures
        final(out)@ == old(out)@ + found_text(found_view(*found)),
{
    match found {
        Some(token) => token.write_to(out),
        None => out.append("end of input"),
    }
}

impl ParseError {
    /// The message of the error, for a person to read.
    pub fn message(&self) -> (r: String)
        ensures
            r@ == message_text(self@),
    {
        match self {
            ParseError::UnexpectedChar(c) => {
                let mut out = "unexpected character: ".to_owned();
                push_char(&mut out, *c);
                out
            },
            ParseError::Mismatch { expected, found } => match expected {
                Expected::Token(token) => {
                    let mut out = "expected ".to_owned();
                    token.write_to(&mut out);
                    out.append(", got ");
                    write_found(found, &mut out);
                    out
                },
                Expected::ParameterName => {
                    let mut out = "expected parameter name, got ".to_owned();
                    write_found(found, &mut out);
                    out
                },
                Expected::Expression => "expected expression".to_owned(),
                Expected::Atom => match found {
                    Some(token) => {
                        let mut out = "expected identifier or '(', got ".to_owned();
                        token.write_to(&mut out);
                        out
                    },
                    None => "unexpected end of input".to_owned(),
                },
                Expected::EndOfInput => "unexpected tokens after expression".to_owned(),
            },
        }
    }
}

} // verus!
