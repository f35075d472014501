//! The parser: from tokens to an expression.
//!
//! ```text
//! expr        := lambda | application
//! lambda      := LAMBDA NAME DOT expr
//! application := atom+            (nested to the left)
//! atom        := NAME | OPEN expr CLOSE
//! ```

use vstd::prelude::*;
use crate::expr::{app, app_term, fun, fun_term, var, var_term, Expr, Term};
use crate::lexer::{lex, Lexer};
use crate::token::{found_view, lexemes, Expected, Failure, Lexeme, ParseError, Token, Wanted};

verus! {

/// The token at index `pos` of `ts`, if there is one.
pub open spec fn lexeme_at(ts: Seq<Lexeme>, pos: nat) -> Option<Lexeme> {
    if pos < ts.len() {
        Some(ts[pos as int])
    } else {
        None
    }
}

/// Whether an atom can begin at `pos`: with a name or an opening parenthesis.
pub open spec fn starts_atom(ts: Seq<Lexeme>, pos: nat) -> bool {
    match lexeme_at(ts, pos) {
        Some(Lexeme::Name(_)) => true,
        Some(Lexeme::OParen) => true,
        _ => false,
    }
}

/// The position behind the token `expected`, if it stands at `pos`.
pub open spec fn expect_at(ts: Seq<Lexeme>, pos: nat, expected: Lexeme) -> Result<nat, Failure> {
    if lexeme_at(ts, pos) == Some(expected) {
        Ok(pos + 1)
    } else {
        Err(Failure::Mismatch { expected: Wanted::Token(expected), found: lexeme_at(ts, pos) })
    }
}

/// The application of the first of `atoms` to the others in turn, nested
/// to the left.
pub open spec fn apply_all(atoms: Seq<Term>) -> Term
    decreases atoms.len(),
{
    if atoms.len() <= 1 {
        atoms[0]
    } else {
        app_term(apply_all(atoms.drop_last()), atoms.last())
    }
}

/// The expression that begins at `pos`, and the position behind it.
pub open spec fn parse_expr_at(ts: Seq<Lexeme>, pos: nat) -> Result<(Term, nat), Failure>
    decreases ts.len() - pos, 3int,
{
    if lexeme_at(ts, pos) == Some(Lexeme::Lambda) {
        parse_lambda_at(ts, pos)
    } else {
        parse_application_at(ts, pos)
    }
}

/// The abstraction that begins at `pos`, and the position behind it. Its
/// body reaches as far to the right as an expression can.
pub open spec fn parse_lambda_at(ts: Seq<Lexeme>, pos: nat) -> Result<(Term, nat), Failure>
    decreases ts.len() - pos, 2int,
{
    match expect_at(ts, pos, Lexeme::Lambda) {
        Err(failure) => Err(failure),
        Ok(at_name) => match lexeme_at(ts, at_name) {
            Some(Lexeme::Name(name)) => match expect_at(ts, at_name + 1, Lexeme::Dot) {
                Err(failure) => Err(failure),
                Ok(at_body) => match parse_expr_at(ts, at_body) {
                    Err(failure) => Err(failure),
                    Ok((body, next)) => Ok((fun_term(name, body), next)),
                },
            },
            found => Err(Failure::Mismatch { expected: Wanted::ParameterName, found }),
        },
    }
}

/// The application that begins at `pos`, and the position behind it: one
/// atom or more.
pub open spec fn parse_application_at(ts: Seq<Lexeme>, pos: nat) -> Result<(Term, nat), Failure>
    decreases ts.len() - pos, 2int,
{
    match parse_atoms_at(ts, pos) {
        Err(failure) => Err(failure),
        Ok((atoms, next)) => if atoms.len() == 0 {
            Err(Failure::Mismatch { expected: Wanted::Expression, found: lexeme_at(ts, next) })
        } else {
            Ok((apply_all(atoms), next))
        },
    }
}

/// The atoms that stand one after the other from `pos` on, and the
/// position behind the last of them.
pub open spec fn parse_atoms_at(ts: Seq<Lexeme>, pos: nat) -> Result<(Seq<Term>, nat), Failure>
    decreases ts.len() - pos, 1int,
{
    if starts_atom(ts, pos) {
        match parse_atom_at(ts, pos) {
            Err(failure) => Err(failure),
            Ok((atom, next)) => if pos < next <= ts.len() {
                match parse_atoms_at(ts, next) {
                    Err(failure) => Err(failure),
                    Ok((others, end)) => Ok((seq![atom] + others, end)),
                }
            } else {
                Ok((seq![atom], next))
            },
        }
    } else {
        Ok((Seq::empty(), pos))
    }
}

/// The atom that begins at `pos`, and the position behind it.
pub open spec fn parse_atom_at(ts: Seq<Lexeme>, pos: nat) -> Result<(Term, nat), Failure>
    decreases ts.len() - pos, 0int,
{
    match lexeme_at(ts, pos) {
        Some(Lexeme::Name(name)) => Ok((var_term(name), pos + 1)),
        Some(Lexeme::OParen) => match parse_expr_at(ts, pos + 1) {
            Err(failure) => Err(failure),
            Ok((inner, at_close)) => match expect_at(ts, at_close, Lexeme::CParen) {
                Err(failure) => Err(failure),
                Ok(next) => Ok((inner, next)),
            },
        },
        found => Err(Failure::Mismatch { expected: Wanted::Atom, found }),
    }
}

/// The expression that the tokens from `pos` on make up, all of them.
pub open spec fn parse_tokens_from(ts: Seq<Lexeme>, pos: nat) -> Result<Term, Failure> {
    match parse_expr_at(ts, pos) {
        Err(failure) => Err(failure),
        Ok((term, next)) => if next < ts.len() {
            Err(Failure::Mismatch { expected: Wanted::EndOfInput, found: lexeme_at(ts, next) })
        } else {
            Ok(term)
        },
    }
}

/// The expression that the tokens `ts` make up.
pub open spec fn parse_tokens(ts: Seq<Lexeme>) -> Result<Term, Failure> {
    parse_tokens_from(ts, 0)
}

/// The expression that the text `s` denotes.
pub open spec fn parse_text(s: Seq<char>) -> Result<Term, Failure> {
    match lex(s) {
        Err(failure) => Err(failure),
        Ok(ts) => parse_tokens(ts),
    }
}

/// An expression takes up at least one token and ends within the input.
pub proof fn lemma_expr_progress(ts: Seq<Lexeme>, pos: nat)
    ensures
        parse_expr_at(ts, pos) matches Ok((_, next)) ==> pos < next <= ts.len(),
    decreases ts.len() - pos, 3int,
{
    if lexeme_at(ts, pos) == Some(Lexeme::Lambda) {
        lemma_lambda_progress(ts, pos);
    } else {
        lemma_application_progress(ts, pos);
    }
}

/// An abstraction takes up at least one token and ends within the input.
pub proof fn lemma_lambda_progress(ts: Seq<Lexeme>, pos: nat)
    ensures
        parse_lambda_at(ts, pos) matches Ok((_, next)) ==> pos < next <= ts.len(),
    decreases ts.len() - pos, 2int,
{
    if let Ok(at_name) = expect_at(ts, pos, Lexeme::Lambda) {
        if let Some(Lexeme::Name(_)) = lexeme_at(ts, at_name) {
            if let Ok(at_body) = expect_at(ts, at_name + 1, Lexeme::Dot) {
                lemma_expr_progress(ts, at_body);
            }
        }
    }
}

/// An application takes up at least one token and ends within the input.
pub proof fn lemma_application_progress(ts: Seq<Lexeme>, pos: nat)
    ensures
        parse_application_at(ts, pos) matches Ok((_, next)) ==> pos < next <= ts.len(),
    decreases ts.len() - pos, 2int,
{
    lemma_atoms_progress(ts, pos);
}

/// A run of atoms ends within the input, and behind its start unless it
/// is empty.
pub proof fn lemma_atoms_progress(ts: Seq<Lexeme>, pos: nat)
    ensures
        parse_atoms_at(ts, pos) matches Ok((atoms, next)) ==> {
            &&& pos <= next
            &&& next <= ts.len() || !starts_atom(ts, pos)
            &&& atoms.len() > 0 ==> pos < next
            &&& atoms.len() == 0 ==> pos == next
            &&& !starts_atom(ts, next)
        },
    decreases ts.len() - pos, 1int,
{
    if starts_atom(ts, pos) {
        lemma_atom_progress(ts, pos);
        if let Ok((_, next)) = parse_atom_at(ts, pos) {
            lemma_atoms_progress(ts, next);
        }
    }
}

/// An atom takes up at least one token and ends within the input.
pub proof fn lemma_atom_progress(ts: Seq<Lexeme>, pos: nat)
    ensures
        parse_atom_at(ts, pos) matches Ok((_, next)) ==> pos < next <= ts.len(),
    decreases ts.len() - pos, 0int,
{
    if lexeme_at(ts, pos) == Some(Lexeme::OParen) {
        lemma_expr_progress(ts, pos + 1);
    }
}

/// `front` in front of the atoms of `rest`, where there are any.
pub open spec fn join_atoms(front: Seq<Term>, rest: Result<(Seq<Term>, nat), Failure>) -> Result<
    (Seq<Term>, nat),
    Failure,
> {
    match rest {
        Ok((others, end)) => Ok((front + others, end)),
        Err(failure) => Err(failure),
    }
}

/// A parser over tokens: the tokens and the index of the next one to read.
pub struct Parser {
    tokens: Vec<Token>,
    pos: usize,
}

impl Parser {
    #[verifier::type_invariant]
    spec fn within_input(&self) -> bool {
        self.pos <= self.tokens.len()
    }

    /// The tokens that are read.
    pub closed spec fn input(&self) -> Seq<Lexeme> {
        lexemes(self.tokens@)
    }

    /// The index of the next token to read.
    pub closed spec fn position(&self) -> nat {
        self.pos as nat
    }

    /// A parser at the start of `tokens`.
    pub fn new(tokens: Vec<Token>) -> (r: Parser)
        ensures
            r.input() == lexemes(tokens@),
            r.position() == 0,
    {
        Parser { tokens, pos: 0 }
    }

    /// The next token to read, if the input has not ended.
    fn current(&self) -> (r: Option<&Token>)
        ensures
            match r {
                Some(token) => lexeme_at(self.input(), self.position()) == Some(token@),
                None => lexeme_at(self.input(), self.position()) is None,
            },
    {
        if self.pos < self.tokens.len() {
            Some(&self.tokens[self.pos])
        } else {
            None
        }
    }

    /// A copy of the next token to read, if the input has not ended.
    fn found(&self) -> (r: Option<Token>)
        ensures
            found_view(r) == lexeme_at(self.input(), self.position()),
    {
        match self.current() {
            Some(token) => Some(token.clone()),
            None => None,
        }
    }

    /// Whether the next token can begin an atom.
    fn at_atom(&self) -> (r: bool)
        ensures
            r == starts_atom(self.input(), self.position()),
    {
        match self.current() {
            Some(Token::Name(_)) => true,
            Some(Token::OParen) => true,
            _ => false,
        }
    }

    /// Moves past the next token.
    fn advance(&mut self)
        requires
            old(self).position() < old(self).input().len(),
        ensures
            final(self).input() == old(self).input(),
            final(self).position() == old(self).position() + 1,
    {
        assert(self.pos < self.tokens.len());
        self.pos += 1;
    }

    /// Moves past the token `expected`, or fails if another stands here.
    pub fn expect(&mut self, expected: Token) -> (r: Result<(), ParseError>)
        ensures
            final(self).input() == old(self).input(),
            match expect_at(old(self).input(), old(self).position(), expected@) {
                Ok(next) => r is Ok && final(self).position() == next,
                Err(failure) => r matches Err(error) && error@ == failure
                    && final(self).position() == old(self).position(),
            },
    {
        let matched = match self.current() {
            Some(token) => *token == expected,
            None => false,
        };
        if matched {
            self.advance();
            Ok(())
        } else {
            Err(ParseError::Mismatch { expected: Expected::Token(expected), found: self.found() })
        }
    }

    /// Reads an expression: an abstraction if a lambda stands here, else an
    /// application.
    pub fn parse_expr(&mut self) -> (r: Result<Box<Expr>, ParseError>)
        ensures
            final(self).input() == old(self).input(),
            match parse_expr_at(old(self).input(), old(self).position()) {
                Ok((term, next)) => r matches Ok(expr) && expr@ == term
                    && final(self).position() == next,
                Err(failure) => r matches Err(error) && error@ == failure,
            },
        decreases old(self).input().len() - old(self).position(), 3int,
    {
        let lambda = match self.current() {
            Some(Token::Lambda) => true,
            _ => false,
        };
        if lambda {
            self.parse_lambda()
        } else {
            self.parse_application()
        }
    }

    /// Reads an abstraction: a lambda, the parameter's name, a dot and the
    /// body.
    pub fn parse_lambda(&mut self) -> (r: Result<Box<Expr>, ParseError>)
        ensures
            final(self).input() == old(self).input(),
            match parse_lambda_at(old(self).input(), old(self).position()) {
                Ok((term, next)) => r matches Ok(expr) && expr@ == term
                    && final(self).position() == next,
                Err(failure) => r matches Err(error) && error@ == failure,
            },
        decreases old(self).input().len() - old(self).position(), 2int,
    {
        match self.expect(Token::Lambda) {
            Ok(()) => {},
            Err(error) => {
                return Err(error);
            },
        }
        let name = match self.current() {
            Some(Token::Name(name)) => Some(name.clone()),
            _ => None,
        };
        let param = match name {
            Some(param) => {
                self.advance();
                param
            },
            None => {
                return Err(
                    ParseError::Mismatch { expected: Expected::ParameterName, found: self.found() },
                );
            },
        };
        match self.expect(Token::Dot) {
            Ok(()) => {},
            Err(error) => {
                return Err(error);
            },
        }
        match self.parse_expr() {
            Ok(body) => Ok(fun(param, body)),
            Err(error) => Err(error),
        }
    }

    /// Reads an application: one atom or more, nested to the left.
    pub fn parse_application(&mut self) -> (r: Result<Box<Expr>, ParseError>)
        ensures
            final(self).input() == old(self).input(),
            match parse_application_at(old(self).input(), old(self).position()) {
                Ok((term, next)) => r matches Ok(expr) && expr@ == term
                    && final(self).position() == next,
                Err(failure) => r matches Err(error) && error@ == failure,
            },
        decreases old(self).input().len() - old(self).position(), 2int,
    {
        let ghost ts = self.input();
        let ghost start = self.position();
        if !self.at_atom() {
            return Err(
                ParseError::Mismatch { expected: Expected::Expression, found: self.found() },
            );
        }
        proof {
            lemma_atom_progress(ts, start);
        }
        let mut result = match self.parse_atom() {
            Ok(first) => first,
            Err(error) => {
                return Err(error);
            },
        };
        let ghost mut atoms: Seq<Term> = seq![result@];
        while self.at_atom()
            invariant
                ts == old(self).input(),
                start == old(self).position(),
                self.input() == ts,
                start < self.position() <= ts.len(),
                atoms.len() >= 1,
                result@ == apply_all(atoms),
                parse_atoms_at(ts, start) == join_atoms(
                    atoms,
                    parse_atoms_at(ts, self.position()),
                ),
            decreases ts.len() - self.position(),
        {
            let ghost here = self.position();
            proof {
                lemma_atom_progress(ts, here);
            }
            let next = match self.parse_atom() {
                Ok(next) => next,
                Err(error) => {
                    return Err(error);
                },
            };
            proof {
                let longer = atoms.push(next@);
                assert(longer.drop_last() =~= atoms);
                if let Ok((others, _)) = parse_atoms_at(ts, self.position()) {
                    assert(atoms + (seq![next@] + others) =~= longer + others);
                }
                atoms = longer;
            }
            result = app(result, next);
        }
        Ok(result)
    }

    /// Reads an atom: a name, or an expression in parentheses.
    pub fn parse_atom(&mut self) -> (r: Result<Box<Expr>, ParseError>)
        ensures
            final(self).input() == old(self).input(),
            match parse_atom_at(old(self).input(), old(self).position()) {
                Ok((term, next)) => r matches Ok(expr) && expr@ == term
                    && final(self).position() == next,
                Err(failure) => r matches Err(error) && error@ == failure,
            },
        decreases old(self).input().len() - old(self).position(), 0int,
    {
        let name = match self.current() {
            Some(Token::Name(name)) => Some(name.clone()),
            _ => None,
        };
        match name {
            Some(name) => {
                self.advance();
                Ok(var(name))
            },
            None => {
                let open = match self.current() {
                    Some(Token::OParen) => true,
                    _ => false,
                };
                if open {
                    self.advance();
                    let expr = match self.parse_expr() {
                        Ok(expr) => expr,
                        Err(error) => {
                            return Err(error);
                        },
                    };
                    match self.expect(Token::CParen) {
                        Ok(()) => Ok(expr),
                        Err(error) => Err(error),
                    }
                } else {
                    Err(ParseError::Mismatch { expected: Expected::Atom, found: self.found() })
                }
            },
        }
    }

    /// Reads the rest of the tokens as one expression. Fails if they do
    /// not begin with one, or if tokens are left behind it.
    pub fn parse(&mut self) -> (r: Result<Box<Expr>, ParseError>)
        ensures
            final(self).input() == old(self).input(),
            match parse_tokens_from(old(self).input(), old(self).position()) {
                Ok(term) => r matches Ok(expr) && expr@ == term
                    && final(self).position() == old(self).input().len(),
                Err(failure) => r matches Err(error) && error@ == failure,
            },
    {
        proof {
            lemma_expr_progress(self.input(), self.position());
        }
        let expr = match self.parse_expr() {
            Ok(expr) => expr,
            Err(error) => {
                return Err(error);
            },
        };
        if self.current().is_some() {
            return Err(
                ParseError::Mismatch { expected: Expected::EndOfInput, found: self.found() },
            );
        }
        Ok(expr)
    }
}

/// Reads `input` as an expression. Every name in the result is free: the
/// identities are all `0`.
pub fn parse(input: &str) -> (r: Result<Box<Expr>, ParseError>)
    ensures
        match parse_text(input@) {
            Ok(term) => r matches Ok(expr) && expr@ == term,
            Err(failure) => r matches Err(error) && error@ == failure,
        },
{
    let mut lexer = Lexer::new(input);
    let tokens = match lexer.tokenize() {
        Ok(tokens) => tokens,
        Err(error) => {
            return Err(error);
        },
    };
    let mut parser = Parser::new(tokens);
    parser.parse()
}

} // verus!
