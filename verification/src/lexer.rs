//! The lexer: from text to tokens.

use vstd::prelude::*;
use crate::chars::{
    chars_of, continues_name, is_name_char, is_name_start, is_space, is_whitespace, push_char,
    starts_name,
};
use crate::token::{lexemes, Failure, Lexeme, ParseError, Token};

verus! {

/// The character at index `i` of `s`, if there is one.
pub open spec fn char_at(s: Seq<char>, i: nat) -> Option<char> {
    if i < s.len() {
        Some(s[i as int])
    } else {
        None
    }
}

/// The first index from `i` on at which `s` holds no white space.
pub open spec fn skip_spaces(s: Seq<char>, i: nat) -> nat
    decreases s.len() - i,
{
    if i < s.len() && is_space(s[i as int]) {
        skip_spaces(s, i + 1)
    } else {
        i
    }
}

/// The first index from `i` on at which `s` holds no name character: the
/// end of the longest run of name characters that starts at `i`.
pub open spec fn name_end(s: Seq<char>, i: nat) -> nat
    decreases s.len() - i,
{
    if i < s.len() && is_name_char(s[i as int]) {
        name_end(s, i + 1)
    } else {
        i
    }
}

/// `first` in front of the tokens of `rest`, where there are any.
pub open spec fn cons(first: Lexeme, rest: Result<Seq<Lexeme>, Failure>) -> Result<
    Seq<Lexeme>,
    Failure,
> {
    match rest {
        Ok(tokens) => Ok(seq![first] + tokens),
        Err(failure) => Err(failure),
    }
}

/// `front` in front of the tokens of `rest`, where there are any.
pub open spec fn prepend(front: Seq<Lexeme>, rest: Result<Seq<Lexeme>, Failure>) -> Result<
    Seq<Lexeme>,
    Failure,
> {
    match rest {
        Ok(tokens) => Ok(front + tokens),
        Err(failure) => Err(failure),
    }
}

/// The tokens of `s` from index `i` on, or the first character there that
/// begins no token. White space separates tokens and is dropped; a name is
/// the longest run of name characters.
pub open spec fn lex_from(s: Seq<char>, i: nat) -> Result<Seq<Lexeme>, Failure>
    decreases s.len() - i,
{
    if i >= s.len() {
        Ok(Seq::empty())
    } else {
        let c = s[i as int];
        if is_space(c) {
            lex_from(s, i + 1)
        } else if c == '\\' || c == '\u{3bb}' {
            cons(Lexeme::Lambda, lex_from(s, i + 1))
        } else if c == '.' {
            cons(Lexeme::Dot, lex_from(s, i + 1))
        } else if c == '(' {
            cons(Lexeme::OParen, lex_from(s, i + 1))
        } else if c == ')' {
            cons(Lexeme::CParen, lex_from(s, i + 1))
        } else if is_name_start(c) {
            let end = name_end(s, i + 1);
            proof {
                lemma_name_end_bounds(s, i + 1);
            }
            cons(Lexeme::Name(s.subrange(i as int, end as int)), lex_from(s, end))
        } else {
            Err(Failure::UnexpectedChar(c))
        }
    }
}

/// The tokens of the text `s`.
pub open spec fn lex(s: Seq<char>) -> Result<Seq<Lexeme>, Failure> {
    lex_from(s, 0)
}

/// `skip_spaces` moves forward, stays within the text, passes white space
/// only and stops at the first character that is none.
pub proof fn lemma_skip_spaces(s: Seq<char>, i: nat)
    requires
        i <= s.len(),
    ensures
        i <= skip_spaces(s, i) <= s.len(),
        forall|k: int| i <= k < skip_spaces(s, i) ==> is_space(#[trigger] s[k]),
        skip_spaces(s, i) < s.len() ==> !is_space(s[skip_spaces(s, i) as int]),
    decreases s.len() - i,
{
    if i < s.len() && is_space(s[i as int]) {
        lemma_skip_spaces(s, i + 1);
    }
}

/// `name_end` moves forward, stays within the text, passes name characters
/// only and stops at the first character that is none.
pub proof fn lemma_name_end_bounds(s: Seq<char>, i: nat)
    requires
        i <= s.len(),
    ensures
        i <= name_end(s, i) <= s.len(),
        forall|k: int| i <= k < name_end(s, i) ==> is_name_char(#[trigger] s[k]),
        name_end(s, i) < s.len() ==> !is_name_char(s[name_end(s, i) as int]),
    decreases s.len() - i,
{
    if i < s.len() && is_name_char(s[i as int]) {
        lemma_name_end_bounds(s, i + 1);
    }
}

/// White space in front of the tokens does not change them.
pub proof fn lemma_lex_skips_spaces(s: Seq<char>, i: nat)
    requires
        i <= s.len(),
    ensures
        lex_from(s, i) == lex_from(s, skip_spaces(s, i)),
    decreases s.len() - i,
{
    if i < s.len() && is_space(s[i as int]) {
        lemma_lex_skips_spaces(s, i + 1);
    }
}

/// Putting tokens in front one after the other is putting them in front
/// together.
pub proof fn lemma_prepend_cons(
    front: Seq<Lexeme>,
    next: Lexeme,
    rest: Result<Seq<Lexeme>, Failure>,
)
    ensures
        prepend(front, cons(next, rest)) == prepend(front.push(next), rest),
{
    if let Ok(tokens) = rest {
        assert(front + (seq![next] + tokens) =~= front.push(next) + tokens);
    }
}

/// A lexer over a text: the characters and the index of the next one to read.
pub struct Lexer {
    input: Vec<char>,
    pos: usize,
}

impl Lexer {
    #[verifier::type_invariant]
    spec fn within_text(&self) -> bool {
        self.pos <= self.input.len()
    }

    /// The text that is read.
    pub closed spec fn text(&self) -> Seq<char> {
        self.input@
    }

    /// The index of the next character to read.
    pub closed spec fn position(&self) -> nat {
        self.pos as nat
    }

    /// A lexer at the start of `input`.
    pub fn new(input: &str) -> (r: Lexer)
        ensures
            r.text() == input@,
            r.position() == 0,
    {
        Lexer { input: chars_of(input), pos: 0 }
    }

    /// The next character to read, if the text has not ended.
    fn current(&self) -> (r: Option<char>)
        ensures
            r == char_at(self.text(), self.position()),
    {
        if self.pos < self.input.len() {
            Some(self.input[self.pos])
        } else {
            None
        }
    }

    /// Moves past the next character.
    fn advance(&mut self)
        requires
            old(self).position() < old(self).text().len(),
        ensures
            final(self).text() == old(self).text(),
            final(self).position() == old(self).position() + 1,
    {
        assert(self.pos < self.input.len());
        self.pos += 1;
    }

    /// Moves past the white space that the text holds here.
    pub fn trim_space(&mut self)
        ensures
            final(self).text() == old(self).text(),
            final(self).position() == skip_spaces(old(self).text(), old(self).position()),
    {
        proof {
            use_type_invariant(&*self);
        }
        while self.pos < self.input.len() && is_whitespace(self.input[self.pos])
            invariant
                self.input@ == old(self).input@,
                old(self).pos <= self.pos <= self.input.len(),
                skip_spaces(self.input@, self.pos as nat) == skip_spaces(
                    old(self).input@,
                    old(self).pos as nat,
                ),
            decreases self.input.len() - self.pos,
        {
            self.pos += 1;
        }
    }

    /// Reads the longest run of name characters that the text holds here.
    pub fn read_name(&mut self) -> (r: String)
        ensures
            final(self).text() == old(self).text(),
            final(self).position() == name_end(old(self).text(), old(self).position()),
            r@ == old(self).text().subrange(
                old(self).position() as int,
                final(self).position() as int,
            ),
    {
        proof {
            use_type_invariant(&*self);
        }
        let mut ret = String::new();
        while self.pos < self.input.len() && continues_name(self.input[self.pos])
            invariant
                self.input@ == old(self).input@,
                old(self).pos <= self.pos <= self.input.len(),
                name_end(self.input@, self.pos as nat) == name_end(
                    old(self).input@,
                    old(self).pos as nat,
                ),
                ret@ == self.input@.subrange(old(self).pos as int, self.pos as int),
            decreases self.input.len() - self.pos,
        {
            push_char(&mut ret, self.input[self.pos]);
            self.pos += 1;
        }
        ret
    }

    /// Reads the rest of the text as tokens. Fails at the first character
    /// that begins no token, and then hands out no tokens at all.
    pub fn tokenize(&mut self) -> (r: Result<Vec<Token>, ParseError>)
        ensures
            final(self).text() == old(self).text(),
            match lex_from(old(self).text(), old(self).position()) {
                Ok(ls) => r matches Ok(tokens) && lexemes(tokens@) == ls
                    && final(self).position() == old(self).text().len(),
                Err(failure) => r matches Err(error) && error@ == failure,
            },
    {
        proof {
            use_type_invariant(&*self);
        }
        let mut tokens: Vec<Token> = Vec::new();
        let ghost text = self.input@;
        let ghost start = self.pos as nat;
        loop
            invariant
                text == old(self).text(),
                start == old(self).position(),
                self.text() == text,
                self.position() <= text.len(),
                lex_from(text, start) == prepend(
                    lexemes(tokens@),
                    lex_from(text, self.position()),
                ),
            ensures
                self.text() == text,
                self.position() == text.len(),
                lex_from(text, start) == Ok::<Seq<Lexeme>, Failure>(lexemes(tokens@)),
            decreases text.len() - self.position(),
        {
            let ghost before = self.position();
            self.trim_space();
            proof {
                lemma_skip_spaces(text, before);
                lemma_lex_skips_spaces(text, before);
            }
            let ghost here = self.position();
            let ghost seen = lexemes(tokens@);
            match self.current() {
                None => {
                    break ;
                },
                Some(c) => {
                    if c == '\\' || c == '\u{3bb}' {
                        tokens.push(Token::Lambda);
                        self.advance();
                        proof {
                            lemma_prepend_cons(seen, Lexeme::Lambda, lex_from(text, here + 1));
                            assert(lexemes(tokens@) =~= seen.push(Lexeme::Lambda));
                        }
                    } else if c == '.' {
                        tokens.push(Token::Dot);
                        self.advance();
                        proof {
                            lemma_prepend_cons(seen, Lexeme::Dot, lex_from(text, here + 1));
                            assert(lexemes(tokens@) =~= seen.push(Lexeme::Dot));
                        }
                    } else if c == '(' {
                        tokens.push(Token::OParen);
                        self.advance();
                        proof {
                            lemma_prepend_cons(seen, Lexeme::OParen, lex_from(text, here + 1));
                            assert(lexemes(tokens@) =~= seen.push(Lexeme::OParen));
                        }
                    } else if c == ')' {
                        tokens.push(Token::CParen);
                        self.advance();
                        proof {
                            lemma_prepend_cons(seen, Lexeme::CParen, lex_from(text, here + 1));
                            assert(lexemes(tokens@) =~= seen.push(Lexeme::CParen));
                        }
                    } else if starts_name(c) {
                        let name = self.read_name();
                        proof {
                            lemma_name_end_bounds(text, here + 1);
                            let end = name_end(text, here + 1);
                            lemma_prepend_cons(seen, Lexeme::Name(name@), lex_from(text, end));
                        }
                        tokens.push(Token::Name(name));
                        proof {
                            assert(lexemes(tokens@) =~= seen.push(Lexeme::Name(name@)));
                        }
                    } else {
                        return Err(ParseError::UnexpectedChar(c));
                    }
                },
            }
        }
        Ok(tokens)
    }
}

} // verus!
