//! The printed form of a term reads back as the term.

use vstd::prelude::*;
use crate::chars::{is_name_char, is_name_start, is_space};
use crate::bind::{abstractions, lemma_resolve_keeps_names, resolve};
use crate::expr::{app_term, erase, format_term, Term};
use crate::lexer::{cons, lex, lex_from, lemma_name_end_bounds, name_end, prepend};
use crate::parser::{
    apply_all, expect_at, lexeme_at, parse_application_at, parse_atom_at, parse_atoms_at,
    parse_expr_at, parse_lambda_at, parse_text, parse_tokens, starts_atom,
};
use crate::token::{Failure, Lexeme};

verus! {

/// The tokens of the printed form of a term.
pub open spec fn render(term: Term) -> Seq<Lexeme>
    decreases term,
{
    match term {
        Term::Var(v) => seq![Lexeme::Name(v.name)],
        Term::Fun(v, body) => seq![
            Lexeme::OParen,
            Lexeme::Lambda,
            Lexeme::Name(v.name),
            Lexeme::Dot,
        ] + render(*body) + seq![Lexeme::CParen],
        Term::App(lhs, rhs) => seq![Lexeme::OParen] + render(*lhs) + render(*rhs)
            + seq![Lexeme::CParen],
    }
}

/// Whether `part` stands in `ts` from index `pos` on.
pub open spec fn has_at<A>(ts: Seq<A>, pos: nat, part: Seq<A>) -> bool {
    &&& pos + part.len() <= ts.len()
    &&& forall|k: int| 0 <= k < part.len() ==> ts[pos + k] == #[trigger] part[k]
}

/// The tokens of a printed term begin with a name or an opening
/// parenthesis.
pub proof fn lemma_render_head(term: Term)
    ensures
        render(term).len() >= 1,
        render(term)[0] is Name || render(term)[0] is OParen,
{
    match term {
        Term::Var(_) => {},
        Term::Fun(_, _) => {},
        Term::App(_, _) => {},
    }
}

/// Where the tokens of a printed term stand, an atom is read: the term,
/// with every identity `0`.
pub proof fn lemma_parse_rendered_atom(term: Term, ts: Seq<Lexeme>, pos: nat)
    requires
        has_at(ts, pos, render(term)),
    ensures
        parse_atom_at(ts, pos) == Ok::<(Term, nat), Failure>(
            (erase(term), pos + render(term).len()),
        ),
    decreases term, 0int,
{
    let part = render(term);
    let p = pos as int;
    match term {
        Term::Var(_) => {},
        Term::Fun(_, body) => {
            let inner = render(*body);
            let n = inner.len() as int;
            let at_body = pos + 4;
            let at_close = at_body + inner.len();
            assert(ts[p + 0] == part[0]);
            assert(ts[p + 1] == part[1]);
            assert(ts[p + 2] == part[2]);
            assert(ts[p + 3] == part[3]);
            assert(ts[p + (4 + n)] == part[4 + n]);
            assert forall|k: int| 0 <= k < inner.len() implies ts[at_body + k]
                == #[trigger] inner[k] by {
                assert(ts[p + (4 + k)] == part[4 + k]);
            }
            lemma_parse_rendered_expr(*body, ts, at_body);
        },
        Term::App(lhs, rhs) => {
            let left = render(*lhs);
            let right = render(*rhs);
            let a = left.len() as int;
            let b = right.len() as int;
            let at_left = pos + 1;
            let at_right = at_left + left.len();
            let at_close = at_right + right.len();
            lemma_render_head(*lhs);
            lemma_render_head(*rhs);
            assert(ts[p + (1 + a + b)] == part[1 + a + b]);
            assert forall|k: int| 0 <= k < left.len() implies ts[at_left + k]
                == #[trigger] left[k] by {
                assert(ts[p + (1 + k)] == part[1 + k]);
            }
            assert forall|k: int| 0 <= k < right.len() implies ts[at_right + k]
                == #[trigger] right[k] by {
                assert(ts[p + (1 + a + k)] == part[1 + a + k]);
            }
            lemma_parse_rendered_atom(*lhs, ts, at_left);
            lemma_parse_rendered_atom(*rhs, ts, at_right);
            let both = seq![erase(*lhs), erase(*rhs)];
            assert(seq![erase(*lhs)] + seq![erase(*rhs)] =~= both);
            assert(apply_all(both.drop_last()) == erase(*lhs));
            assert(parse_application_at(ts, at_left) == Ok::<(Term, nat), Failure>(
                (app_term(erase(*lhs), erase(*rhs)), at_close),
            ));
        },
    }
}

/// Where the tokens of a printed term stand and no atom follows them, an
/// expression is read: the term, with every identity `0`.
pub proof fn lemma_parse_rendered_expr(term: Term, ts: Seq<Lexeme>, pos: nat)
    requires
        has_at(ts, pos, render(term)),
        !starts_atom(ts, pos + render(term).len()),
    ensures
        parse_expr_at(ts, pos) == Ok::<(Term, nat), Failure>(
            (erase(term), pos + render(term).len()),
        ),
    decreases term, 1int,
{
    let part = render(term);
    let end = pos + part.len();
    lemma_render_head(term);
    lemma_parse_rendered_atom(term, ts, pos);
    assert(parse_application_at(ts, pos) == Ok::<(Term, nat), Failure>((erase(term), end)));
}

/// The tokens of a printed term parse to the term, with every identity `0`.
pub proof fn lemma_parse_render(term: Term)
    ensures
        parse_tokens(render(term)) == Ok::<Term, Failure>(erase(term)),
{
    lemma_parse_rendered_expr(term, render(term), 0);
}

/// A name of the concrete syntax: an ASCII letter or `_`, then ASCII
/// letters, digits and `_`.
pub open spec fn is_name(s: Seq<char>) -> bool {
    &&& s.len() >= 1
    &&& is_name_start(s[0])
    &&& forall|k: int| 0 <= k < s.len() ==> is_name_char(#[trigger] s[k])
}

/// Whether every variable and every parameter of a term has a name of
/// the concrete syntax.
pub open spec fn well_named(term: Term) -> bool
    decreases term,
{
    match term {
        Term::Var(v) => is_name(v.name),
        Term::Fun(v, body) => is_name(v.name) && well_named(*body),
        Term::App(lhs, rhs) => well_named(*lhs) && well_named(*rhs),
    }
}

/// Whether a name that ends before index `at` of `s` ends there: the text
/// ends, or the character at `at` continues no name.
pub open spec fn ends_name(s: Seq<char>, at: nat) -> bool {
    at >= s.len() || !is_name_char(s[at as int])
}

/// A run of name characters that is followed by none ends where
/// `name_end` says.
pub proof fn lemma_name_end_of_run(s: Seq<char>, from: nat, to: nat)
    requires
        from <= to <= s.len(),
        forall|k: int| from <= k < to ==> is_name_char(#[trigger] s[k]),
        ends_name(s, to),
    ensures
        name_end(s, from) == to,
    decreases to - from,
{
    if from < to {
        lemma_name_end_of_run(s, from + 1, to);
    }
}

/// Where a name stands and ends, the lexer reads it as one token.
pub proof fn lemma_lex_name(s: Seq<char>, i: nat, name: Seq<char>)
    requires
        is_name(name),
        has_at(s, i, name),
        ends_name(s, i + name.len()),
    ensures
        lex_from(s, i) == cons(Lexeme::Name(name), lex_from(s, i + name.len())),
{
    let p = i as int;
    let end = i + name.len();
    assert forall|k: int| i + 1 <= k < end implies is_name_char(#[trigger] s[k]) by {
        assert(s[p + (k - p)] == name[k - p]);
    }
    lemma_name_end_of_run(s, i + 1, end);
    assert(s.subrange(p, end as int) =~= name);
}

/// Where the printed form of a term stands in a text, and no name
/// character follows it, the lexer reads the tokens of the term.
pub proof fn lemma_lex_printed(term: Term, s: Seq<char>, i: nat)
    requires
        well_named(term),
        has_at(s, i, format_term(term, false)),
        ends_name(s, i + format_term(term, false).len()),
    ensures
        lex_from(s, i) == prepend(
            render(term),
            lex_from(s, i + format_term(term, false).len()),
        ),
    decreases term,
{
    let text = format_term(term, false);
    let p = i as int;
    let rest = lex_from(s, i + text.len());
    match term {
        Term::Var(v) => {
            lemma_lex_name(s, i, v.name);
        },
        Term::Fun(v, body) => {
            let name = v.name;
            let inner = format_term(*body, false);
            let l = name.len() as int;
            let m = inner.len() as int;
            assert(s[p + 0] == text[0]);
            assert(s[p + 1] == text[1]);
            assert(s[p + (2 + l)] == text[2 + l]);
            assert(s[p + (3 + l + m)] == text[3 + l + m]);
            assert forall|k: int| 0 <= k < name.len() implies s[p + 2 + k] == #[trigger] name[k] by {
                assert(s[p + (2 + k)] == text[2 + k]);
            }
            assert forall|k: int| 0 <= k < inner.len() implies s[p + 3 + l + k]
                == #[trigger] inner[k] by {
                assert(s[p + (3 + l + k)] == text[3 + l + k]);
            }
            let at_name = i + 2;
            let at_dot = at_name + name.len();
            let at_body = at_dot + 1;
            lemma_lex_name(s, at_name, name);
            lemma_lex_printed(*body, s, at_body);
            if let Ok(tokens) = rest {
                let tail = render(*body) + (seq![Lexeme::CParen] + tokens);
                assert(seq![Lexeme::OParen] + (seq![Lexeme::Lambda] + (seq![Lexeme::Name(name)]
                    + (seq![Lexeme::Dot] + tail))) =~= render(term) + tokens);
            }
        },
        Term::App(lhs, rhs) => {
            let left = format_term(*lhs, false);
            let right = format_term(*rhs, false);
            let a = left.len() as int;
            let b = right.len() as int;
            assert(s[p + 0] == text[0]);
            assert(s[p + (1 + a)] == text[1 + a]);
            assert(s[p + (2 + a + b)] == text[2 + a + b]);
            assert forall|k: int| 0 <= k < left.len() implies s[p + 1 + k] == #[trigger] left[k] by {
                assert(s[p + (1 + k)] == text[1 + k]);
            }
            assert forall|k: int| 0 <= k < right.len() implies s[p + 2 + a + k]
                == #[trigger] right[k] by {
                assert(s[p + (2 + a + k)] == text[2 + a + k]);
            }
            let at_left = i + 1;
            let at_space = at_left + left.len();
            let at_right = at_space + 1;
            lemma_lex_printed(*lhs, s, at_left);
            lemma_lex_printed(*rhs, s, at_right);
            if let Ok(tokens) = rest {
                let tail = render(*rhs) + (seq![Lexeme::CParen] + tokens);
                assert(seq![Lexeme::OParen] + (render(*lhs) + tail) =~= render(term) + tokens);
            }
        },
    }
}

/// The printed form of a term whose names are names of the concrete
/// syntax lexes to the tokens of the term.
pub proof fn lemma_lex_format(term: Term)
    requires
        well_named(term),
    ensures
        lex(format_term(term, false)) == Ok::<Seq<Lexeme>, Failure>(render(term)),
{
    let text = format_term(term, false);
    lemma_lex_printed(term, text, 0);
}

/// The printed form of a term whose names are names of the concrete
/// syntax, printed without identities, reads back as the term with every
/// identity `0`.
pub proof fn lemma_parse_format(term: Term)
    requires
        well_named(term),
    ensures
        parse_text(format_term(term, false)) == Ok::<Term, Failure>(erase(term)),
{
    lemma_lex_format(term);
    lemma_parse_render(term);
}

/// Whether every name among the tokens is a name of the concrete syntax.
pub open spec fn names_valid(ts: Seq<Lexeme>) -> bool {
    forall|k: int|
        0 <= k < ts.len() ==> (#[trigger] ts[k] matches Lexeme::Name(name) ==> is_name(name))
}

/// A term as the parser yields it: its names are names of the concrete
/// syntax and its identities are all `0`.
pub open spec fn plain(term: Term) -> bool {
    well_named(term) && erase(term) == term
}

/// Every name that the lexer reads is a name of the concrete syntax.
pub proof fn lemma_lex_names(s: Seq<char>, i: nat)
    requires
        i <= s.len(),
    ensures
        lex_from(s, i) matches Ok(ts) ==> names_valid(ts),
    decreases s.len() - i,
{
    if i < s.len() {
        let c = s[i as int];
        if is_space(c) {
            lemma_lex_names(s, i + 1);
        } else if c == '\\' || c == '\u{3bb}' || c == '.' || c == '(' || c == ')' {
            lemma_lex_names(s, i + 1);
        } else if is_name_start(c) {
            lemma_name_end_bounds(s, i + 1);
            let end = name_end(s, i + 1);
            lemma_lex_names(s, end);
            let name = s.subrange(i as int, end as int);
        }
    }
}

/// Applying plain terms to one another gives a plain term.
pub proof fn lemma_apply_all_plain(atoms: Seq<Term>)
    requires
        atoms.len() >= 1,
        forall|k: int| 0 <= k < atoms.len() ==> plain(#[trigger] atoms[k]),
    ensures
        plain(apply_all(atoms)),
    decreases atoms.len(),
{
    if atoms.len() > 1 {
        let front = atoms.drop_last();
        lemma_apply_all_plain(front);
    }
}

/// An expression read from tokens with valid names is plain.
pub proof fn lemma_parsed_expr_plain(ts: Seq<Lexeme>, pos: nat)
    requires
        names_valid(ts),
    ensures
        parse_expr_at(ts, pos) matches Ok((term, _)) ==> plain(term),
    decreases ts.len() - pos, 3int,
{
    if lexeme_at(ts, pos) == Some(Lexeme::Lambda) {
        lemma_parsed_lambda_plain(ts, pos);
    } else {
        lemma_parsed_application_plain(ts, pos);
    }
}

/// An abstraction read from tokens with valid names is plain.
pub proof fn lemma_parsed_lambda_plain(ts: Seq<Lexeme>, pos: nat)
    requires
        names_valid(ts),
    ensures
        parse_lambda_at(ts, pos) matches Ok((term, _)) ==> plain(term),
    decreases ts.len() - pos, 2int,
{
    if let Ok(at_name) = expect_at(ts, pos, Lexeme::Lambda) {
        if let Some(Lexeme::Name(name)) = lexeme_at(ts, at_name) {
            if let Ok(at_body) = expect_at(ts, at_name + 1, Lexeme::Dot) {
                lemma_parsed_expr_plain(ts, at_body);
            }
        }
    }
}

/// An application read from tokens with valid names is plain.
pub proof fn lemma_parsed_application_plain(ts: Seq<Lexeme>, pos: nat)
    requires
        names_valid(ts),
    ensures
        parse_application_at(ts, pos) matches Ok((term, _)) ==> plain(term),
    decreases ts.len() - pos, 2int,
{
    lemma_parsed_atoms_plain(ts, pos);
    if let Ok((atoms, _)) = parse_atoms_at(ts, pos) {
        if atoms.len() > 0 {
            lemma_apply_all_plain(atoms);
        }
    }
}

/// The atoms read from tokens with valid names are plain.
pub proof fn lemma_parsed_atoms_plain(ts: Seq<Lexeme>, pos: nat)
    requires
        names_valid(ts),
    ensures
        parse_atoms_at(ts, pos) matches Ok((atoms, _)) ==> forall|k: int|
            0 <= k < atoms.len() ==> plain(#[trigger] atoms[k]),
    decreases ts.len() - pos, 1int,
{
    if starts_atom(ts, pos) {
        lemma_parsed_atom_plain(ts, pos);
        if let Ok((atom, next)) = parse_atom_at(ts, pos) {
            if pos < next <= ts.len() {
                lemma_parsed_atoms_plain(ts, next);
            }
        }
    }
}

/// An atom read from tokens with valid names is plain.
pub proof fn lemma_parsed_atom_plain(ts: Seq<Lexeme>, pos: nat)
    requires
        names_valid(ts),
    ensures
        parse_atom_at(ts, pos) matches Ok((term, _)) ==> plain(term),
    decreases ts.len() - pos, 0int,
{
    if lexeme_at(ts, pos) == Some(Lexeme::OParen) {
        lemma_parsed_expr_plain(ts, pos + 1);
    }
}

/// What is read from a text is plain: its names are names of the
/// concrete syntax and its identities are all `0`.
pub proof fn lemma_parsed_text_plain(s: Seq<char>)
    ensures
        parse_text(s) matches Ok(term) ==> plain(term),
{
    lemma_lex_names(s, 0);
    if let Ok(ts) = lex(s) {
        lemma_parsed_expr_plain(ts, 0);
    }
}

/// Reading a text, printing the result without identities and reading
/// that again gives the same term.
pub proof fn lemma_parse_format_parse(s: Seq<char>)
    ensures
        parse_text(s) matches Ok(term) ==> parse_text(format_term(term, false)) == Ok::<
            Term,
            Failure,
        >(term),
{
    lemma_parsed_text_plain(s);
    if let Ok(term) = parse_text(s) {
        lemma_parse_format(term);
    }
}

/// Binding changes no name: a term whose names are names of the concrete
/// syntax stays one.
pub proof fn lemma_resolve_well_named(term: Term, scope: Map<Seq<char>, nat>, next: nat)
    requires
        well_named(term),
    ensures
        well_named(resolve(term, scope, next)),
    decreases term,
{
    match term {
        Term::Var(_) => {},
        Term::Fun(v, body) => {
            lemma_resolve_well_named(*body, scope.insert(v.name, next), next + 1);
        },
        Term::App(lhs, rhs) => {
            lemma_resolve_well_named(*lhs, scope, next);
            lemma_resolve_well_named(*rhs, scope, next + abstractions(*lhs));
        },
    }
}

/// Reading a text, binding the result, printing that without identities
/// and reading it again gives what the first reading gave: the printed
/// form reads back as the same term, up to the identities that binding
/// assigned.
pub proof fn lemma_parse_bind_format_parse(s: Seq<char>, scope: Map<Seq<char>, nat>, next: nat)
    ensures
        parse_text(s) matches Ok(term) ==> parse_text(
            format_term(resolve(term, scope, next), false),
        ) == Ok::<Term, Failure>(term),
{
    lemma_parsed_text_plain(s);
    if let Ok(term) = parse_text(s) {
        lemma_resolve_well_named(term, scope, next);
        lemma_resolve_keeps_names(term, scope, next);
        lemma_parse_format(resolve(term, scope, next));
    }
}

} // verus!
