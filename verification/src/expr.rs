//! The term model: identifiers, expressions and their mathematical views.

use vstd::prelude::*;
use vstd::std_specs::cmp::PartialEqSpecImpl;
use crate::chars::push_char;

verus! {

/// The mathematical value of an identifier: a name and an identity.
/// Identity `0` means free or not yet assigned.
pub struct Ident {
    pub name: Seq<char>,
    pub id: nat,
}

/// The mathematical value of an expression.
pub enum Term {
    Var(Ident),
    Fun(Ident, Box<Term>),
    App(Box<Term>, Box<Term>),
}

/// A variable name together with the identity that tells apart equally
/// named variables bound in different places.
#[derive(Debug)]
pub struct VarName {
    pub name: String,
    pub id: usize,
}

/// A lambda expression: a variable, an abstraction or an application.
#[derive(Debug)]
pub enum Expr {
    Var(VarName),
    Fun(VarName, Box<Expr>),
    App(Box<Expr>, Box<Expr>),
}

/// The free variable called `name`.
pub open spec fn var_term(name: Seq<char>) -> Term {
    Term::Var(Ident { name, id: 0 })
}

/// The abstraction of `body` over the parameter `name`, not yet bound.
pub open spec fn fun_term(name: Seq<char>, body: Term) -> Term {
    Term::Fun(Ident { name, id: 0 }, Box::new(body))
}

/// The application of `f` to `x`.
pub open spec fn app_term(f: Term, x: Term) -> Term {
    Term::App(Box::new(f), Box::new(x))
}

/// The term with every identity set to `0`: what is left when terms are
/// compared by shape and names alone.
pub open spec fn erase(term: Term) -> Term
    decreases term,
{
    match term {
        Term::Var(v) => var_term(v.name),
        Term::Fun(v, body) => fun_term(v.name, erase(*body)),
        Term::App(lhs, rhs) => app_term(erase(*lhs), erase(*rhs)),
    }
}

impl View for VarName {
    type V = Ident;

    open spec fn view(&self) -> Ident {
        Ident { name: self.name@, id: self.id as nat }
    }
}

impl View for Expr {
    type V = Term;

    open spec fn view(&self) -> Term
        decreases self,
    {
        match self {
            Expr::Var(name) => Term::Var(name@),
            Expr::Fun(name, body) => Term::Fun(name@, Box::new((**body)@)),
            Expr::App(lhs, rhs) => Term::App(Box::new((**lhs)@), Box::new((**rhs)@)),
        }
    }
}

impl Clone for VarName {
    fn clone(&self) -> (r: Self)
        ensures
            r == *self,
    {
        VarName { name: self.name.clone(), id: self.id }
    }
}

impl PartialEq for VarName {
    fn eq(&self, other: &Self) -> (r: bool) {
        self.name == other.name && self.id == other.id
    }
}

impl PartialEqSpecImpl for VarName {
    open spec fn obeys_eq_spec() -> bool {
        true
    }

    open spec fn eq_spec(&self, other: &Self) -> bool {
        self@ == other@
    }
}

impl Expr {
    /// A deep copy of the expression.
    pub fn duplicate(&self) -> (r: Expr)
        ensures
            r == *self,
        decreases self,
    {
        match self {
            Expr::Var(name) => Expr::Var(name.clone()),
            Expr::Fun(name, body) => Expr::Fun(name.clone(), Box::new(body.duplicate())),
            Expr::App(lhs, rhs) => Expr::App(
                Box::new(lhs.duplicate()),
                Box::new(rhs.duplicate()),
            ),
        }
    }

    /// Structural equality: the same shape, and the same name and identity
    /// at every position.
    pub fn same(&self, other: &Expr) -> (r: bool)
        ensures
            r == (self@ == other@),
        decreases self,
    {
        match self {
            Expr::Var(a) => match other {
                Expr::Var(b) => a == b,
                _ => false,
            },
            Expr::Fun(a, x) => match other {
                Expr::Fun(b, y) => a == b && x.same(y),
                _ => false,
            },
            Expr::App(f, x) => match other {
                Expr::App(g, y) => f.same(g) && x.same(y),
                _ => false,
            },
        }
    }
}

impl Clone for Expr {
    fn clone(&self) -> (r: Self)
        ensures
            r == *self,
    {
        self.duplicate()
    }
}

impl PartialEq for Expr {
    fn eq(&self, other: &Self) -> (r: bool) {
        self.same(other)
    }
}

impl PartialEqSpecImpl for Expr {
    open spec fn obeys_eq_spec() -> bool {
        true
    }

    open spec fn eq_spec(&self, other: &Self) -> bool {
        self@ == other@
    }
}

impl VarName {
    /// A name that is not bound: its identity is `0`.
    pub fn new_free(name: String) -> (r: Self)
        ensures
            r@ == (Ident { name: name@, id: 0 }),
    {
        VarName { name, id: 0 }
    }

    /// A name carrying the identity `id`.
    pub fn new_bound(name: String, id: usize) -> (r: Self)
        ensures
            r@ == (Ident { name: name@, id: id as nat }),
    {
        VarName { name, id }
    }
}

/// Whether two expressions have the same shape and the same names,
/// whatever their identities.
pub fn structural_eq(expr1: &Expr, expr2: &Expr) -> (r: bool)
    ensures
        r == (erase(expr1@) == erase(expr2@)),
    decreases expr1,
{
    match expr1 {
        Expr::Var(v1) => match expr2 {
            Expr::Var(v2) => v1.name == v2.name,
            _ => false,
        },
        Expr::Fun(arg1, body1) => match expr2 {
            Expr::Fun(arg2, body2) => arg1.name == arg2.name && structural_eq(body1, body2),
            _ => false,
        },
        Expr::App(f1, x1) => match expr2 {
            Expr::App(f2, x2) => structural_eq(f1, f2) && structural_eq(x1, x2),
            _ => false,
        },
    }
}

/// The variable `name`, free.
pub fn var(name: String) -> (r: Box<Expr>)
    ensures
        r@ == var_term(name@),
{
    Box::new(Expr::Var(VarName::new_free(name)))
}

/// The abstraction of `body` over `name`.
pub fn fun(name: String, body: Box<Expr>) -> (r: Box<Expr>)
    ensures
        r@ == fun_term(name@, body@),
{
    Box::new(Expr::Fun(VarName::new_free(name), body))
}

/// The application of `f` to `x`.
pub fn app(f: Box<Expr>, x: Box<Expr>) -> (r: Box<Expr>)
    ensures
        r@ == app_term(f@, x@),
{
    Box::new(Expr::App(f, x))
}

/// The character that stands for the decimal digit `d`.
pub open spec fn digit(d: nat) -> char {
    if d == 0 {
        '0'
    } else if d == 1 {
        '1'
    } else if d == 2 {
        '2'
    } else if d == 3 {
        '3'
    } else if d == 4 {
        '4'
    } else if d == 5 {
        '5'
    } else if d == 6 {
        '6'
    } else if d == 7 {
        '7'
    } else if d == 8 {
        '8'
    } else {
        '9'
    }
}

/// The decimal numeral of `n`, without leading zeros.
pub open spec fn decimal(n: nat) -> Seq<char>
    decreases n,
{
    if n < 10 {
        seq![digit(n)]
    } else {
        decimal(n / 10).push(digit(n % 10))
    }
}

/// An identifier as text: its name, followed by its identity in decimal
/// where identities are shown.
pub open spec fn ident_text(ident: Ident, show_id: bool) -> Seq<char> {
    if show_id {
        ident.name + decimal(ident.id)
    } else {
        ident.name
    }
}

/// A term as text: a variable is its identifier, an abstraction is
/// `(\x.body)`, an application is `(f x)`.
pub open spec fn format_term(term: Term, show_id: bool) -> Seq<char>
    decreases term,
{
    match term {
        Term::Var(name) => ident_text(name, show_id),
        Term::Fun(name, body) => seq!['(', '\\'] + ident_text(name, show_id) + seq!['.']
            + format_term(*body, show_id) + seq![')'],
        Term::App(lhs, rhs) => seq!['('] + format_term(*lhs, show_id) + seq![' '] + format_term(
            *rhs,
            show_id,
        ) + seq![')'],
    }
}

/// The character of one decimal digit.
fn digit_char(d: usize) -> (c: char)
    requires
        d < 10,
    ensures
        c == digit(d as nat),
{
    if d == 0 {
        '0'
    } else if d == 1 {
        '1'
    } else if d == 2 {
        '2'
    } else if d == 3 {
        '3'
    } else if d == 4 {
        '4'
    } else if d == 5 {
        '5'
    } else if d == 6 {
        '6'
    } else if d == 7 {
        '7'
    } else if d == 8 {
        '8'
    } else {
        '9'
    }
}

/// Appends the decimal numeral of `n` to `out`.
pub fn write_decimal(n: usize, out: &mut String)
    ensures
        final(out)@ == old(out)@ + decimal(n as nat),
    decreases n,
{
    if n >= 10 {
        write_decimal(n / 10, out);
    }
    push_char(out, digit_char(n % 10));
}

impl VarName {
    /// Appends the identifier to `out`: the name, and the identity where
    /// `show_id` asks for it.
    pub fn write_to(&self, show_id: bool, out: &mut String)
        ensures
            final(out)@ == old(out)@ + ident_text(self@, show_id),
    {
        out.append(self.name.as_str());
        if show_id {
            write_decimal(self.id, out);
        }
    }
}

impl Expr {
    /// Appends the expression as text to `out`.
    pub fn write_to(&self, show_id: bool, out: &mut String)
        ensures
            final(out)@ == old(out)@ + format_term(self@, show_id),
        decreases self,
    {
        match self {
            Expr::Var(name) => {
                name.write_to(show_id, out);
            },
            Expr::Fun(name, body) => {
                push_char(out, '(');
                push_char(out, '\\');
                name.write_to(show_id, out);
                push_char(out, '.');
                body.write_to(show_id, out);
                push_char(out, ')');
            },
            Expr::App(lhs, rhs) => {
                push_char(out, '(');
                lhs.write_to(show_id, out);
                push_char(out, ' ');
                rhs.write_to(show_id, out);
                push_char(out, ')');
            },
        }
    }

    /// The expression as text. With `show_id` every identifier is followed
    /// by its identity.
    pub fn format(&self, show_id: bool) -> (r: String)
        ensures
            r@ == format_term(self@, show_id),
    {
        let mut out = String::new();
        self.write_to(show_id, &mut out);
        out
    }

    /// The expression as text, with every identity shown.
    pub fn to_string(&self) -> (r: String)
        ensures
            r@ == format_term(self@, true),
    {
        self.format(true)
    }
}

} // verus!
