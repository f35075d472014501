//! Binding: every abstraction gets an identity of its own, and every
//! variable the identity of the abstraction that binds it.

use vstd::prelude::*;
use crate::expr::{erase, Expr, Ident, Term, VarName};

verus! {

/// `body` with the identity of `name` on every variable that has the name
/// of `name`, wherever it stands, also under binders.
pub open spec fn rebind(body: Term, name: Ident) -> Term
    decreases body,
{
    match body {
        Term::Var(v) => if v.name == name.name {
            Term::Var(Ident { name: v.name, id: name.id })
        } else {
            body
        },
        Term::Fun(v, inner) => Term::Fun(v, Box::new(rebind(*inner, name))),
        Term::App(lhs, rhs) => Term::App(Box::new(rebind(*lhs, name)), Box::new(rebind(*rhs, name))),
    }
}

/// The number of abstractions in a term.
pub open spec fn abstractions(term: Term) -> nat
    decreases term,
{
    match term {
        Term::Var(_) => 0,
        Term::Fun(_, body) => 1 + abstractions(*body),
        Term::App(lhs, rhs) => abstractions(*lhs) + abstractions(*rhs),
    }
}

/// The number of nodes of a term.
pub open spec fn size(term: Term) -> nat
    decreases term,
{
    match term {
        Term::Var(_) => 1,
        Term::Fun(_, body) => 1 + size(*body),
        Term::App(lhs, rhs) => 1 + size(*lhs) + size(*rhs),
    }
}

/// The term with its names resolved by lexical scope.
///
/// The abstractions are numbered from `next` on in the order in which
/// they open, from left to right. `scope` gives, for each name bound
/// around the term, the identity of the innermost abstraction that binds
/// it. A variable gets the identity that `scope` has for its name, and
/// keeps its own where no abstraction binds its name.
pub open spec fn resolve(term: Term, scope: Map<Seq<char>, nat>, next: nat) -> Term
    decreases term,
{
    match term {
        Term::Var(v) => if scope.contains_key(v.name) {
            Term::Var(Ident { name: v.name, id: scope[v.name] })
        } else {
            term
        },
        Term::Fun(v, body) => Term::Fun(
            Ident { name: v.name, id: next },
            Box::new(resolve(*body, scope.insert(v.name, next), next + 1)),
        ),
        Term::App(lhs, rhs) => Term::App(
            Box::new(resolve(*lhs, scope, next)),
            Box::new(resolve(*rhs, scope, next + abstractions(*lhs))),
        ),
    }
}

/// Setting identities on variables changes neither the size of a term nor
/// the number of its abstractions.
pub proof fn lemma_rebind_keeps_shape(body: Term, name: Ident)
    ensures
        size(rebind(body, name)) == size(body),
        abstractions(rebind(body, name)) == abstractions(body),
    decreases body,
{
    match body {
        Term::Var(_) => {},
        Term::Fun(_, inner) => {
            lemma_rebind_keeps_shape(*inner, name);
        },
        Term::App(lhs, rhs) => {
            lemma_rebind_keeps_shape(*lhs, name);
            lemma_rebind_keeps_shape(*rhs, name);
        },
    }
}

/// Setting an identity on the variables of one name and resolving then is
/// resolving with that name in scope, unless the scope has the name
/// already: then the identity set is overridden.
pub proof fn lemma_resolve_rebind(term: Term, name: Ident, scope: Map<Seq<char>, nat>, next: nat)
    ensures
        resolve(rebind(term, name), scope, next) == resolve(
            term,
            if scope.contains_key(name.name) {
                scope
            } else {
                scope.insert(name.name, name.id)
            },
            next,
        ),
    decreases term,
{
    let wider = if scope.contains_key(name.name) {
        scope
    } else {
        scope.insert(name.name, name.id)
    };
    match term {
        Term::Var(_) => {},
        Term::Fun(v, body) => {
            lemma_resolve_rebind(*body, name, scope.insert(v.name, next), next + 1);
            let inner = scope.insert(v.name, next);
            let inner_wider = if inner.contains_key(name.name) {
                inner
            } else {
                inner.insert(name.name, name.id)
            };
            assert(inner_wider =~= wider.insert(v.name, next));
        },
        Term::App(lhs, rhs) => {
            lemma_rebind_keeps_shape(*lhs, name);
            lemma_resolve_rebind(*lhs, name, scope, next);
            lemma_resolve_rebind(*rhs, name, scope, next + abstractions(*lhs));
        },
    }
}

/// The identities of the abstractions of a term, in the order in which
/// they open.
pub open spec fn binder_ids(term: Term) -> Seq<nat>
    decreases term,
{
    match term {
        Term::Var(_) => Seq::empty(),
        Term::Fun(v, body) => seq![v.id] + binder_ids(*body),
        Term::App(lhs, rhs) => binder_ids(*lhs) + binder_ids(*rhs),
    }
}

/// Whether every variable whose name is in scope carries the identity
/// that the scope gives to its name, where each abstraction brings its
/// parameter into scope for its body and so hides an outer one of that name.
pub open spec fn scoped(term: Term, scope: Map<Seq<char>, nat>) -> bool
    decreases term,
{
    match term {
        Term::Var(v) => scope.contains_key(v.name) ==> v.id == scope[v.name],
        Term::Fun(v, body) => scoped(*body, scope.insert(v.name, v.id)),
        Term::App(lhs, rhs) => scoped(*lhs, scope) && scoped(*rhs, scope),
    }
}

/// Whether every variable with identity `0` is free: no abstraction
/// around it, and no name of `bound`, has its name.
pub open spec fn zero_is_free(term: Term, bound: Set<Seq<char>>) -> bool
    decreases term,
{
    match term {
        Term::Var(v) => v.id == 0 ==> !bound.contains(v.name),
        Term::Fun(v, body) => zero_is_free(*body, bound.insert(v.name)),
        Term::App(lhs, rhs) => zero_is_free(*lhs, bound) && zero_is_free(*rhs, bound),
    }
}

/// Binding changes identities only: shape and names stay.
pub proof fn lemma_resolve_keeps_names(term: Term, scope: Map<Seq<char>, nat>, next: nat)
    ensures
        erase(resolve(term, scope, next)) == erase(term),
        abstractions(resolve(term, scope, next)) == abstractions(term),
    decreases term,
{
    match term {
        Term::Var(_) => {},
        Term::Fun(v, body) => {
            lemma_resolve_keeps_names(*body, scope.insert(v.name, next), next + 1);
        },
        Term::App(lhs, rhs) => {
            lemma_resolve_keeps_names(*lhs, scope, next);
            lemma_resolve_keeps_names(*rhs, scope, next + abstractions(*lhs));
        },
    }
}

/// After binding, the abstractions carry the identities `next`,
/// `next + 1`, and so on, in the order in which they open.
pub proof fn lemma_binder_ids_count_up(term: Term, scope: Map<Seq<char>, nat>, next: nat)
    ensures
        binder_ids(resolve(term, scope, next)).len() == abstractions(term),
        forall|k: int|
            0 <= k < abstractions(term) ==> #[trigger] binder_ids(resolve(term, scope, next))[k]
                == next + k,
    decreases term,
{
    match term {
        Term::Var(_) => {},
        Term::Fun(v, body) => {
            lemma_binder_ids_count_up(*body, scope.insert(v.name, next), next + 1);
            let inner = binder_ids(resolve(*body, scope.insert(v.name, next), next + 1));
        },
        Term::App(lhs, rhs) => {
            let n = abstractions(*lhs);
            lemma_binder_ids_count_up(*lhs, scope, next);
            lemma_binder_ids_count_up(*rhs, scope, next + n);
            let left = binder_ids(resolve(*lhs, scope, next));
        },
    }
}

/// After binding with a counter that is not `0`, every abstraction has a
/// positive identity, and no two abstractions have the same.
pub proof fn lemma_binder_ids_distinct_and_positive(
    term: Term,
    scope: Map<Seq<char>, nat>,
    next: nat,
)
    requires
        next >= 1,
    ensures
        forall|k: int|
            0 <= k < binder_ids(resolve(term, scope, next)).len() ==> #[trigger] binder_ids(
                resolve(term, scope, next),
            )[k] >= 1,
        forall|j: int, k: int|
            0 <= j < k < binder_ids(resolve(term, scope, next)).len() ==> binder_ids(
                resolve(term, scope, next),
            )[j] != binder_ids(resolve(term, scope, next))[k],
{
    lemma_binder_ids_count_up(term, scope, next);
}

/// After binding, every variable carries the identity of the innermost
/// abstraction around it that has its name, or the one that the scope
/// around the term gives to its name.
pub proof fn lemma_resolve_scoped(term: Term, scope: Map<Seq<char>, nat>, next: nat)
    ensures
        scoped(resolve(term, scope, next), scope),
    decreases term,
{
    match term {
        Term::Var(_) => {},
        Term::Fun(v, body) => {
            lemma_resolve_scoped(*body, scope.insert(v.name, next), next + 1);
        },
        Term::App(lhs, rhs) => {
            lemma_resolve_scoped(*lhs, scope, next);
            lemma_resolve_scoped(*rhs, scope, next + abstractions(*lhs));
        },
    }
}

/// After binding with positive identities only, a variable with
/// identity `0` is free.
pub proof fn lemma_zero_is_free(term: Term, scope: Map<Seq<char>, nat>, next: nat)
    requires
        next >= 1,
        forall|name: Seq<char>| scope.contains_key(name) ==> #[trigger] scope[name] >= 1,
    ensures
        zero_is_free(resolve(term, scope, next), scope.dom()),
    decreases term,
{
    match term {
        Term::Var(_) => {},
        Term::Fun(v, body) => {
            let inner = scope.insert(v.name, next);
            lemma_zero_is_free(*body, inner, next + 1);
        },
        Term::App(lhs, rhs) => {
            lemma_zero_is_free(*lhs, scope, next);
            lemma_zero_is_free(*rhs, scope, next + abstractions(*lhs));
        },
    }
}

/// Sets the identity of `name` on every variable of `body` that has the
/// name of `name`.
pub fn bind_var(body: Expr, name: &VarName) -> (r: Expr)
    ensures
        r@ == rebind(body@, name@),
    decreases body,
{
    match body {
        Expr::Var(body_name) => {
            if body_name.name == name.name {
                Expr::Var(VarName { name: body_name.name, id: name.id })
            } else {
                Expr::Var(body_name)
            }
        },
        Expr::Fun(body_name, fun_body) => Expr::Fun(body_name, Box::new(bind_var(*fun_body, name))),
        Expr::App(lhs, rhs) => Expr::App(
            Box::new(bind_var(*lhs, name)),
            Box::new(bind_var(*rhs, name)),
        ),
    }
}

/// What is left of `room` once every abstraction of `expr` has taken one
/// unit of it, or `None` if `room` does not suffice.
fn room_after(expr: &Expr, room: usize) -> (r: Option<usize>)
    ensures
        match r {
            Some(left) => abstractions(expr@) + left == room,
            None => abstractions(expr@) > room,
        },
    decreases expr,
{
    match expr {
        Expr::Var(_) => Some(room),
        Expr::Fun(_, body) => {
            if room == 0 {
                None
            } else {
                room_after(body, room - 1)
            }
        },
        Expr::App(lhs, rhs) => match room_after(lhs, room) {
            Some(left) => room_after(rhs, left),
            None => None,
        },
    }
}

/// The source of identities: a counter that only grows, so that no
/// identity is handed out twice, whatever is bound with it.
pub struct Binder {
    next_id: usize,
}

impl Binder {
    #[verifier::type_invariant]
    spec fn positive(&self) -> bool {
        self.next_id >= 1
    }

    /// The identity that the next abstraction gets.
    pub closed spec fn next(&self) -> nat {
        self.next_id as nat
    }

    /// A binder that has handed out no identity yet: the first is `1`.
    pub fn new() -> (r: Binder)
        ensures
            r.next() == 1,
    {
        Binder { next_id: 1 }
    }

    /// The identity that the next abstraction gets. It is never `0`.
    pub fn next_id(&self) -> (r: usize)
        ensures
            r == self.next(),
            r >= 1,
    {
        proof {
            use_type_invariant(self);
        }
        self.next_id
    }

    /// Whether the identities left suffice for the abstractions of `expr`.
    pub fn has_room(&self, expr: &Expr) -> (r: bool)
        ensures
            r == (self.next() + abstractions(expr@) <= usize::MAX),
    {
        room_after(expr, usize::MAX - self.next_id).is_some()
    }

    /// Gives every abstraction of `expr` a fresh identity, in the order in
    /// which they open, and every variable the identity of the innermost
    /// abstraction around it that has its name. A variable that none binds
    /// keeps its identity.
    pub fn bind_vars(&mut self, expr: Expr) -> (r: Expr)
        requires
            old(self).next() + abstractions(expr@) <= usize::MAX,
        ensures
            r@ == resolve(expr@, Map::empty(), old(self).next()),
            final(self).next() == old(self).next() + abstractions(expr@),
        decreases size(expr@),
    {
        proof {
            use_type_invariant(&*self);
        }
        match expr {
            Expr::Var(name) => Expr::Var(name),
            Expr::Fun(arg, body) => {
                let arg = VarName { name: arg.name, id: self.next_id };
                self.next_id += 1;
                let bound_body = bind_var(*body, &arg);
                proof {
                    lemma_rebind_keeps_shape(body@, arg@);
                    lemma_resolve_rebind(body@, arg@, Map::empty(), (arg.id + 1) as nat);
                }
                let transformed_body = self.bind_vars(bound_body);
                Expr::Fun(arg, Box::new(transformed_body))
            },
            Expr::App(lhs, rhs) => {
                let transformed_lhs = self.bind_vars(*lhs);
                let transformed_rhs = self.bind_vars(*rhs);
                Expr::App(Box::new(transformed_lhs), Box::new(transformed_rhs))
            },
        }
    }
}

/// Binds `expr` if the identities left suffice for its abstractions, and
/// else hands `expr` back as it is and leaves the counter alone.
pub fn try_bind_vars(binder: &mut Binder, expr: Expr) -> (r: Result<Expr, Expr>)
    ensures
        match r {
            Ok(bound) => {
                &&& old(binder).next() + abstractions(expr@) <= usize::MAX
                &&& bound@ == resolve(expr@, Map::empty(), old(binder).next())
                &&& final(binder).next() == old(binder).next() + abstractions(expr@)
            },
            Err(given) => {
                &&& old(binder).next() + abstractions(expr@) > usize::MAX
                &&& given == expr
                &&& final(binder).next() == old(binder).next()
            },
        },
{
    if binder.has_room(&expr) {
        Ok(binder.bind_vars(expr))
    } else {
        Err(expr)
    }
}

/// Binds `expr` with identities of its own, counted from `1`.
///
/// The count starts anew with every call: two terms bound by two calls
/// share identities, and must not be put together into one term. To bind
/// several terms so that no identity is used twice, bind them all with
/// one [`Binder`].
pub fn bind_vars(expr: Expr) -> (r: Expr)
    requires
        abstractions(expr@) < usize::MAX,
    ensures
        r@ == resolve(expr@, Map::empty(), 1),
{
    let mut binder = Binder::new();
    binder.bind_vars(expr)
}

} // verus!
