//! A lambda-calculus interpreter: terms, their concrete syntax, the
//! assignment of identities to bound variables, and stepwise beta-reduction.

pub mod args;
pub mod bind;
pub mod chars;
pub mod church;
pub mod church_laws;
pub mod eval;
pub mod examples;
pub mod expr;
pub mod lexer;
pub mod parser;
pub mod repl;
pub mod roundtrip;
pub mod token;

pub use eval::{
    bind_var, bind_vars, eval, eval_within, normalize, replace, trace_eval, try_bind_vars, Binder,
};
pub use expr::{app, fun, structural_eq, var, Expr, VarName};
pub use parser::parse;
