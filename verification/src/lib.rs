//! A verified evaluator for a small Lisp-like expression language.
//!
//! The library interprets already-built expression trees ([`values::LispVal`])
//! against an environment of variable and function bindings
//! ([`env::EnvCtx`]), producing either a value or a typed evaluation error
//! ([`values::EvalError`]).
//!
//! The behaviour of the executable evaluator is pinned down by a
//! mathematical model: a specification-level interpreter over
//! [`values::SpecVal`] trees (module [`sem`]).  Every executable entry point
//! is proved to return exactly what the model returns, and module [`laws`]
//! derives the headline properties of the language from that model.

pub mod env;
pub mod interp;
pub mod laws;
pub mod render;
pub mod sem;
pub mod values;
