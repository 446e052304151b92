//! The mathematical model of evaluation.
//!
//! `sem_eval` is a specification-level interpreter over [`SpecVal`] trees:
//! given the function namespace, the variable namespace and an expression,
//! it yields the outcome and the variable namespace left behind.  The
//! executable evaluator in [`crate::interp`] is proved to agree with it
//! exactly.
//!
//! Arithmetic is two's-complement: a sum or difference that leaves the
//! 32-bit range wraps around, which is the one machine limit of the
//! language.

use vstd::prelude::*;
use vstd::wrapping::i32_specs;

use crate::values::{PrimFn, SpecErr, SpecVal};

verus! {

/// The outcome of evaluating one expression: a value or an error, plus the
/// variable namespace after the evaluation.
pub type SemOut = (Result<SpecVal, SpecErr>, Map<Seq<char>, SpecVal>);

/// Does `v` name exactly the keyword `name`?
pub open spec fn is_atom(v: SpecVal, name: Seq<char>) -> bool {
    v matches SpecVal::Atom(a) && a == name
}

/// Evaluate one expression.
///
/// Numbers, text, booleans and nil are self-evaluating; a list is
/// dispatched by [`sem_eval_list`]; a bare atom, callable or lambda has no
/// value under this evaluator.
pub open spec fn sem_eval(
    f: Map<Seq<char>, PrimFn>,
    m: Map<Seq<char>, SpecVal>,
    v: SpecVal,
) -> SemOut
    decreases v, 4int,
{
    match v {
        SpecVal::List(items) => sem_eval_list(f, m, items),
        SpecVal::Atom(_) => (Err(SpecErr::NotImplemented), m),
        SpecVal::Func(_) => (Err(SpecErr::NotImplemented), m),
        SpecVal::Lambda(_, _, _) => (Err(SpecErr::NotImplemented), m),
        _ => (Ok(v), m),
    }
}

/// Dispatch a list-shaped expression.
///
/// The special forms `quota`, `define`, `if` and `lambda` are recognized
/// only in their exact shapes; every other non-empty list is a function
/// application whose head must be, or reduce to, a callable.  A list whose
/// shape fits no rule is unsupported.
pub open spec fn sem_eval_list(
    f: Map<Seq<char>, PrimFn>,
    m: Map<Seq<char>, SpecVal>,
    s: Seq<SpecVal>,
) -> SemOut
    decreases s, 4int,
    via sem_eval_list_dec
{
    if s.len() == 2 && is_atom(s[0], "quota"@) {
        (Ok(s[1]), m)
    } else if s.len() == 3 && is_atom(s[0], "define"@) && s[1] is Atom {
        let (r1, m1) = sem_eval(f, m, s[2]);
        match (r1, s[1]) {
            (Ok(val), SpecVal::Atom(name)) => (Ok(s[1]), m1.insert(name, val)),
            (Err(e), _) => (Err(e), m1),
            _ => (Err(SpecErr::NotImplemented), m1),
        }
    } else if s.len() == 4 && is_atom(s[0], "if"@) {
        let (r1, m1) = sem_eval(f, m, s[1]);
        match r1 {
            Ok(SpecVal::Bool(true)) => sem_eval(f, m1, s[2]),
            Ok(SpecVal::Bool(false)) => sem_eval(f, m1, s[3]),
            Ok(_) => (Err(SpecErr::TypeMismatch("bool"@, "other"@)), m1),
            Err(e) => (Err(e), m1),
        }
    } else if s.len() == 3 && is_atom(s[0], "lambda"@) && s[1] is List {
        (Err(SpecErr::NotImplemented), m)
    } else if s.len() == 0 {
        (Err(SpecErr::NotImplemented), m)
    } else {
        match s[0] {
            SpecVal::Func(p) => sem_apply_prim(f, m, p, s.skip(1)),
            SpecVal::List(inner) => {
                let (r1, m1) = sem_eval_list(f, m, inner);
                match r1 {
                    Ok(SpecVal::Func(p)) => sem_apply_prim(f, m1, p, s.skip(1)),
                    Ok(_) => (Err(SpecErr::TypeMismatch("function"@, ""@)), m1),
                    Err(e) => (Err(e), m1),
                }
            },
            SpecVal::Atom(name) => sem_apply(f, m, name, s.skip(1)),
            _ => (Err(SpecErr::NotImplemented), m),
        }
    }
}

#[via_fn]
proof fn sem_eval_list_dec(
    f: Map<Seq<char>, PrimFn>,
    m: Map<Seq<char>, SpecVal>,
    s: Seq<SpecVal>,
) {
    if s.len() >= 1 {
        assert(decreases_to!(s => s[0]));
        assert(s.skip(1) =~= s.subrange(1, s.len() as int));
        assert(decreases_to!(s => s.subrange(1, s.len() as int)));
        match s[0] {
            SpecVal::List(inner) => {
                assert(decreases_to!(s[0] => inner));
            },
            _ => {},
        }
    }
    if s.len() >= 2 {
        assert(decreases_to!(s => s[1]));
    }
    if s.len() >= 3 {
        assert(decreases_to!(s => s[2]));
    }
    if s.len() >= 4 {
        assert(decreases_to!(s => s[3]));
    }
}

/// Resolve a call-position name in the function namespace and apply it.
pub open spec fn sem_apply(
    f: Map<Seq<char>, PrimFn>,
    m: Map<Seq<char>, SpecVal>,
    name: Seq<char>,
    args: Seq<SpecVal>,
) -> SemOut
    decreases args, 3int,
{
    if f.contains_key(name) {
        sem_apply_prim(f, m, f[name], args)
    } else {
        (Err(SpecErr::NotFunction(name)), m)
    }
}

/// Apply a primitive callable to an unevaluated argument list.
pub open spec fn sem_apply_prim(
    f: Map<Seq<char>, PrimFn>,
    m: Map<Seq<char>, SpecVal>,
    p: PrimFn,
    args: Seq<SpecVal>,
) -> SemOut
    decreases args, 2int,
{
    match p {
        PrimFn::Add => sem_add(f, m, args),
        PrimFn::Sub => sem_sub(f, m, args),
    }
}

/// The variadic addition rule.
///
/// No arguments reduce to zero; a lone number literal is returned as is;
/// otherwise the first argument is evaluated and added (wrapping) to the
/// reduction of the rest, and both sides must be numbers.
pub open spec fn sem_add(
    f: Map<Seq<char>, PrimFn>,
    m: Map<Seq<char>, SpecVal>,
    args: Seq<SpecVal>,
) -> SemOut
    decreases args, 1int,
    via sem_add_dec
{
    if args.len() == 0 {
        (Ok(SpecVal::Number(0)), m)
    } else if args.len() == 1 && args[0] is Number {
        (Ok(args[0]), m)
    } else {
        let (r1, m1) = sem_eval(f, m, args[0]);
        match r1 {
            Ok(x) => {
                let (r2, m2) = sem_add(f, m1, args.skip(1));
                match (r2, x) {
                    (Ok(SpecVal::Number(y)), SpecVal::Number(xn)) => (
                        Ok(SpecVal::Number(i32_specs::wrapping_add(xn, y))),
                        m2,
                    ),
                    (Ok(_), _) => (Err(SpecErr::TypeMismatch("number"@, "other"@)), m2),
                    (Err(e), _) => (Err(e), m2),
                }
            },
            Err(e) => (Err(e), m1),
        }
    }
}

#[via_fn]
proof fn sem_add_dec(
    f: Map<Seq<char>, PrimFn>,
    m: Map<Seq<char>, SpecVal>,
    args: Seq<SpecVal>,
) {
    if args.len() >= 1 {
        assert(decreases_to!(args => args[0]));
        assert(args.skip(1) =~= args.subrange(1, args.len() as int));
        assert(decreases_to!(args => args.subrange(1, args.len() as int)));
    }
}

/// The variadic subtraction rule.
///
/// No arguments reduce to zero; a lone number is negated; two numbers give
/// their difference; with more elements the first argument is evaluated
/// and the rest are reduced through the *addition* rule, so
/// `(- a b c)` computes `a - (b + c)`.  All arithmetic wraps.
pub open spec fn sem_sub(
    f: Map<Seq<char>, PrimFn>,
    m: Map<Seq<char>, SpecVal>,
    args: Seq<SpecVal>,
) -> SemOut
    decreases args, 1int,
    via sem_sub_dec
{
    if args.len() == 0 {
        (Ok(SpecVal::Number(0)), m)
    } else if args.len() == 1 && args[0] is Number {
        match args[0] {
            SpecVal::Number(n) => (Ok(SpecVal::Number(i32_specs::wrapping_sub(0, n))), m),
            _ => (Err(SpecErr::NotImplemented), m),
        }
    } else if args.len() == 2 && args[0] is Number && args[1] is Number {
        match (args[0], args[1]) {
            (SpecVal::Number(x), SpecVal::Number(y)) => (
                Ok(SpecVal::Number(i32_specs::wrapping_sub(x, y))),
                m,
            ),
            _ => (Err(SpecErr::NotImplemented), m),
        }
    } else {
        let (r1, m1) = sem_eval(f, m, args[0]);
        match r1 {
            Ok(x) => {
                let (r2, m2) = sem_add(f, m1, args.skip(1));
                match (r2, x) {
                    (Ok(SpecVal::Number(y)), SpecVal::Number(xn)) => (
                        Ok(SpecVal::Number(i32_specs::wrapping_sub(xn, y))),
                        m2,
                    ),
                    (Ok(_), _) => (Err(SpecErr::TypeMismatch("number"@, "other"@)), m2),
                    (Err(e), _) => (Err(e), m2),
                }
            },
            Err(e) => (Err(e), m1),
        }
    }
}

#[via_fn]
proof fn sem_sub_dec(
    f: Map<Seq<char>, PrimFn>,
    m: Map<Seq<char>, SpecVal>,
    args: Seq<SpecVal>,
) {
    if args.len() >= 1 {
        assert(decreases_to!(args => args[0]));
        assert(args.skip(1) =~= args.subrange(1, args.len() as int));
        assert(decreases_to!(args => args.subrange(1, args.len() as int)));
    }
}

} // verus!
