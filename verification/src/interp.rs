//! The executable evaluator.
//!
//! Every function here is proved to return exactly what the mathematical
//! interpreter in [`crate::sem`] returns, and to leave the environment in
//! exactly the state the model prescribes.

use vstd::pervasive::unreached;
use vstd::prelude::*;

use crate::env::EnvCtx;
use crate::sem::{
    is_atom, sem_add, sem_apply, sem_apply_prim, sem_eval, sem_eval_list, SemOut,
};
use crate::values::{
    ldv, lemma_ldv_pointwise, rdv, vdv, EvalError, LispVal, PrimFn, SpecVal,
};

verus! {

/// The executable outcome `r` and environments `pre`/`post` agree with the
/// model outcome `out`: same value or error, same variable namespace
/// afterwards, function namespace untouched.
pub open spec fn agrees(
    pre: EnvCtx,
    post: EnvCtx,
    r: Result<LispVal, EvalError>,
    out: SemOut,
) -> bool {
    &&& rdv(r) == out.0
    &&& post.vars_map() == out.1
    &&& post.funcs_map() == pre.funcs_map()
}

/// Does `v` hold an atom with exactly the text `kw`?
fn is_atom_named(v: &LispVal, kw: &str) -> (b: bool)
    ensures
        b == is_atom(vdv(*v), kw@),
{
    match v {
        LispVal::Atom(a) => *a == kw.to_owned(),
        _ => false,
    }
}

/// Is `v` an atom?
fn is_atom_value(v: &LispVal) -> (b: bool)
    ensures
        b == (vdv(*v) is Atom),
{
    match v {
        LispVal::Atom(_) => true,
        _ => false,
    }
}

/// Is `v` a list?
fn is_list_value(v: &LispVal) -> (b: bool)
    ensures
        b == (vdv(*v) is List),
{
    match v {
        LispVal::List(_) => true,
        _ => false,
    }
}

/// Is `v` a number?
fn is_number_value(v: &LispVal) -> (b: bool)
    ensures
        b == (vdv(*v) is Number),
{
    match v {
        LispVal::Number(_) => true,
        _ => false,
    }
}

/// The text of an atom.
fn atom_text(v: &LispVal) -> (s: String)
    requires
        vdv(*v) is Atom,
    ensures
        vdv(*v) == SpecVal::Atom(s@),
{
    match v {
        LispVal::Atom(a) => a.clone(),
        _ => unreached(),
    }
}

/// A deep copy of the elements of `list` from position `start` on.
#[verifier::loop_isolation(false)]
fn tail_from(list: &Vec<LispVal>, start: usize) -> (t: Vec<LispVal>)
    requires
        start <= list@.len(),
    ensures
        ldv(t@) == ldv(list@).skip(start as int),
{
    let mut t: Vec<LispVal> = Vec::new();
    let mut i: usize = start;
    while i < list.len()
        invariant
            start <= i <= list@.len(),
            t@.len() == i - start,
            forall|j: int| 0 <= j < t@.len() ==> vdv(t@[j]) == vdv(list@[start + j]),
        decreases list@.len() - i,
    {
        t.push(list[i].dup());
        i = i + 1;
    }
    proof {
        lemma_ldv_pointwise(t@);
        lemma_ldv_pointwise(list@);
        assert(ldv(t@) =~= ldv(list@).skip(start as int));
    }
    t
}

/// Evaluate an expression in `ctx`, as the model [`sem_eval`] prescribes:
/// numbers, text, booleans and nil are self-evaluating, a list is
/// dispatched by [`eval_list`], and a bare atom, callable or lambda is
/// unsupported.
pub fn eval(ctx: &mut EnvCtx, val: &LispVal) -> (r: Result<LispVal, EvalError>)
    ensures
        agrees(
            *old(ctx),
            *final(ctx),
            r,
            sem_eval(old(ctx).funcs_map(), old(ctx).vars_map(), vdv(*val)),
        ),
    decreases vdv(*val), 4int,
{
    match val {
        LispVal::List(l) => {
            proof {
                assert(decreases_to!(vdv(*val) => ldv(l@)));
            }
            eval_list(ctx, l)
        },
        LispVal::Atom(_) => Err(EvalError::NotImplemented),
        LispVal::Func(_) => Err(EvalError::NotImplemented),
        LispVal::Lambda(_, _) => Err(EvalError::NotImplemented),
        _ => Ok(val.dup()),
    }
}

/// Dispatch a list-shaped expression, as the model [`sem_eval_list`]
/// prescribes: the special forms `quota`, `define`, `if` and `lambda` in
/// their exact shapes, then application of a callable head.
pub fn eval_list(ctx: &mut EnvCtx, list: &Vec<LispVal>) -> (r: Result<LispVal, EvalError>)
    ensures
        agrees(
            *old(ctx),
            *final(ctx),
            r,
            sem_eval_list(old(ctx).funcs_map(), old(ctx).vars_map(), ldv(list@)),
        ),
    decreases ldv(list@), 4int,
{
    proof {
        lemma_ldv_pointwise(list@);
    }
    let n = list.len();
    if n == 2 && is_atom_named(&list[0], "quota") {
        Ok(list[1].dup())
    } else if n == 3 && is_atom_named(&list[0], "define") && is_atom_value(&list[1]) {
        let name = atom_text(&list[1]);
        proof {
            assert(decreases_to!(ldv(list@) => ldv(list@)[2]));
        }
        match eval(ctx, &list[2]) {
            Ok(val) => {
                let confirmation = list[1].dup();
                ctx.define_variable(name, val);
                Ok(confirmation)
            },
            Err(e) => Err(e),
        }
    } else if n == 4 && is_atom_named(&list[0], "if") {
        proof {
            assert(decreases_to!(ldv(list@) => ldv(list@)[1]));
            assert(decreases_to!(ldv(list@) => ldv(list@)[2]));
            assert(decreases_to!(ldv(list@) => ldv(list@)[3]));
        }
        match eval(ctx, &list[1]) {
            Ok(cond) => match cond {
                LispVal::Bool(true) => eval(ctx, &list[2]),
                LispVal::Bool(false) => eval(ctx, &list[3]),
                _ => Err(
                    EvalError::TypeMismatch("bool".to_owned(), "other".to_owned()),
                ),
            },
            Err(e) => Err(e),
        }
    } else if n == 3 && is_atom_named(&list[0], "lambda") && is_list_value(&list[1]) {
        Err(EvalError::NotImplemented)
    } else if n >= 1 {
        proof {
            assert(ldv(list@).skip(1) =~= ldv(list@).subrange(1, list@.len() as int));
            assert(decreases_to!(ldv(list@) => ldv(list@).subrange(1, list@.len() as int)));
        }
        match &list[0] {
            LispVal::Func(p) => {
                let prim = *p;
                let tail = tail_from(list, 1);
                apply_prim(ctx, prim, &tail)
            },
            LispVal::List(inner) => {
                proof {
                    assert(decreases_to!(ldv(list@) => ldv(list@)[0]));
                    assert(vdv(list@[0]) == SpecVal::List(ldv(inner@)));
                    let sv = vdv(list@[0]);
                    match sv {
                        SpecVal::List(items) => {
                            assert(decreases_to!(sv => items));
                            assert(items == ldv(inner@));
                        },
                        _ => {},
                    }
                    assert(decreases_to!(vdv(list@[0]) => ldv(inner@)));
                }
                match eval_list(ctx, inner) {
                    Ok(v2) => match v2 {
                        LispVal::Func(p) => {
                            let tail = tail_from(list, 1);
                            apply_prim(ctx, p, &tail)
                        },
                        _ => Err(
                            EvalError::TypeMismatch("function".to_owned(), "".to_owned()),
                        ),
                    },
                    Err(e) => Err(e),
                }
            },
            LispVal::Atom(a) => {
                let name = a.clone();
                let tail = tail_from(list, 1);
                ctx.apply(&name, &tail)
            },
            _ => Err(EvalError::NotImplemented),
        }
    } else {
        Err(EvalError::NotImplemented)
    }
}

impl EnvCtx {
    /// Resolve `name` in the function namespace and apply the primitive it
    /// names to `args`; an unresolved name is not a function.
    pub fn apply(&mut self, name: &str, args: &Vec<LispVal>) -> (r: Result<
        LispVal,
        EvalError,
    >)
        ensures
            agrees(
                *old(self),
                *final(self),
                r,
                sem_apply(old(self).funcs_map(), old(self).vars_map(), name@, ldv(args@)),
            ),
        decreases ldv(args@), 3int,
    {
        match self.lookup_function(name) {
            Some(p) => apply_prim(self, p, args),
            None => Err(EvalError::NotFunction(name.to_owned())),
        }
    }
}

/// Apply the primitive `p` to the unevaluated argument list `args`.
pub fn apply_prim(ctx: &mut EnvCtx, p: PrimFn, args: &Vec<LispVal>) -> (r: Result<
    LispVal,
    EvalError,
>)
    ensures
        agrees(
            *old(ctx),
            *final(ctx),
            r,
            sem_apply_prim(old(ctx).funcs_map(), old(ctx).vars_map(), p, ldv(args@)),
        ),
    decreases ldv(args@), 2int,
{
    match p {
        PrimFn::Add => crate::interp::add(ctx, args),
        PrimFn::Sub => crate::interp::sub(ctx, args),
    }
}

/// The variadic addition primitive, as the model [`sem_add`] prescribes:
/// `(+)` is zero, a lone number literal is returned as is, and otherwise
/// the first argument is evaluated and added (wrapping) to the reduction
/// of the rest.
pub fn add(ctx: &mut EnvCtx, args: &Vec<LispVal>) -> (r: Result<LispVal, EvalError>)
    ensures
        agrees(
            *old(ctx),
            *final(ctx),
            r,
            sem_add(old(ctx).funcs_map(), old(ctx).vars_map(), ldv(args@)),
        ),
    decreases ldv(args@), 1int,
{
    proof {
        lemma_ldv_pointwise(args@);
    }
    let n = args.len();
    if n == 0 {
        Ok(LispVal::Number(0))
    } else if n == 1 && is_number_value(&args[0]) {
        Ok(args[0].dup())
    } else {
        proof {
            assert(decreases_to!(ldv(args@) => ldv(args@)[0]));
            assert(ldv(args@).skip(1) =~= ldv(args@).subrange(1, args@.len() as int));
            assert(decreases_to!(ldv(args@) => ldv(args@).subrange(1, args@.len() as int)));
        }
        match eval(ctx, &args[0]) {
            Ok(x) => {
                let tail = tail_from(args, 1);
                match crate::interp::add(ctx, &tail) {
                    Ok(y) => match (x, y) {
                        (LispVal::Number(a), LispVal::Number(b)) => Ok(
                            LispVal::Number(a.wrapping_add(b)),
                        ),
                        _ => Err(
                            EvalError::TypeMismatch("number".to_owned(), "other".to_owned()),
                        ),
                    },
                    Err(e) => Err(e),
                }
            },
            Err(e) => Err(e),
        }
    }
}

/// The variadic subtraction primitive, as the model [`sem_sub`]
/// prescribes: `(-)` is zero, a lone number is negated, two numbers give
/// their difference, and with more elements the tail is reduced through
/// the *addition* rule, so `(- a b c)` computes `a - (b + c)`.
pub fn sub(ctx: &mut EnvCtx, args: &Vec<LispVal>) -> (r: Result<LispVal, EvalError>)
    ensures
        agrees(
            *old(ctx),
            *final(ctx),
            r,
            crate::sem::sem_sub(old(ctx).funcs_map(), old(ctx).vars_map(), ldv(args@)),
        ),
    decreases ldv(args@), 1int,
{
    proof {
        lemma_ldv_pointwise(args@);
    }
    let n = args.len();
    if n == 0 {
        Ok(LispVal::Number(0))
    } else if n == 1 && is_number_value(&args[0]) {
        match &args[0] {
            LispVal::Number(v) => Ok(LispVal::Number(0i32.wrapping_sub(*v))),
            _ => unreached(),
        }
    } else if n == 2 && is_number_value(&args[0]) && is_number_value(&args[1]) {
        match (&args[0], &args[1]) {
            (LispVal::Number(x), LispVal::Number(y)) => Ok(
                LispVal::Number(x.wrapping_sub(*y)),
            ),
            _ => unreached(),
        }
    } else {
        proof {
            assert(decreases_to!(ldv(args@) => ldv(args@)[0]));
            assert(ldv(args@).skip(1) =~= ldv(args@).subrange(1, args@.len() as int));
            assert(decreases_to!(ldv(args@) => ldv(args@).subrange(1, args@.len() as int)));
        }
        match eval(ctx, &args[0]) {
            Ok(x) => {
                let tail = tail_from(args, 1);
                match crate::interp::add(ctx, &tail) {
                    Ok(y) => match (x, y) {
                        (LispVal::Number(a), LispVal::Number(b)) => Ok(
                            LispVal::Number(a.wrapping_sub(b)),
                        ),
                        _ => Err(
                            EvalError::TypeMismatch("number".to_owned(), "other".to_owned()),
                        ),
                    },
                    Err(e) => Err(e),
                }
            },
            Err(e) => Err(e),
        }
    }
}

} // verus!
