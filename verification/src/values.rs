//! The runtime value model, the error taxonomy, and their mathematical
//! images.
//!
//! Executable code works on [`LispVal`] and [`EvalError`]; contracts speak
//! about their deep views [`SpecVal`] and [`SpecErr`], in which every piece
//! of text is a `Seq<char>` and every list is a `Seq`.

use vstd::prelude::*;

use crate::env::EnvCtx;

verus! {

/// The fixed set of primitive callables known to the evaluator.
///
/// The primitive set is closed at initialization time, so a callable is
/// represented by a tag rather than by a function pointer.
#[derive(Clone, Copy, Debug, PartialEq, Eq, Structural)]
pub enum PrimFn {
    /// Variadic addition.
    Add,
    /// Variadic subtraction.
    Sub,
}

/// A runtime datum of the expression language.
///
/// Every value is immutable once constructed; evaluation only produces new
/// values.
#[derive(Debug, PartialEq)]
pub enum LispVal {
    /// An identifier or keyword token; never itself a value.
    Atom(String),
    /// The only evaluable compound form; its head selects the dispatch rule.
    List(Vec<LispVal>),
    /// A signed 32-bit arithmetic operand.
    Number(i32),
    /// A self-evaluating text literal.
    Str(String),
    /// The empty/unit marker.
    Nil,
    /// A self-evaluating boolean.
    Bool(bool),
    /// A reference to a primitive callable.
    Func(PrimFn),
    /// Reserved for user-defined closures; never produced by evaluation.
    Lambda(PrimFn, EnvCtx),
}

/// The closed set of evaluation failures.
#[derive(Debug, PartialEq)]
pub enum EvalError {
    /// The construct is recognized but intentionally unsupported.
    NotImplemented,
    /// A variable reference could not be resolved.
    UnboundVar(String),
    /// An arity mismatch: expected so many arguments, got so many.
    NumArgs(usize, usize),
    /// A value of the wrong variant was used: expected kind, actual kind.
    TypeMismatch(String, String),
    /// A call-position name did not resolve to a callable.
    NotFunction(String),
}

/// The mathematical image of a [`LispVal`].
pub enum SpecVal {
    Atom(Seq<char>),
    List(Seq<SpecVal>),
    Number(i32),
    Str(Seq<char>),
    Nil,
    Bool(bool),
    Func(PrimFn),
    Lambda(PrimFn, Seq<(Seq<char>, SpecVal)>, Seq<(Seq<char>, PrimFn)>),
}

/// The mathematical image of an [`EvalError`].
pub enum SpecErr {
    NotImplemented,
    UnboundVar(Seq<char>),
    NumArgs(usize, usize),
    TypeMismatch(Seq<char>, Seq<char>),
    NotFunction(Seq<char>),
}

/// Deep view of a value: lists become sequences, text becomes `Seq<char>`,
/// and a lambda's captured environment becomes its sequences of bindings.
pub open spec fn vdv(v: LispVal) -> SpecVal
    decreases v,
{
    match v {
        LispVal::Atom(s) => SpecVal::Atom(s@),
        LispVal::List(l) => SpecVal::List(ldv(l@)),
        LispVal::Number(n) => SpecVal::Number(n),
        LispVal::Str(s) => SpecVal::Str(s@),
        LispVal::Nil => SpecVal::Nil,
        LispVal::Bool(b) => SpecVal::Bool(b),
        LispVal::Func(p) => SpecVal::Func(p),
        LispVal::Lambda(p, e) => SpecVal::Lambda(p, var_pairs(e.vars@), func_pairs(e.funcs@)),
    }
}

/// Deep view of a sequence of values, element by element.
pub open spec fn ldv(s: Seq<LispVal>) -> Seq<SpecVal>
    decreases s,
{
    if s.len() == 0 {
        Seq::empty()
    } else {
        ldv(s.drop_last()).push(vdv(s.last()))
    }
}

/// Deep view of a sequence of variable bindings.
pub open spec fn var_pairs(s: Seq<(String, LispVal)>) -> Seq<(Seq<char>, SpecVal)>
    decreases s,
{
    if s.len() == 0 {
        Seq::empty()
    } else {
        var_pairs(s.drop_last()).push((s.last().0@, vdv(s.last().1)))
    }
}

/// [`ldv`] views a sequence element by element.
pub broadcast proof fn lemma_ldv_pointwise(s: Seq<LispVal>)
    ensures
        (#[trigger] ldv(s)).len() == s.len(),
        forall|i: int| 0 <= i < s.len() ==> ldv(s)[i] == vdv(s[i]),
    decreases s.len(),
{
    if s.len() > 0 {
        lemma_ldv_pointwise(s.drop_last());
        assert forall|i: int| 0 <= i < s.len() implies ldv(s)[i] == vdv(s[i]) by {
            if i < s.len() - 1 {
                assert(s.drop_last()[i] == s[i]);
            }
        }
    }
}

/// [`var_pairs`] views a binding sequence entry by entry.
pub broadcast proof fn lemma_var_pairs_pointwise(s: Seq<(String, LispVal)>)
    ensures
        (#[trigger] var_pairs(s)).len() == s.len(),
        forall|i: int| 0 <= i < s.len() ==> var_pairs(s)[i] == (s[i].0@, vdv(s[i].1)),
    decreases s.len(),
{
    if s.len() > 0 {
        lemma_var_pairs_pointwise(s.drop_last());
        assert forall|i: int| 0 <= i < s.len() implies var_pairs(s)[i] == (
            s[i].0@,
            vdv(s[i].1),
        ) by {
            if i < s.len() - 1 {
                assert(s.drop_last()[i] == s[i]);
            }
        }
    }
}

/// Deep view of a sequence of function bindings.
pub open spec fn func_pairs(s: Seq<(String, PrimFn)>) -> Seq<(Seq<char>, PrimFn)> {
    Seq::new(s.len(), |i: int| (s[i].0@, s[i].1))
}

impl LispVal {
    /// A deep copy: the copy has the same mathematical image as the
    /// original.
    #[verifier::loop_isolation(false)]
    pub fn dup(&self) -> (r: LispVal)
        ensures
            vdv(r) == vdv(*self),
        decreases *self,
    {
        match self {
            LispVal::Atom(s) => LispVal::Atom(s.clone()),
            LispVal::List(l) => {
                let mut out: Vec<LispVal> = Vec::new();
                let mut i: usize = 0;
                while i < l.len()
                    invariant
                        i <= l@.len(),
                        out@.len() == i as int,
                        forall|j: int| 0 <= j < i as int ==> vdv(out@[j]) == vdv(l@[j]),
                    decreases l@.len() - i,
                {
                    proof {
                        assert(decreases_to!(*self => *l));
                        assert(decreases_to!(*l => l@));
                        assert(decreases_to!(l@ => l@[i as int]));
                    }
                    out.push(l[i].dup());
                    i = i + 1;
                }
                proof {
                    lemma_ldv_pointwise(out@);
                    lemma_ldv_pointwise(l@);
                    assert(ldv(out@) =~= ldv(l@));
                }
                LispVal::List(out)
            },
            LispVal::Number(n) => LispVal::Number(*n),
            LispVal::Str(s) => LispVal::Str(s.clone()),
            LispVal::Nil => LispVal::Nil,
            LispVal::Bool(b) => LispVal::Bool(*b),
            LispVal::Func(p) => LispVal::Func(*p),
            LispVal::Lambda(p, e) => {
                proof {
                    assert(decreases_to!(*self => *e));
                }
                LispVal::Lambda(*p, dup_env(e))
            },
        }
    }
}

/// A deep copy of an environment: both binding sequences keep their
/// mathematical images entry by entry.
#[verifier::loop_isolation(false)]
pub fn dup_env(e: &EnvCtx) -> (r: EnvCtx)
    ensures
        var_pairs(r.vars@) == var_pairs(e.vars@),
        func_pairs(r.funcs@) == func_pairs(e.funcs@),
    decreases *e,
{
    let mut vars: Vec<(String, LispVal)> = Vec::new();
    let mut i: usize = 0;
    while i < e.vars.len()
        invariant
            i <= e.vars@.len(),
            vars@.len() == i as int,
            forall|j: int| #![all_triggers]
                0 <= j < i as int ==> vars@[j].0@ == e.vars@[j].0@ && vdv(vars@[j].1) == vdv(
                    e.vars@[j].1,
                ),
        decreases e.vars@.len() - i,
    {
        proof {
            assert(decreases_to!(*e => e.vars));
            assert(decreases_to!(e.vars => e.vars@));
            assert(decreases_to!(e.vars@ => e.vars@[i as int]));
            assert(decreases_to!(e.vars@[i as int] => e.vars@[i as int].1));
        }
        let entry = &e.vars[i];
        vars.push((entry.0.clone(), entry.1.dup()));
        i = i + 1;
    }
    let mut funcs: Vec<(String, PrimFn)> = Vec::new();
    let mut k: usize = 0;
    while k < e.funcs.len()
        invariant
            k <= e.funcs@.len(),
            funcs@.len() == k as int,
            forall|j: int| #![all_triggers]
                0 <= j < k as int ==> funcs@[j].0@ == e.funcs@[j].0@ && funcs@[j].1 == e.funcs@[j].1,
        decreases e.funcs@.len() - k,
    {
        let entry = &e.funcs[k];
        funcs.push((entry.0.clone(), entry.1));
        k = k + 1;
    }
    let r = EnvCtx { vars, funcs };
    proof {
        lemma_var_pairs_pointwise(r.vars@);
        lemma_var_pairs_pointwise(e.vars@);
        assert(var_pairs(r.vars@) =~= var_pairs(e.vars@));
        assert(func_pairs(r.funcs@) =~= func_pairs(e.funcs@));
    }
    r
}

/// Deep view of an error.
pub open spec fn edv(e: EvalError) -> SpecErr {
    match e {
        EvalError::NotImplemented => SpecErr::NotImplemented,
        EvalError::UnboundVar(s) => SpecErr::UnboundVar(s@),
        EvalError::NumArgs(want, got) => SpecErr::NumArgs(want, got),
        EvalError::TypeMismatch(want, got) => SpecErr::TypeMismatch(want@, got@),
        EvalError::NotFunction(s) => SpecErr::NotFunction(s@),
    }
}

/// Deep view of an evaluation outcome.
pub open spec fn rdv(r: Result<LispVal, EvalError>) -> Result<SpecVal, SpecErr> {
    match r {
        Ok(v) => Ok(vdv(v)),
        Err(e) => Err(edv(e)),
    }
}

} // verus!
