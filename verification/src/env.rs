//! The evaluation environment: two independent namespaces over identifier
//! names.
//!
//! Variable bindings are changed by the `define` special form; function
//! bindings are populated when the environment is created and name the
//! primitive callables.  A name may live in both namespaces at once.
//!
//! Both namespaces are kept as binding sequences; a later binding for a
//! name shadows an earlier one, so the abstract content of a namespace is
//! the map [`amap`] built from its deep-viewed binding pairs.

use vstd::prelude::*;

use crate::values::{func_pairs, var_pairs, vdv, LispVal, PrimFn, SpecVal};

verus! {

/// The abstract content of a binding sequence: later bindings win.
pub open spec fn amap<V>(s: Seq<(Seq<char>, V)>) -> Map<Seq<char>, V>
    decreases s.len(),
{
    if s.len() == 0 {
        Map::empty()
    } else {
        amap(s.drop_last()).insert(s.last().0, s.last().1)
    }
}

/// The environment a whole evaluation session runs in.
#[derive(Debug, PartialEq)]
pub struct EnvCtx {
    /// Variable bindings: name to value.
    pub vars: Vec<(String, LispVal)>,
    /// Function bindings: name to primitive callable.
    pub funcs: Vec<(String, PrimFn)>,
}

/// The function namespace that [`EnvCtx::with_primitives`] sets up:
/// `+` and `-`.
pub open spec fn std_funcs() -> Map<Seq<char>, PrimFn> {
    Map::empty().insert("+"@, PrimFn::Add).insert("-"@, PrimFn::Sub)
}

impl EnvCtx {
    /// The variable namespace as a map from name to abstract value.
    pub open spec fn vars_map(self) -> Map<Seq<char>, SpecVal> {
        amap(var_pairs(self.vars@))
    }

    /// The function namespace as a map from name to primitive.
    pub open spec fn funcs_map(self) -> Map<Seq<char>, PrimFn> {
        amap(func_pairs(self.funcs@))
    }

    /// An environment with empty namespaces.
    pub fn new() -> (r: EnvCtx)
        ensures
            r.vars_map() == Map::<Seq<char>, SpecVal>::empty(),
            r.funcs_map() == Map::<Seq<char>, PrimFn>::empty(),
    {
        let r = EnvCtx { vars: Vec::new(), funcs: Vec::new() };
        proof {
            assert(var_pairs(r.vars@) =~= Seq::<(Seq<char>, SpecVal)>::empty());
            assert(func_pairs(r.funcs@) =~= Seq::<(Seq<char>, PrimFn)>::empty());
        }
        r
    }

    /// An environment whose function namespace holds the primitive set:
    /// `+` for addition and `-` for subtraction.
    pub fn with_primitives() -> (r: EnvCtx)
        ensures
            r.vars_map() == Map::<Seq<char>, SpecVal>::empty(),
            r.funcs_map() == std_funcs(),
    {
        let mut r = EnvCtx::new();
        r.define_function("+".to_owned(), PrimFn::Add);
        r.define_function("-".to_owned(), PrimFn::Sub);
        r
    }

    /// Bind `name` to `value` in the variable namespace, inserting or
    /// overwriting; the function namespace is untouched.
    pub fn define_variable(&mut self, name: String, value: LispVal)
        ensures
            final(self).vars_map() == old(self).vars_map().insert(name@, vdv(value)),
            final(self).funcs_map() == old(self).funcs_map(),
    {
        let ghost key: Seq<char> = name@;
        let ghost val: SpecVal = vdv(value);
        self.vars.push((name, value));
        proof {
            assert(self.vars@.drop_last() =~= old(self).vars@);
            let pairs = var_pairs(self.vars@);
            assert(pairs == var_pairs(old(self).vars@).push((key, val)));
            assert(pairs.drop_last() =~= var_pairs(old(self).vars@));
            assert(pairs.last() == (key, val));
            assert(func_pairs(self.funcs@) =~= func_pairs(old(self).funcs@));
        }
    }

    /// Bind `name` to primitive `f` in the function namespace, inserting or
    /// overwriting; the variable namespace is untouched.
    pub fn define_function(&mut self, name: String, f: PrimFn)
        ensures
            final(self).funcs_map() == old(self).funcs_map().insert(name@, f),
            final(self).vars_map() == old(self).vars_map(),
    {
        let ghost key: Seq<char> = name@;
        self.funcs.push((name, f));
        proof {
            assert(self.funcs@.drop_last() =~= old(self).funcs@);
            let pairs = func_pairs(self.funcs@);
            assert(pairs =~= func_pairs(old(self).funcs@).push((key, f)));
            assert(pairs.drop_last() =~= func_pairs(old(self).funcs@));
            assert(pairs.last() == (key, f));
        }
    }

    /// Look `name` up in the variable namespace.
    pub fn lookup_variable(&self, name: &str) -> (r: Option<LispVal>)
        ensures
            match r {
                Some(v) => self.vars_map().contains_key(name@) && vdv(v) == self.vars_map()[name@],
                None => !self.vars_map().contains_key(name@),
            },
    {
        proof {
            assert(self.vars@.take(self.vars@.len() as int) =~= self.vars@);
        }
        lookup_var_prefix(&self.vars, self.vars.len(), name)
    }

    /// Look `name` up in the function namespace.
    pub fn lookup_function(&self, name: &str) -> (r: Option<PrimFn>)
        ensures
            match r {
                Some(f) => self.funcs_map().contains_key(name@) && f == self.funcs_map()[name@],
                None => !self.funcs_map().contains_key(name@),
            },
    {
        proof {
            assert(self.funcs@.take(self.funcs@.len() as int) =~= self.funcs@);
        }
        lookup_func_prefix(&self.funcs, self.funcs.len(), name)
    }
}

/// Scan the first `n` variable bindings, newest first.
fn lookup_var_prefix(vars: &Vec<(String, LispVal)>, n: usize, name: &str) -> (r: Option<
    LispVal,
>)
    requires
        n <= vars@.len(),
    ensures
        ({
            let m = amap(var_pairs(vars@.take(n as int)));
            match r {
                Some(v) => m.contains_key(name@) && vdv(v) == m[name@],
                None => !m.contains_key(name@),
            }
        }),
    decreases n,
{
    if n == 0 {
        proof {
            assert(var_pairs(vars@.take(0)) =~= Seq::<(Seq<char>, SpecVal)>::empty());
        }
        None
    } else {
        proof {
            assert(vars@.take(n as int).drop_last() =~= vars@.take(n as int - 1));
            let pairs = var_pairs(vars@.take(n as int));
            assert(pairs.drop_last() =~= var_pairs(vars@.take(n as int - 1)));
            assert(pairs.last() == (vars@[n as int - 1].0@, vdv(vars@[n as int - 1].1)));
        }
        let entry = &vars[n - 1];
        if entry.0 == name.to_owned() {
            Some(entry.1.dup())
        } else {
            lookup_var_prefix(vars, n - 1, name)
        }
    }
}

/// Scan the first `n` function bindings, newest first.
fn lookup_func_prefix(funcs: &Vec<(String, PrimFn)>, n: usize, name: &str) -> (r: Option<
    PrimFn,
>)
    requires
        n <= funcs@.len(),
    ensures
        ({
            let m = amap(func_pairs(funcs@.take(n as int)));
            match r {
                Some(f) => m.contains_key(name@) && f == m[name@],
                None => !m.contains_key(name@),
            }
        }),
    decreases n,
{
    if n == 0 {
        proof {
            assert(func_pairs(funcs@.take(0)) =~= Seq::<(Seq<char>, PrimFn)>::empty());
        }
        None
    } else {
        proof {
            assert(funcs@.take(n as int).drop_last() =~= funcs@.take(n as int - 1));
            let pairs = func_pairs(funcs@.take(n as int));
            assert(pairs.drop_last() =~= func_pairs(funcs@.take(n as int - 1)));
            assert(pairs.last() == (funcs@[n as int - 1].0@, funcs@[n as int - 1].1));
        }
        let entry = &funcs[n - 1];
        if entry.0 == name.to_owned() {
            Some(entry.1)
        } else {
            lookup_func_prefix(funcs, n - 1, name)
        }
    }
}

} // verus!
