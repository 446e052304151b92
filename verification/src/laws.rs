//! The headline laws of the language, proved once and for all against the
//! mathematical interpreter in [`crate::sem`].
//!
//! Since every executable entry point of [`crate::interp`] is proved to
//! agree with that interpreter, each law carries over to the executable
//! evaluator as well.

use vstd::prelude::*;
use vstd::wrapping::i32_specs;

use crate::env::std_funcs;
use crate::sem::sem_eval;
use crate::values::{PrimFn, SpecErr, SpecVal};

verus! {

/// Is `v` a self-evaluating value (number, text, boolean or nil)?
pub open spec fn is_self_eval(v: SpecVal) -> bool {
    ||| v is Number
    ||| v is Str
    ||| v is Bool
    ||| v is Nil
}

/// The views of the keyword and primitive-name literals, revealed.
proof fn reveal_keywords()
    ensures
        "quota"@.len() == 5,
        "define"@.len() == 6,
        "if"@.len() == 2,
        "lambda"@.len() == 6,
        "+"@.len() == 1,
        "-"@.len() == 1,
        "+"@[0] == '+',
        "-"@[0] == '-',
        "define"@[0] == 'd',
        "lambda"@[0] == 'l',
{
    reveal_strlit("quota");
    reveal_strlit("define");
    reveal_strlit("if");
    reveal_strlit("lambda");
    reveal_strlit("+");
    reveal_strlit("-");
}

/// Addition reduces as the sum: `(+)` is zero, `(+ a)` is `a`, and
/// `(+ a b c)` is `a + b + c` with two's-complement wrap-around; whenever
/// the true sum fits in 32 bits, the result is exactly the sum.  The
/// variable namespace is untouched.
pub proof fn lemma_add_reduction(m: Map<Seq<char>, SpecVal>, a: i32, b: i32, c: i32)
    ensures
        sem_eval(std_funcs(), m, SpecVal::List(seq![SpecVal::Atom("+"@)])) == (
            Ok::<SpecVal, SpecErr>(SpecVal::Number(0)),
            m,
        ),
        sem_eval(
            std_funcs(),
            m,
            SpecVal::List(seq![SpecVal::Atom("+"@), SpecVal::Number(a)]),
        ) == (Ok::<SpecVal, SpecErr>(SpecVal::Number(a)), m),
        sem_eval(
            std_funcs(),
            m,
            SpecVal::List(
                seq![
                    SpecVal::Atom("+"@),
                    SpecVal::Number(a),
                    SpecVal::Number(b),
                    SpecVal::Number(c),
                ],
            ),
        ) == (
            Ok::<SpecVal, SpecErr>(
                SpecVal::Number(i32_specs::wrapping_add(a, i32_specs::wrapping_add(b, c))),
            ),
            m,
        ),
        i32::MIN <= a + b + c <= i32::MAX ==> i32_specs::wrapping_add(
            a,
            i32_specs::wrapping_add(b, c),
        ) == a + b + c,
{
    reveal_keywords();
    reveal_with_fuel(crate::sem::sem_eval, 4);
    reveal_with_fuel(crate::sem::sem_eval_list, 4);
    reveal_with_fuel(crate::sem::sem_apply, 4);
    reveal_with_fuel(crate::sem::sem_apply_prim, 4);
    reveal_with_fuel(crate::sem::sem_add, 6);
    let f = std_funcs();
    assert(f.contains_key("+"@) && f["+"@] == PrimFn::Add);

    let s0: Seq<SpecVal> = seq![SpecVal::Atom("+"@)];
    assert(s0.skip(1) =~= Seq::<SpecVal>::empty());

    let s1: Seq<SpecVal> = seq![SpecVal::Atom("+"@), SpecVal::Number(a)];
    assert(s1.skip(1) =~= seq![SpecVal::Number(a)]);

    let s3: Seq<SpecVal> = seq![
        SpecVal::Atom("+"@),
        SpecVal::Number(a),
        SpecVal::Number(b),
        SpecVal::Number(c),
    ];
    let abc: Seq<SpecVal> = seq![SpecVal::Number(a), SpecVal::Number(b), SpecVal::Number(c)];
    let bc: Seq<SpecVal> = seq![SpecVal::Number(b), SpecVal::Number(c)];
    let conly: Seq<SpecVal> = seq![SpecVal::Number(c)];
    assert(s3.skip(1) =~= abc);
    assert(abc.skip(1) =~= bc);
    assert(bc.skip(1) =~= conly);
    assert(crate::sem::sem_add(f, m, conly) == (
        Ok::<SpecVal, SpecErr>(SpecVal::Number(c)),
        m,
    ));
    assert(sem_eval(f, m, SpecVal::Number(b)) == (Ok::<SpecVal, SpecErr>(SpecVal::Number(b)), m));
    assert(crate::sem::sem_add(f, m, bc) == (
        Ok::<SpecVal, SpecErr>(SpecVal::Number(i32_specs::wrapping_add(b, c))),
        m,
    ));
    assert(sem_eval(f, m, SpecVal::Number(a)) == (Ok::<SpecVal, SpecErr>(SpecVal::Number(a)), m));
    assert(crate::sem::sem_add(f, m, abc) == (
        Ok::<SpecVal, SpecErr>(
            SpecVal::Number(i32_specs::wrapping_add(a, i32_specs::wrapping_add(b, c))),
        ),
        m,
    ));
}

/// Subtraction reduces asymmetrically: `(- a)` negates, `(- a b)` is the
/// difference, and `(- a b c)` folds the tail through *addition*, so it
/// computes `a - (b + c)` (with wrap-around), not `a - b - c`.  The
/// variable namespace is untouched.
pub proof fn lemma_sub_reduction(m: Map<Seq<char>, SpecVal>, a: i32, b: i32, c: i32)
    ensures
        sem_eval(
            std_funcs(),
            m,
            SpecVal::List(seq![SpecVal::Atom("-"@), SpecVal::Number(a)]),
        ) == (Ok::<SpecVal, SpecErr>(SpecVal::Number(i32_specs::wrapping_sub(0, a))), m),
        sem_eval(
            std_funcs(),
            m,
            SpecVal::List(seq![SpecVal::Atom("-"@), SpecVal::Number(a), SpecVal::Number(b)]),
        ) == (Ok::<SpecVal, SpecErr>(SpecVal::Number(i32_specs::wrapping_sub(a, b))), m),
        sem_eval(
            std_funcs(),
            m,
            SpecVal::List(
                seq![
                    SpecVal::Atom("-"@),
                    SpecVal::Number(a),
                    SpecVal::Number(b),
                    SpecVal::Number(c),
                ],
            ),
        ) == (
            Ok::<SpecVal, SpecErr>(
                SpecVal::Number(i32_specs::wrapping_sub(a, i32_specs::wrapping_add(b, c))),
            ),
            m,
        ),
        i32::MIN <= a - (b + c) <= i32::MAX ==> i32_specs::wrapping_sub(
            a,
            i32_specs::wrapping_add(b, c),
        ) == a - (b + c),
        a != i32::MIN ==> i32_specs::wrapping_sub(0, a) == -a,
{
    reveal_keywords();
    reveal_with_fuel(crate::sem::sem_eval, 4);
    reveal_with_fuel(crate::sem::sem_eval_list, 4);
    reveal_with_fuel(crate::sem::sem_apply, 4);
    reveal_with_fuel(crate::sem::sem_apply_prim, 4);
    reveal_with_fuel(crate::sem::sem_add, 6);
    reveal_with_fuel(crate::sem::sem_sub, 4);
    let f = std_funcs();
    assert(f.contains_key("-"@) && f["-"@] == PrimFn::Sub);

    let s1: Seq<SpecVal> = seq![SpecVal::Atom("-"@), SpecVal::Number(a)];
    assert(s1.skip(1) =~= seq![SpecVal::Number(a)]);

    let s2: Seq<SpecVal> = seq![SpecVal::Atom("-"@), SpecVal::Number(a), SpecVal::Number(b)];
    assert(s2.skip(1) =~= seq![SpecVal::Number(a), SpecVal::Number(b)]);

    let s3: Seq<SpecVal> = seq![
        SpecVal::Atom("-"@),
        SpecVal::Number(a),
        SpecVal::Number(b),
        SpecVal::Number(c),
    ];
    let abc: Seq<SpecVal> = seq![SpecVal::Number(a), SpecVal::Number(b), SpecVal::Number(c)];
    let bc: Seq<SpecVal> = seq![SpecVal::Number(b), SpecVal::Number(c)];
    let conly: Seq<SpecVal> = seq![SpecVal::Number(c)];
    assert(s3.skip(1) =~= abc);
    assert(abc.skip(1) =~= bc);
    assert(bc.skip(1) =~= conly);
    assert(crate::sem::sem_add(f, m, conly) == (
        Ok::<SpecVal, SpecErr>(SpecVal::Number(c)),
        m,
    ));
    assert(sem_eval(f, m, SpecVal::Number(b)) == (Ok::<SpecVal, SpecErr>(SpecVal::Number(b)), m));
    assert(crate::sem::sem_add(f, m, bc) == (
        Ok::<SpecVal, SpecErr>(SpecVal::Number(i32_specs::wrapping_add(b, c))),
        m,
    ));
    assert(sem_eval(f, m, SpecVal::Number(a)) == (Ok::<SpecVal, SpecErr>(SpecVal::Number(a)), m));
    assert(crate::sem::sem_sub(f, m, abc) == (
        Ok::<SpecVal, SpecErr>(
            SpecVal::Number(i32_specs::wrapping_sub(a, i32_specs::wrapping_add(b, c))),
        ),
        m,
    ));
}

/// `(quota X)` returns `X` unevaluated, for any well-formed `X` and under
/// any environment — including an `X` that would error if evaluated.
pub proof fn lemma_quota_returns_unevaluated(
    f: Map<Seq<char>, PrimFn>,
    m: Map<Seq<char>, SpecVal>,
    x: SpecVal,
)
    ensures
        sem_eval(f, m, SpecVal::List(seq![SpecVal::Atom("quota"@), x])) == (
            Ok::<SpecVal, SpecErr>(x),
            m,
        ),
{
    reveal_keywords();
    let s: Seq<SpecVal> = seq![SpecVal::Atom("quota"@), x];
    assert(s[1] == x);
}

/// `define` evaluates the expression, binds the result under the name
/// (inserting or overwriting), and confirms with the bare name; the
/// binding is then found by a lookup of that name.
pub proof fn lemma_define_binds(
    f: Map<Seq<char>, PrimFn>,
    m: Map<Seq<char>, SpecVal>,
    name: Seq<char>,
    expr: SpecVal,
)
    ensures
        ({
            let (r1, m1) = sem_eval(f, m, expr);
            let out = sem_eval(
                f,
                m,
                SpecVal::List(seq![SpecVal::Atom("define"@), SpecVal::Atom(name), expr]),
            );
            match r1 {
                Ok(v) => {
                    &&& out == (Ok::<SpecVal, SpecErr>(SpecVal::Atom(name)), m1.insert(name, v))
                    &&& out.1.contains_key(name)
                    &&& out.1[name] == v
                },
                Err(e) => out == (Err::<SpecVal, SpecErr>(e), m1),
            }
        }),
{
    reveal_keywords();
    let s: Seq<SpecVal> = seq![SpecVal::Atom("define"@), SpecVal::Atom(name), expr];
    assert(s[1] == SpecVal::Atom(name) && s[2] == expr);
}

/// Redefining a name overwrites the earlier binding: after a second
/// `define` of the same name, a lookup sees only the later value.
pub proof fn lemma_redefine_overwrites(
    f: Map<Seq<char>, PrimFn>,
    m: Map<Seq<char>, SpecVal>,
    name: Seq<char>,
    first: SpecVal,
    second: SpecVal,
)
    requires
        is_self_eval(first),
        is_self_eval(second),
    ensures
        ({
            let m1 = sem_eval(
                f,
                m,
                SpecVal::List(seq![SpecVal::Atom("define"@), SpecVal::Atom(name), first]),
            ).1;
            let m2 = sem_eval(
                f,
                m1,
                SpecVal::List(seq![SpecVal::Atom("define"@), SpecVal::Atom(name), second]),
            ).1;
            m2.contains_key(name) && m2[name] == second
        }),
{
    lemma_define_binds(f, m, name, first);
    let m1 = sem_eval(
        f,
        m,
        SpecVal::List(seq![SpecVal::Atom("define"@), SpecVal::Atom(name), first]),
    ).1;
    lemma_define_binds(f, m1, name, second);
}

/// `if` evaluates the predicate and then only the selected branch: a true
/// predicate yields exactly the then-branch's outcome (whatever the
/// else-branch is), a false one exactly the else-branch's, and a
/// non-boolean predicate is a type mismatch with neither branch evaluated.
pub proof fn lemma_if_dispatch(
    f: Map<Seq<char>, PrimFn>,
    m: Map<Seq<char>, SpecVal>,
    pred: SpecVal,
    then_branch: SpecVal,
    else_branch: SpecVal,
)
    ensures
        ({
            let (rp, m1) = sem_eval(f, m, pred);
            let out = sem_eval(
                f,
                m,
                SpecVal::List(seq![SpecVal::Atom("if"@), pred, then_branch, else_branch]),
            );
            match rp {
                Ok(cond) => {
                    &&& cond == SpecVal::Bool(true) ==> out == sem_eval(f, m1, then_branch)
                    &&& cond == SpecVal::Bool(false) ==> out == sem_eval(f, m1, else_branch)
                    &&& !(cond is Bool) ==> out == (
                        Err::<SpecVal, SpecErr>(SpecErr::TypeMismatch("bool"@, "other"@)),
                        m1,
                    )
                },
                Err(e) => out == (Err::<SpecVal, SpecErr>(e), m1),
            }
        }),
{
    reveal_keywords();
    let s: Seq<SpecVal> = seq![SpecVal::Atom("if"@), pred, then_branch, else_branch];
    assert(s[1] == pred && s[2] == then_branch && s[3] == else_branch);
}

/// Applying a name that is no keyword and not bound in the function
/// namespace fails with exactly `NotFunction(name)`, whatever the
/// arguments, and leaves the environment untouched.
pub proof fn lemma_unknown_name_not_function(
    f: Map<Seq<char>, PrimFn>,
    m: Map<Seq<char>, SpecVal>,
    name: Seq<char>,
    args: Seq<SpecVal>,
)
    requires
        !f.contains_key(name),
        name != "quota"@,
        name != "define"@,
        name != "if"@,
        name != "lambda"@,
    ensures
        sem_eval(f, m, SpecVal::List(seq![SpecVal::Atom(name)] + args)) == (
            Err::<SpecVal, SpecErr>(SpecErr::NotFunction(name)),
            m,
        ),
{
    let s = seq![SpecVal::Atom(name)] + args;
    assert(s[0] == SpecVal::Atom(name));
    assert(s.skip(1) =~= args);
    assert(s.len() >= 1);
    assert(sem_eval(f, m, SpecVal::List(s)) == crate::sem::sem_eval_list(f, m, s));
    assert(crate::sem::sem_eval_list(f, m, s) == crate::sem::sem_apply(f, m, name, s.skip(1)));
    assert(crate::sem::sem_apply(f, m, name, args) == (
        Err::<SpecVal, SpecErr>(SpecErr::NotFunction(name)),
        m,
    ));
}

/// A `lambda` form always fails with `NotImplemented`: no lambda value is
/// ever constructed, for any parameter list and body.
pub proof fn lemma_lambda_unsupported(
    f: Map<Seq<char>, PrimFn>,
    m: Map<Seq<char>, SpecVal>,
    params: Seq<SpecVal>,
    body: SpecVal,
)
    ensures
        sem_eval(
            f,
            m,
            SpecVal::List(
                seq![SpecVal::Atom("lambda"@), SpecVal::List(params), body],
            ),
        ) == (Err::<SpecVal, SpecErr>(SpecErr::NotImplemented), m),
{
    reveal_keywords();
    let s: Seq<SpecVal> = seq![SpecVal::Atom("lambda"@), SpecVal::List(params), body];
    assert(s[1] == SpecVal::List(params));
}

} // verus!
