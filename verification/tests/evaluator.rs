use lispeval::env::EnvCtx;
use lispeval::interp::eval;
use lispeval::values::{EvalError, LispVal, PrimFn};

fn num(n: i32) -> LispVal {
    LispVal::Number(n)
}

fn atom(s: &str) -> LispVal {
    LispVal::Atom(s.to_owned())
}

fn list(items: Vec<LispVal>) -> LispVal {
    LispVal::List(items)
}

#[test]
fn plus_empty_is_zero() {
    let mut ctx = EnvCtx::with_primitives();
    assert_eq!(eval(&mut ctx, &list(vec![atom("+")])), Ok(num(0)));
}

#[test]
fn plus_single_is_identity() {
    let mut ctx = EnvCtx::with_primitives();
    assert_eq!(eval(&mut ctx, &list(vec![atom("+"), num(7)])), Ok(num(7)));
}

#[test]
fn plus_three_sums() {
    let mut ctx = EnvCtx::with_primitives();
    assert_eq!(
        eval(&mut ctx, &list(vec![atom("+"), num(10), num(20), num(30)])),
        Ok(num(60))
    );
    assert_eq!(
        eval(&mut ctx, &list(vec![atom("+"), num(1), num(2), num(3)])),
        Ok(num(6))
    );
}

#[test]
fn plus_wraps_at_the_32_bit_limit() {
    let mut ctx = EnvCtx::with_primitives();
    assert_eq!(
        eval(&mut ctx, &list(vec![atom("+"), num(i32::MAX), num(1)])),
        Ok(num(i32::MIN))
    );
}

#[test]
fn plus_nested_application() {
    let mut ctx = EnvCtx::with_primitives();
    let inner = list(vec![atom("+"), num(2), num(3)]);
    assert_eq!(
        eval(&mut ctx, &list(vec![atom("+"), num(1), inner])),
        Ok(num(6))
    );
}

#[test]
fn plus_non_number_is_type_mismatch() {
    let mut ctx = EnvCtx::with_primitives();
    assert_eq!(
        eval(&mut ctx, &list(vec![atom("+"), LispVal::Bool(true)])),
        Err(EvalError::TypeMismatch("number".to_owned(), "other".to_owned()))
    );
}

#[test]
fn minus_single_negates() {
    let mut ctx = EnvCtx::with_primitives();
    assert_eq!(eval(&mut ctx, &list(vec![atom("-"), num(1)])), Ok(num(-1)));
}

#[test]
fn minus_empty_is_zero() {
    let mut ctx = EnvCtx::with_primitives();
    assert_eq!(eval(&mut ctx, &list(vec![atom("-")])), Ok(num(0)));
}

#[test]
fn minus_two_is_difference() {
    let mut ctx = EnvCtx::with_primitives();
    assert_eq!(
        eval(&mut ctx, &list(vec![atom("-"), num(1), num(2)])),
        Ok(num(-1))
    );
}

#[test]
fn minus_three_subtracts_the_sum_of_the_tail() {
    let mut ctx = EnvCtx::with_primitives();
    // (- 1 2 3) is 1 - (2 + 3), not (1 - 2) - 3.
    assert_eq!(
        eval(&mut ctx, &list(vec![atom("-"), num(1), num(2), num(3)])),
        Ok(num(-4))
    );
}

#[test]
fn minus_wraps_on_the_smallest_number() {
    let mut ctx = EnvCtx::with_primitives();
    assert_eq!(
        eval(&mut ctx, &list(vec![atom("-"), num(i32::MIN)])),
        Ok(num(i32::MIN))
    );
}

#[test]
fn quota_returns_number_unevaluated() {
    let mut ctx = EnvCtx::with_primitives();
    assert_eq!(eval(&mut ctx, &list(vec![atom("quota"), num(42)])), Ok(num(42)));
}

#[test]
fn quota_returns_bad_list_unevaluated() {
    let mut ctx = EnvCtx::with_primitives();
    let bad = list(vec![atom("frobnicate"), num(1)]);
    let expected = list(vec![atom("frobnicate"), num(1)]);
    assert_eq!(
        eval(&mut ctx, &list(vec![atom("quota"), bad])),
        Ok(expected)
    );
}

#[test]
fn define_confirms_with_the_name() {
    let mut ctx = EnvCtx::with_primitives();
    assert_eq!(
        eval(&mut ctx, &list(vec![atom("define"), atom("foo"), num(42)])),
        Ok(atom("foo"))
    );
}

#[test]
fn define_then_lookup_finds_the_value() {
    let mut ctx = EnvCtx::with_primitives();
    eval(&mut ctx, &list(vec![atom("define"), atom("foo"), num(42)])).unwrap();
    assert_eq!(ctx.lookup_variable("foo"), Some(num(42)));
}

#[test]
fn redefining_overwrites_the_binding() {
    let mut ctx = EnvCtx::with_primitives();
    eval(&mut ctx, &list(vec![atom("define"), atom("foo"), num(42)])).unwrap();
    eval(&mut ctx, &list(vec![atom("define"), atom("foo"), num(7)])).unwrap();
    assert_eq!(ctx.lookup_variable("foo"), Some(num(7)));
}

#[test]
fn define_evaluates_the_expression() {
    let mut ctx = EnvCtx::with_primitives();
    let sum = list(vec![atom("+"), num(2), num(3)]);
    eval(&mut ctx, &list(vec![atom("define"), atom("bar"), sum])).unwrap();
    assert_eq!(ctx.lookup_variable("bar"), Some(num(5)));
}

#[test]
fn variable_and_function_namespaces_are_independent() {
    let mut ctx = EnvCtx::with_primitives();
    eval(&mut ctx, &list(vec![atom("define"), atom("+"), num(1)])).unwrap();
    assert_eq!(ctx.lookup_variable("+"), Some(num(1)));
    assert_eq!(
        eval(&mut ctx, &list(vec![atom("+"), num(2), num(3)])),
        Ok(num(5))
    );
}

#[test]
fn if_true_takes_only_the_then_branch() {
    let mut ctx = EnvCtx::with_primitives();
    // The untaken branch would error if it were evaluated.
    let broken = list(vec![atom("frobnicate")]);
    assert_eq!(
        eval(
            &mut ctx,
            &list(vec![atom("if"), LispVal::Bool(true), num(42), broken])
        ),
        Ok(num(42))
    );
}

#[test]
fn if_false_takes_only_the_else_branch() {
    let mut ctx = EnvCtx::with_primitives();
    let broken = list(vec![atom("frobnicate")]);
    assert_eq!(
        eval(
            &mut ctx,
            &list(vec![atom("if"), LispVal::Bool(false), broken, num(23)])
        ),
        Ok(num(23))
    );
}

#[test]
fn if_chooses_between_literals() {
    let mut ctx = EnvCtx::with_primitives();
    assert_eq!(
        eval(
            &mut ctx,
            &list(vec![atom("if"), LispVal::Bool(true), num(42), num(23)])
        ),
        Ok(num(42))
    );
    assert_eq!(
        eval(
            &mut ctx,
            &list(vec![atom("if"), LispVal::Bool(false), num(42), num(23)])
        ),
        Ok(num(23))
    );
}

#[test]
fn if_non_bool_predicate_is_type_mismatch() {
    let mut ctx = EnvCtx::with_primitives();
    assert_eq!(
        eval(&mut ctx, &list(vec![atom("if"), num(1), num(42), num(23)])),
        Err(EvalError::TypeMismatch("bool".to_owned(), "other".to_owned()))
    );
}

#[test]
fn if_evaluates_the_predicate() {
    let mut ctx = EnvCtx::with_primitives();
    let pred = list(vec![atom("quota"), LispVal::Bool(true)]);
    assert_eq!(
        eval(&mut ctx, &list(vec![atom("if"), pred, num(1), num(2)])),
        Ok(num(1))
    );
}

#[test]
fn unknown_function_name_errors() {
    let mut ctx = EnvCtx::with_primitives();
    assert_eq!(
        eval(&mut ctx, &list(vec![atom("frobnicate"), num(1), num(2)])),
        Err(EvalError::NotFunction("frobnicate".to_owned()))
    );
}

#[test]
fn lambda_is_not_implemented() {
    let mut ctx = EnvCtx::with_primitives();
    let params = list(vec![atom("x")]);
    assert_eq!(
        eval(&mut ctx, &list(vec![atom("lambda"), params, atom("x")])),
        Err(EvalError::NotImplemented)
    );
}

#[test]
fn lambda_with_atom_params_falls_through_to_application() {
    let mut ctx = EnvCtx::with_primitives();
    assert_eq!(
        eval(&mut ctx, &list(vec![atom("lambda"), atom("x"), atom("x")])),
        Err(EvalError::NotFunction("lambda".to_owned()))
    );
}

#[test]
fn special_forms_of_the_wrong_shape_are_applications() {
    let mut ctx = EnvCtx::with_primitives();
    assert_eq!(
        eval(&mut ctx, &list(vec![atom("quota")])),
        Err(EvalError::NotFunction("quota".to_owned()))
    );
    assert_eq!(
        eval(&mut ctx, &list(vec![atom("define"), num(1), num(2)])),
        Err(EvalError::NotFunction("define".to_owned()))
    );
    assert_eq!(
        eval(&mut ctx, &list(vec![atom("if"), LispVal::Bool(true), num(1)])),
        Err(EvalError::NotFunction("if".to_owned()))
    );
}

#[test]
fn empty_list_is_not_implemented() {
    let mut ctx = EnvCtx::with_primitives();
    assert_eq!(
        eval(&mut ctx, &list(vec![])),
        Err(EvalError::NotImplemented)
    );
}

#[test]
fn bare_atom_func_and_lambda_are_not_implemented() {
    let mut ctx = EnvCtx::with_primitives();
    assert_eq!(eval(&mut ctx, &atom("foo")), Err(EvalError::NotImplemented));
    assert_eq!(
        eval(&mut ctx, &LispVal::Func(PrimFn::Add)),
        Err(EvalError::NotImplemented)
    );
    let captured = EnvCtx::new();
    assert_eq!(
        eval(&mut ctx, &LispVal::Lambda(PrimFn::Add, captured)),
        Err(EvalError::NotImplemented)
    );
}

#[test]
fn literals_are_self_evaluating() {
    let mut ctx = EnvCtx::with_primitives();
    assert_eq!(eval(&mut ctx, &num(5)), Ok(num(5)));
    assert_eq!(
        eval(&mut ctx, &LispVal::Str("hi".to_owned())),
        Ok(LispVal::Str("hi".to_owned()))
    );
    assert_eq!(
        eval(&mut ctx, &LispVal::Bool(true)),
        Ok(LispVal::Bool(true))
    );
    assert_eq!(eval(&mut ctx, &LispVal::Nil), Ok(LispVal::Nil));
}

#[test]
fn func_head_applies_directly() {
    let mut ctx = EnvCtx::with_primitives();
    assert_eq!(
        eval(
            &mut ctx,
            &list(vec![LispVal::Func(PrimFn::Add), num(1), num(2)])
        ),
        Ok(num(3))
    );
}

#[test]
fn list_head_reducing_to_func_is_applied() {
    let mut ctx = EnvCtx::with_primitives();
    let to_func = list(vec![atom("quota"), LispVal::Func(PrimFn::Add)]);
    assert_eq!(
        eval(&mut ctx, &list(vec![to_func, num(4), num(5)])),
        Ok(num(9))
    );
}

#[test]
fn list_head_reducing_to_non_func_is_type_mismatch() {
    let mut ctx = EnvCtx::with_primitives();
    let to_number = list(vec![atom("quota"), num(1)]);
    assert_eq!(
        eval(&mut ctx, &list(vec![to_number, num(2)])),
        Err(EvalError::TypeMismatch("function".to_owned(), "".to_owned()))
    );
}

#[test]
fn arguments_are_evaluated_left_to_right_with_side_effects() {
    let mut ctx = EnvCtx::with_primitives();
    let define_x = list(vec![atom("define"), atom("x"), num(1)]);
    // The define confirms with an atom, which is no number, but its
    // side effect on the environment still happens first.
    assert_eq!(
        eval(&mut ctx, &list(vec![atom("+"), define_x, num(2)])),
        Err(EvalError::TypeMismatch("number".to_owned(), "other".to_owned()))
    );
    assert_eq!(ctx.lookup_variable("x"), Some(num(1)));
}

#[test]
fn primitives_can_be_called_through_apply() {
    let mut ctx = EnvCtx::with_primitives();
    let args = vec![num(2), num(3)];
    assert_eq!(ctx.apply("+", &args), Ok(num(5)));
    assert_eq!(ctx.apply("-", &args), Ok(num(-1)));
    assert_eq!(
        ctx.apply("frobnicate", &args),
        Err(EvalError::NotFunction("frobnicate".to_owned()))
    );
}

#[test]
fn add_and_sub_are_callable_directly() {
    let mut ctx = EnvCtx::with_primitives();
    let args = vec![num(7), num(2)];
    assert_eq!(lispeval::interp::add(&mut ctx, &args), Ok(num(9)));
    assert_eq!(lispeval::interp::sub(&mut ctx, &args), Ok(num(5)));
}
