use lispeval::env::EnvCtx;
use lispeval::values::{EvalError, LispVal, PrimFn};

fn num(n: i32) -> LispVal {
    LispVal::Number(n)
}

fn atom(s: &str) -> LispVal {
    LispVal::Atom(s.to_owned())
}

#[test]
fn atoms_render_bare() {
    assert_eq!(atom("foo").render(), "foo");
}

#[test]
fn numbers_render_in_decimal() {
    assert_eq!(num(42).render(), "42");
    assert_eq!(num(0).render(), "0");
    assert_eq!(num(-17).render(), "-17");
    assert_eq!(num(i32::MAX).render(), "2147483647");
    assert_eq!(num(i32::MIN).render(), "-2147483648");
}

#[test]
fn strings_render_quoted() {
    assert_eq!(LispVal::Str("hi".to_owned()).render(), "\"hi\"");
    assert_eq!(LispVal::Str("".to_owned()).render(), "\"\"");
}

#[test]
fn booleans_render_as_hash_letters() {
    assert_eq!(LispVal::Bool(true).render(), "#t");
    assert_eq!(LispVal::Bool(false).render(), "#f");
}

#[test]
fn nil_renders_as_the_empty_list_mark() {
    assert_eq!(LispVal::Nil.render(), "'()");
}

#[test]
fn lists_render_bracketed_and_comma_joined() {
    let l = LispVal::List(vec![num(1), atom("foo"), LispVal::Str("s".to_owned())]);
    assert_eq!(l.render(), "[1,foo,\"s\"]");
    assert_eq!(LispVal::List(vec![]).render(), "[]");
    let nested = LispVal::List(vec![num(1), LispVal::List(vec![num(2), num(3)])]);
    assert_eq!(nested.render(), "[1,[2,3]]");
}

#[test]
fn callables_render_as_opaque_labels() {
    assert_eq!(LispVal::Func(PrimFn::Add).render(), "(internal function)");
    let lambda = LispVal::Lambda(PrimFn::Add, EnvCtx::new());
    assert_eq!(lambda.render(), "(lambda function)");
}

#[test]
fn not_implemented_message() {
    assert_eq!(EvalError::NotImplemented.message(), "NotImplemented");
}

#[test]
fn unbound_var_message() {
    assert_eq!(
        EvalError::UnboundVar("x".to_owned()).message(),
        "Error UnboundVar: x"
    );
}

#[test]
fn num_args_message() {
    assert_eq!(
        EvalError::NumArgs(2, 5).message(),
        "Error Number args, want: 2, but got: 5"
    );
    assert_eq!(
        EvalError::NumArgs(0, 12).message(),
        "Error Number args, want: 0, but got: 12"
    );
}

#[test]
fn type_mismatch_message() {
    assert_eq!(
        EvalError::TypeMismatch("bool".to_owned(), "other".to_owned()).message(),
        "Error Type Mismatch, want: bool, got: other"
    );
}

#[test]
fn not_function_message() {
    assert_eq!(
        EvalError::NotFunction("frobnicate".to_owned()).message(),
        "Error Not Function: frobnicate"
    );
}
