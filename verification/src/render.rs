//! Total rendering of values and errors to text.
//!
//! Rendering never fails: an atom shows as its bare name, a number as its
//! decimal representation, text in double quotes, booleans as `#t`/`#f`,
//! nil as `'()`, a list as its elements joined by commas inside brackets,
//! and a callable as an opaque label.  The exact text is pinned down by
//! the spec functions [`render_sv`] and [`err_text`].

use vstd::prelude::*;
use vstd::string::StringExecFns;

use crate::values::{edv, ldv, lemma_ldv_pointwise, vdv, EvalError, LispVal, SpecErr, SpecVal};

verus! {

/// The decimal digit character for `d`.
pub open spec fn digit_char(d: int) -> char {
    if d == 0 {
        '0'
    } else if d == 1 {
        '1'
    } else if d == 2 {
        '2'
    } else if d == 3 {
        '3'
    } else if d == 4 {
        '4'
    } else if d == 5 {
        '5'
    } else if d == 6 {
        '6'
    } else if d == 7 {
        '7'
    } else if d == 8 {
        '8'
    } else {
        '9'
    }
}

/// The decimal digits of a non-negative integer, most significant first.
pub open spec fn dec_digits(n: int) -> Seq<char>
    decreases n,
{
    if n < 10 {
        seq![digit_char(n % 10)]
    } else {
        dec_digits(n / 10).push(digit_char(n % 10))
    }
}

/// The decimal rendering of a signed 32-bit number.
pub open spec fn dec_i32(n: i32) -> Seq<char> {
    if n < 0 {
        seq!['-'] + dec_digits(-(n as int))
    } else {
        dec_digits(n as int)
    }
}

/// The text a value renders to.
pub open spec fn render_sv(v: SpecVal) -> Seq<char>
    decreases v, 1int,
{
    match v {
        SpecVal::Atom(a) => a,
        SpecVal::Number(n) => dec_i32(n),
        SpecVal::Str(s) => seq!['"'] + s + seq!['"'],
        SpecVal::Bool(b) => if b {
            "#t"@
        } else {
            "#f"@
        },
        SpecVal::Nil => "'()"@,
        SpecVal::List(items) => seq!['['] + render_items(items) + seq![']'],
        SpecVal::Func(_) => "(internal function)"@,
        SpecVal::Lambda(_, _, _) => "(lambda function)"@,
    }
}

/// The elements of a list rendered and joined by commas.
pub open spec fn render_items(s: Seq<SpecVal>) -> Seq<char>
    decreases s, 2int,
    via render_items_dec
{
    if s.len() == 0 {
        Seq::empty()
    } else if s.len() == 1 {
        render_sv(s[0])
    } else {
        render_items(s.drop_last()) + seq![','] + render_sv(s.last())
    }
}

#[via_fn]
proof fn render_items_dec(s: Seq<SpecVal>) {
    if s.len() > 0 {
        assert(decreases_to!(s => s[0]));
        assert(decreases_to!(s => s[s.len() - 1]));
        assert(s.drop_last() =~= s.subrange(0, s.len() - 1));
        assert(decreases_to!(s => s.subrange(0, s.len() - 1)));
    }
}

/// The message an error renders to.
pub open spec fn err_text(e: SpecErr) -> Seq<char> {
    match e {
        SpecErr::NotImplemented => "NotImplemented"@,
        SpecErr::UnboundVar(name) => "Error UnboundVar: "@ + name,
        SpecErr::NumArgs(want, got) => "Error Number args, want: "@ + dec_digits(want as int)
            + ", but got: "@ + dec_digits(got as int),
        SpecErr::TypeMismatch(want, got) => "Error Type Mismatch, want: "@ + want + ", got: "@
            + got,
        SpecErr::NotFunction(name) => "Error Not Function: "@ + name,
    }
}

/// The one-character text of the decimal digit `d`.
fn digit_str(d: u32) -> (s: &'static str)
    requires
        d < 10,
    ensures
        s@ == seq![digit_char(d as int)],
{
    proof {
        reveal_strlit("0");
        reveal_strlit("1");
        reveal_strlit("2");
        reveal_strlit("3");
        reveal_strlit("4");
        reveal_strlit("5");
        reveal_strlit("6");
        reveal_strlit("7");
        reveal_strlit("8");
        reveal_strlit("9");
    }
    if d == 0 {
        "0"
    } else if d == 1 {
        "1"
    } else if d == 2 {
        "2"
    } else if d == 3 {
        "3"
    } else if d == 4 {
        "4"
    } else if d == 5 {
        "5"
    } else if d == 6 {
        "6"
    } else if d == 7 {
        "7"
    } else if d == 8 {
        "8"
    } else {
        "9"
    }
}

/// Append the decimal digits of `n` to `out`.
fn push_dec_u32(n: u32, out: &mut String)
    ensures
        final(out)@ == old(out)@ + dec_digits(n as int),
    decreases n,
{
    if n >= 10 {
        push_dec_u32(n / 10, out);
    }
    out.append(digit_str(n % 10));
    proof {
        assert(out@ =~= old(out)@ + dec_digits(n as int));
    }
}

/// Append the decimal rendering of a signed 32-bit number to `out`.
fn push_dec_i32(n: i32, out: &mut String)
    ensures
        final(out)@ == old(out)@ + dec_i32(n),
{
    if n < 0 {
        proof {
            reveal_strlit("-");
        }
        out.append("-");
        let magnitude: u32 = if n == i32::MIN {
            2147483648u32
        } else {
            (-n) as u32
        };
        proof {
            assert(magnitude as int == -(n as int));
        }
        push_dec_u32(magnitude, out);
        proof {
            assert(out@ =~= old(out)@ + dec_i32(n));
        }
    } else {
        push_dec_u32(n as u32, out);
    }
}

/// Append the decimal digits of a machine-sized count to `out`.
fn push_dec_usize(n: usize, out: &mut String)
    ensures
        final(out)@ == old(out)@ + dec_digits(n as int),
    decreases n,
{
    if n >= 10 {
        push_dec_usize(n / 10, out);
    }
    let d: u32 = (n % 10) as u32;
    out.append(digit_str(d));
    proof {
        assert(out@ =~= old(out)@ + dec_digits(n as int));
    }
}

/// Append the rendering of `v` to `out`.
#[verifier::loop_isolation(false)]
fn render_into(v: &LispVal, out: &mut String)
    ensures
        final(out)@ == old(out)@ + render_sv(vdv(*v)),
    decreases vdv(*v), 1int,
{
    match v {
        LispVal::Atom(a) => out.append(a.as_str()),
        LispVal::Number(n) => push_dec_i32(*n, out),
        LispVal::Str(s) => {
            proof {
                reveal_strlit("\"");
            }
            out.append("\"");
            out.append(s.as_str());
            out.append("\"");
            proof {
                assert(out@ =~= old(out)@ + render_sv(vdv(*v)));
            }
        },
        LispVal::Bool(b) => {
            if *b {
                out.append("#t");
            } else {
                out.append("#f");
            }
        },
        LispVal::Nil => out.append("'()"),
        LispVal::List(l) => {
            proof {
                reveal_strlit("[");
                reveal_strlit(",");
                reveal_strlit("]");
                assert(decreases_to!(vdv(*v) => ldv(l@)));
                lemma_ldv_pointwise(l@);
            }
            out.append("[");
            let ghost mid = out@;
            proof {
                assert(out@ =~= mid + render_items(ldv(l@).take(0)));
            }
            let mut i: usize = 0;
            while i < l.len()
                invariant
                    i <= l@.len(),
                    out@ == mid + render_items(ldv(l@).take(i as int)),
                decreases l@.len() - i,
            {
                if i > 0 {
                    out.append(",");
                }
                proof {
                    assert(decreases_to!(ldv(l@) => ldv(l@)[i as int]));
                    assert(ldv(l@)[i as int] == vdv(l@[i as int]));
                }
                render_into(&l[i], out);
                proof {
                    let taken = ldv(l@).take(i as int + 1);
                    assert(taken.drop_last() =~= ldv(l@).take(i as int));
                    assert(taken.last() == vdv(l@[i as int]));
                    assert(out@ =~= mid + render_items(taken));
                }
                i = i + 1;
            }
            proof {
                assert(ldv(l@).take(l@.len() as int) =~= ldv(l@));
            }
            out.append("]");
            proof {
                assert(out@ =~= old(out)@ + render_sv(vdv(*v)));
            }
        },
        LispVal::Func(_) => out.append("(internal function)"),
        LispVal::Lambda(_, _) => out.append("(lambda function)"),
    }
}

impl LispVal {
    /// The text this value renders to; total over all variants.
    pub fn render(&self) -> (r: String)
        ensures
            r@ == render_sv(vdv(*self)),
    {
        let mut out = String::new();
        render_into(self, &mut out);
        out
    }
}

impl EvalError {
    /// The descriptive message of this error.
    pub fn message(&self) -> (r: String)
        ensures
            r@ == err_text(edv(*self)),
    {
        let mut out = String::new();
        match self {
            EvalError::NotImplemented => out.append("NotImplemented"),
            EvalError::UnboundVar(name) => {
                out.append("Error UnboundVar: ");
                out.append(name.as_str());
            },
            EvalError::NumArgs(want, got) => {
                out.append("Error Number args, want: ");
                push_dec_usize(*want, &mut out);
                out.append(", but got: ");
                push_dec_usize(*got, &mut out);
            },
            EvalError::TypeMismatch(want, got) => {
                out.append("Error Type Mismatch, want: ");
                out.append(want.as_str());
                out.append(", got: ");
                out.append(got.as_str());
            },
            EvalError::NotFunction(name) => {
                out.append("Error Not Function: ");
                out.append(name.as_str());
            },
        }
        proof {
            assert(out@ =~= err_text(edv(*self)));
        }
        out
    }
}

} // verus!
