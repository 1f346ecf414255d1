//! Expressions whose value is known without running them.

use vstd::prelude::*;
use crate::ir::{BinOp, Expr, ExprV, UnOp};
use crate::text::{decimal, push_decimal};

verus! {

/// The integer that an expression of literals evaluates to, unless it overflows.
pub open spec fn const_int(e: ExprV) -> Option<i64>
    decreases e,
{
    match e {
        ExprV::Int(v) => Some(v),
        ExprV::Unary(op, inner) => match op {
            UnOp::ToOwned | UnOp::Borrow | UnOp::BorrowMut => const_int(*inner),
            UnOp::Neg => match const_int(*inner) {
                Some(v) => if v == i64::MIN {
                    None
                } else {
                    Some((-v) as i64)
                },
                None => None,
            },
            UnOp::Not => None,
        },
        ExprV::Binary(op, l, r) => match (const_int(*l), const_int(*r)) {
            (Some(a), Some(b)) => match op {
                BinOp::Add => a.checked_add(b),
                BinOp::Sub => a.checked_sub(b),
                BinOp::Mul => a.checked_mul(b),
                BinOp::Div => a.checked_div(b),
                _ => None,
            },
            _ => None,
        },
        _ => None,
    }
}

/// Whether an expression is a string for certain.
pub open spec fn surely_string(e: ExprV) -> bool
    decreases e,
{
    match e {
        ExprV::Str(_) => true,
        ExprV::Unary(op, inner) => match op {
            UnOp::ToOwned | UnOp::Borrow | UnOp::BorrowMut => surely_string(*inner),
            _ => false,
        },
        ExprV::Binary(op, l, r) => op is Add && ((surely_string(*l) && surely_string(*r)) || (
        surely_string(*l) && const_int(*r) is Some) || (const_int(*l) is Some && surely_string(
            *r,
        ))),
        _ => false,
    }
}

/// The power of two with a given exponent.
pub open spec fn power_of_two(n: nat) -> int
    decreases n,
{
    if n == 0 {
        1
    } else {
        2 * power_of_two((n - 1) as nat)
    }
}

/// An integer in decimal.
pub open spec fn int_text(v: int) -> Seq<char> {
    if v < 0 {
        "-"@ + decimal((-v) as nat)
    } else {
        decimal(v as nat)
    }
}

/// An integer in decimal.
pub fn int_to_string(v: i64) -> (r: String)
    ensures
        r@ == int_text(v as int),
{
    if v < 0 {
        let mut out = "-".to_string();
        let magnitude: u64 = if v == i64::MIN {
            0x8000_0000_0000_0000
        } else {
            (-v) as u64
        };
        push_decimal(&mut out, magnitude);
        out
    } else {
        let mut out = String::new();
        push_decimal(&mut out, v as u64);
        assert(Seq::<char>::empty() + decimal(v as nat) =~= decimal(v as nat));
        out
    }
}

proof fn lemma_powers_grow(a: nat, b: nat)
    requires
        a < b,
    ensures
        0 < power_of_two(a) < power_of_two(b),
    decreases b,
{
    if a + 1 < b {
        lemma_powers_grow(a, (b - 1) as nat);
    } else if a > 0 {
        lemma_powers_grow((a - 1) as nat, a);
    }
}

/// Powers of two differ by their exponents.
pub proof fn lemma_power_unique(a: nat, b: nat)
    requires
        power_of_two(a) == power_of_two(b),
    ensures
        a == b,
{
    if a < b {
        lemma_powers_grow(a, b);
    }
    if b < a {
        lemma_powers_grow(b, a);
    }
}

proof fn lemma_power_62()
    ensures
        power_of_two(62) == 0x4000_0000_0000_0000,
{
    reveal_with_fuel(power_of_two, 16);
    assert(power_of_two(15) == 0x8000);
    assert(power_of_two(30) == 0x4000_0000);
    assert(power_of_two(45) == 0x2000_0000_0000);
    assert(power_of_two(60) == 0x1000_0000_0000_0000);
}

/// The exponent of a power of two.
pub fn shift_amount_for_power_of_two(value: i64) -> (r: Option<u32>)
    ensures
        match r {
            Some(shift) => shift < 63 && value == power_of_two(shift as nat),
            None => forall|n: nat| value != power_of_two(n),
        },
{
    let mut shift: u32 = 0;
    let mut power: i64 = 1;
    while shift < 62
        invariant
            shift <= 62,
            power == power_of_two(shift as nat),
            forall|n: nat| n < shift ==> value != power_of_two(n),
        decreases 62 - shift,
    {
        if value == power {
            return Some(shift);
        }
        proof {
            lemma_power_62();
            if shift + 1 < 62 {
                lemma_powers_grow((shift + 1) as nat, 62);
            }
            lemma_powers_grow(shift as nat, 62);
        }
        power = power * 2;
        shift += 1;
    }
    if value == power {
        return Some(shift);
    }
    assert forall|n: nat| value != power_of_two(n) by {
        if n > 62 {
            lemma_power_62();
            assert(power_of_two(63) == 2 * power_of_two(62));
            if n > 63 {
                lemma_powers_grow(63, n);
            }
        }
    }
    None
}

pub fn eval_const_int_expr(expr: &Expr) -> (r: Option<i64>)
    ensures
        r == const_int(expr@),
    decreases expr,
{
    match expr {
        Expr::Int(value) => Some(*value),
        Expr::ToOwned(inner) | Expr::Borrow(inner) | Expr::BorrowMut(inner) => {
            eval_const_int_expr(inner)
        },
        Expr::Neg(inner) => match eval_const_int_expr(inner) {
            Some(v) => if v == i64::MIN {
                None
            } else {
                Some(-v)
            },
            None => None,
        },
        Expr::Add(lhs, rhs) => match (eval_const_int_expr(lhs), eval_const_int_expr(rhs)) {
            (Some(a), Some(b)) => a.checked_add(b),
            _ => None,
        },
        Expr::Sub(lhs, rhs) => match (eval_const_int_expr(lhs), eval_const_int_expr(rhs)) {
            (Some(a), Some(b)) => a.checked_sub(b),
            _ => None,
        },
        Expr::Mul(lhs, rhs) => match (eval_const_int_expr(lhs), eval_const_int_expr(rhs)) {
            (Some(a), Some(b)) => a.checked_mul(b),
            _ => None,
        },
        Expr::Div(lhs, rhs) => match (eval_const_int_expr(lhs), eval_const_int_expr(rhs)) {
            (Some(a), Some(b)) => a.checked_div(b),
            _ => None,
        },
        _ => None,
    }
}

pub fn is_definitely_string_expr(expr: &Expr) -> (r: bool)
    ensures
        r == surely_string(expr@),
    decreases expr,
{
    match expr {
        Expr::String(_) => true,
        Expr::ToOwned(inner) | Expr::Borrow(inner) | Expr::BorrowMut(inner) => {
            is_definitely_string_expr(inner)
        },
        Expr::Add(lhs, rhs) => {
            (is_definitely_string_expr(lhs) && is_definitely_string_expr(rhs)) || (
            is_definitely_string_expr(lhs) && eval_const_int_expr(rhs).is_some()) || (
            eval_const_int_expr(lhs).is_some() && is_definitely_string_expr(rhs))
        },
        _ => false,
    }
}

/// An expression is never both a constant integer and a string.
pub proof fn law_strings_are_not_integers(e: ExprV)
    ensures
        !(surely_string(e) && const_int(e) is Some),
    decreases e,
{
    match e {
        ExprV::Unary(_, inner) => law_strings_are_not_integers(*inner),
        ExprV::Binary(_, l, r) => {
            law_strings_are_not_integers(*l);
            law_strings_are_not_integers(*r);
        },
        _ => {},
    }
}

} // verus!
