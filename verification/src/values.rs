//! The values that programs compute with, and what operators make of them.

use vstd::prelude::*;
use crate::builtins::CallableParamType;
use crate::ir::{BinOp, UnOp};
use crate::text::decimal;
use crate::types::{BoundType, SimpleType};

verus! {

/// A value. A fraction is known by how it is written alone.
pub enum Val {
    Null,
    Int(int),
    Float(Seq<char>),
    Bool(bool),
    Str(Seq<char>),
    Array(Seq<Val>),
    Table(Seq<(Val, Val)>),
}

/// Whether a value has a simple type.
pub open spec fn is_simple(v: Val, ty: SimpleType) -> bool {
    match ty {
        SimpleType::Null => v is Null,
        SimpleType::Int => v is Int,
        SimpleType::Float => v is Float,
        SimpleType::Bool => v is Bool,
        SimpleType::String => v is Str,
    }
}

/// Whether a value may be where a type is known. Containers whose elements have no type yet
/// have none.
pub open spec fn is_of(v: Val, ty: BoundType) -> bool {
    match ty {
        BoundType::Unknown => true,
        BoundType::Null => v is Null,
        BoundType::Int => v is Int,
        BoundType::Float => v is Float,
        BoundType::Bool => v is Bool,
        BoundType::String => v is Str,
        BoundType::Array => v is Array,
        BoundType::ArrayOf(Some(t)) => v matches Val::Array(xs) && forall|i: int|
            0 <= i < xs.len() ==> is_simple(#[trigger] xs[i], t),
        BoundType::ArrayOf(None) => v matches Val::Array(xs) && xs.len() == 0,
        BoundType::Mapping => v is Table,
        BoundType::MapOf(Some(t)) => v matches Val::Table(xs) && forall|i: int|
            0 <= i < xs.len() ==> is_simple((#[trigger] xs[i]).1, t),
        BoundType::MapOf(None) => v matches Val::Table(xs) && xs.len() == 0,
    }
}

/// Whether a value is what a parameter of a declared type takes.
pub open spec fn belongs(v: Val, ty: CallableParamType) -> bool {
    match ty {
        CallableParamType::Any => true,
        CallableParamType::Null => v is Null,
        CallableParamType::Int => v is Int,
        CallableParamType::Float => v is Float,
        CallableParamType::Bool => v is Bool,
        CallableParamType::String => v is Str,
        CallableParamType::Array => v is Array,
        CallableParamType::Mapping => v is Table,
        CallableParamType::Number => v is Int || v is Float,
    }
}

/// The quotient of two integers, cut off towards zero.
pub open spec fn cut_quotient(a: int, b: int) -> int {
    if (a >= 0) == (b > 0) {
        (if a >= 0 {
            a
        } else {
            -a
        }) / (if b > 0 {
            b
        } else {
            -b
        })
    } else {
        -((if a >= 0 {
            a
        } else {
            -a
        }) / (if b > 0 {
            b
        } else {
            -b
        }))
    }
}

/// The text of an integer.
pub open spec fn integer_text(v: int) -> Seq<char> {
    if v < 0 {
        seq!['-'] + decimal((-v) as nat)
    } else {
        decimal(v as nat)
    }
}

/// What a binary operator makes of two values, where that takes no fractions: nothing where it
/// is not defined. `And` and `Or` do not get here with both values unless both are needed.
pub open spec fn computed(op: BinOp, a: Val, b: Val) -> Option<Val> {
    match (op, a, b) {
        (BinOp::Add, Val::Int(x), Val::Int(y)) => Some(Val::Int(x + y)),
        (BinOp::Add, Val::Str(x), Val::Str(y)) => Some(Val::Str(x + y)),
        (BinOp::Add, Val::Array(x), Val::Array(y)) => Some(Val::Array(x + y)),
        (BinOp::Sub, Val::Int(x), Val::Int(y)) => Some(Val::Int(x - y)),
        (BinOp::Mul, Val::Int(x), Val::Int(y)) => Some(Val::Int(x * y)),
        (BinOp::Div, Val::Int(x), Val::Int(y)) => if y == 0 {
            None
        } else {
            Some(Val::Int(cut_quotient(x, y)))
        },
        (BinOp::Mod, Val::Int(x), Val::Int(y)) => if y == 0 {
            None
        } else {
            Some(Val::Int(x - y * cut_quotient(x, y)))
        },
        (BinOp::Lt, Val::Int(x), Val::Int(y)) => Some(Val::Bool(x < y)),
        (BinOp::Gt, Val::Int(x), Val::Int(y)) => Some(Val::Bool(x > y)),
        (BinOp::And, Val::Bool(x), Val::Bool(y)) => Some(Val::Bool(x && y)),
        (BinOp::Or, Val::Bool(x), Val::Bool(y)) => Some(Val::Bool(x || y)),
        (BinOp::Eq, Val::Null, Val::Null) => Some(Val::Bool(true)),
        (BinOp::Eq, Val::Int(x), Val::Int(y)) => Some(Val::Bool(x == y)),
        (BinOp::Eq, Val::Bool(x), Val::Bool(y)) => Some(Val::Bool(x == y)),
        (BinOp::Eq, Val::Str(x), Val::Str(y)) => Some(Val::Bool(x == y)),
        (BinOp::Eq, Val::Null, Val::Int(_) | Val::Bool(_) | Val::Str(_)) => Some(Val::Bool(false)),
        (BinOp::Eq, Val::Int(_), Val::Null | Val::Bool(_) | Val::Str(_)) => Some(Val::Bool(false)),
        (BinOp::Eq, Val::Bool(_), Val::Null | Val::Int(_) | Val::Str(_)) => Some(Val::Bool(false)),
        (BinOp::Eq, Val::Str(_), Val::Null | Val::Int(_) | Val::Bool(_)) => Some(Val::Bool(false)),
        _ => None,
    }
}

/// What a unary operator makes of a value.
pub open spec fn computed_unary(op: UnOp, a: Val) -> Option<Val> {
    match (op, a) {
        (UnOp::Neg, Val::Int(x)) => Some(Val::Int(-x)),
        (UnOp::Not, Val::Bool(x)) => Some(Val::Bool(!x)),
        (UnOp::ToOwned | UnOp::Borrow | UnOp::BorrowMut, v) => Some(v),
        _ => None,
    }
}

/// Whether a value is a number.
pub open spec fn is_number(v: Val) -> bool {
    v is Int || v is Float
}

/// Whether a binary operator may give a value from two: that of integers and texts, some
/// fraction where a fraction takes part, and a text where a text is added to anything.
pub open spec fn may_give(op: BinOp, a: Val, b: Val, v: Val) -> bool {
    match op {
        BinOp::Add => if a is Str || b is Str {
            v is Str
        } else if is_number(a) && is_number(b) && (a is Float || b is Float) {
            v is Float
        } else {
            computed(op, a, b) == Some(v)
        },
        BinOp::Sub | BinOp::Mul | BinOp::Div | BinOp::Mod => if is_number(a) && is_number(b) && (
        a is Float || b is Float) {
            v is Float
        } else {
            computed(op, a, b) == Some(v)
        },
        BinOp::Eq | BinOp::Lt | BinOp::Gt => v is Bool,
        BinOp::And | BinOp::Or => computed(op, a, b) == Some(v),
    }
}

/// The name of the type of a value.
pub open spec fn kind_name(v: Val) -> Seq<char> {
    match v {
        Val::Null => "null"@,
        Val::Int(_) => "int"@,
        Val::Float(_) => "float"@,
        Val::Bool(_) => "bool"@,
        Val::Str(_) => "string"@,
        Val::Array(_) => "array"@,
        Val::Table(_) => "map"@,
    }
}

} // verus!
