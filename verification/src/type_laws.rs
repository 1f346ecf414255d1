//! What types are for: a type that is known says which values there may be, so what is inferred
//! holds of what is computed, and what is accepted fits.

use vstd::prelude::*;
use crate::builtins::{builtin_at, builtin_params, CallableParamType, ParamV};
use crate::check::{
    accepts, any_match, check_args, check_expr, check_if_expr, check_join, named_type, params_match,
    refined, required_from, static_bool, type_guard, CheckPlace,
};
use crate::infer::{
    array_push_type, binary_type, common_type, concat_type, get_type, infer_all, keys_type,
    match_type, merge_observed, next_arm_type, same_numeric_type, set_type, slice_type, unary_type,
    TypeEnvV, TypeNotes,
};
use crate::ir::{BinOp, ExprV, UnOp, ValueType};
use crate::types::{
    bound_label, bound_of_simple, bound_type_of, compatible, merged, simple_of, type_name_of,
    value_type_of, BoundType, SimpleType, TypesV,
};
use crate::values::{belongs, is_number, is_of, is_simple, kind_name, may_give, Val};

verus! {

// ---------------------------------------------------------------------------
// Types and values.

/// Whether a value may be where a value type is declared.
pub open spec fn is_value(v: Val, ty: ValueType) -> bool {
    match ty {
        ValueType::Unknown => true,
        ValueType::Null => v is Null,
        ValueType::Int => v is Int,
        ValueType::Float => v is Float,
        ValueType::Bool => v is Bool,
        ValueType::String => v is Str,
        ValueType::Array => v is Array,
        ValueType::Mapping => v is Table,
    }
}

/// Some value of a type.
pub open spec fn sample(ty: BoundType) -> Val {
    match ty {
        BoundType::Unknown | BoundType::Null => Val::Null,
        BoundType::Int => Val::Int(0),
        BoundType::Float => Val::Float(Seq::empty()),
        BoundType::Bool => Val::Bool(false),
        BoundType::String => Val::Str(Seq::empty()),
        BoundType::Array | BoundType::ArrayOf(_) => Val::Array(Seq::empty()),
        BoundType::Mapping | BoundType::MapOf(_) => Val::Table(Seq::empty()),
    }
}

/// Every type has a value, and every value is known by the name of its type, by its value type
/// and, where it has one, by its simple type.
pub proof fn law_types_tell_of_values(
    v: Val,
    ty: BoundType,
    declared: ValueType,
    simple: SimpleType,
)
    ensures
        is_of(sample(ty), ty),
        is_of(v, ty) ==> is_value(v, value_type_of(ty)),
        value_type_of(ty) == ValueType::Unknown <==> ty == BoundType::Unknown,
        type_name_of(ty) is None <==> ty == BoundType::Unknown,
        ty != BoundType::Unknown && is_of(v, ty) ==> type_name_of(ty) == Some(kind_name(v)),
        ty != BoundType::Unknown ==> bound_label(ty) == kind_name(sample(ty)),
        bound_label(BoundType::Unknown) == "unknown"@,
        is_of(v, bound_type_of(declared)) <==> is_value(v, declared),
        is_of(v, bound_of_simple(simple)) <==> is_simple(v, simple),
        simple_of(ty) matches Some(t) ==> (is_of(v, ty) <==> is_simple(v, t)),
        simple_of(ty) is None <==> (ty == BoundType::Unknown || sample(ty) is Array || sample(
            ty,
        ) is Table),
{
}

/// A type's name in a condition stands for the values that it names.
pub proof fn law_named_types_are_of_their_name(v: Val, state: TypesV, slot: u16, condition: ExprV)
    ensures
        named_type(kind_name(v)) matches Some(ty) && is_of(v, ty),
        type_guard(condition) matches Some((slot, ty)) ==> refined(state, condition).get(slot)
            == ty,
        type_guard(condition) is None ==> refined(state, condition) == state,
{
    reveal_strlit("null");
    reveal_strlit("int");
    reveal_strlit("float");
    reveal_strlit("bool");
    reveal_strlit("string");
    reveal_strlit("array");
    reveal_strlit("map");
    assert("null"@[0] == 'n' && "int"@[0] == 'i' && "float"@[0] == 'f' && "bool"@[0] == 'b'
        && "string"@[0] == 's' && "array"@[0] == 'a' && "map"@[0] == 'm');
}

// ---------------------------------------------------------------------------
// Operators.

/// What an operator gives from values of known types has the inferred type.
pub proof fn law_operator_types_are_sound(
    op: BinOp,
    a: Val,
    b: Val,
    v: Val,
    lhs: BoundType,
    rhs: BoundType,
)
    requires
        is_of(a, lhs),
        is_of(b, rhs),
        may_give(op, a, b, v),
    ensures
        is_of(v, binary_type(op, lhs, rhs)),
{
    match (a, b, v) {
        (Val::Array(x), Val::Array(y), Val::Array(z)) => {
            if op is Add {
                assert(z == x + y);
                assert forall|i: int| 0 <= i < z.len() implies #[trigger] z[i] == if i < x.len() {
                    x[i]
                } else {
                    y[i - x.len()]
                } by {}
            }
        },
        _ => {},
    }
}

/// Arithmetic on integers gives an integer, and with a fraction a fraction; on anything else
/// nothing is known of it.
pub proof fn law_arithmetic_types(op: BinOp, lhs: BoundType, rhs: BoundType)
    requires
        op is Sub || op is Mul || op is Div || op is Mod,
    ensures
        lhs == BoundType::Int && rhs == BoundType::Int ==> binary_type(op, lhs, rhs)
            == BoundType::Int,
        lhs == BoundType::Float && rhs == BoundType::Float ==> binary_type(op, lhs, rhs)
            == BoundType::Float,
        lhs == BoundType::Int && rhs == BoundType::Float ==> binary_type(op, lhs, rhs)
            == BoundType::Float,
        lhs == BoundType::Float && rhs == BoundType::Int ==> binary_type(op, lhs, rhs)
            == BoundType::Float,
        !(lhs == BoundType::Int || lhs == BoundType::Float) || !(rhs == BoundType::Int || rhs
            == BoundType::Float) ==> binary_type(op, lhs, rhs) == BoundType::Unknown,
{
}

/// An addition with a text is a text; of two arrays it is an array, of numbers a number; else
/// nothing is known of it.
pub proof fn law_addition_types(lhs: BoundType, rhs: BoundType, t: SimpleType, u: SimpleType)
    ensures
        lhs == BoundType::String || rhs == BoundType::String ==> binary_type(BinOp::Add, lhs, rhs)
            == BoundType::String,
        binary_type(BinOp::Add, BoundType::Int, BoundType::Int) == BoundType::Int,
        binary_type(BinOp::Add, BoundType::Int, BoundType::Float) == BoundType::Float,
        binary_type(BinOp::Add, BoundType::Float, BoundType::Int) == BoundType::Float,
        binary_type(BinOp::Add, BoundType::Float, BoundType::Float) == BoundType::Float,
        binary_type(BinOp::Add, BoundType::Array, BoundType::Array) == BoundType::Array,
        binary_type(BinOp::Add, BoundType::Array, BoundType::ArrayOf(Some(t))) == BoundType::Array,
        binary_type(BinOp::Add, BoundType::ArrayOf(Some(t)), BoundType::Array) == BoundType::Array,
        binary_type(BinOp::Add, BoundType::ArrayOf(Some(t)), BoundType::ArrayOf(Some(t)))
            == BoundType::ArrayOf(Some(t)),
        t != u ==> binary_type(
            BinOp::Add,
            BoundType::ArrayOf(Some(t)),
            BoundType::ArrayOf(Some(u)),
        ) == BoundType::Array,
        binary_type(BinOp::Add, BoundType::ArrayOf(None), BoundType::ArrayOf(Some(t)))
            == BoundType::ArrayOf(Some(t)),
        binary_type(BinOp::Add, BoundType::ArrayOf(Some(t)), BoundType::ArrayOf(None))
            == BoundType::ArrayOf(Some(t)),
        lhs != BoundType::String && rhs != BoundType::String && !(is_number(sample(lhs))
            && is_number(sample(rhs))) && !(sample(lhs) is Array && sample(rhs) is Array)
            ==> binary_type(BinOp::Add, lhs, rhs) == BoundType::Unknown,
{
}

/// Comparisons and the logical operators give truth values, and nothing else does but
/// negation of one.
pub proof fn law_truth_types(op: BinOp, lhs: BoundType, rhs: BoundType, inner: BoundType)
    ensures
        op is Eq || op is Lt || op is Gt || op is And || op is Or ==> binary_type(op, lhs, rhs)
            == BoundType::Bool,
        binary_type(op, lhs, rhs) == BoundType::Bool ==> op is Eq || op is Lt || op is Gt
            || op is And || op is Or,
        unary_type(UnOp::Not, inner) == BoundType::Bool,
        unary_type(UnOp::Neg, BoundType::Int) == BoundType::Int,
        unary_type(UnOp::Neg, BoundType::Float) == BoundType::Float,
        inner != BoundType::Int && inner != BoundType::Float ==> unary_type(UnOp::Neg, inner)
            == BoundType::Unknown,
        unary_type(UnOp::ToOwned, inner) == inner,
        unary_type(UnOp::Borrow, inner) == inner,
        unary_type(UnOp::BorrowMut, inner) == inner,
{
}

// ---------------------------------------------------------------------------
// Containers.

/// What is put into an array, joined to it, cut from it or taken out of it has the inferred
/// type.
pub proof fn law_array_types_are_sound(
    xs: Seq<Val>,
    ys: Seq<Val>,
    v: Val,
    array: BoundType,
    other: BoundType,
    value: BoundType,
    lo: int,
    hi: int,
)
    requires
        is_of(Val::Array(xs), array),
        is_of(Val::Array(ys), other),
        is_of(v, value),
        0 <= lo <= hi <= xs.len(),
    ensures
        is_of(Val::Array(xs.push(v)), array_push_type(array, simple_of(value))),
        forall|i: int|
            0 <= i < xs.len() ==> is_of(
                Val::Array(#[trigger] xs.update(i, v)),
                set_type(array, simple_of(value)),
            ),
        is_of(Val::Array(xs + ys), concat_type(array, other)),
        is_of(Val::Array(xs.subrange(lo, hi)), slice_type(array)),
        forall|i: int| 0 <= i < xs.len() ==> is_of(#[trigger] xs[i], get_type(array)),
{
    law_types_tell_of_values(v, value, ValueType::Unknown, SimpleType::Null);
    assert forall|i: int| 0 <= i < xs.len() implies is_of(#[trigger] xs[i], get_type(array)) by {
        match array {
            BoundType::ArrayOf(Some(t)) => {
                assert(is_of(Val::Array(xs), BoundType::ArrayOf(Some(t))));
                assert(Val::Array(xs)->Array_0 == xs);
                assert(0 <= i < xs.len());
                assert(is_simple(xs[i], t));
                law_types_tell_of_values(xs[i], array, ValueType::Unknown, t);
            },
            _ => {},
        }
    }
    let sum = xs + ys;
    assert(Val::Array(xs)->Array_0 == xs);
    assert(Val::Array(ys)->Array_0 == ys);
    assert(Val::Array(sum)->Array_0 == sum);
    assert forall|i: int, t: SimpleType|
        0 <= i < sum.len() && (array == BoundType::ArrayOf(Some(t)) || array == BoundType::ArrayOf(
            None,
        )) && (other == BoundType::ArrayOf(Some(t)) || other == BoundType::ArrayOf(
            None,
        )) implies #[trigger] is_simple(sum[i], t) by {
        if i < xs.len() {
            assert(sum[i] == xs[i]);
            assert(is_simple(xs[i], t));
        } else {
            assert(sum[i] == ys[i - xs.len()]);
            assert(is_simple(ys[i - xs.len()], t));
        }
    }
}

/// What is put into a map or taken out of it has the inferred type.
pub proof fn law_map_types_are_sound(
    xs: Seq<(Val, Val)>,
    key: Val,
    v: Val,
    map: BoundType,
    value: BoundType,
)
    requires
        is_of(Val::Table(xs), map),
        is_of(v, value),
    ensures
        is_of(Val::Table(xs.push((key, v))), set_type(map, simple_of(value))),
        forall|i: int|
            0 <= i < xs.len() ==> is_of(
                Val::Table(#[trigger] xs.update(i, (key, v))),
                set_type(map, simple_of(value)),
            ),
        forall|i: int| 0 <= i < xs.len() ==> is_of((#[trigger] xs[i]).1, get_type(map)),
{
    law_types_tell_of_values(v, value, ValueType::Unknown, SimpleType::Null);
    assert forall|i: int| 0 <= i < xs.len() implies is_of((#[trigger] xs[i]).1, get_type(map)) by {
        match map {
            BoundType::MapOf(Some(t)) => {
                assert(is_of(Val::Table(xs), BoundType::MapOf(Some(t))));
                assert(Val::Table(xs)->Table_0 == xs);
                assert(is_simple(xs[i].1, t));
                law_types_tell_of_values(xs[i].1, map, ValueType::Unknown, t);
            },
            _ => {},
        }
    }
}

/// What is known of the type of a container is kept: the first element gives the type of the
/// elements, another of the same type keeps it, and one of another type makes it unknown.
pub proof fn law_containers_keep_what_is_known(t: SimpleType, u: SimpleType, ty: BoundType)
    ensures
        array_push_type(BoundType::ArrayOf(None), Some(t)) == BoundType::ArrayOf(Some(t)),
        array_push_type(BoundType::ArrayOf(Some(t)), Some(t)) == BoundType::ArrayOf(Some(t)),
        t != u ==> array_push_type(BoundType::ArrayOf(Some(t)), Some(u)) == BoundType::Array,
        array_push_type(BoundType::ArrayOf(Some(t)), None) == BoundType::Array,
        array_push_type(BoundType::Array, Some(t)) == BoundType::Array,
        !(sample(ty) is Array) ==> array_push_type(ty, Some(t)) == BoundType::Unknown,
        set_type(BoundType::ArrayOf(None), Some(t)) == BoundType::ArrayOf(Some(t)),
        set_type(BoundType::ArrayOf(Some(t)), Some(t)) == BoundType::ArrayOf(Some(t)),
        set_type(BoundType::MapOf(None), Some(t)) == BoundType::MapOf(Some(t)),
        set_type(BoundType::MapOf(Some(t)), Some(t)) == BoundType::MapOf(Some(t)),
        t != u ==> set_type(BoundType::MapOf(Some(t)), Some(u)) == BoundType::Mapping,
        set_type(BoundType::MapOf(Some(t)), None) == BoundType::Mapping,
        set_type(BoundType::Mapping, Some(t)) == BoundType::Mapping,
        !(sample(ty) is Array) && !(sample(ty) is Table) ==> set_type(ty, Some(t))
            == BoundType::Unknown,
        get_type(BoundType::String) == BoundType::String,
        get_type(BoundType::ArrayOf(Some(t))) == bound_of_simple(t),
        get_type(BoundType::MapOf(Some(t))) == bound_of_simple(t),
        get_type(BoundType::Array) == BoundType::Unknown,
        get_type(BoundType::Mapping) == BoundType::Unknown,
        keys_type(BoundType::Array) == BoundType::ArrayOf(Some(SimpleType::Int)),
        keys_type(BoundType::ArrayOf(Some(t))) == BoundType::ArrayOf(Some(SimpleType::Int)),
        keys_type(BoundType::Mapping) == BoundType::Array,
        keys_type(BoundType::MapOf(Some(t))) == BoundType::Array,
        !(sample(ty) is Array) && !(sample(ty) is Table) ==> keys_type(ty) == BoundType::Unknown,
        slice_type(BoundType::String) == BoundType::String,
        sample(ty) is Array ==> slice_type(ty) == ty,
        !(sample(ty) is Array) && !(sample(ty) is Str) ==> slice_type(ty) == BoundType::Unknown,
        concat_type(BoundType::String, BoundType::String) == BoundType::String,
        concat_type(BoundType::ArrayOf(Some(t)), BoundType::ArrayOf(Some(t))) == BoundType::ArrayOf(
            Some(t),
        ),
        same_numeric_type(BoundType::Int) == BoundType::Int,
        same_numeric_type(BoundType::Float) == BoundType::Float,
        !is_number(sample(ty)) ==> same_numeric_type(ty) == BoundType::Unknown,
{
}

// ---------------------------------------------------------------------------
// Branches.

/// A type that covers two covers the values of both. It is known where both are of one kind,
/// and only there.
pub proof fn law_merged_types_cover_both(v: Val, a: BoundType, b: BoundType)
    ensures
        is_of(v, a) || is_of(v, b) ==> is_of(v, merged(a, b)),
        merged(a, b) == BoundType::Unknown <==> (a == BoundType::Unknown || b
            == BoundType::Unknown || type_name_of(a) != type_name_of(b)),
        merged(a, a) == a,
{
    lemma_names_differ();
}

pub proof fn lemma_names_differ()
    ensures
        "null"@ != "int"@,
        "null"@ != "float"@,
        "null"@ != "bool"@,
        "null"@ != "string"@,
        "null"@ != "array"@,
        "null"@ != "map"@,
        "int"@ != "float"@,
        "int"@ != "bool"@,
        "int"@ != "string"@,
        "int"@ != "array"@,
        "int"@ != "map"@,
        "float"@ != "bool"@,
        "float"@ != "string"@,
        "float"@ != "array"@,
        "float"@ != "map"@,
        "bool"@ != "string"@,
        "bool"@ != "array"@,
        "bool"@ != "map"@,
        "string"@ != "array"@,
        "string"@ != "map"@,
        "array"@ != "map"@,
{
    reveal_strlit("null");
    reveal_strlit("int");
    reveal_strlit("float");
    reveal_strlit("bool");
    reveal_strlit("string");
    reveal_strlit("array");
    reveal_strlit("map");
    assert("null"@[0] == 'n' && "int"@[0] == 'i' && "float"@[0] == 'f' && "bool"@[0] == 'b'
        && "string"@[0] == 's' && "array"@[0] == 'a' && "map"@[0] == 'm');
}

/// Branches may meet where one of them is unknown or null, or both are of one kind, and only
/// there.
pub proof fn law_compatible_types_are_of_one_kind(a: BoundType, b: BoundType)
    ensures
        compatible(a, b) <==> (a == BoundType::Unknown || b == BoundType::Unknown || a
            == BoundType::Null || b == BoundType::Null || type_name_of(a) == type_name_of(b)),
{
    lemma_names_differ();
}

/// The type of one of two values, and that of one of several arms, holds of either; it is
/// known where they agree.
pub proof fn law_chosen_types_are_sound(v: Val, a: BoundType, b: BoundType, no_arms: bool)
    ensures
        is_of(v, a) || is_of(v, b) ==> is_of(v, common_type(a, b)),
        common_type(a, a) == a,
        a != b ==> common_type(a, b) == BoundType::Unknown,
        next_arm_type(BoundType::Unknown, b) == b,
        next_arm_type(a, a) == a,
        a != BoundType::Unknown && a != b ==> next_arm_type(a, b) == BoundType::Unknown,
        match_type(true, a, b) == b,
        match_type(false, a, a) == a,
        a != b ==> match_type(false, a, b) == BoundType::Unknown,
        merge_observed(BoundType::Unknown, b) == Some(b),
        merge_observed(a, BoundType::Unknown) == Some(a),
        a != BoundType::Unknown && b != BoundType::Unknown ==> (merge_observed(a, b) matches Some(c)
            ==> c == merged(a, b) && c != BoundType::Unknown),
        merge_observed(a, b) is None ==> type_name_of(a) != type_name_of(b) && a
            != BoundType::Unknown && b != BoundType::Unknown,
        a != BoundType::Unknown && b != BoundType::Unknown && type_name_of(a) != type_name_of(b)
            ==> merge_observed(a, b) is None,
{
    lemma_names_differ();
    law_merged_types_cover_both(v, a, b);
}

// ---------------------------------------------------------------------------
// Calls.

/// A parameter accepts an argument exactly where nothing is known of it, or where every value
/// that it may have belongs to the type of the parameter.
pub proof fn law_accepted_arguments_belong(expected: CallableParamType, actual: BoundType)
    ensures
        accepts(expected, actual) <==> (actual == BoundType::Unknown || forall|v: Val|
            is_of(v, actual) ==> #[trigger] belongs(v, expected)),
{
    law_types_tell_of_values(Val::Null, actual, ValueType::Unknown, SimpleType::Null);
    if !accepts(expected, actual) {
        assert(is_of(sample(actual), actual));
        assert(!belongs(sample(actual), expected));
    }
}

proof fn lemma_required(params: Seq<ParamV>, i: int)
    requires
        0 <= i <= params.len(),
    ensures
        required_from(params, i) <= params.len() - i,
        forall|k: int| i <= k < i + required_from(params, i) ==> !(#[trigger] params[k]).optional,
        i + required_from(params, i) < params.len() ==> params[i + required_from(
            params,
            i,
        )].optional,
    decreases params.len() - i,
{
    if i < params.len() && !params[i].optional {
        lemma_required(params, i + 1);
    }
}

/// Arguments fit parameters exactly where there are no more of them than parameters, every
/// parameter without one is optional or stands behind an optional one, and each argument of
/// known type belongs to its parameter.
pub proof fn law_fitting_arguments_belong(
    params: Seq<ParamV>,
    actual: Seq<BoundType>,
    values: Seq<Val>,
)
    requires
        values.len() == actual.len(),
        forall|i: int| 0 <= i < actual.len() ==> is_of(#[trigger] values[i], actual[i]),
    ensures
        params_match(params, actual) ==> {
            &&& actual.len() <= params.len()
            &&& forall|i: int|
                0 <= i < actual.len() && actual[i] != BoundType::Unknown ==> belongs(
                    #[trigger] values[i],
                    params[i].ty,
                )
            &&& actual.len() < params.len() ==> exists|k: int|
                0 <= k <= actual.len() && (#[trigger] params[k]).optional
        },
        actual.len() == params.len() && (forall|i: int|
            0 <= i < actual.len() ==> actual[i] == BoundType::Unknown || forall|v: Val|
                is_of(v, #[trigger] actual[i]) ==> #[trigger] belongs(v, params[i].ty))
            ==> params_match(params, actual),
{
    lemma_required(params, 0);
    assert forall|i: int| 0 <= i < actual.len() implies (accepts(
        params[i].ty,
        #[trigger] actual[i],
    ) <==> (actual[i] == BoundType::Unknown || forall|v: Val|
        is_of(v, actual[i]) ==> #[trigger] belongs(v, params[i].ty))) by {
        law_accepted_arguments_belong(params[i].ty, actual[i]);
    }
    if params_match(params, actual) {
        assert forall|i: int| 0 <= i < actual.len() && actual[i]
            != BoundType::Unknown implies belongs(#[trigger] values[i], params[i].ty) by {
            assert(accepts(params[i].ty, actual[i]));
        }
        if actual.len() < params.len() {
            let k = required_from(params, 0) as int;
            assert(params[k].optional);
        }
    }
}

/// A call that passes the check fits what it calls: a built-in function by its parameters, a
/// function of the host by those that the host declares. One that does not fit is refused.
pub proof fn law_checked_calls_fit(
    env: TypeEnvV,
    notes: TypeNotes,
    index: u16,
    args: Seq<ExprV>,
    state: TypesV,
    place: CheckPlace,
    depth: nat,
)
    ensures
        ({
            let e = ExprV::Call(index, args);
            let actual = infer_all(env, notes, args, 0, state, depth).0;
            let r = check_args(env, notes, e, state, place, depth);
            match builtin_at(index) {
                Some(b) => (r is Ok <==> params_match(builtin_params(b), actual)) && (
                r matches Err((x, _)) ==> x is CallableArgumentTypeMismatch),
                None => if env.host_signatures.dom().contains(index) {
                    (r is Ok <==> params_match(env.host_signatures[index].params, actual)) && (
                    r matches Err((x, _)) ==> x is CallableArgumentTypeMismatch)
                } else {
                    r is Ok
                },
            }
        }),
{
    match builtin_at(index) {
        Some(b) => {
            let one = seq![builtin_params(b)];
            let actual = infer_all(env, notes, args, 0, state, depth).0;
            assert(one[0] == builtin_params(b));
            if params_match(builtin_params(b), actual) {
                assert(any_match(one, actual));
            }
        },
        None => {},
    }
}

/// Two branches of an expression that may both be taken are refused exactly where their types
/// may not meet; where the condition is plain to see, only the one that is taken is checked.
pub proof fn law_checked_branches_meet(
    env: TypeEnvV,
    notes: TypeNotes,
    condition: ExprV,
    yes: ExprV,
    no: ExprV,
    state: TypesV,
    place: CheckPlace,
    depth: nat,
)
    requires
        check_expr(env, notes, condition, state, place, depth) is Ok,
    ensures
        ({
            let n1 = check_expr(env, notes, condition, state, place, depth)->Ok_0.1;
            let r = check_if_expr(env, notes, condition, yes, no, state, place, depth);
            let known = refined(state, condition);
            match static_bool(condition) {
                Some(true) => r == check_expr(env, n1, yes, known, place, depth),
                Some(false) => r == check_expr(env, n1, no, state, place, depth),
                None => match check_expr(env, n1, yes, known, place, depth) {
                    Ok((a, n2)) => match check_expr(env, n2, no, state, place, depth) {
                        Ok((b, _)) => (r is Ok <==> (a == BoundType::Unknown || b
                            == BoundType::Unknown || a == BoundType::Null || b == BoundType::Null
                            || type_name_of(a) == type_name_of(b))) && (r matches Err((x, _))
                            ==> x is IfElseBranchTypeMismatch) && (r matches Ok((t, _)) ==> (a == b
                            ==> t == a) && (a != b ==> t == BoundType::Unknown)),
                        Err(_) => r is Err,
                    },
                    Err(_) => r is Err,
                },
            }
        }),
{
    if static_bool(condition) is None {
        let n1 = check_expr(env, notes, condition, state, place, depth)->Ok_0.1;
        match check_expr(env, n1, yes, refined(state, condition), place, depth) {
            Ok((a, n2)) => match check_expr(env, n2, no, state, place, depth) {
                Ok((b, _)) => law_compatible_types_are_of_one_kind(a, b),
                Err(_) => {},
            },
            Err(_) => {},
        }
    }
}

/// Two branches of statements are refused exactly where they leave some slot with types that
/// may not meet; else every slot has after them a type that covers both.
pub proof fn law_checked_branches_leave_types_that_meet(
    lhs: TypesV,
    rhs: TypesV,
    place: CheckPlace,
    slot: u16,
    v: Val,
)
    ensures
        check_join(lhs, rhs, place) is Ok <==> forall|s: u16|
            {
                let a = #[trigger] lhs.get(s);
                let b = rhs.get(s);
                a == BoundType::Unknown || b == BoundType::Unknown || a == BoundType::Null || b
                    == BoundType::Null || type_name_of(a) == type_name_of(b)
            },
        check_join(lhs, rhs, place) matches Err(x) ==> x is IfElseBranchTypeMismatch,
        is_of(v, lhs.get(slot)) || is_of(v, rhs.get(slot)) ==> is_of(
            v,
            TypesV::join(lhs, rhs).get(slot),
        ),
{
    crate::check::law_join_check(lhs, rhs, place);
    assert forall|s: u16| compatible(#[trigger] lhs.get(s), rhs.get(s)) <==> {
        let a = lhs.get(s);
        let b = rhs.get(s);
        a == BoundType::Unknown || b == BoundType::Unknown || a == BoundType::Null || b
            == BoundType::Null || type_name_of(a) == type_name_of(b)
    } by {
        law_compatible_types_are_of_one_kind(lhs.get(s), rhs.get(s));
    }
    law_merged_types_cover_both(v, lhs.get(slot), rhs.get(slot));
}

} // verus!
