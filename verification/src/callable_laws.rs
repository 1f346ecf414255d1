//! What the built-in functions and those of the host give, and what is known of it.

use vstd::prelude::*;
use crate::builtins::{
    builtin_arity, builtin_at, builtin_index, builtin_params, builtin_return_type,
    law_call_index_round_trip, BuiltinFunction, ParamV,
};
use crate::host::{
    callable_named, host_accepts_arity, host_return_type, host_signature_of, leading_required,
    param_type_of, table_position, value_type_of, AbiFunction, AbiParamType, AbiValueType,
    HostFunctions,
};
use crate::infer::{builtin_type, infer, TypeEnvV, TypeNotes};
use crate::ir::ExprV;
use crate::type_laws::{law_array_types_are_sound, law_map_types_are_sound};
use crate::types::{bound_type_of, BoundType, HostCallableSignature, TypesV};
use crate::values::{belongs, is_number, is_of, kind_name, Val};

verus! {

// ---------------------------------------------------------------------------
// Built-in functions.

/// Whether a built-in function may give a value for arguments.
pub open spec fn builtin_gives(b: BuiltinFunction, xs: Seq<Val>, v: Val) -> bool {
    match b {
        BuiltinFunction::Len | BuiltinFunction::Count => v is Int,
        BuiltinFunction::Slice => match xs[0] {
            Val::Str(t) => v is Str,
            Val::Array(items) => exists|lo: int, hi: int|
                0 <= lo <= hi <= items.len() && v == Val::Array(#[trigger] items.subrange(lo, hi)),
            _ => false,
        },
        BuiltinFunction::Concat => match (xs[0], xs[1]) {
            (Val::Str(x), Val::Str(y)) => v == Val::Str(x + y),
            (Val::Array(x), Val::Array(y)) => v == Val::Array(x + y),
            _ => false,
        },
        BuiltinFunction::ArrayNew => v == Val::Array(Seq::empty()),
        BuiltinFunction::ArrayPush => xs[0] matches Val::Array(items) && v == Val::Array(
            items.push(xs[1]),
        ),
        BuiltinFunction::MapNew => v == Val::Table(Seq::empty()),
        BuiltinFunction::Get => match xs[0] {
            Val::Str(_) => v is Str,
            Val::Array(items) => exists|i: int| 0 <= i < items.len() && v == #[trigger] items[i],
            Val::Table(rows) => exists|i: int| 0 <= i < rows.len() && v == (#[trigger] rows[i]).1,
            _ => false,
        },
        BuiltinFunction::SetAt => match xs[0] {
            Val::Array(items) => exists|i: int|
                0 <= i < items.len() && v == Val::Array(#[trigger] items.update(i, xs[2])),
            Val::Table(rows) => v == Val::Table(rows.push((xs[1], xs[2]))) || exists|i: int|
                0 <= i < rows.len() && v == Val::Table(#[trigger] rows.update(i, (xs[1], xs[2]))),
            _ => false,
        },
        BuiltinFunction::Keys => match xs[0] {
            Val::Array(items) => v matches Val::Array(keys) && forall|i: int|
                0 <= i < keys.len() ==> (#[trigger] keys[i]) is Int,
            Val::Table(_) => v is Array,
            _ => false,
        },
        BuiltinFunction::TypeOf => v == Val::Str(kind_name(xs[0])),
        BuiltinFunction::ToString => v is Str,
        BuiltinFunction::Assert => v is Null,
        BuiltinFunction::FormatTemplate | BuiltinFunction::ReReplace => v is Str,
        BuiltinFunction::ReMatch => v is Bool,
        BuiltinFunction::ReFind => v is Str || v is Null,
        BuiltinFunction::ReSplit => v matches Val::Array(parts) && forall|i: int|
            0 <= i < parts.len() ==> (#[trigger] parts[i]) is Str,
        BuiltinFunction::ReCaptures => v is Array,
        BuiltinFunction::MathAbs
        | BuiltinFunction::MathFloor
        | BuiltinFunction::MathCeil
        | BuiltinFunction::MathRound
        | BuiltinFunction::MathTrunc
        | BuiltinFunction::MathSignum => (xs[0] is Int && v is Int) || (xs[0] is Float && v
            is Float),
        BuiltinFunction::MathMin | BuiltinFunction::MathMax => is_number(xs[0]) && is_number(xs[1])
            && (if xs[0] is Int && xs[1] is Int {
            v is Int
        } else {
            v is Float
        }),
        BuiltinFunction::MathClamp => is_number(xs[0]) && is_number(xs[1]) && is_number(xs[2]) && (
        if xs[0] is Int && xs[1] is Int && xs[2] is Int {
            v is Int
        } else {
            v is Float
        }),
    }
}

/// Whether a built-in function takes arguments of this kind.
pub open spec fn builtin_takes(b: BuiltinFunction, xs: Seq<Val>) -> bool {
    match b {
        BuiltinFunction::Slice => xs[1] is Int && xs[2] is Int,
        BuiltinFunction::ArrayPush => xs[0] is Array,
        BuiltinFunction::Assert => xs[0] is Bool,
        BuiltinFunction::FormatTemplate => xs[0] is Str && xs[1] is Array,
        BuiltinFunction::ReMatch
        | BuiltinFunction::ReFind
        | BuiltinFunction::ReSplit
        | BuiltinFunction::ReCaptures => xs[0] is Str && xs[1] is Str,
        BuiltinFunction::ReReplace => xs[0] is Str && xs[1] is Str && xs[2] is Str,
        BuiltinFunction::MathAbs
        | BuiltinFunction::MathFloor
        | BuiltinFunction::MathCeil
        | BuiltinFunction::MathRound
        | BuiltinFunction::MathTrunc
        | BuiltinFunction::MathSignum => is_number(xs[0]),
        BuiltinFunction::MathMin | BuiltinFunction::MathMax => is_number(xs[0]) && is_number(xs[1]),
        BuiltinFunction::MathClamp => is_number(xs[0]) && is_number(xs[1]) && is_number(xs[2]),
        _ => true,
    }
}

/// What a built-in function always returns holds of what it gives, whatever its arguments are.
pub proof fn law_results_of_builtins(b: BuiltinFunction, xs: Seq<Val>, v: Val)
    requires
        builtin_gives(b, xs, v),
    ensures
        is_of(v, bound_type_of(builtin_return_type(b))),
{
}

/// The parameters of a built-in function are declared as what it takes.
pub proof fn law_parameters_of_builtins(b: BuiltinFunction, xs: Seq<Val>)
    requires
        xs.len() == builtin_arity(b),
    ensures
        builtin_takes(b, xs) <==> forall|i: int|
            0 <= i < xs.len() ==> belongs(xs[i], (#[trigger] builtin_params(b)[i]).ty),
        builtin_params(b).len() == xs.len(),
        forall|i: int| 0 <= i < xs.len() ==> !(#[trigger] builtin_params(b)[i]).optional,
{
    let p = builtin_params(b);
    assert(xs.len() > 0 ==> p[0] == p[0]);
    assert(xs.len() > 1 ==> p[1] == p[1]);
    assert(xs.len() > 2 ==> p[2] == p[2]);
    if forall|i: int| 0 <= i < xs.len() ==> belongs(xs[i], (#[trigger] p[i]).ty) {
        assert(xs.len() > 0 ==> belongs(xs[0], p[0].ty));
        assert(xs.len() > 1 ==> belongs(xs[1], p[1].ty));
        assert(xs.len() > 2 ==> belongs(xs[2], p[2].ty));
    }
}

/// The call indices of the built-in functions are the first of the last page, one behind the
/// other.
pub proof fn law_indices_of_builtins(b: BuiltinFunction, index: u16)
    ensures
        builtin_index(b) >= 0xFF00,
        builtin_at(index) is Some && index > 0xFF00 ==> builtin_at((index - 1) as u16) is Some,
        builtin_at(index) is Some ==> index >= 0xFF00,
{
}

/// The inferred type of a call of a built-in function is a type of what it gives, wherever the
/// inferred types of its arguments are types of theirs.
#[verifier::rlimit(60)]
pub proof fn law_types_of_builtin_calls_are_sound(
    env: TypeEnvV,
    notes: TypeNotes,
    b: BuiltinFunction,
    args: Seq<ExprV>,
    state: TypesV,
    depth: nat,
    xs: Seq<Val>,
    v: Val,
)
    requires
        args.len() == builtin_arity(b),
        xs.len() == args.len(),
        forall|n: TypeNotes, i: int|
            0 <= i < args.len() ==> is_of(
                xs[i],
                (#[trigger] infer(env, n, args[i], state, depth)).0,
            ),
        builtin_gives(b, xs, v),
    ensures
        is_of(v, infer(env, notes, ExprV::Call(builtin_index(b), args), state, depth + 1).0),
{
    law_call_index_round_trip(b, builtin_index(b));
    let e = ExprV::Call(builtin_index(b), args);
    assert(infer(env, notes, e, state, depth + 1) == crate::infer::call_type(
        env,
        notes,
        e,
        state,
        depth,
    ));
    let found = builtin_type(env, notes, b, args, state, depth);
    assert(crate::infer::call_type(env, notes, e, state, depth) == found);
    law_results_of_builtins(b, xs, v);
    if args.len() > 0 {
        let (t0, n1) = infer(env, notes, args[0], state, depth);
        assert(is_of(xs[0], t0));
        if args.len() > 1 {
            let (t1, n2) = infer(env, n1, args[1], state, depth);
            assert(is_of(xs[1], t1));
            if args.len() > 2 {
                let (t2, _) = infer(env, n2, args[2], state, depth);
                assert(is_of(xs[2], t2));
                let (w2, _) = infer(env, n1, args[2], state, depth);
                assert(is_of(xs[2], w2));
                lemma_container_calls(b, xs, v, t0, t1, w2);
                lemma_number_calls(b, xs, v, t0, t1, t2);
            } else {
                lemma_container_calls(b, xs, v, t0, t1, BoundType::Unknown);
                lemma_number_calls(b, xs, v, t0, t1, BoundType::Unknown);
            }
        } else {
            lemma_container_calls(b, xs, v, t0, BoundType::Unknown, BoundType::Unknown);
            lemma_number_calls(b, xs, v, t0, BoundType::Unknown, BoundType::Unknown);
        }
    }
}

proof fn lemma_number_calls(
    b: BuiltinFunction,
    xs: Seq<Val>,
    v: Val,
    t0: BoundType,
    t1: BoundType,
    t2: BoundType,
)
    requires
        xs.len() == builtin_arity(b),
        builtin_gives(b, xs, v),
        xs.len() > 0 ==> is_of(xs[0], t0),
        xs.len() > 1 ==> is_of(xs[1], t1),
        xs.len() > 2 ==> is_of(xs[2], t2),
    ensures
        crate::infer::keeps_numeric_type(b) ==> is_of(v, crate::infer::same_numeric_type(t0)),
        b == BuiltinFunction::MathMin || b == BuiltinFunction::MathMax ==> is_of(
            v,
            crate::infer::numeric_type(t0, t1),
        ),
        b == BuiltinFunction::MathClamp ==> is_of(
            v,
            crate::infer::numeric_type(crate::infer::numeric_type(t0, t1), t2),
        ),
{
}

proof fn lemma_container_calls(
    b: BuiltinFunction,
    xs: Seq<Val>,
    v: Val,
    t0: BoundType,
    t1: BoundType,
    t2: BoundType,
)
    requires
        xs.len() == builtin_arity(b),
        builtin_gives(b, xs, v),
        xs.len() > 0 ==> is_of(xs[0], t0),
        xs.len() > 1 ==> is_of(xs[1], t1),
        xs.len() > 2 ==> is_of(xs[2], t2),
    ensures
        b == BuiltinFunction::Concat ==> is_of(v, crate::infer::concat_type(t0, t1)),
        b == BuiltinFunction::Slice ==> is_of(v, crate::infer::slice_type(t0)),
        b == BuiltinFunction::ArrayPush ==> is_of(
            v,
            crate::infer::array_push_type(t0, crate::types::simple_of(t1)),
        ),
        b == BuiltinFunction::SetAt ==> is_of(
            v,
            crate::infer::set_type(t0, crate::types::simple_of(t2)),
        ),
        b == BuiltinFunction::Get ==> is_of(v, crate::infer::get_type(t0)),
        b == BuiltinFunction::Keys ==> is_of(v, crate::infer::keys_type(t0)),
{
    match b {
        BuiltinFunction::Concat => match (xs[0], xs[1]) {
            (Val::Array(x), Val::Array(y)) => law_array_types_are_sound(
                x,
                y,
                Val::Null,
                t0,
                t1,
                BoundType::Null,
                0,
                0,
            ),
            _ => {},
        },
        BuiltinFunction::Slice => match xs[0] {
            Val::Array(x) => {
                let (lo, hi) = choose|lo: int, hi: int|
                    0 <= lo <= hi <= x.len() && v == Val::Array(#[trigger] x.subrange(lo, hi));
                law_array_types_are_sound(x, x, Val::Null, t0, t0, BoundType::Null, lo, hi);
            },
            _ => {},
        },
        BuiltinFunction::ArrayPush => match xs[0] {
            Val::Array(x) => law_array_types_are_sound(x, x, xs[1], t0, t0, t1, 0, 0),
            _ => {},
        },
        BuiltinFunction::SetAt => match xs[0] {
            Val::Array(x) => law_array_types_are_sound(x, x, xs[2], t0, t0, t2, 0, 0),
            Val::Table(x) => law_map_types_are_sound(x, xs[1], xs[2], t0, t2),
            _ => {},
        },
        BuiltinFunction::Get => match xs[0] {
            Val::Array(x) => law_array_types_are_sound(
                x,
                x,
                Val::Null,
                t0,
                t0,
                BoundType::Null,
                0,
                0,
            ),
            Val::Table(x) => law_map_types_are_sound(x, Val::Null, Val::Null, t0, BoundType::Null),
            _ => {},
        },
        _ => {},
    }
}

// ---------------------------------------------------------------------------
// Functions of the host.

/// Whether a host takes a value for a parameter of a kind.
pub open spec fn host_takes(ty: AbiParamType, v: Val) -> bool {
    match ty {
        AbiParamType::Any => true,
        AbiParamType::Null => v is Null,
        AbiParamType::Int => v is Int,
        AbiParamType::Float => v is Float,
        AbiParamType::Bool => v is Bool,
        AbiParamType::String => v is Str,
        AbiParamType::Array => v is Array,
        AbiParamType::Mapping => v is Table,
        AbiParamType::Number => v is Int || v is Float,
    }
}

/// Whether a host may give a value as a result of a kind.
pub open spec fn host_gives(ty: AbiValueType, v: Val) -> bool {
    match ty {
        AbiValueType::Unknown => true,
        AbiValueType::Null => v is Null,
        AbiValueType::Int => v is Int,
        AbiValueType::Float => v is Float,
        AbiValueType::Bool => v is Bool,
        AbiValueType::String => v is Str,
        AbiValueType::Array => v is Array,
        AbiValueType::Mapping => v is Table,
    }
}

/// A parameter of the host is declared as what the host takes for it, and a result as what it
/// gives.
pub proof fn law_types_of_the_host(param: AbiParamType, result: AbiValueType, v: Val)
    ensures
        belongs(v, param_type_of(param)) <==> host_takes(param, v),
        is_of(v, bound_type_of(value_type_of(result))) <==> host_gives(result, v),
{
}

proof fn lemma_position(list: Seq<AbiFunction>, name: Seq<char>, i: int, k: int)
    requires
        0 <= i <= k < list.len(),
        list[k].name@ == name,
        forall|j: int| 0 <= j < k ==> (#[trigger] list[j]).name@ != name,
    ensures
        table_position(list, name, i) == Some(k),
    decreases k - i,
{
    if i < k {
        lemma_position(list, name, i + 1, k);
    }
}

proof fn lemma_callable(list: Seq<HostCallableSignature>, name: Seq<char>, i: int, k: int)
    requires
        0 <= i <= k < list.len(),
        list[k].name@ == name,
        forall|j: int| 0 <= j < k ==> (#[trigger] list[j]).name@ != name,
    ensures
        callable_named(list, name, i) == Some(list[k]@),
    decreases k - i,
{
    if i < k {
        lemma_callable(list, name, i + 1, k);
    }
}

/// A function of the host is the first of its name in the table: it returns what stands there,
/// and takes as many arguments as it has parameters there.
pub proof fn law_functions_in_the_table(host: HostFunctions, name: Seq<char>, k: int, arity: u8)
    requires
        0 <= k < host.table@.len(),
        host.table@[k].name@ == name,
        forall|j: int| 0 <= j < k ==> (#[trigger] host.table@[j]).name@ != name,
    ensures
        host_return_type(host, name) == value_type_of(host.table@[k].return_type),
        host_accepts_arity(host, name, arity) <==> arity == host.table@[k].param_types@.len(),
{
    lemma_position(host.table@, name, 0, k);
}

/// A function with a full signature is known by the first of its name.
pub proof fn law_functions_with_signatures(host: HostFunctions, name: Seq<char>, k: int)
    requires
        0 <= k < host.callables@.len(),
        host.callables@[k].name@ == name,
        forall|j: int| 0 <= j < k ==> (#[trigger] host.callables@[j]).name@ != name,
    ensures
        host_signature_of(host, name) == Some(host.callables@[k]@),
{
    lemma_callable(host.callables@, name, 0, k);
}

/// The parameters that must be given are those before the first that may be left out.
pub proof fn law_required_parameters(params: Seq<ParamV>, i: int, k: int)
    requires
        0 <= i <= k <= params.len(),
        forall|j: int| i <= j < k ==> !(#[trigger] params[j]).optional,
        k < params.len() ==> params[k].optional,
    ensures
        leading_required(params, i) == k - i,
    decreases k - i,
{
    if i < k {
        law_required_parameters(params, i + 1, k);
    }
}

} // verus!
