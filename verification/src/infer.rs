//! Type inference: the type of an expression from what is known of the locals.
//!
//! Calls are followed into the bodies of functions and closures. `depth` bounds
//! how far: a body that would lie deeper has an unknown type.

use std::collections::HashMap;
use vstd::prelude::*;
use crate::builtins::{builtin_at, builtin_return_type, BuiltinFunction};
use crate::ir::{
    arms_view, exprs_view, stmts_view, BinOp, ClosureExpr, ClosureV, Expr, ExprV, FunctionImpl,
    FunctionImplV, LocalSlot, MatchPattern, PatternV, Stmt, StmtV, UnOp,
};
use crate::param_add::{body_adds_param, function_body_contains_param_add, slots_contain};
use crate::tables::SlotTable;
use crate::text::{decimal, push_decimal};
use crate::types::{
    bound_label, bound_of_simple, bound_type_label, bound_type_of, loop_join, merge_bound_types,
    merge_container_element_types, merged, merged_array, simple_of, BoundType, CallableBinding,
    CallableV, HostCallableSignature, HostSignatureV, LocalTypeState, SimpleType, TypesV,
};

verus! {

/// The entry of a map under an integer key.
pub fn lookup<V>(map: &HashMap<u16, V>, key: u16) -> (r: Option<&V>)
    ensures
        r is Some <==> map@.dom().contains(key),
        r matches Some(v) ==> *v == map@[key],
{
    broadcast use vstd::std_specs::hash::group_hash_axioms;

    map.get(&key)
}

/// What inference knows of the program as a whole.
pub struct TypeEnvV {
    pub impls: Map<u16, FunctionImplV>,
    pub names: Map<u16, Seq<char>>,
    pub host_types: Map<u16, BoundType>,
    pub host_signatures: Map<u16, HostSignatureV>,
}

/// What inference has noted on its way: the functions it is inside of, the
/// argument types seen at calls, and the first conflict among them.
pub struct TypeNotes {
    pub active: Seq<u16>,
    pub observed: Map<u16, Seq<BoundType>>,
    pub conflicts: Map<u16, Seq<char>>,
}

impl TypeNotes {
    pub open spec fn empty() -> TypeNotes {
        TypeNotes { active: Seq::empty(), observed: Map::empty(), conflicts: Map::empty() }
    }
}

/// The models of the function bodies in a map.
pub open spec fn impls_view(m: Map<u16, FunctionImpl>) -> Map<u16, FunctionImplV> {
    m.map_values(|f: FunctionImpl| f@)
}

/// The contents of the strings in a map.
pub open spec fn names_view(m: Map<u16, String>) -> Map<u16, Seq<char>> {
    m.map_values(|s: String| s@)
}

/// The models of the host signatures in a map.
pub open spec fn signatures_map_view(m: Map<u16, HostCallableSignature>) -> Map<
    u16,
    HostSignatureV,
> {
    m.map_values(|s: HostCallableSignature| s@)
}

/// The contents of the vectors in a map.
pub open spec fn observed_view(m: Map<u16, Vec<BoundType>>) -> Map<u16, Seq<BoundType>> {
    m.map_values(|v: Vec<BoundType>| v@)
}

// ---------------------------------------------------------------------------
// Types of operators and built-in functions.

pub open spec fn is_numeric(ty: BoundType) -> bool {
    ty == BoundType::Int || ty == BoundType::Float
}

/// The type of an arithmetic operation: an integer from integers, else a float.
pub open spec fn numeric_type(lhs: BoundType, rhs: BoundType) -> BoundType {
    if lhs == BoundType::Int && rhs == BoundType::Int {
        BoundType::Int
    } else if is_numeric(lhs) && is_numeric(rhs) {
        BoundType::Float
    } else {
        BoundType::Unknown
    }
}

/// The type of two arrays joined end to end, where both are arrays.
pub open spec fn array_concat_type(lhs: BoundType, rhs: BoundType) -> Option<BoundType> {
    match (lhs, rhs) {
        (BoundType::ArrayOf(l), BoundType::ArrayOf(r)) => Some(merged_array(l, r)),
        (BoundType::Array, BoundType::Array) => Some(BoundType::Array),
        (BoundType::Array, BoundType::ArrayOf(_)) => Some(BoundType::Array),
        (BoundType::ArrayOf(_), BoundType::Array) => Some(BoundType::Array),
        _ => None,
    }
}

pub open spec fn binary_type(op: BinOp, lhs: BoundType, rhs: BoundType) -> BoundType {
    match op {
        BinOp::Add => if lhs == BoundType::String || rhs == BoundType::String {
            BoundType::String
        } else {
            match array_concat_type(lhs, rhs) {
                Some(ty) => ty,
                None => numeric_type(lhs, rhs),
            }
        },
        BinOp::Sub | BinOp::Mul | BinOp::Div | BinOp::Mod => numeric_type(lhs, rhs),
        BinOp::And | BinOp::Or | BinOp::Eq | BinOp::Lt | BinOp::Gt => BoundType::Bool,
    }
}

pub open spec fn unary_type(op: UnOp, inner: BoundType) -> BoundType {
    match op {
        UnOp::Neg => if is_numeric(inner) {
            inner
        } else {
            BoundType::Unknown
        },
        UnOp::Not => BoundType::Bool,
        UnOp::ToOwned | UnOp::Borrow | UnOp::BorrowMut => inner,
    }
}

pub open spec fn concat_type(lhs: BoundType, rhs: BoundType) -> BoundType {
    if lhs == BoundType::String && rhs == BoundType::String {
        BoundType::String
    } else {
        match array_concat_type(lhs, rhs) {
            Some(ty) => ty,
            None => BoundType::Unknown,
        }
    }
}

pub open spec fn slice_type(source: BoundType) -> BoundType {
    match source {
        BoundType::String | BoundType::Array | BoundType::ArrayOf(_) => source,
        _ => BoundType::Unknown,
    }
}

/// The type of an array after an element of a given type was put in.
pub open spec fn array_put_type(
    element: Option<SimpleType>,
    value: Option<SimpleType>,
) -> BoundType {
    match value {
        Some(v) => if element is None || element == value {
            BoundType::ArrayOf(value)
        } else {
            BoundType::Array
        },
        None => BoundType::Array,
    }
}

pub open spec fn array_push_type(array: BoundType, value: Option<SimpleType>) -> BoundType {
    match array {
        BoundType::ArrayOf(element) => array_put_type(element, value),
        BoundType::Array => BoundType::Array,
        _ => BoundType::Unknown,
    }
}

pub open spec fn set_type(container: BoundType, value: Option<SimpleType>) -> BoundType {
    match container {
        BoundType::ArrayOf(element) => array_put_type(element, value),
        BoundType::Array => BoundType::Array,
        BoundType::MapOf(element) => match value {
            Some(v) => if element is None || element == value {
                BoundType::MapOf(value)
            } else {
                BoundType::Mapping
            },
            None => BoundType::Mapping,
        },
        BoundType::Mapping => BoundType::Mapping,
        _ => BoundType::Unknown,
    }
}

pub open spec fn get_type(container: BoundType) -> BoundType {
    match container {
        BoundType::String => BoundType::String,
        BoundType::ArrayOf(Some(element)) => bound_of_simple(element),
        BoundType::MapOf(Some(element)) => bound_of_simple(element),
        _ => BoundType::Unknown,
    }
}

pub open spec fn keys_type(container: BoundType) -> BoundType {
    match container {
        BoundType::Array | BoundType::ArrayOf(_) => BoundType::ArrayOf(Some(SimpleType::Int)),
        BoundType::Mapping | BoundType::MapOf(_) => BoundType::Array,
        _ => BoundType::Unknown,
    }
}

pub open spec fn same_numeric_type(ty: BoundType) -> BoundType {
    if is_numeric(ty) {
        ty
    } else {
        BoundType::Unknown
    }
}

/// Built-in functions whose result has the numeric type of their argument.
pub open spec fn keeps_numeric_type(b: BuiltinFunction) -> bool {
    b == BuiltinFunction::MathAbs || b == BuiltinFunction::MathFloor || b
        == BuiltinFunction::MathCeil || b == BuiltinFunction::MathRound || b
        == BuiltinFunction::MathTrunc || b == BuiltinFunction::MathSignum
}

/// The type of a match from the types of the arms so far.
pub open spec fn next_arm_type(so_far: BoundType, ty: BoundType) -> BoundType {
    if so_far == BoundType::Unknown {
        ty
    } else if so_far == ty {
        so_far
    } else {
        BoundType::Unknown
    }
}

/// The type of a match from the types of its arms and its default.
pub open spec fn match_type(no_arms: bool, arms: BoundType, default: BoundType) -> BoundType {
    if no_arms {
        default
    } else if arms != BoundType::Unknown && arms == default {
        arms
    } else {
        BoundType::Unknown
    }
}

pub open spec fn common_type(lhs: BoundType, rhs: BoundType) -> BoundType {
    if lhs == rhs {
        lhs
    } else {
        BoundType::Unknown
    }
}

pub fn is_numeric_bound_type(value: BoundType) -> (r: bool)
    ensures
        r == is_numeric(value),
{
    value == BoundType::Int || value == BoundType::Float
}

fn infer_numeric_type(lhs: BoundType, rhs: BoundType) -> (r: BoundType)
    ensures
        r == numeric_type(lhs, rhs),
{
    if lhs == BoundType::Int && rhs == BoundType::Int {
        BoundType::Int
    } else if is_numeric_bound_type(lhs) && is_numeric_bound_type(rhs) {
        BoundType::Float
    } else {
        BoundType::Unknown
    }
}

pub fn infer_array_concat_type(lhs: BoundType, rhs: BoundType) -> (r: Option<BoundType>)
    ensures
        r == array_concat_type(lhs, rhs),
{
    match (lhs, rhs) {
        (BoundType::ArrayOf(l), BoundType::ArrayOf(r)) => Some(merge_container_element_types(l, r)),
        (BoundType::Array, BoundType::Array) => Some(BoundType::Array),
        (BoundType::Array, BoundType::ArrayOf(_)) => Some(BoundType::Array),
        (BoundType::ArrayOf(_), BoundType::Array) => Some(BoundType::Array),
        _ => None,
    }
}

/// The type of a binary operation from the types of its operands.
pub fn infer_binary_type(expr: &Expr, lhs: BoundType, rhs: BoundType) -> (r: BoundType)
    ensures
        expr@ matches ExprV::Binary(op, _, _) ==> r == binary_type(op, lhs, rhs),
        !(expr@ is Binary) ==> r == BoundType::Unknown,
{
    match expr {
        Expr::Add(_, _) => {
            if lhs == BoundType::String || rhs == BoundType::String {
                BoundType::String
            } else {
                match infer_array_concat_type(lhs, rhs) {
                    Some(array_ty) => array_ty,
                    None => infer_numeric_type(lhs, rhs),
                }
            }
        },
        Expr::Sub(_, _) | Expr::Mul(_, _) | Expr::Div(_, _) | Expr::Mod(_, _) => {
            infer_numeric_type(lhs, rhs)
        },
        Expr::And(_, _) | Expr::Or(_, _) | Expr::Eq(_, _) | Expr::Lt(_, _) | Expr::Gt(_, _) => {
            BoundType::Bool
        },
        _ => BoundType::Unknown,
    }
}

/// The type of a negation from the type of its operand.
pub fn infer_unary_type(expr: &Expr, inner: BoundType) -> (r: BoundType)
    ensures
        expr@ matches ExprV::Unary(op, _) ==> (op is Neg || op is Not ==> r == unary_type(
            op,
            inner,
        )),
        !(expr@ is Unary) ==> r == BoundType::Unknown,
{
    match expr {
        Expr::Neg(_) => {
            if is_numeric_bound_type(inner) {
                inner
            } else {
                BoundType::Unknown
            }
        },
        Expr::Not(_) => BoundType::Bool,
        _ => BoundType::Unknown,
    }
}

fn array_put(element: Option<SimpleType>, value: Option<SimpleType>) -> (r: BoundType)
    ensures
        r == array_put_type(element, value),
{
    match (element, value) {
        (None, Some(_)) => BoundType::ArrayOf(value),
        (Some(e), Some(v)) => if e == v {
            BoundType::ArrayOf(value)
        } else {
            BoundType::Array
        },
        (_, None) => BoundType::Array,
    }
}

// ---------------------------------------------------------------------------
// The model of inference.

/// The callable that an expression evaluates to, where that is plain to see.
pub open spec fn callable_of(e: ExprV, state: TypesV) -> Option<CallableV> {
    match e {
        ExprV::Closure(closure) => Some(CallableV::Closure(closure)),
        ExprV::FunctionRef(index) => Some(CallableV::Function(index)),
        ExprV::Var(slot) => state.callable(slot),
        ExprV::MoveVar(slot) => state.callable(slot),
        _ => None,
    }
}

/// A state after a slot took the result of an expression of a given type.
pub open spec fn bind_result(
    state: TypesV,
    slot: LocalSlot,
    e: ExprV,
    expr_state: TypesV,
    ty: BoundType,
) -> TypesV {
    match callable_of(e, expr_state) {
        Some(callable) => state.bind(slot, callable),
        None => state.set(slot, ty),
    }
}

/// Whether a function adds its parameters and captures nothing: its argument
/// types must then agree among all calls.
pub open spec fn strict_add(env: TypeEnvV, index: u16) -> bool {
    env.impls.dom().contains(index) && env.impls[index].captures.len() == 0 && body_adds_param(
        env.impls[index].params,
        env.impls[index].body_stmts,
        env.impls[index].body_expr,
    )
}

/// The name of a function in messages.
pub open spec fn function_label(env: TypeEnvV, index: u16) -> Seq<char> {
    if env.names.dom().contains(index) {
        env.names[index]
    } else {
        "<anonymous>"@
    }
}

/// The message on two calls that disagree about an argument.
pub open spec fn conflict_message(
    name: Seq<char>,
    position: nat,
    lhs: BoundType,
    rhs: BoundType,
) -> Seq<char> {
    "function '"@ + name + "' is called with conflicting inferred types for arg"@ + decimal(
        position,
    ) + ": "@ + bound_label(lhs) + " vs "@ + bound_label(rhs)
}

/// Merges the type of an argument into what earlier calls passed: the merged
/// type, or nothing where the two disagree.
pub open spec fn merge_observed(current: BoundType, next: BoundType) -> Option<BoundType> {
    if current == BoundType::Unknown {
        Some(next)
    } else if next == BoundType::Unknown || current == next {
        Some(current)
    } else if merged(current, next) != BoundType::Unknown {
        Some(merged(current, next))
    } else {
        None
    }
}

/// Notes the argument types of a call from position `k` on.
pub open spec fn observe_from(
    env: TypeEnvV,
    index: u16,
    types: Seq<BoundType>,
    conflicts: Map<u16, Seq<char>>,
    actual: Seq<BoundType>,
    k: int,
) -> (Seq<BoundType>, Map<u16, Seq<char>>)
    decreases actual.len() - k,
{
    if k < 0 || k >= actual.len() {
        (types, conflicts)
    } else {
        match merge_observed(types[k], actual[k]) {
            Some(ty) => observe_from(
                env,
                index,
                types.update(k, ty),
                conflicts,
                actual,
                k + 1,
            ),
            None => if strict_add(env, index) {
                let noted = if conflicts.dom().contains(index) {
                    conflicts
                } else {
                    conflicts.insert(
                        index,
                        conflict_message(
                            function_label(env, index),
                            (k + 1) as nat,
                            types[k],
                            actual[k],
                        ),
                    )
                };
                observe_from(env, index, types, noted, actual, k + 1)
            } else {
                observe_from(
                    env,
                    index,
                    types.update(k, BoundType::Unknown),
                    conflicts,
                    actual,
                    k + 1,
                )
            },
        }
    }
}

/// A sequence of types filled up with unknown ones to a given length.
pub open spec fn padded(types: Seq<BoundType>, len: nat) -> Seq<BoundType> {
    if types.len() >= len {
        types
    } else {
        types + Seq::new((len - types.len()) as nat, |i: int| BoundType::Unknown)
    }
}

/// The argument types seen so far at calls of a function.
pub open spec fn observed_types(notes: TypeNotes, index: u16) -> Seq<BoundType> {
    if notes.observed.dom().contains(index) {
        notes.observed[index]
    } else {
        Seq::empty()
    }
}

/// The notes after a call with arguments of given types.
pub open spec fn observe_types(
    env: TypeEnvV,
    notes: TypeNotes,
    index: u16,
    actual: Seq<BoundType>,
) -> TypeNotes {
    let (types, conflicts) = observe_from(
        env,
        index,
        padded(observed_types(notes, index), actual.len()),
        notes.conflicts,
        actual,
        0,
    );
    TypeNotes { observed: notes.observed.insert(index, types), conflicts, ..notes }
}

/// The notes after a call.
pub open spec fn observe(
    env: TypeEnvV,
    notes: TypeNotes,
    index: u16,
    args: Seq<ExprV>,
    state: TypesV,
    depth: nat,
) -> TypeNotes
    decreases depth, 2nat, 0nat,
{
    let (actual, seen) = infer_all(env, notes, args, 0, state, depth);
    observe_types(env, seen, index, actual)
}

/// The types of a list of expressions from position `i` on.
pub open spec fn infer_all(
    env: TypeEnvV,
    notes: TypeNotes,
    list: Seq<ExprV>,
    i: int,
    state: TypesV,
    depth: nat,
) -> (Seq<BoundType>, TypeNotes)
    decreases depth, 1nat, list.len() - i,
{
    if i < 0 || i >= list.len() {
        (Seq::empty(), notes)
    } else {
        let (ty, n1) = infer(env, notes, list[i], state, depth);
        let (rest, n2) = infer_all(env, n1, list, i + 1, state, depth);
        (seq![ty] + rest, n2)
    }
}

/// The type of the arms of a match from position `i` on.
pub open spec fn infer_arms(
    env: TypeEnvV,
    notes: TypeNotes,
    arms: Seq<(PatternV, ExprV)>,
    i: int,
    state: TypesV,
    so_far: BoundType,
    depth: nat,
) -> (BoundType, TypeNotes)
    decreases depth, 1nat, arms.len() - i,
{
    if i < 0 || i >= arms.len() {
        (so_far, notes)
    } else {
        let (ty, n1) = infer(env, notes, arms[i].1, state, depth);
        infer_arms(env, n1, arms, i + 1, state, next_arm_type(so_far, ty), depth)
    }
}

/// The type of an expression.
pub open spec fn infer(
    env: TypeEnvV,
    notes: TypeNotes,
    e: ExprV,
    state: TypesV,
    depth: nat,
) -> (BoundType, TypeNotes)
    decreases depth, 0nat, 0nat,
{
    if depth == 0 {
        (BoundType::Unknown, notes)
    } else {
        let d = (depth - 1) as nat;
        match e {
            ExprV::Null => (BoundType::Null, notes),
            ExprV::Int(_) => (BoundType::Int, notes),
            ExprV::Float(_) => (BoundType::Float, notes),
            ExprV::Bool(_) => (BoundType::Bool, notes),
            ExprV::Str(_) => (BoundType::String, notes),
            ExprV::Unary(op, inner) => {
                let (ty, n) = infer(env, notes, *inner, state, d);
                (unary_type(op, ty), n)
            },
            ExprV::Var(slot) => (state.get(slot), notes),
            ExprV::MoveVar(slot) => (state.get(slot), notes),
            ExprV::MoveField(root, _) => (state.get(root), notes),
            ExprV::MoveIndex(root, _) => (state.get(root), notes),
            ExprV::Binary(op, l, r) => {
                let (lt, n1) = infer(env, notes, *l, state, d);
                let (rt, n2) = infer(env, n1, *r, state, d);
                (binary_type(op, lt, rt), n2)
            },
            ExprV::IfElse(_, t, f) => {
                let (tt, n1) = infer(env, notes, *t, state, d);
                let (ft, n2) = infer(env, n1, *f, state, d);
                (common_type(tt, ft), n2)
            },
            ExprV::Match { value_slot, value, arms, default, .. } => {
                let (vt, n1) = infer(env, notes, *value, state, d);
                let nested = bind_result(state, value_slot, *value, state, vt);
                let (at, n2) = infer_arms(env, n1, arms, 0, nested, BoundType::Unknown, d);
                let (dt, n3) = infer(env, n2, *default, nested, d);
                (match_type(arms.len() == 0, at, dt), n3)
            },
            ExprV::Block(stmts, expr) => {
                let (nested, n1) = apply_from(env, notes, stmts, 0, state, d);
                infer(env, n1, *expr, nested, d)
            },
            _ => call_type(env, notes, e, state, d),
        }
    }
}

/// The type of a call.
pub open spec fn call_type(
    env: TypeEnvV,
    notes: TypeNotes,
    e: ExprV,
    state: TypesV,
    depth: nat,
) -> (BoundType, TypeNotes)
    decreases depth, 6nat, 0nat,
{
    match e {
        ExprV::Call(index, args) => match builtin_at(index) {
            Some(builtin) => builtin_type(env, notes, builtin, args, state, depth),
            None => function_or_host_type(env, notes, index, args, state, depth),
        },
        ExprV::LocalCall(slot, args) => match state.callable(slot) {
            Some(CallableV::Function(index)) => function_or_host_type(
                env,
                notes,
                index,
                args,
                state,
                depth,
            ),
            Some(CallableV::Closure(closure)) => closure_type(
                env,
                notes,
                closure,
                args,
                state,
                depth,
            ),
            None => (BoundType::Unknown, notes),
        },
        ExprV::ClosureCall(closure, args) => closure_type(
            env,
            notes,
            closure,
            args,
            state,
            depth,
        ),
        _ => (BoundType::Unknown, notes),
    }
}

/// The type of a call of a function: from its body, else as the host declared it.
pub open spec fn function_or_host_type(
    env: TypeEnvV,
    notes: TypeNotes,
    index: u16,
    args: Seq<ExprV>,
    state: TypesV,
    depth: nat,
) -> (BoundType, TypeNotes)
    decreases depth, 5nat, 0nat,
{
    let (ty, n) = function_type(env, notes, index, args, state, depth);
    if ty != BoundType::Unknown {
        (ty, n)
    } else if env.host_types.dom().contains(index) {
        (env.host_types[index], n)
    } else {
        (BoundType::Unknown, n)
    }
}

/// The type of a call of a built-in function.
pub open spec fn builtin_type(
    env: TypeEnvV,
    notes: TypeNotes,
    b: BuiltinFunction,
    args: Seq<ExprV>,
    state: TypesV,
    depth: nat,
) -> (BoundType, TypeNotes)
    decreases depth, 2nat, 0nat,
{
    let n = args.len();
    if b == BuiltinFunction::ArrayNew {
        (BoundType::ArrayOf(None), notes)
    } else if b == BuiltinFunction::MapNew {
        (BoundType::MapOf(None), notes)
    } else if b == BuiltinFunction::Concat && n == 2 {
        let (lt, n1) = infer(env, notes, args[0], state, depth);
        let (rt, n2) = infer(env, n1, args[1], state, depth);
        (concat_type(lt, rt), n2)
    } else if b == BuiltinFunction::Slice && n == 3 {
        let (ty, n1) = infer(env, notes, args[0], state, depth);
        (slice_type(ty), n1)
    } else if b == BuiltinFunction::ArrayPush && n == 2 {
        let (array, n1) = infer(env, notes, args[0], state, depth);
        let (value, n2) = infer(env, n1, args[1], state, depth);
        (array_push_type(array, simple_of(value)), n2)
    } else if b == BuiltinFunction::SetAt && n == 3 {
        let (container, n1) = infer(env, notes, args[0], state, depth);
        let (value, n2) = infer(env, n1, args[2], state, depth);
        (set_type(container, simple_of(value)), n2)
    } else if b == BuiltinFunction::Get && n == 2 {
        let (container, n1) = infer(env, notes, args[0], state, depth);
        (get_type(container), n1)
    } else if b == BuiltinFunction::Keys && n == 1 {
        let (container, n1) = infer(env, notes, args[0], state, depth);
        (keys_type(container), n1)
    } else if b == BuiltinFunction::ReSplit {
        (BoundType::ArrayOf(Some(SimpleType::String)), notes)
    } else if b == BuiltinFunction::ReCaptures {
        (BoundType::Array, notes)
    } else if keeps_numeric_type(b) && n == 1 {
        let (ty, n1) = infer(env, notes, args[0], state, depth);
        (same_numeric_type(ty), n1)
    } else if (b == BuiltinFunction::MathMin || b == BuiltinFunction::MathMax) && n == 2 {
        let (lt, n1) = infer(env, notes, args[0], state, depth);
        let (rt, n2) = infer(env, n1, args[1], state, depth);
        (numeric_type(lt, rt), n2)
    } else if b == BuiltinFunction::MathClamp && n == 3 {
        let (t0, n1) = infer(env, notes, args[0], state, depth);
        let (t1, n2) = infer(env, n1, args[1], state, depth);
        let (t2, n3) = infer(env, n2, args[2], state, depth);
        (numeric_type(numeric_type(t0, t1), t2), n3)
    } else {
        (bound_type_of(builtin_return_type(b)), notes)
    }
}

/// The type of a call of a function that the program defines.
pub open spec fn function_type(
    env: TypeEnvV,
    notes: TypeNotes,
    index: u16,
    args: Seq<ExprV>,
    state: TypesV,
    depth: nat,
) -> (BoundType, TypeNotes)
    decreases depth, 4nat, 0nat,
{
    if !env.impls.dom().contains(index) {
        (BoundType::Unknown, notes)
    } else {
        let f = env.impls[index];
        let n1 = observe(env, notes, index, args, state, depth);
        if n1.active.contains(index) {
            (BoundType::Unknown, n1)
        } else {
            let inside = TypeNotes { active: n1.active.push(index), ..n1 };
            let (ty, n2) = body_type(
                env,
                inside,
                f.params,
                f.captures,
                f.body_stmts,
                f.body_expr,
                args,
                state,
                depth,
            );
            (ty, TypeNotes { active: n1.active, ..n2 })
        }
    }
}

/// The type of a call of a closure.
pub open spec fn closure_type(
    env: TypeEnvV,
    notes: TypeNotes,
    closure: ClosureV,
    args: Seq<ExprV>,
    state: TypesV,
    depth: nat,
) -> (BoundType, TypeNotes)
    decreases depth, 4nat, 0nat,
{
    body_type(
        env,
        notes,
        closure.params,
        closure.captures,
        Seq::empty(),
        *closure.body,
        args,
        state,
        depth,
    )
}

/// A state with what a caller knows of captured slots, from position `i` on.
pub open spec fn capture_from(
    state: TypesV,
    caller: TypesV,
    captures: Seq<(LocalSlot, LocalSlot)>,
    i: int,
) -> TypesV
    decreases captures.len() - i,
{
    if i < 0 || i >= captures.len() {
        state
    } else {
        capture_from(
            state.copy_from(caller, captures[i].0, captures[i].1),
            caller,
            captures,
            i + 1,
        )
    }
}

/// A state with the arguments of a call bound to its parameters, from position `i` on.
pub open spec fn bind_args(
    env: TypeEnvV,
    notes: TypeNotes,
    nested: TypesV,
    params: Seq<LocalSlot>,
    args: Seq<ExprV>,
    i: int,
    caller: TypesV,
    depth: nat,
) -> (TypesV, TypeNotes)
    decreases depth, 1nat, args.len() - i,
{
    if i < 0 || i >= args.len() {
        (nested, notes)
    } else {
        match callable_of(args[i], caller) {
            Some(callable) => bind_args(
                env,
                notes,
                nested.bind(params[i], callable),
                params,
                args,
                i + 1,
                caller,
                depth,
            ),
            None => {
                let (ty, n1) = infer(env, notes, args[i], caller, depth);
                bind_args(env, n1, nested.set(params[i], ty), params, args, i + 1, caller, depth)
            },
        }
    }
}

/// The type that a body has when called with given arguments.
pub open spec fn body_type(
    env: TypeEnvV,
    notes: TypeNotes,
    params: Seq<LocalSlot>,
    captures: Seq<(LocalSlot, LocalSlot)>,
    stmts: Seq<StmtV>,
    expr: ExprV,
    args: Seq<ExprV>,
    caller: TypesV,
    depth: nat,
) -> (BoundType, TypeNotes)
    decreases depth, 3nat, 0nat,
{
    if params.len() != args.len() {
        (BoundType::Unknown, notes)
    } else {
        let captured = capture_from(TypesV::empty(), caller, captures, 0);
        let (bound, n1) = bind_args(env, notes, captured, params, args, 0, caller, depth);
        let (after, n2) = apply_from(env, n1, stmts, 0, bound, depth);
        infer(env, n2, expr, after, depth)
    }
}

/// The state after a list of statements, from position `i` on.
pub open spec fn apply_from(
    env: TypeEnvV,
    notes: TypeNotes,
    stmts: Seq<StmtV>,
    i: int,
    state: TypesV,
    depth: nat,
) -> (TypesV, TypeNotes)
    decreases depth, 1nat, stmts.len() - i,
{
    if i < 0 || i >= stmts.len() {
        (state, notes)
    } else {
        let (s1, n1) = apply(env, notes, stmts[i], state, depth);
        apply_from(env, n1, stmts, i + 1, s1, depth)
    }
}

/// The state after an assignment.
pub open spec fn assign(
    env: TypeEnvV,
    notes: TypeNotes,
    index: LocalSlot,
    expr: ExprV,
    state: TypesV,
    depth: nat,
) -> (TypesV, TypeNotes)
    decreases depth, 1nat, 0nat,
{
    match callable_of(expr, state) {
        Some(callable) => (state.bind(index, callable), notes),
        None => {
            let (ty, n1) = infer(env, notes, expr, state, depth);
            (state.set(index, ty), n1)
        },
    }
}

/// The state after a statement.
pub open spec fn apply(
    env: TypeEnvV,
    notes: TypeNotes,
    stmt: StmtV,
    state: TypesV,
    depth: nat,
) -> (TypesV, TypeNotes)
    decreases depth, 0nat, 0nat,
{
    if depth == 0 {
        (state, notes)
    } else {
        let d = (depth - 1) as nat;
        match stmt {
            StmtV::Drop { index, .. } => (state.set(index, BoundType::Null), notes),
            StmtV::ClosureLet { closure, .. } => (
                state,
                infer(env, notes, *closure.body, state, d).1,
            ),
            StmtV::Let { index, expr, .. } => assign(env, notes, index, expr, state, d),
            StmtV::Assign { index, expr, .. } => assign(env, notes, index, expr, state, d),
            StmtV::Expr { expr, .. } => (state, infer(env, notes, expr, state, d).1),
            StmtV::IfElse { condition, then_branch, else_branch, .. } => {
                let n1 = infer(env, notes, condition, state, d).1;
                let (ts, n2) = apply_from(env, n1, then_branch, 0, state, d);
                let (es, n3) = apply_from(env, n2, else_branch, 0, state, d);
                (TypesV::join(ts, es), n3)
            },
            StmtV::For { init, condition, post, body, .. } => {
                let (s1, n1) = apply(env, notes, *init, state, d);
                apply_loop(env, n1, condition, body, Some(*post), s1, d)
            },
            StmtV::While { condition, body, .. } => apply_loop(
                env,
                notes,
                condition,
                body,
                None,
                state,
                d,
            ),
            _ => (state, notes),
        }
    }
}

/// The state after one round of a loop.
pub open spec fn apply_round(
    env: TypeEnvV,
    notes: TypeNotes,
    condition: ExprV,
    body: Seq<StmtV>,
    post: Option<StmtV>,
    state: TypesV,
    depth: nat,
) -> (TypesV, TypeNotes)
    decreases depth, 2nat, 0nat,
{
    let n1 = infer(env, notes, condition, state, depth).1;
    let (s2, n2) = apply_from(env, n1, body, 0, state, depth);
    match post {
        Some(p) => apply(env, n2, p, s2, depth),
        None => (s2, n2),
    }
}

/// The state after a loop: what holds after none, one or two rounds.
pub open spec fn apply_loop(
    env: TypeEnvV,
    notes: TypeNotes,
    condition: ExprV,
    body: Seq<StmtV>,
    post: Option<StmtV>,
    state: TypesV,
    depth: nat,
) -> (TypesV, TypeNotes)
    decreases depth, 3nat, 0nat,
{
    let (first, n1) = apply_round(env, notes, condition, body, post, state, depth);
    let (second, n2) = apply_round(env, n1, condition, body, post, first, depth);
    (loop_join(state, first, second), n2)
}

// ---------------------------------------------------------------------------
// Inference.

/// The callable that an expression evaluates to, where that is plain to see.
pub fn callable_binding_from_expr(expr: &Expr, state: &LocalTypeState) -> (r: Option<
    CallableBinding,
>)
    ensures
        r is Some <==> callable_of(expr@, state@) is Some,
        r matches Some(c) ==> callable_of(expr@, state@) == Some(c@),
{
    match expr {
        Expr::Closure(closure) => Some(CallableBinding::Closure(closure.clone())),
        Expr::FunctionRef(index) => Some(CallableBinding::Function(*index)),
        Expr::Var(slot) | Expr::MoveVar(slot) => match state.callable(*slot) {
            Some(callable) => Some(callable.clone()),
            None => None,
        },
        _ => None,
    }
}

pub fn bind_expr_result_to_slot(
    state: &mut LocalTypeState,
    slot: LocalSlot,
    expr: &Expr,
    expr_state: &LocalTypeState,
    ty: BoundType,
)
    ensures
        final(state)@ == bind_result(old(state)@, slot, expr@, expr_state@, ty),
{
    match callable_binding_from_expr(expr, expr_state) {
        Some(callable) => state.bind_callable(slot, callable),
        None => state.set(slot, ty),
    }
}

/// Merges the type of an argument into what earlier calls passed.
pub fn merge_observed_function_param_type(current: BoundType, next: BoundType) -> (r: Result<
    BoundType,
    (BoundType, BoundType),
>)
    ensures
        match merge_observed(current, next) {
            Some(ty) => r == Ok::<BoundType, (BoundType, BoundType)>(ty),
            None => r == Err::<BoundType, (BoundType, BoundType)>((current, next)),
        },
{
    if current == BoundType::Unknown {
        return Ok(next);
    }
    if next == BoundType::Unknown || current == next {
        return Ok(current);
    }
    let both = merge_bound_types(current, next);
    if both != BoundType::Unknown {
        Ok(both)
    } else {
        Err((current, next))
    }
}

fn build_conflict_message(name: &str, position: u64, lhs: BoundType, rhs: BoundType) -> (r: String)
    ensures
        r@ == conflict_message(name@, position as nat, lhs, rhs),
{
    let mut out = "function '".to_string();
    out.push_str(name);
    out.push_str("' is called with conflicting inferred types for arg");
    push_decimal(&mut out, position);
    out.push_str(": ");
    out.push_str(bound_type_label(lhs));
    out.push_str(" vs ");
    out.push_str(bound_type_label(rhs));
    out
}

/// Inference with its notes.
pub struct TypeContext<'a> {
    pub function_impls: &'a HashMap<u16, FunctionImpl>,
    pub function_names: &'a HashMap<u16, String>,
    pub host_import_return_types: &'a HashMap<u16, BoundType>,
    pub host_import_signatures: &'a HashMap<u16, HostCallableSignature>,
    active_functions: Vec<u16>,
    observed_function_param_types: SlotTable<Vec<BoundType>>,
    function_param_conflicts: SlotTable<String>,
}

impl<'a> TypeContext<'a> {
    pub closed spec fn view(&self) -> TypeNotes {
        TypeNotes {
            active: self.active_functions@,
            observed: observed_view(self.observed_function_param_types@),
            conflicts: names_view(self.function_param_conflicts@),
        }
    }

    pub closed spec fn env(&self) -> TypeEnvV {
        TypeEnvV {
            impls: impls_view(self.function_impls@),
            names: names_view(self.function_names@),
            host_types: self.host_import_return_types@,
            host_signatures: signatures_map_view(self.host_import_signatures@),
        }
    }

    pub fn new(
        function_impls: &'a HashMap<u16, FunctionImpl>,
        function_names: &'a HashMap<u16, String>,
        host_import_return_types: &'a HashMap<u16, BoundType>,
        host_import_signatures: &'a HashMap<u16, HostCallableSignature>,
    ) -> (r: Self)
        ensures
            r@ == TypeNotes::empty(),
            r.env() == (TypeEnvV {
                impls: impls_view(function_impls@),
                names: names_view(function_names@),
                host_types: host_import_return_types@,
                host_signatures: signatures_map_view(host_import_signatures@),
            }),
    {
        let r = TypeContext {
            function_impls,
            function_names,
            host_import_return_types,
            host_import_signatures,
            active_functions: Vec::new(),
            observed_function_param_types: SlotTable::new(),
            function_param_conflicts: SlotTable::new(),
        };
        assert(r@.observed =~= Map::<u16, Seq<BoundType>>::empty());
        assert(r@.conflicts =~= Map::<u16, Seq<char>>::empty());
        r
    }

    pub fn function_name(&self, index: u16) -> (r: &str)
        ensures
            r@ == function_label(self.env(), index),
    {
        match lookup(self.function_names, index) {
            Some(name) => name.as_str(),
            None => "<anonymous>",
        }
    }

    /// The body of a function that the program defines.
    pub fn function_impl(&self, index: u16) -> (r: Option<&'a FunctionImpl>)
        ensures
            r is Some <==> self.env().impls.dom().contains(index),
            r matches Some(f) ==> f@ == self.env().impls[index],
    {
        let impls: &'a HashMap<u16, FunctionImpl> = self.function_impls;
        lookup(impls, index)
    }

    /// Whether the program defines a function.
    pub fn has_function_impl(&self, index: u16) -> (r: bool)
        ensures
            r == self.env().impls.dom().contains(index),
    {
        lookup(self.function_impls, index).is_some()
    }

    /// The signature of a host function, where it is known.
    pub fn host_signature(&self, index: u16) -> (r: Option<&'a HostCallableSignature>)
        ensures
            r is Some <==> self.env().host_signatures.dom().contains(index),
            r matches Some(s) ==> s@ == self.env().host_signatures[index],
    {
        let signatures: &'a HashMap<u16, HostCallableSignature> = self.host_import_signatures;
        lookup(signatures, index)
    }

    pub fn function_requires_strict_add_types(&self, index: u16) -> (r: bool)
        ensures
            r == strict_add(self.env(), index),
    {
        match lookup(self.function_impls, index) {
            Some(function_impl) => function_impl.capture_copies.len() == 0
                && function_body_contains_param_add(
                &function_impl.param_slots,
                &function_impl.body_stmts,
                &function_impl.body_expr,
            ),
            None => false,
        }
    }

    /// The argument types seen so far at calls of a function.
    pub fn observed_function_param_slice(&self, index: u16) -> (r: Option<&Vec<BoundType>>)
        ensures
            r is Some <==> self@.observed.dom().contains(index),
            r matches Some(types) ==> types@ == self@.observed[index],
    {
        self.observed_function_param_types.get(index)
    }

    /// The first conflict among the calls of a function.
    pub fn function_param_conflict(&self, index: u16) -> (r: Option<&String>)
        ensures
            r is Some <==> self@.conflicts.dom().contains(index),
            r matches Some(detail) ==> detail@ == self@.conflicts[index],
    {
        self.function_param_conflicts.get(index)
    }

    /// Notes the types of the arguments of a call.
    fn note_arg_types(&mut self, index: u16, actual: &Vec<BoundType>)
        ensures
            final(self).env() == old(self).env(),
            final(self)@.active == old(self)@.active,
            final(self)@ == observe_types(old(self).env(), old(self)@, index, actual@),
    {
        let mut types: Vec<BoundType> = Vec::new();
        match self.observed_function_param_types.get(index) {
            Some(seen) => {
                let mut i: usize = 0;
                while i < seen.len()
                    invariant
                        i <= seen@.len(),
                        types@ == seen@.take(i as int),
                    decreases seen@.len() - i,
                {
                    types.push(seen[i]);
                    i += 1;
                    assert(seen@.take(i as int) =~= seen@.take(i - 1).push(seen@[i - 1]));
                }
                assert(seen@.take(i as int) =~= seen@);
            },
            None => {},
        }
        let ghost before = observed_types(self@, index);
        assert(types@ =~= before);
        while types.len() < actual.len()
            invariant
                before.len() <= types@.len(),
                types@.len() <= actual@.len() || types@ == before,
                types@ =~= padded(before, types@.len()),
            decreases actual@.len() - types@.len(),
        {
            types.push(BoundType::Unknown);
        }
        assert(types@ =~= padded(before, actual@.len()));
        let ghost env = self.env();
        let ghost start = self@;
        let ghost total = observe_from(env, index, types@, self@.conflicts, actual@, 0);
        let mut k: usize = 0;
        while k < actual.len()
            invariant
                k <= actual@.len(),
                actual@.len() <= types@.len(),
                self.env() == env,
                self@.active == start.active,
                self@.observed == start.observed,
                total == observe_from(env, index, types@, self@.conflicts, actual@, k as int),
            decreases actual@.len() - k,
        {
            let current = types[k];
            match merge_observed_function_param_type(current, actual[k]) {
                Ok(ty) => {
                    types.set(k, ty);
                },
                Err((lhs, rhs)) => {
                    if self.function_requires_strict_add_types(index) {
                        if !self.function_param_conflicts.contains_key(index) {
                            let message = build_conflict_message(
                                self.function_name(index),
                                k as u64 + 1,
                                lhs,
                                rhs,
                            );
                            let ghost conflicts = self@.conflicts;
                            self.function_param_conflicts.insert(index, message);
                            assert(self@.conflicts =~= conflicts.insert(index, message@));
                        }
                    } else {
                        types.set(k, BoundType::Unknown);
                    }
                },
            }
            k += 1;
        }
        self.observed_function_param_types.insert(index, types);
        assert(self@.observed =~= start.observed.insert(index, types@));
    }

    pub fn observe_function_arg_types(
        &mut self,
        index: u16,
        args: &Vec<Expr>,
        state: &LocalTypeState,
        depth: u64,
    )
        ensures
            final(self).env() == old(self).env(),
            final(self)@.active == old(self)@.active,
            final(self)@ == observe(
                old(self).env(),
                old(self)@,
                index,
                exprs_view(args@),
                state@,
                depth as nat,
            ),
        decreases depth, 2nat,
    {
        let actual = self.infer_expr_types(args, state, depth);
        self.note_arg_types(index, &actual);
    }

    /// The types of a list of expressions.
    pub fn infer_expr_types(
        &mut self,
        args: &Vec<Expr>,
        state: &LocalTypeState,
        depth: u64,
    ) -> (r: Vec<BoundType>)
        ensures
            final(self).env() == old(self).env(),
            final(self)@.active == old(self)@.active,
            (r@, final(self)@) == infer_all(
                old(self).env(),
                old(self)@,
                exprs_view(args@),
                0,
                state@,
                depth as nat,
            ),
        decreases depth, 1nat,
    {
        let ghost env = self.env();
        let ghost list = exprs_view(args@);
        let ghost total = infer_all(env, self@, list, 0, state@, depth as nat);
        let ghost active = self@.active;
        let mut out: Vec<BoundType> = Vec::new();
        let mut i: usize = 0;
        while i < args.len()
            invariant
                i <= args@.len(),
                list == exprs_view(args@),
                self.env() == env,
                self@.active == active,
                total.0 =~= out@ + infer_all(env, self@, list, i as int, state@, depth as nat).0,
                total.1 == infer_all(env, self@, list, i as int, state@, depth as nat).1,
            decreases args@.len() - i,
        {
            let ty = self.infer_expr_type(&args[i], state, depth);
            out.push(ty);
            i += 1;
        }
        out
    }

    /// The type of an expression.
    pub fn infer_expr_type(
        &mut self,
        expr: &Expr,
        state: &LocalTypeState,
        depth: u64,
    ) -> (r: BoundType)
        ensures
            final(self).env() == old(self).env(),
            final(self)@.active == old(self)@.active,
            (r, final(self)@) == infer(old(self).env(), old(self)@, expr@, state@, depth as nat),
        decreases depth, 0nat,
    {
        if depth == 0 {
            return BoundType::Unknown;
        }
        let d: u64 = depth - 1;
        match expr {
            Expr::Null => BoundType::Null,
            Expr::Int(_) => BoundType::Int,
            Expr::Float(_) => BoundType::Float,
            Expr::Bool(_) => BoundType::Bool,
            Expr::String(_) => BoundType::String,
            Expr::ToOwned(inner) | Expr::Borrow(inner) | Expr::BorrowMut(inner) => {
                self.infer_expr_type(inner, state, d)
            },
            Expr::Var(slot) | Expr::MoveVar(slot) => state.get(*slot),
            Expr::MoveField { root, .. } | Expr::MoveIndex { root, .. } => state.get(*root),
            Expr::FunctionRef(_)
            | Expr::Call(_, _)
            | Expr::LocalCall(_, _)
            | Expr::Closure(_)
            | Expr::ClosureCall(_, _) => self.infer_call_like_expr_type(expr, state, d),
            Expr::Add(lhs, rhs)
            | Expr::Sub(lhs, rhs)
            | Expr::Mul(lhs, rhs)
            | Expr::Div(lhs, rhs)
            | Expr::Mod(lhs, rhs)
            | Expr::And(lhs, rhs)
            | Expr::Or(lhs, rhs)
            | Expr::Eq(lhs, rhs)
            | Expr::Lt(lhs, rhs)
            | Expr::Gt(lhs, rhs) => {
                let lhs_ty = self.infer_expr_type(lhs, state, d);
                let rhs_ty = self.infer_expr_type(rhs, state, d);
                infer_binary_type(expr, lhs_ty, rhs_ty)
            },
            Expr::Neg(inner) | Expr::Not(inner) => {
                let inner_ty = self.infer_expr_type(inner, state, d);
                infer_unary_type(expr, inner_ty)
            },
            Expr::IfElse { condition: _, then_expr, else_expr } => {
                let then_ty = self.infer_expr_type(then_expr, state, d);
                let else_ty = self.infer_expr_type(else_expr, state, d);
                if then_ty == else_ty {
                    then_ty
                } else {
                    BoundType::Unknown
                }
            },
            Expr::Match { value_slot, value, arms, default, .. } => {
                let mut nested = state.clone();
                let value_ty = self.infer_expr_type(value, state, d);
                bind_expr_result_to_slot(&mut nested, *value_slot, value, state, value_ty);
                let arm_type = self.infer_arms_type(arms, &nested, d);
                let default_ty = self.infer_expr_type(default, &nested, d);
                if arms.len() == 0 {
                    default_ty
                } else if arm_type != BoundType::Unknown && arm_type == default_ty {
                    arm_type
                } else {
                    BoundType::Unknown
                }
            },
            Expr::Block { stmts, expr } => {
                let mut nested = state.clone();
                self.apply_stmts(stmts, &mut nested, d);
                self.infer_expr_type(expr, &nested, d)
            },
        }
    }

    /// The type that the arms of a match agree on.
    fn infer_arms_type(
        &mut self,
        arms: &Vec<(MatchPattern, Expr)>,
        state: &LocalTypeState,
        depth: u64,
    ) -> (r: BoundType)
        ensures
            final(self).env() == old(self).env(),
            final(self)@.active == old(self)@.active,
            (r, final(self)@) == infer_arms(
                old(self).env(),
                old(self)@,
                arms_view(arms@),
                0,
                state@,
                BoundType::Unknown,
                depth as nat,
            ),
        decreases depth, 1nat,
    {
        let ghost env = self.env();
        let ghost list = arms_view(arms@);
        let mut arm_type = BoundType::Unknown;
        let ghost total = infer_arms(env, self@, list, 0, state@, arm_type, depth as nat);
        let ghost active = self@.active;
        let mut i: usize = 0;
        while i < arms.len()
            invariant
                i <= arms@.len(),
                list == arms_view(arms@),
                self.env() == env,
                self@.active == active,
                total == infer_arms(
                    env,
                    self@,
                    list,
                    i as int,
                    state@,
                    arm_type,
                    depth as nat,
                ),
            decreases arms@.len() - i,
        {
            let ty = self.infer_expr_type(&arms[i].1, state, depth);
            arm_type = if arm_type == BoundType::Unknown {
                ty
            } else if arm_type == ty {
                arm_type
            } else {
                BoundType::Unknown
            };
            i += 1;
        }
        arm_type
    }

    /// The type of a call.
    pub fn infer_call_like_expr_type(
        &mut self,
        expr: &Expr,
        state: &LocalTypeState,
        depth: u64,
    ) -> (r: BoundType)
        ensures
            final(self).env() == old(self).env(),
            final(self)@.active == old(self)@.active,
            (r, final(self)@) == call_type(
                old(self).env(),
                old(self)@,
                expr@,
                state@,
                depth as nat,
            ),
        decreases depth, 6nat,
    {
        match expr {
            Expr::Call(index, args) => match BuiltinFunction::from_call_index(*index) {
                Some(builtin) => self.infer_builtin_call_like_expr_type(
                    builtin,
                    args,
                    state,
                    depth,
                ),
                None => self.infer_function_or_host_return(*index, args, state, depth),
            },
            Expr::LocalCall(slot, args) => match state.callable(*slot) {
                Some(CallableBinding::Function(index)) => {
                    self.infer_function_or_host_return(*index, args, state, depth)
                },
                Some(CallableBinding::Closure(closure)) => {
                    self.infer_closure_return(closure, args, state, depth)
                },
                None => BoundType::Unknown,
            },
            Expr::ClosureCall(closure, args) => {
                self.infer_closure_return(closure, args, state, depth)
            },
            _ => BoundType::Unknown,
        }
    }

    /// The type of a call of a function: from its body, else as the host declared it.
    pub fn infer_function_or_host_return(
        &mut self,
        index: u16,
        args: &Vec<Expr>,
        state: &LocalTypeState,
        depth: u64,
    ) -> (r: BoundType)
        ensures
            final(self).env() == old(self).env(),
            final(self)@.active == old(self)@.active,
            (r, final(self)@) == function_or_host_type(
                old(self).env(),
                old(self)@,
                index,
                exprs_view(args@),
                state@,
                depth as nat,
            ),
        decreases depth, 5nat,
    {
        let inferred = self.infer_function_return(index, args, state, depth);
        if inferred != BoundType::Unknown {
            inferred
        } else {
            match lookup(self.host_import_return_types, index) {
                Some(ty) => *ty,
                None => BoundType::Unknown,
            }
        }
    }

    /// The type of a call of a built-in function.
    pub fn infer_builtin_call_like_expr_type(
        &mut self,
        builtin: BuiltinFunction,
        args: &Vec<Expr>,
        state: &LocalTypeState,
        depth: u64,
    ) -> (r: BoundType)
        ensures
            final(self).env() == old(self).env(),
            final(self)@.active == old(self)@.active,
            (r, final(self)@) == builtin_type(
                old(self).env(),
                old(self)@,
                builtin,
                exprs_view(args@),
                state@,
                depth as nat,
            ),
        decreases depth, 2nat,
    {
        let n: usize = args.len();
        if builtin == BuiltinFunction::ArrayNew {
            BoundType::ArrayOf(None)
        } else if builtin == BuiltinFunction::MapNew {
            BoundType::MapOf(None)
        } else if builtin == BuiltinFunction::Concat && n == 2 {
            let lhs_ty = self.infer_expr_type(&args[0], state, depth);
            let rhs_ty = self.infer_expr_type(&args[1], state, depth);
            infer_concat_return_type(lhs_ty, rhs_ty)
        } else if builtin == BuiltinFunction::Slice && n == 3 {
            let source = self.infer_expr_type(&args[0], state, depth);
            infer_slice_return_type(source)
        } else if builtin == BuiltinFunction::ArrayPush && n == 2 {
            let array = self.infer_expr_type(&args[0], state, depth);
            let value = self.infer_expr_type(&args[1], state, depth);
            infer_array_push_return_type(array, value.simple_type())
        } else if builtin == BuiltinFunction::SetAt && n == 3 {
            let container = self.infer_expr_type(&args[0], state, depth);
            let value = self.infer_expr_type(&args[2], state, depth);
            infer_set_return_type(container, value.simple_type())
        } else if builtin == BuiltinFunction::Get && n == 2 {
            let container = self.infer_expr_type(&args[0], state, depth);
            infer_get_return_type(container)
        } else if builtin == BuiltinFunction::Keys && n == 1 {
            let container = self.infer_expr_type(&args[0], state, depth);
            infer_keys_return_type(container)
        } else if builtin == BuiltinFunction::ReSplit {
            BoundType::ArrayOf(Some(SimpleType::String))
        } else if builtin == BuiltinFunction::ReCaptures {
            BoundType::Array
        } else if returns_argument_type(builtin) && n == 1 {
            let ty = self.infer_expr_type(&args[0], state, depth);
            infer_same_numeric_return_type(ty)
        } else if (builtin == BuiltinFunction::MathMin || builtin == BuiltinFunction::MathMax) && n
            == 2 {
            let lhs_ty = self.infer_expr_type(&args[0], state, depth);
            let rhs_ty = self.infer_expr_type(&args[1], state, depth);
            infer_numeric_type(lhs_ty, rhs_ty)
        } else if builtin == BuiltinFunction::MathClamp && n == 3 {
            let first = self.infer_expr_type(&args[0], state, depth);
            let second = self.infer_expr_type(&args[1], state, depth);
            let third = self.infer_expr_type(&args[2], state, depth);
            infer_numeric_type(infer_numeric_type(first, second), third)
        } else {
            BoundType::from(builtin.static_return_type())
        }
    }

    /// The type of a call of a function that the program defines.
    pub fn infer_function_return(
        &mut self,
        index: u16,
        args: &Vec<Expr>,
        caller_state: &LocalTypeState,
        depth: u64,
    ) -> (r: BoundType)
        ensures
            final(self).env() == old(self).env(),
            final(self)@.active == old(self)@.active,
            (r, final(self)@) == function_type(
                old(self).env(),
                old(self)@,
                index,
                exprs_view(args@),
                caller_state@,
                depth as nat,
            ),
        decreases depth, 4nat,
    {
        let impls: &'a HashMap<u16, FunctionImpl> = self.function_impls;
        match lookup(impls, index) {
            None => BoundType::Unknown,
            Some(function_impl) => {
                self.observe_function_arg_types(index, args, caller_state, depth);
                if slots_contain(&self.active_functions, index) {
                    return BoundType::Unknown;
                }
                let ghost outside = self.active_functions@;
                self.active_functions.push(index);
                let result = self.infer_callable_body(
                    &function_impl.param_slots,
                    &function_impl.capture_copies,
                    &function_impl.body_stmts,
                    &function_impl.body_expr,
                    args,
                    caller_state,
                    depth,
                );
                self.active_functions.pop();
                assert(self.active_functions@ =~= outside);
                result
            },
        }
    }

    /// The type of a call of a closure.
    pub fn infer_closure_return(
        &mut self,
        closure: &ClosureExpr,
        args: &Vec<Expr>,
        caller_state: &LocalTypeState,
        depth: u64,
    ) -> (r: BoundType)
        ensures
            final(self).env() == old(self).env(),
            final(self)@.active == old(self)@.active,
            (r, final(self)@) == closure_type(
                old(self).env(),
                old(self)@,
                closure@,
                exprs_view(args@),
                caller_state@,
                depth as nat,
            ),
        decreases depth, 4nat,
    {
        let none: Vec<Stmt> = Vec::new();
        assert(stmts_view(none@) =~= Seq::<StmtV>::empty());
        self.infer_callable_body(
            &closure.param_slots,
            &closure.capture_copies,
            &none,
            &closure.body,
            args,
            caller_state,
            depth,
        )
    }

    /// The type that a body has when called with given arguments.
    pub fn infer_callable_body(
        &mut self,
        param_slots: &Vec<LocalSlot>,
        capture_copies: &Vec<(LocalSlot, LocalSlot)>,
        body_stmts: &Vec<Stmt>,
        body_expr: &Expr,
        args: &Vec<Expr>,
        caller_state: &LocalTypeState,
        depth: u64,
    ) -> (r: BoundType)
        ensures
            final(self).env() == old(self).env(),
            final(self)@.active == old(self)@.active,
            (r, final(self)@) == body_type(
                old(self).env(),
                old(self)@,
                param_slots@,
                capture_copies@,
                stmts_view(body_stmts@),
                body_expr@,
                exprs_view(args@),
                caller_state@,
                depth as nat,
            ),
        decreases depth, 3nat,
    {
        if param_slots.len() != args.len() {
            return BoundType::Unknown;
        }
        let mut nested = LocalTypeState::new();
        copy_captures(&mut nested, caller_state, capture_copies);
        let ghost env = self.env();
        let ghost list = exprs_view(args@);
        let ghost active = self@.active;
        let ghost total = bind_args(
            env,
            self@,
            nested@,
            param_slots@,
            list,
            0,
            caller_state@,
            depth as nat,
        );
        let mut i: usize = 0;
        while i < args.len()
            invariant
                i <= args@.len(),
                param_slots@.len() == args@.len(),
                list == exprs_view(args@),
                self.env() == env,
                self@.active == active,
                total == bind_args(
                    env,
                    self@,
                    nested@,
                    param_slots@,
                    list,
                    i as int,
                    caller_state@,
                    depth as nat,
                ),
            decreases args@.len() - i,
        {
            match callable_binding_from_expr(&args[i], caller_state) {
                Some(callable) => {
                    nested.bind_callable(param_slots[i], callable);
                },
                None => {
                    let ty = self.infer_expr_type(&args[i], caller_state, depth);
                    nested.set(param_slots[i], ty);
                },
            }
            i += 1;
        }
        self.apply_stmts(body_stmts, &mut nested, depth);
        self.infer_expr_type(body_expr, &nested, depth)
    }

    /// Brings a state past a list of statements.
    pub fn apply_stmts(&mut self, stmts: &Vec<Stmt>, state: &mut LocalTypeState, depth: u64)
        ensures
            final(self).env() == old(self).env(),
            final(self)@.active == old(self)@.active,
            (final(state)@, final(self)@) == apply_from(
                old(self).env(),
                old(self)@,
                stmts_view(stmts@),
                0,
                old(state)@,
                depth as nat,
            ),
        decreases depth, 1nat,
    {
        let ghost env = self.env();
        let ghost list = stmts_view(stmts@);
        let ghost active = self@.active;
        let ghost total = apply_from(env, self@, list, 0, state@, depth as nat);
        let mut i: usize = 0;
        while i < stmts.len()
            invariant
                i <= stmts@.len(),
                list == stmts_view(stmts@),
                self.env() == env,
                self@.active == active,
                total == apply_from(env, self@, list, i as int, state@, depth as nat),
            decreases stmts@.len() - i,
        {
            self.apply_stmt(&stmts[i], state, depth);
            i += 1;
        }
    }

    /// Brings a state past an assignment.
    pub fn bind_expr_to_slot(
        &mut self,
        state: &mut LocalTypeState,
        slot: LocalSlot,
        expr: &Expr,
        depth: u64,
    )
        ensures
            final(self).env() == old(self).env(),
            final(self)@.active == old(self)@.active,
            (final(state)@, final(self)@) == assign(
                old(self).env(),
                old(self)@,
                slot,
                expr@,
                old(state)@,
                depth as nat,
            ),
        decreases depth, 1nat,
    {
        match callable_binding_from_expr(expr, state) {
            Some(callable) => state.bind_callable(slot, callable),
            None => {
                let ty = self.infer_expr_type(expr, state, depth);
                state.set(slot, ty);
            },
        }
    }

    /// Brings a state past a statement.
    pub fn apply_stmt(&mut self, stmt: &Stmt, state: &mut LocalTypeState, depth: u64)
        ensures
            final(self).env() == old(self).env(),
            final(self)@.active == old(self)@.active,
            (final(state)@, final(self)@) == apply(
                old(self).env(),
                old(self)@,
                stmt@,
                old(state)@,
                depth as nat,
            ),
        decreases depth, 0nat,
    {
        if depth == 0 {
            return;
        }
        let d: u64 = depth - 1;
        match stmt {
            Stmt::Noop { .. }
            | Stmt::FuncDecl { .. }
            | Stmt::Break { .. }
            | Stmt::Continue { .. } => {},
            Stmt::Drop { index, .. } => {
                state.set(*index, BoundType::Null);
            },
            Stmt::ClosureLet { closure, .. } => {
                assert(*closure@.body == closure.body@);
                let _ = self.infer_expr_type(&closure.body, state, d);
            },
            Stmt::Let { index, expr, .. } | Stmt::Assign { index, expr, .. } => {
                self.bind_expr_to_slot(state, *index, expr, d);
            },
            Stmt::Expr { expr, .. } => {
                let _ = self.infer_expr_type(expr, state, d);
            },
            Stmt::IfElse { condition, then_branch, else_branch, .. } => {
                let _ = self.infer_expr_type(condition, state, d);
                let mut then_state = state.clone();
                let mut else_state = state.clone();
                self.apply_stmts(then_branch, &mut then_state, d);
                self.apply_stmts(else_branch, &mut else_state, d);
                state.merge_from_branches(&then_state, &else_state);
            },
            Stmt::For { init, condition, post, body, .. } => {
                self.apply_stmt(init, state, d);
                self.apply_loop_stmt(condition, body, Some(&**post), state, d);
            },
            Stmt::While { condition, body, .. } => {
                self.apply_loop_stmt(condition, body, None, state, d);
            },
        }
    }

    /// Brings a state past one round of a loop.
    pub fn apply_loop_round(
        &mut self,
        condition: &Expr,
        body: &Vec<Stmt>,
        post: Option<&Stmt>,
        state: &mut LocalTypeState,
        depth: u64,
    )
        ensures
            final(self).env() == old(self).env(),
            final(self)@.active == old(self)@.active,
            (final(state)@, final(self)@) == apply_round(
                old(self).env(),
                old(self)@,
                condition@,
                stmts_view(body@),
                opt_stmt(post),
                old(state)@,
                depth as nat,
            ),
        decreases depth, 2nat,
    {
        let _ = self.infer_expr_type(condition, state, depth);
        self.apply_stmts(body, state, depth);
        match post {
            Some(p) => self.apply_stmt(p, state, depth),
            None => {},
        }
    }

    /// Brings a state past a loop.
    pub fn apply_loop_stmt(
        &mut self,
        condition: &Expr,
        body: &Vec<Stmt>,
        post: Option<&Stmt>,
        state: &mut LocalTypeState,
        depth: u64,
    )
        ensures
            final(self).env() == old(self).env(),
            final(self)@.active == old(self)@.active,
            (final(state)@, final(self)@) == apply_loop(
                old(self).env(),
                old(self)@,
                condition@,
                stmts_view(body@),
                opt_stmt(post),
                old(state)@,
                depth as nat,
            ),
        decreases depth, 3nat,
    {
        let mut first = state.clone();
        self.apply_loop_round(condition, body, post, &mut first, depth);
        let mut second = first.clone();
        self.apply_loop_round(condition, body, post, &mut second, depth);
        stabilize_loop_state(state, &first, &second);
    }
}

/// The model of an optional statement.
pub open spec fn opt_stmt(stmt: Option<&Stmt>) -> Option<StmtV> {
    match stmt {
        Some(s) => Some(s@),
        None => None,
    }
}

/// Joins the states after none, one and two rounds of a loop.
pub fn stabilize_loop_state(
    state: &mut LocalTypeState,
    first: &LocalTypeState,
    second: &LocalTypeState,
)
    ensures
        final(state)@ == loop_join(old(state)@, first@, second@),
{
    let zero = state.clone();
    let mut stable = LocalTypeState::new();
    stable.merge_from_branches(first, second);
    state.merge_from_branches(&zero, &stable);
}

/// Notes what a caller knows of captured slots.
pub fn copy_captures(
    state: &mut LocalTypeState,
    caller_state: &LocalTypeState,
    capture_copies: &Vec<(LocalSlot, LocalSlot)>,
)
    ensures
        final(state)@ == capture_from(old(state)@, caller_state@, capture_copies@, 0),
{
    let ghost total = capture_from(state@, caller_state@, capture_copies@, 0);
    let mut i: usize = 0;
    while i < capture_copies.len()
        invariant
            i <= capture_copies@.len(),
            total == capture_from(state@, caller_state@, capture_copies@, i as int),
        decreases capture_copies@.len() - i,
    {
        state.copy_binding_from(caller_state, capture_copies[i].0, capture_copies[i].1);
        i += 1;
    }
}

fn returns_argument_type(b: BuiltinFunction) -> (r: bool)
    ensures
        r == keeps_numeric_type(b),
{
    b == BuiltinFunction::MathAbs || b == BuiltinFunction::MathFloor || b
        == BuiltinFunction::MathCeil || b == BuiltinFunction::MathRound || b
        == BuiltinFunction::MathTrunc || b == BuiltinFunction::MathSignum
}

fn infer_concat_return_type(lhs: BoundType, rhs: BoundType) -> (r: BoundType)
    ensures
        r == concat_type(lhs, rhs),
{
    if lhs == BoundType::String && rhs == BoundType::String {
        BoundType::String
    } else {
        match infer_array_concat_type(lhs, rhs) {
            Some(ty) => ty,
            None => BoundType::Unknown,
        }
    }
}

fn infer_slice_return_type(source: BoundType) -> (r: BoundType)
    ensures
        r == slice_type(source),
{
    match source {
        BoundType::String | BoundType::Array | BoundType::ArrayOf(_) => source,
        _ => BoundType::Unknown,
    }
}

fn infer_array_push_return_type(array: BoundType, value: Option<SimpleType>) -> (r: BoundType)
    ensures
        r == array_push_type(array, value),
{
    match array {
        BoundType::ArrayOf(element) => array_put(element, value),
        BoundType::Array => BoundType::Array,
        _ => BoundType::Unknown,
    }
}

fn infer_set_return_type(container: BoundType, value: Option<SimpleType>) -> (r: BoundType)
    ensures
        r == set_type(container, value),
{
    match container {
        BoundType::ArrayOf(element) => array_put(element, value),
        BoundType::Array => BoundType::Array,
        BoundType::MapOf(element) => match (element, value) {
            (None, Some(_)) => BoundType::MapOf(value),
            (Some(e), Some(v)) => if e == v {
                BoundType::MapOf(value)
            } else {
                BoundType::Mapping
            },
            (_, None) => BoundType::Mapping,
        },
        BoundType::Mapping => BoundType::Mapping,
        _ => BoundType::Unknown,
    }
}

fn infer_get_return_type(container: BoundType) -> (r: BoundType)
    ensures
        r == get_type(container),
{
    match container {
        BoundType::String => BoundType::String,
        BoundType::ArrayOf(Some(element)) => BoundType::from_simple(element),
        BoundType::MapOf(Some(element)) => BoundType::from_simple(element),
        _ => BoundType::Unknown,
    }
}

fn infer_keys_return_type(container: BoundType) -> (r: BoundType)
    ensures
        r == keys_type(container),
{
    match container {
        BoundType::Array | BoundType::ArrayOf(_) => BoundType::ArrayOf(Some(SimpleType::Int)),
        BoundType::Mapping | BoundType::MapOf(_) => BoundType::Array,
        _ => BoundType::Unknown,
    }
}

fn infer_same_numeric_return_type(ty: BoundType) -> (r: BoundType)
    ensures
        r == same_numeric_type(ty),
{
    if is_numeric_bound_type(ty) {
        ty
    } else {
        BoundType::Unknown
    }
}

} // verus!
