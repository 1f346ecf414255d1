//! What checking types is for: it follows what inference finds, and refuses what cannot be told.

use vstd::prelude::*;
use crate::builtins::{builtin_at, BuiltinFunction};
use crate::check::{
    check_binary, check_expr, check_loop, check_round, check_stmt, check_stmts, named_type,
    static_bool, type_guard, CheckPlace,
};
use crate::errors::CompileErrorV;
use crate::generation::GenEnvV;
use crate::infer::{
    apply, apply_from, apply_loop, apply_round, assign, binary_type, infer, TypeEnvV, TypeNotes,
};
use crate::ir::{BinOp, ExprV, StmtV};
use crate::machine::{value_of, Host};
use crate::types::{BoundType, TypesV};
use crate::values::Val;

verus! {

/// Whether an expression holds neither calls nor choices.
pub open spec fn is_flat(e: ExprV) -> bool
    decreases e,
{
    match e {
        ExprV::Null
        | ExprV::Int(_)
        | ExprV::Float(_)
        | ExprV::Bool(_)
        | ExprV::Str(_)
        | ExprV::Var(_)
        | ExprV::MoveVar(_)
        | ExprV::MoveField(_, _)
        | ExprV::MoveIndex(_, _) => true,
        ExprV::Unary(_, x) => is_flat(*x),
        ExprV::Binary(_, l, r) => is_flat(*l) && is_flat(*r),
        _ => false,
    }
}

/// Whether the expressions of a statement hold neither calls nor choices.
pub open spec fn is_flat_stmt(s: StmtV) -> bool
    decreases s,
{
    match s {
        StmtV::Let { expr, .. } => is_flat(expr),
        StmtV::Assign { expr, .. } => is_flat(expr),
        StmtV::Expr { expr, .. } => is_flat(expr),
        StmtV::ClosureLet { closure, .. } => is_flat(*closure.body),
        StmtV::IfElse { condition, then_branch, else_branch, .. } => is_flat(condition) && (forall|
            i: int,
        |
            0 <= i < then_branch.len() ==> is_flat_stmt(#[trigger] then_branch[i])) && (forall|
            i: int,
        |
            0 <= i < else_branch.len() ==> is_flat_stmt(#[trigger] else_branch[i])),
        StmtV::While { condition, body, .. } => is_flat(condition) && (forall|i: int|
            0 <= i < body.len() ==> is_flat_stmt(#[trigger] body[i])),
        StmtV::For { init, condition, post, body, .. } => is_flat_stmt(*init) && is_flat(condition)
            && is_flat_stmt(*post) && (forall|i: int|
            0 <= i < body.len() ==> is_flat_stmt(#[trigger] body[i])),
        _ => true,
    }
}

/// An expression that is accepted has the type that inference finds for it; where operand types
/// need not be told, every such expression is accepted.
pub proof fn law_accepted_expressions_have_their_type(
    env: TypeEnvV,
    notes: TypeNotes,
    e: ExprV,
    state: TypesV,
    place: CheckPlace,
    depth: nat,
)
    requires
        is_flat(e),
    ensures
        check_expr(env, notes, e, state, place, depth) matches Ok(r) ==> r == infer(
            env,
            notes,
            e,
            state,
            depth,
        ),
        !place.strict ==> check_expr(env, notes, e, state, place, depth) is Ok,
    decreases depth,
{
    if depth > 0 {
        let d = (depth - 1) as nat;
        match e {
            ExprV::Unary(_, x) => {
                law_accepted_expressions_have_their_type(env, notes, *x, state, place, d);
            },
            ExprV::Binary(op, l, r) => {
                law_accepted_expressions_have_their_type(env, notes, *l, state, place, d);
                let n1 = infer(env, notes, *l, state, d).1;
                law_accepted_expressions_have_their_type(env, n1, *r, state, place, d);
                assert(check_expr(env, notes, e, state, place, depth) == check_binary(
                    env,
                    notes,
                    op,
                    *l,
                    *r,
                    state,
                    place,
                    d,
                ));
            },
            _ => {},
        }
    }
}

/// Where operand types must be told, an addition is refused exactly where the type of its sum is
/// not known, and no other operation is.
pub proof fn law_additions_of_unknown_type_are_refused(
    env: TypeEnvV,
    notes: TypeNotes,
    op: BinOp,
    l: ExprV,
    r: ExprV,
    state: TypesV,
    place: CheckPlace,
    depth: nat,
    left: BoundType,
    right: BoundType,
    n1: TypeNotes,
    n2: TypeNotes,
)
    requires
        check_expr(env, notes, l, state, place, depth) == Ok::<_, (CompileErrorV, TypeNotes)>(
            (left, n1),
        ),
        check_expr(env, n1, r, state, place, depth) == Ok::<_, (CompileErrorV, TypeNotes)>(
            (right, n2),
        ),
    ensures
        ({
            let found = check_expr(
                env,
                notes,
                ExprV::Binary(op, Box::new(l), Box::new(r)),
                state,
                place,
                depth + 1,
            );
            &&& found is Err <==> place.strict && op is Add && binary_type(op, left, right)
                == BoundType::Unknown
            &&& found matches Ok((ty, _)) ==> ty == binary_type(op, left, right)
            &&& found matches Err((e, _)) ==> e is BinaryOperandTypeMismatch
        }),
{
    let e = ExprV::Binary(op, Box::new(l), Box::new(r));
    assert(check_expr(env, notes, e, state, place, depth + 1) == check_binary(
        env,
        notes,
        op,
        l,
        r,
        state,
        place,
        depth,
    ));
}

/// What is known behind a statement that is accepted is what inference finds.
pub proof fn law_accepted_statements_leave_their_types(
    env: TypeEnvV,
    notes: TypeNotes,
    s: StmtV,
    state: TypesV,
    place: CheckPlace,
    depth: nat,
)
    requires
        is_flat_stmt(s),
    ensures
        check_stmt(env, notes, s, state, place, depth) matches Ok(r) ==> r == apply(
            env,
            notes,
            s,
            state,
            depth,
        ),
    decreases depth, 0nat, 0nat,
{
    if depth > 0 {
        let d = (depth - 1) as nat;
        match s {
            StmtV::Let { index, expr, line } => {
                law_accepted_expressions_have_their_type(
                    env,
                    notes,
                    expr,
                    state,
                    place.at(line),
                    d,
                );
                lemma_assigned(env, notes, index, expr, state, place.at(line), d);
                assert(apply(env, notes, s, state, depth) == assign(
                    env,
                    notes,
                    index,
                    expr,
                    state,
                    d,
                ));
            },
            StmtV::Assign { index, expr, line } => {
                law_accepted_expressions_have_their_type(
                    env,
                    notes,
                    expr,
                    state,
                    place.at(line),
                    d,
                );
                lemma_assigned(env, notes, index, expr, state, place.at(line), d);
                assert(apply(env, notes, s, state, depth) == assign(
                    env,
                    notes,
                    index,
                    expr,
                    state,
                    d,
                ));
            },
            StmtV::Expr { expr, line } => {
                law_accepted_expressions_have_their_type(
                    env,
                    notes,
                    expr,
                    state,
                    place.at(line),
                    d,
                );
            },
            StmtV::ClosureLet { closure, .. } => {
                law_accepted_expressions_have_their_type(
                    env,
                    notes,
                    *closure.body,
                    state,
                    place.lenient(),
                    d,
                );
            },
            StmtV::IfElse { condition, then_branch, else_branch, line } => {
                let at = place.at(line);
                assert(check_stmt(env, notes, s, state, place, depth) == crate::check::check_if(
                    env,
                    notes,
                    condition,
                    then_branch,
                    else_branch,
                    state,
                    at,
                    d,
                ));
                law_accepted_expressions_have_their_type(env, notes, condition, state, at, d);
                let n1 = infer(env, notes, condition, state, d).1;
                lemma_accepted_all(env, n1, then_branch, 0, state, at, d);
                let n2 = apply_from(env, n1, then_branch, 0, state, d).1;
                lemma_accepted_all(env, n2, else_branch, 0, state, at, d);
            },
            StmtV::While { condition, body, line } => {
                lemma_accepted_loop(env, notes, condition, body, None, state, place.at(line), d);
            },
            StmtV::For { init, condition, post, body, line } => {
                let at = place.at(line);
                law_accepted_statements_leave_their_types(env, notes, *init, state, at, d);
                let (s1, n1) = apply(env, notes, *init, state, d);
                lemma_accepted_loop(env, n1, condition, body, Some(*post), s1, at, d);
            },
            _ => {},
        }
    }
}

proof fn lemma_assigned(
    env: TypeEnvV,
    notes: TypeNotes,
    index: u16,
    expr: ExprV,
    state: TypesV,
    place: CheckPlace,
    depth: nat,
)
    requires
        is_flat(expr),
        check_expr(env, notes, expr, state, place, depth) matches Ok(r) ==> r == infer(
            env,
            notes,
            expr,
            state,
            depth,
        ),
    ensures
        crate::check::check_assign(env, notes, index, expr, state, place, depth) matches Ok(r) ==> r
            == assign(env, notes, index, expr, state, depth),
{
}

proof fn lemma_accepted_all(
    env: TypeEnvV,
    notes: TypeNotes,
    stmts: Seq<StmtV>,
    i: int,
    state: TypesV,
    place: CheckPlace,
    depth: nat,
)
    requires
        0 <= i <= stmts.len(),
        forall|k: int| 0 <= k < stmts.len() ==> is_flat_stmt(#[trigger] stmts[k]),
    ensures
        check_stmts(env, notes, stmts, i, state, place, depth) matches Ok(r) ==> r == apply_from(
            env,
            notes,
            stmts,
            i,
            state,
            depth,
        ),
    decreases depth, 1nat, stmts.len() - i,
{
    if i < stmts.len() {
        law_accepted_statements_leave_their_types(env, notes, stmts[i], state, place, depth);
        let (s1, n1) = apply(env, notes, stmts[i], state, depth);
        lemma_accepted_all(env, n1, stmts, i + 1, s1, place, depth);
    }
}

proof fn lemma_accepted_round(
    env: TypeEnvV,
    notes: TypeNotes,
    condition: ExprV,
    body: Seq<StmtV>,
    post: Option<StmtV>,
    state: TypesV,
    place: CheckPlace,
    depth: nat,
)
    requires
        is_flat(condition),
        forall|k: int| 0 <= k < body.len() ==> is_flat_stmt(#[trigger] body[k]),
        post matches Some(p) ==> is_flat_stmt(p),
    ensures
        check_round(env, notes, condition, body, post, state, place, depth) matches Ok(r) ==> r
            == apply_round(env, notes, condition, body, post, state, depth),
    decreases depth, 2nat, 0nat,
{
    law_accepted_expressions_have_their_type(env, notes, condition, state, place, depth);
    let n1 = infer(env, notes, condition, state, depth).1;
    lemma_accepted_all(env, n1, body, 0, state, place, depth);
    let (s2, n2) = apply_from(env, n1, body, 0, state, depth);
    match post {
        Some(p) => law_accepted_statements_leave_their_types(env, n2, p, s2, place, depth),
        None => {},
    }
}

proof fn lemma_accepted_loop(
    env: TypeEnvV,
    notes: TypeNotes,
    condition: ExprV,
    body: Seq<StmtV>,
    post: Option<StmtV>,
    state: TypesV,
    place: CheckPlace,
    depth: nat,
)
    requires
        is_flat(condition),
        forall|k: int| 0 <= k < body.len() ==> is_flat_stmt(#[trigger] body[k]),
        post matches Some(p) ==> is_flat_stmt(p),
    ensures
        check_loop(env, notes, condition, body, post, state, place, depth) matches Ok(r) ==> r
            == apply_loop(env, notes, condition, body, post, state, depth),
    decreases depth, 3nat, 0nat,
{
    lemma_accepted_round(env, notes, condition, body, post, state, place, depth);
    let (first, n1) = apply_round(env, notes, condition, body, post, state, depth);
    lemma_accepted_round(env, n1, condition, body, post, first, place, depth);
}

/// A condition whose value is plain to see has that value when it is evaluated.
pub proof fn law_plain_conditions_have_their_value(
    env: GenEnvV,
    host: Host,
    e: ExprV,
    locals: Seq<Val>,
    depth: nat,
    fuel: nat,
)
    requires
        depth >= 2,
        !(e matches ExprV::Binary(_, l, _) && *l is Float),
    ensures
        static_bool(e) matches Some(x) ==> value_of(env, host, e, locals, depth, fuel) == Some(
            (Val::Bool(x), locals),
        ),
{
    match e {
        ExprV::Binary(op, l, r) => {
            let d = (depth - 1) as nat;
            if static_bool(e) is Some {
                assert(value_of(env, host, *l, locals, d, fuel) is Some);
                assert(value_of(env, host, *r, locals, d, fuel) is Some);
            }
        },
        _ => {},
    }
}

/// A test of the type of a local against a type name, on either side, tells that local's type;
/// no other condition tells any.
pub proof fn law_tests_of_types_tell_of_their_local(
    index: u16,
    slot: u16,
    name: Seq<char>,
    op: BinOp,
)
    requires
        builtin_at(index) == Some(BuiltinFunction::TypeOf),
    ensures
        ({
            let call = Box::new(ExprV::Call(index, seq![ExprV::Var(slot)]));
            let text = Box::new(ExprV::Str(name));
            &&& op is Eq ==> type_guard(ExprV::Binary(op, call, text)) == type_guard(
                ExprV::Binary(op, text, call),
            )
            &&& op is Eq ==> type_guard(ExprV::Binary(op, call, text)) == match named_type(name) {
                Some(ty) => Some((slot, ty)),
                None => None,
            }
            &&& !(op is Eq) ==> type_guard(ExprV::Binary(op, call, text)) is None
        }),
{
    assert(seq![ExprV::Var(slot)][0] == ExprV::Var(slot));
}

} // verus!
