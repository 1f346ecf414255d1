//! What inference and its uses are for: what is inferred of a program holds when it runs, and
//! what is replaced by its result has that result.

use vstd::prelude::*;
use crate::builtins::{builtin_at, BuiltinFunction};
use crate::consts::surely_string;
use crate::generation::GenEnvV;
use crate::infer::{
    apply, apply_from, apply_loop, apply_round, assign, bind_args, bind_result, body_type,
    call_type, callable_of, capture_from, conflict_message, function_label, function_or_host_type,
    function_type, infer, merge_observed, observe, observe_from, observe_types, observed_types,
    padded, strict_add, TypeEnvV, TypeNotes,
};
use crate::ir::{ClosureV, ExprV, PatternV, StmtV};
use crate::legalize::{
    folded, legal_arms, legal_call, legal_expr, legal_list, legal_loop, legal_round, legal_stmt,
    legal_stmts, plain_type,
    static_len, LoopV,
};
use crate::machine::{call_value, ran, ran_all, value_of, with_arguments, Host};
use crate::type_laws::{
    law_chosen_types_are_sound, law_merged_types_cover_both, law_operator_types_are_sound,
    law_types_tell_of_values,
};
use crate::types::{BoundType, SimpleType, TypesV};
use crate::typing::{collect_loop, collect_round, collect_stmt, collect_stmts, recorded, CollectV};
use crate::values::{is_of, kind_name, may_give, Val};

verus! {

// ---------------------------------------------------------------------------
// Expressions.

/// Whether an expression is made of literals, locals, operators and choices.
pub open spec fn is_steady(e: ExprV) -> bool
    decreases e,
{
    match e {
        ExprV::Null | ExprV::Int(_) | ExprV::Float(_) | ExprV::Bool(_) | ExprV::Str(_) => true,
        ExprV::Var(s) => s < 256,
        ExprV::Unary(_, x) => is_steady(*x),
        ExprV::Binary(_, l, r) => is_steady(*l) && is_steady(*r),
        ExprV::IfElse(c, t, f) => is_steady(*c) && is_steady(*t) && is_steady(*f),
        _ => false,
    }
}

/// Whether what is known of the types of locals holds.
pub open spec fn holds(state: TypesV, locals: Seq<Val>) -> bool {
    locals.len() == 256 && forall|s: u16|
        s < 256 ==> is_of(locals[s as int], #[trigger] state.get(s))
}

/// The type of a literal is its kind, and that of a local what is known of it; a choice between
/// two of one type is of that type, and an operation of the type of its operator.
pub proof fn law_types_of_simple_expressions(
    env: TypeEnvV,
    notes: TypeNotes,
    state: TypesV,
    depth: nat,
    n: i64,
    x: bool,
    text: Seq<char>,
    s: u16,
)
    requires
        depth > 0,
    ensures
        infer(env, notes, ExprV::Null, state, depth).0 == BoundType::Null,
        infer(env, notes, ExprV::Int(n), state, depth).0 == BoundType::Int,
        infer(env, notes, ExprV::Float(text), state, depth).0 == BoundType::Float,
        infer(env, notes, ExprV::Bool(x), state, depth).0 == BoundType::Bool,
        infer(env, notes, ExprV::Str(text), state, depth).0 == BoundType::String,
        infer(env, notes, ExprV::Var(s), state, depth).0 == state.get(s),
        infer(env, notes, ExprV::MoveVar(s), state, depth).0 == state.get(s),
{
}

/// The value of an expression has the type that is inferred for it, wherever what is known of
/// the locals holds.
pub proof fn law_inferred_types_are_sound(
    env: TypeEnvV,
    notes: TypeNotes,
    e: ExprV,
    state: TypesV,
    depth: nat,
    program: GenEnvV,
    host: Host,
    locals: Seq<Val>,
    nesting: nat,
    fuel: nat,
)
    requires
        is_steady(e),
        holds(state, locals),
    ensures
        value_of(program, host, e, locals, nesting, fuel) matches Some((v, l)) ==> l == locals
            && is_of(v, infer(env, notes, e, state, depth).0),
    decreases e,
{
    if nesting > 0 && depth > 0 {
        let k = (nesting - 1) as nat;
        let d = (depth - 1) as nat;
        match e {
            ExprV::Unary(op, x) => {
                law_inferred_types_are_sound(
                    env,
                    notes,
                    *x,
                    state,
                    d,
                    program,
                    host,
                    locals,
                    k,
                    fuel,
                );
            },
            ExprV::Binary(op, l, r) => {
                law_inferred_types_are_sound(
                    env,
                    notes,
                    *l,
                    state,
                    d,
                    program,
                    host,
                    locals,
                    k,
                    fuel,
                );
                let (lt, n1) = infer(env, notes, *l, state, d);
                law_inferred_types_are_sound(
                    env,
                    n1,
                    *r,
                    state,
                    d,
                    program,
                    host,
                    locals,
                    k,
                    fuel,
                );
                let (rt, _) = infer(env, n1, *r, state, d);
                match value_of(program, host, e, locals, nesting, fuel) {
                    Some((v, _)) => {
                        let (a, _) = value_of(program, host, *l, locals, k, fuel)->0;
                        match value_of(program, host, *r, locals, k, fuel) {
                            Some((b, _)) => {
                                lemma_sure_strings(*l, program, host, locals, k, fuel);
                                lemma_sure_strings(*r, program, host, locals, k, fuel);
                                if may_give(op, a, b, v) {
                                    law_operator_types_are_sound(op, a, b, v, lt, rt);
                                } else {
                                    assert(op is And || op is Or || op is Add);
                                }
                            },
                            None => {},
                        }
                    },
                    None => {},
                }
            },
            ExprV::IfElse(c, t, f) => {
                law_inferred_types_are_sound(
                    env,
                    notes,
                    *c,
                    state,
                    d,
                    program,
                    host,
                    locals,
                    k,
                    fuel,
                );
                law_inferred_types_are_sound(
                    env,
                    notes,
                    *t,
                    state,
                    d,
                    program,
                    host,
                    locals,
                    k,
                    fuel,
                );
                let (tt, n1) = infer(env, notes, *t, state, d);
                law_inferred_types_are_sound(
                    env,
                    n1,
                    *f,
                    state,
                    d,
                    program,
                    host,
                    locals,
                    k,
                    fuel,
                );
                let (ft, _) = infer(env, n1, *f, state, d);
                match value_of(program, host, e, locals, nesting, fuel) {
                    Some((v, _)) => {
                        law_chosen_types_are_sound(v, tt, ft, false);
                    },
                    None => {},
                }
            },
            _ => {},
        }
    } else if nesting > 0 {
        lemma_steady_leaves_locals(e, program, host, locals, nesting, fuel);
    }
}

proof fn lemma_sure_strings(
    e: ExprV,
    program: GenEnvV,
    host: Host,
    locals: Seq<Val>,
    nesting: nat,
    fuel: nat,
)
    requires
        is_steady(e),
    ensures
        surely_string(e) ==> (value_of(program, host, e, locals, nesting, fuel) matches Some((v, _))
            ==> v is Str),
    decreases e,
{
    if nesting > 0 {
        let k = (nesting - 1) as nat;
        match e {
            ExprV::Unary(_, x) => lemma_sure_strings(*x, program, host, locals, k, fuel),
            ExprV::Binary(_, l, r) => {
                lemma_steady_leaves_locals(*l, program, host, locals, k, fuel);
                lemma_sure_strings(*l, program, host, locals, k, fuel);
                lemma_sure_strings(*r, program, host, locals, k, fuel);
            },
            ExprV::IfElse(c, t, f) => {
                lemma_steady_leaves_locals(*c, program, host, locals, k, fuel);
                lemma_sure_strings(*t, program, host, locals, k, fuel);
                lemma_sure_strings(*f, program, host, locals, k, fuel);
            },
            _ => {},
        }
    }
}

proof fn lemma_steady_leaves_locals(
    e: ExprV,
    program: GenEnvV,
    host: Host,
    locals: Seq<Val>,
    nesting: nat,
    fuel: nat,
)
    requires
        is_steady(e),
    ensures
        value_of(program, host, e, locals, nesting, fuel) matches Some((_, l)) ==> l == locals,
    decreases e,
{
    if nesting > 0 {
        let k = (nesting - 1) as nat;
        match e {
            ExprV::Unary(_, x) => lemma_steady_leaves_locals(*x, program, host, locals, k, fuel),
            ExprV::Binary(_, l, r) => {
                lemma_steady_leaves_locals(*l, program, host, locals, k, fuel);
                lemma_steady_leaves_locals(*r, program, host, locals, k, fuel);
            },
            ExprV::IfElse(c, t, f) => {
                lemma_steady_leaves_locals(*c, program, host, locals, k, fuel);
                lemma_steady_leaves_locals(*t, program, host, locals, k, fuel);
                lemma_steady_leaves_locals(*f, program, host, locals, k, fuel);
            },
            _ => {},
        }
    }
}

// ---------------------------------------------------------------------------
// Statements.

/// Whether a statement assigns, drops, evaluates and branches.
pub open spec fn is_steady_stmt(s: StmtV) -> bool
    decreases s,
{
    match s {
        StmtV::Noop(_) => true,
        StmtV::Let { index, expr, .. } => index < 256 && is_steady(expr),
        StmtV::Assign { index, expr, .. } => index < 256 && is_steady(expr),
        StmtV::Drop { index, .. } => index < 256,
        StmtV::Expr { expr, .. } => is_steady(expr),
        StmtV::IfElse { condition, then_branch, else_branch, .. } => is_steady(condition) && (
        forall|i: int| 0 <= i < then_branch.len() ==> is_steady_stmt(#[trigger] then_branch[i]))
            && (forall|i: int|
            0 <= i < else_branch.len() ==> is_steady_stmt(#[trigger] else_branch[i])),
        _ => false,
    }
}

/// What is known of the types of locals after a statement holds when it has run.
pub proof fn law_types_after_statements_are_sound(
    env: TypeEnvV,
    notes: TypeNotes,
    s: StmtV,
    state: TypesV,
    depth: nat,
    program: GenEnvV,
    host: Host,
    locals: Seq<Val>,
    fuel: nat,
)
    requires
        is_steady_stmt(s),
        holds(state, locals),
    ensures
        ran(program, host, s, locals, depth, fuel) matches Some((out, _, l)) ==> out is Next
            && holds(apply(env, notes, s, state, depth).0, l),
    decreases depth, 0nat, 0nat,
{
    if depth > 0 {
        let d = (depth - 1) as nat;
        match s {
            StmtV::Let { index, expr, .. } => {
                law_inferred_types_are_sound(
                    env,
                    notes,
                    expr,
                    state,
                    d,
                    program,
                    host,
                    locals,
                    d,
                    fuel,
                );
                lemma_assigned_holds(env, notes, index, expr, state, d, locals);
                assert(apply(env, notes, s, state, depth) == assign(
                    env,
                    notes,
                    index,
                    expr,
                    state,
                    d,
                ));
            },
            StmtV::Assign { index, expr, .. } => {
                law_inferred_types_are_sound(
                    env,
                    notes,
                    expr,
                    state,
                    d,
                    program,
                    host,
                    locals,
                    d,
                    fuel,
                );
                lemma_assigned_holds(env, notes, index, expr, state, d, locals);
                assert(apply(env, notes, s, state, depth) == assign(
                    env,
                    notes,
                    index,
                    expr,
                    state,
                    d,
                ));
            },
            StmtV::Drop { index, .. } => {
                lemma_set_holds(state, index, BoundType::Null, Val::Null, locals);
            },
            StmtV::Expr { expr, .. } => {
                lemma_steady_leaves_locals(expr, program, host, locals, d, fuel);
            },
            StmtV::IfElse { condition, then_branch, else_branch, .. } => {
                lemma_steady_leaves_locals(condition, program, host, locals, d, fuel);
                let n1 = infer(env, notes, condition, state, d).1;
                lemma_types_after_all(
                    env,
                    n1,
                    then_branch,
                    0,
                    state,
                    d,
                    program,
                    host,
                    locals,
                    fuel,
                );
                let (ts, n2) = apply_from(env, n1, then_branch, 0, state, d);
                lemma_types_after_all(
                    env,
                    n2,
                    else_branch,
                    0,
                    state,
                    d,
                    program,
                    host,
                    locals,
                    fuel,
                );
                let (es, _) = apply_from(env, n2, else_branch, 0, state, d);
                match ran(program, host, s, locals, depth, fuel) {
                    Some((_, _, l)) => {
                        let joined = TypesV::join(ts, es);
                        assert forall|k: u16| k < 256 implies is_of(
                            l[k as int],
                            #[trigger] joined.get(k),
                        ) by {
                            assert(is_of(l[k as int], ts.get(k)) || is_of(l[k as int], es.get(k)));
                            law_merged_types_cover_both(l[k as int], ts.get(k), es.get(k));
                        }
                    },
                    None => {},
                }
            },
            _ => {},
        }
    }
}

proof fn lemma_set_holds(state: TypesV, index: u16, ty: BoundType, v: Val, locals: Seq<Val>)
    requires
        index < 256,
        holds(state, locals),
        is_of(v, ty),
    ensures
        holds(state.set(index, ty), locals.update(index as int, v)),
{
    let l = locals.update(index as int, v);
    assert forall|s: u16| s < 256 implies is_of(
        l[s as int],
        #[trigger] state.set(index, ty).get(s),
    ) by {
        assert(is_of(locals[s as int], state.get(s)));
    }
}

proof fn lemma_assigned_holds(
    env: TypeEnvV,
    notes: TypeNotes,
    index: u16,
    expr: ExprV,
    state: TypesV,
    depth: nat,
    locals: Seq<Val>,
)
    requires
        index < 256,
        holds(state, locals),
    ensures
        forall|v: Val|
            is_of(v, infer(env, notes, expr, state, depth).0) ==> holds(
                assign(env, notes, index, expr, state, depth).0,
                #[trigger] locals.update(index as int, v),
            ),
{
    let ty = infer(env, notes, expr, state, depth).0;
    assert forall|v: Val| is_of(v, ty) implies holds(
        assign(env, notes, index, expr, state, depth).0,
        #[trigger] locals.update(index as int, v),
    ) by {
        match callable_of(expr, state) {
            Some(callable) => {
                let l = locals.update(index as int, v);
                assert forall|s: u16| s < 256 implies is_of(
                    l[s as int],
                    #[trigger] state.bind(index, callable).get(s),
                ) by {
                    assert(is_of(locals[s as int], state.get(s)));
                }
            },
            None => lemma_set_holds(state, index, ty, v, locals),
        }
    }
}

proof fn lemma_types_after_all(
    env: TypeEnvV,
    notes: TypeNotes,
    stmts: Seq<StmtV>,
    i: int,
    state: TypesV,
    depth: nat,
    program: GenEnvV,
    host: Host,
    locals: Seq<Val>,
    fuel: nat,
)
    requires
        0 <= i <= stmts.len(),
        forall|k: int| 0 <= k < stmts.len() ==> is_steady_stmt(#[trigger] stmts[k]),
        holds(state, locals),
    ensures
        ran_all(program, host, stmts, i, locals, depth, fuel) matches Some((out, _, l))
            ==> out is Next && holds(apply_from(env, notes, stmts, i, state, depth).0, l),
    decreases depth, 1nat, stmts.len() - i,
{
    if i < stmts.len() {
        law_types_after_statements_are_sound(
            env,
            notes,
            stmts[i],
            state,
            depth,
            program,
            host,
            locals,
            fuel,
        );
        let (s1, n1) = apply(env, notes, stmts[i], state, depth);
        match ran(program, host, stmts[i], locals, depth, fuel) {
            Some((_, _, l1)) => lemma_types_after_all(
                env,
                n1,
                stmts,
                i + 1,
                s1,
                depth,
                program,
                host,
                l1,
                fuel,
            ),
            None => {},
        }
    }
}

/// An assignment gives its local the type of its expression, and leaves the others.
pub proof fn law_assignments_give_their_type(
    env: TypeEnvV,
    notes: TypeNotes,
    index: u16,
    expr: ExprV,
    line: u32,
    state: TypesV,
    other: u16,
    depth: nat,
)
    requires
        depth > 0,
        callable_of(expr, state) is None,
    ensures
        ({
            let d = (depth - 1) as nat;
            let ty = infer(env, notes, expr, state, d).0;
            let a = apply(env, notes, StmtV::Let { index, expr, line }, state, depth).0;
            let b = apply(env, notes, StmtV::Assign { index, expr, line }, state, depth).0;
            &&& a.get(index) == ty
            &&& b.get(index) == ty
            &&& other != index ==> a.get(other) == state.get(other) && b.get(other) == state.get(
                other,
            )
        }),
        apply(env, notes, StmtV::Drop { index, line }, state, depth).0.get(index)
            == BoundType::Null,
{
    let d = (depth - 1) as nat;
    let after = assign(env, notes, index, expr, state, d);
    assert(apply(env, notes, StmtV::Let { index, expr, line }, state, depth) == after);
    assert(apply(env, notes, StmtV::Assign { index, expr, line }, state, depth) == after);
}

// ---------------------------------------------------------------------------
// Calls.

proof fn lemma_arguments_hold(
    env: TypeEnvV,
    notes: TypeNotes,
    nested: TypesV,
    params: Seq<u16>,
    args: Seq<ExprV>,
    i: int,
    caller: TypesV,
    depth: nat,
    program: GenEnvV,
    host: Host,
    locals: Seq<Val>,
    fuel: nat,
)
    requires
        0 <= i <= args.len(),
        params.len() == args.len(),
        forall|k: int| 0 <= k < args.len() ==> is_steady(#[trigger] args[k]),
        forall|k: int|
            0 <= k < params.len() ==> (#[trigger] params[k]) < 256 && caller.get(params[k])
                == BoundType::Unknown,
        holds(caller, locals),
        holds(nested, locals),
    ensures
        with_arguments(program, host, params, args, i, locals, depth, fuel) matches Some(l)
            ==> holds(bind_args(env, notes, nested, params, args, i, caller, depth).0, l),
    decreases args.len() - i,
{
    if i < args.len() {
        law_inferred_types_are_sound(
            env,
            notes,
            args[i],
            caller,
            depth,
            program,
            host,
            locals,
            depth,
            fuel,
        );
        match value_of(program, host, args[i], locals, depth, fuel) {
            Some((v, l)) => {
                let slot = params[i];
                let l1 = locals.update(slot as int, v);
                assert forall|x: u16| x < 256 implies is_of(
                    l1[x as int],
                    #[trigger] caller.get(x),
                ) by {
                    assert(is_of(locals[x as int], caller.get(x)));
                }
                let (ty, n1) = infer(env, notes, args[i], caller, depth);
                match callable_of(args[i], caller) {
                    Some(callable) => {
                        let next = nested.bind(slot, callable);
                        assert forall|x: u16| x < 256 implies is_of(
                            l1[x as int],
                            #[trigger] next.get(x),
                        ) by {
                            assert(is_of(locals[x as int], nested.get(x)));
                        }
                        lemma_arguments_hold(
                            env,
                            notes,
                            next,
                            params,
                            args,
                            i + 1,
                            caller,
                            depth,
                            program,
                            host,
                            l1,
                            fuel,
                        );
                    },
                    None => {
                        lemma_set_holds(nested, slot, ty, v, locals);
                        lemma_arguments_hold(
                            env,
                            n1,
                            nested.set(slot, ty),
                            params,
                            args,
                            i + 1,
                            caller,
                            depth,
                            program,
                            host,
                            l1,
                            fuel,
                        );
                    },
                }
            },
            None => {},
        }
    }
}

/// The value of a call of a function of the program has the type that is inferred for the call,
/// from the types of the arguments and the body of the function.
#[verifier::rlimit(40)]
pub proof fn law_types_of_calls_are_sound(
    env: TypeEnvV,
    notes: TypeNotes,
    index: u16,
    args: Seq<ExprV>,
    state: TypesV,
    depth: nat,
    program: GenEnvV,
    host: Host,
    locals: Seq<Val>,
    fuel: nat,
)
    requires
        holds(state, locals),
        builtin_at(index) is None,
        program.types == env,
        env.impls.dom().contains(index),
        !env.host_types.dom().contains(index),
        ({
            let f = env.impls[index];
            &&& f.captures.len() == 0
            &&& f.params.len() == args.len()
            &&& forall|k: int|
                0 <= k < f.params.len() ==> (#[trigger] f.params[k]) < 256 && state.get(f.params[k])
                    == BoundType::Unknown
            &&& forall|k: int|
                0 <= k < f.body_stmts.len() ==> is_steady_stmt(#[trigger] f.body_stmts[k])
            &&& is_steady(f.body_expr)
        }),
        forall|k: int| 0 <= k < args.len() ==> is_steady(#[trigger] args[k]),
    ensures
        value_of(program, host, ExprV::Call(index, args), locals, depth + 1, fuel) matches Some(
            (v, _),
        ) ==> is_of(v, infer(env, notes, ExprV::Call(index, args), state, depth + 1).0),
{
    let e = ExprV::Call(index, args);
    let f = env.impls[index];
    assert(infer(env, notes, e, state, depth + 1) == call_type(env, notes, e, state, depth));
    assert(call_type(env, notes, e, state, depth) == function_or_host_type(
        env,
        notes,
        index,
        args,
        state,
        depth,
    ));
    let found = function_type(env, notes, index, args, state, depth);
    match call_value(program, host, index, args, locals, depth, fuel) {
        Some((v, _)) => {
            let n1 = observe(env, notes, index, args, state, depth);
            let inside = TypeNotes { active: n1.active.push(index), ..n1 };
            let start = capture_from(TypesV::empty(), state, f.captures, 0);
            assert(start == TypesV::empty());
            assert(holds(start, locals)) by {
                assert forall|x: u16| x < 256 implies is_of(
                    locals[x as int],
                    #[trigger] start.get(x),
                ) by {}
            }
            lemma_arguments_hold(
                env,
                inside,
                start,
                f.params,
                args,
                0,
                state,
                depth,
                program,
                host,
                locals,
                fuel,
            );
            let l1 = with_arguments(program, host, f.params, args, 0, locals, depth, fuel)->0;
            let (bound, n2) = bind_args(env, inside, start, f.params, args, 0, state, depth);
            lemma_types_after_all(
                env,
                n2,
                f.body_stmts,
                0,
                bound,
                depth,
                program,
                host,
                l1,
                fuel,
            );
            let (after, n3) = apply_from(env, n2, f.body_stmts, 0, bound, depth);
            let l2 = (ran_all(program, host, f.body_stmts, 0, l1, depth, fuel)->0).2;
            law_inferred_types_are_sound(
                env,
                n3,
                f.body_expr,
                after,
                depth,
                program,
                host,
                l2,
                depth,
                fuel,
            );
            let body = body_type(
                env,
                inside,
                f.params,
                f.captures,
                f.body_stmts,
                f.body_expr,
                args,
                state,
                depth,
            );
            assert(body == infer(env, n3, f.body_expr, after, depth));
            assert(is_of(v, body.0));
            assert(is_of(v, found.0));
        },
        None => {},
    }
}

// ---------------------------------------------------------------------------
// What calls tell of parameters.

proof fn lemma_observed(
    env: TypeEnvV,
    index: u16,
    types: Seq<BoundType>,
    conflicts: Map<u16, Seq<char>>,
    actual: Seq<BoundType>,
    k: int,
)
    requires
        0 <= k <= actual.len() <= types.len(),
    ensures
        ({
            let (r, c) = observe_from(env, index, types, conflicts, actual, k);
            &&& r.len() == types.len()
            &&& forall|j: int| 0 <= j < k || actual.len() <= j < r.len() ==> #[trigger] r[j]
                == types[j]
            &&& forall|j: int|
                k <= j < actual.len() ==> match merge_observed(types[j], actual[j]) {
                    Some(ty) => #[trigger] r[j] == ty,
                    None => if strict_add(env, index) {
                        c.dom().contains(index)
                    } else {
                        r[j] == BoundType::Unknown
                    },
                }
            &&& conflicts.dom().contains(index) ==> c == conflicts
            &&& forall|x: u16|
                x != index ==> (#[trigger] c.dom().contains(x) <==> conflicts.dom().contains(x)) && (
                c.dom().contains(x) ==> c[x] == conflicts[x])
            &&& !strict_add(env, index) ==> c == conflicts
            &&& (forall|j: int|
                k <= j < actual.len() ==> merge_observed(types[j], #[trigger] actual[j]) is Some)
                ==> c == conflicts
        }),
    decreases actual.len() - k,
{
    if k < actual.len() {
        match merge_observed(types[k], actual[k]) {
            Some(ty) => {
                let next = types.update(k, ty);
                lemma_observed(env, index, next, conflicts, actual, k + 1);
                let (r, c) = observe_from(env, index, next, conflicts, actual, k + 1);
                assert(r[k] == next[k]);
                assert forall|j: int| k <= j < actual.len() implies match merge_observed(
                    types[j],
                    actual[j],
                ) {
                    Some(ty) => #[trigger] r[j] == ty,
                    None => if strict_add(env, index) {
                        c.dom().contains(index)
                    } else {
                        r[j] == BoundType::Unknown
                    },
                } by {
                    if j > k {
                        assert(next[j] == types[j]);
                    }
                }
                if forall|j: int|
                    k <= j < actual.len() ==> merge_observed(types[j], #[trigger] actual[j]) is Some {
                    assert forall|j: int| k + 1 <= j < actual.len() implies merge_observed(
                        next[j],
                        #[trigger] actual[j],
                    ) is Some by {
                        assert(next[j] == types[j]);
                    }
                }
            },
            None => {
                assert(merge_observed(types[k], actual[k]) is None);
                if strict_add(env, index) {
                    let noted = if conflicts.dom().contains(index) {
                        conflicts
                    } else {
                        conflicts.insert(
                            index,
                            conflict_message(
                                function_label(env, index),
                                (k + 1) as nat,
                                types[k],
                                actual[k],
                            ),
                        )
                    };
                    lemma_observed(env, index, types, noted, actual, k + 1);
                } else {
                    let next = types.update(k, BoundType::Unknown);
                    lemma_observed(env, index, next, conflicts, actual, k + 1);
                    let (r, _) = observe_from(env, index, next, conflicts, actual, k + 1);
                    assert(r[k] == next[k]);
                    assert forall|j: int| k <= j < actual.len() implies match merge_observed(
                        types[j],
                        actual[j],
                    ) {
                        Some(ty) => #[trigger] r[j] == ty,
                        None => r[j] == BoundType::Unknown,
                    } by {
                        if j > k {
                            assert(next[j] == types[j]);
                        }
                    }
                }
            },
        }
    }
}

/// What is known of the arguments of a function is what its first call passes; a call that passes
/// another type makes it unknown, or is a conflict where the function adds its parameters. Other
/// functions are left alone.
pub proof fn law_calls_tell_of_parameters(
    env: TypeEnvV,
    notes: TypeNotes,
    index: u16,
    other: u16,
    actual: Seq<BoundType>,
    j: int,
)
    requires
        0 <= j < actual.len(),
        other != index,
    ensures
        ({
            let after = observe_types(env, notes, index, actual);
            let before = observed_types(notes, index);
            &&& before.len() == 0 ==> observed_types(after, index) == actual && after.conflicts
                == notes.conflicts
            &&& j < before.len() && merge_observed(before[j], actual[j]) is None ==> (if strict_add(
                env,
                index,
            ) {
                after.conflicts.dom().contains(index)
            } else {
                observed_types(after, index)[j] == BoundType::Unknown
            })
            &&& j < before.len() && before[j] == actual[j] ==> observed_types(after, index)[j]
                == actual[j]
            &&& !strict_add(env, index) ==> after.conflicts == notes.conflicts
            &&& observed_types(after, other) == observed_types(notes, other)
            &&& after.conflicts.dom().contains(other) <==> notes.conflicts.dom().contains(other)
        }),
{
    let before = observed_types(notes, index);
    let types = padded(before, actual.len());
    lemma_observed(env, index, types, notes.conflicts, actual, 0);
    let (r, c) = observe_from(env, index, types, notes.conflicts, actual, 0);
    let after = observe_types(env, notes, index, actual);
    assert(observed_types(after, index) == r);
    assert(r[j] == r[j]);
    if before.len() == 0 {
        assert forall|i: int| 0 <= i < actual.len() implies r[i] == actual[i] by {
            assert(types[i] == BoundType::Unknown);
        }
        assert(r =~= actual);
        assert forall|i: int| 0 <= i < actual.len() implies merge_observed(
            types[i],
            #[trigger] actual[i],
        ) is Some by {
            assert(types[i] == BoundType::Unknown);
        }
    }
    if j < before.len() {
        assert(types[j] == before[j]);
    }
}

// ---------------------------------------------------------------------------
// The types of a program's locals.

/// Whether a statement declares no function, nor anything in it.
pub open spec fn declares_nothing(s: StmtV) -> bool
    decreases s,
{
    match s {
        StmtV::FuncDecl { .. } => false,
        StmtV::IfElse { then_branch, else_branch, .. } => (forall|i: int|
            0 <= i < then_branch.len() ==> declares_nothing(#[trigger] then_branch[i])) && (forall|
            i: int,
        |
            0 <= i < else_branch.len() ==> declares_nothing(#[trigger] else_branch[i])),
        StmtV::While { body, .. } => forall|i: int|
            0 <= i < body.len() ==> declares_nothing(#[trigger] body[i]),
        StmtV::For { init, post, body, .. } => declares_nothing(*init) && declares_nothing(*post)
            && (forall|i: int| 0 <= i < body.len() ==> declares_nothing(#[trigger] body[i])),
        _ => true,
    }
}

/// Collecting the types of locals follows the program as inference does: it knows the same at
/// every point.
pub proof fn law_collecting_follows_inference(
    env: TypeEnvV,
    c: CollectV,
    s: StmtV,
    depth: nat,
)
    requires
        declares_nothing(s),
    ensures
        collect_stmt(env, c, s, depth).state == apply(env, c.notes, s, c.state, depth).0,
        collect_stmt(env, c, s, depth).notes == apply(env, c.notes, s, c.state, depth).1,
        collect_stmt(env, c, s, depth).types.len() == c.types.len(),
    decreases depth, 0nat, 0nat,
{
    if depth > 0 {
        let d = (depth - 1) as nat;
        match s {
            StmtV::Let { index, expr, .. } => {
                assert(apply(env, c.notes, s, c.state, depth) == assign(
                    env,
                    c.notes,
                    index,
                    expr,
                    c.state,
                    d,
                ));
            },
            StmtV::Assign { index, expr, .. } => {
                assert(apply(env, c.notes, s, c.state, depth) == assign(
                    env,
                    c.notes,
                    index,
                    expr,
                    c.state,
                    d,
                ));
            },
            StmtV::ClosureLet { closure, .. } => {
                lemma_captures_keep_len(c.types, c.state, closure.captures, 0);
            },
            StmtV::IfElse { condition, then_branch, else_branch, .. } => {
                let c1 = CollectV { notes: infer(env, c.notes, condition, c.state, d).1, ..c };
                lemma_collecting_all(env, c1, then_branch, 0, d);
                let t = collect_stmts(env, c1, then_branch, 0, d);
                lemma_collecting_all(env, CollectV { state: c.state, ..t }, else_branch, 0, d);
            },
            StmtV::For { init, condition, post, body, .. } => {
                law_collecting_follows_inference(env, c, *init, d);
                lemma_collecting_loop(
                    env,
                    collect_stmt(env, c, *init, d),
                    condition,
                    body,
                    Some(*post),
                    d,
                );
            },
            StmtV::While { condition, body, .. } => {
                lemma_collecting_loop(env, c, condition, body, None, d);
            },
            _ => {},
        }
    }
}

proof fn lemma_captures_keep_len(
    types: Seq<crate::ir::ValueType>,
    state: TypesV,
    captures: Seq<(u16, u16)>,
    i: int,
)
    ensures
        crate::typing::collect_closure_captures(types, state, captures, i).len() == types.len(),
    decreases captures.len() - i,
{
    if 0 <= i < captures.len() {
        lemma_captures_keep_len(
            recorded(types, captures[i].1, state.get(captures[i].0)),
            state,
            captures,
            i + 1,
        );
    }
}

proof fn lemma_collecting_all(env: TypeEnvV, c: CollectV, stmts: Seq<StmtV>, i: int, depth: nat)
    requires
        0 <= i <= stmts.len(),
        forall|k: int| 0 <= k < stmts.len() ==> declares_nothing(#[trigger] stmts[k]),
    ensures
        collect_stmts(env, c, stmts, i, depth).state == apply_from(
            env,
            c.notes,
            stmts,
            i,
            c.state,
            depth,
        ).0,
        collect_stmts(env, c, stmts, i, depth).notes == apply_from(
            env,
            c.notes,
            stmts,
            i,
            c.state,
            depth,
        ).1,
        collect_stmts(env, c, stmts, i, depth).types.len() == c.types.len(),
    decreases depth, 1nat, stmts.len() - i,
{
    if i < stmts.len() {
        law_collecting_follows_inference(env, c, stmts[i], depth);
        lemma_collecting_all(env, collect_stmt(env, c, stmts[i], depth), stmts, i + 1, depth);
    }
}

proof fn lemma_collecting_round(
    env: TypeEnvV,
    c: CollectV,
    condition: ExprV,
    body: Seq<StmtV>,
    post: Option<StmtV>,
    depth: nat,
)
    requires
        forall|k: int| 0 <= k < body.len() ==> declares_nothing(#[trigger] body[k]),
        post matches Some(p) ==> declares_nothing(p),
    ensures
        collect_round(env, c, condition, body, post, depth).state == apply_round(
            env,
            c.notes,
            condition,
            body,
            post,
            c.state,
            depth,
        ).0,
        collect_round(env, c, condition, body, post, depth).notes == apply_round(
            env,
            c.notes,
            condition,
            body,
            post,
            c.state,
            depth,
        ).1,
        collect_round(env, c, condition, body, post, depth).types.len() == c.types.len(),
    decreases depth, 2nat, 0nat,
{
    let c1 = CollectV { notes: infer(env, c.notes, condition, c.state, depth).1, ..c };
    lemma_collecting_all(env, c1, body, 0, depth);
    let c2 = collect_stmts(env, c1, body, 0, depth);
    match post {
        Some(p) => law_collecting_follows_inference(env, c2, p, depth),
        None => {},
    }
}

proof fn lemma_collecting_loop(
    env: TypeEnvV,
    c: CollectV,
    condition: ExprV,
    body: Seq<StmtV>,
    post: Option<StmtV>,
    depth: nat,
)
    requires
        forall|k: int| 0 <= k < body.len() ==> declares_nothing(#[trigger] body[k]),
        post matches Some(p) ==> declares_nothing(p),
    ensures
        collect_loop(env, c, condition, body, post, depth).state == apply_loop(
            env,
            c.notes,
            condition,
            body,
            post,
            c.state,
            depth,
        ).0,
        collect_loop(env, c, condition, body, post, depth).notes == apply_loop(
            env,
            c.notes,
            condition,
            body,
            post,
            c.state,
            depth,
        ).1,
        collect_loop(env, c, condition, body, post, depth).types.len() == c.types.len(),
    decreases depth, 3nat, 0nat,
{
    lemma_collecting_round(env, c, condition, body, post, depth);
    lemma_collecting_round(
        env,
        collect_round(env, c, condition, body, post, depth),
        condition,
        body,
        post,
        depth,
    );
}

/// An assignment to a local is noted under the local alone, with the value type of what it is
/// given: the first type stays while it is given no other.
pub proof fn law_assignments_are_noted(
    env: TypeEnvV,
    c: CollectV,
    index: u16,
    expr: ExprV,
    line: u32,
    other: int,
    depth: nat,
)
    requires
        depth > 0,
        index < c.types.len(),
    ensures
        ({
            let ty = crate::types::value_type_of(
                infer(env, c.notes, expr, c.state, (depth - 1) as nat).0,
            );
            let after = collect_stmt(env, c, StmtV::Let { index, expr, line }, depth).types;
            let before = c.types[index as int];
            &&& before == crate::ir::ValueType::Unknown ==> after[index as int] == ty
            &&& before == ty ==> after[index as int] == ty
            &&& before != crate::ir::ValueType::Unknown && before != ty ==> after[index as int]
                == crate::ir::ValueType::Unknown
            &&& 0 <= other < c.types.len() && other != index ==> after[other] == c.types[other]
        }),
{
}

// ---------------------------------------------------------------------------
// Known results.

/// Whether an expression holds no call and no callable.
pub open spec fn calls_nothing(e: ExprV) -> bool
    decreases e,
{
    match e {
        ExprV::Unary(_, x) => calls_nothing(*x),
        ExprV::Binary(_, l, r) => calls_nothing(*l) && calls_nothing(*r),
        ExprV::IfElse(c, t, f) => calls_nothing(*c) && calls_nothing(*t) && calls_nothing(*f),
        ExprV::Match { value, arms, default, .. } => calls_nothing(*value) && calls_nothing(
            *default,
        ) && (forall|i: int| 0 <= i < arms.len() ==> calls_nothing((#[trigger] arms[i]).1)),
        ExprV::Block(stmts, x) => calls_nothing(*x) && (forall|i: int|
            0 <= i < stmts.len() ==> stmt_calls_nothing(#[trigger] stmts[i])),
        ExprV::Call(_, _)
        | ExprV::LocalCall(_, _)
        | ExprV::ClosureCall(_, _)
        | ExprV::Closure(_)
        | ExprV::FunctionRef(_) => false,
        _ => true,
    }
}

pub open spec fn stmt_calls_nothing(s: StmtV) -> bool
    decreases s,
{
    match s {
        StmtV::Let { expr, .. } => calls_nothing(expr),
        StmtV::Assign { expr, .. } => calls_nothing(expr),
        StmtV::Expr { expr, .. } => calls_nothing(expr),
        StmtV::IfElse { condition, then_branch, else_branch, .. } => calls_nothing(condition) && (
        forall|i: int| 0 <= i < then_branch.len() ==> stmt_calls_nothing(#[trigger] then_branch[i]))
            && (forall|i: int|
            0 <= i < else_branch.len() ==> stmt_calls_nothing(#[trigger] else_branch[i])),
        StmtV::While { condition, body, .. } => calls_nothing(condition) && (forall|i: int|
            0 <= i < body.len() ==> stmt_calls_nothing(#[trigger] body[i])),
        StmtV::For { init, condition, post, body, .. } => stmt_calls_nothing(*init)
            && calls_nothing(condition) && stmt_calls_nothing(*post) && (forall|i: int|
            0 <= i < body.len() ==> stmt_calls_nothing(#[trigger] body[i])),
        StmtV::ClosureLet { .. } => false,
        _ => true,
    }
}

/// Only calls are replaced: an expression without any stays as it is, and has the type that
/// inference finds for it.
pub proof fn law_only_calls_are_replaced(
    env: TypeEnvV,
    notes: TypeNotes,
    e: ExprV,
    state: TypesV,
    depth: nat,
)
    requires
        calls_nothing(e),
    ensures
        legal_expr(env, notes, e, state, depth).0 == e,
    decreases depth, 0nat, 0nat,
{
    if depth > 0 {
        let d = (depth - 1) as nat;
        match e {
            ExprV::Unary(op, x) => {
                law_only_calls_are_replaced(env, notes, *x, state, d);
                assert(e == ExprV::Unary(op, Box::new(*x)));
            },
            ExprV::Binary(op, l, r) => {
                law_only_calls_are_replaced(env, notes, *l, state, d);
                let n1 = legal_expr(env, notes, *l, state, d).2;
                law_only_calls_are_replaced(env, n1, *r, state, d);
                assert(e == ExprV::Binary(op, Box::new(*l), Box::new(*r)));
            },
            ExprV::IfElse(c, t, f) => {
                law_only_calls_are_replaced(env, notes, *c, state, d);
                let n1 = legal_expr(env, notes, *c, state, d).2;
                law_only_calls_are_replaced(env, n1, *t, state, d);
                let n2 = legal_expr(env, n1, *t, state, d).2;
                law_only_calls_are_replaced(env, n2, *f, state, d);
                assert(e == ExprV::IfElse(Box::new(*c), Box::new(*t), Box::new(*f)));
            },
            ExprV::Match { value_slot, result_slot, value, arms, default } => {
                law_only_calls_are_replaced(env, notes, *value, state, d);
                let (vx, vt, n1) = legal_expr(env, notes, *value, state, d);
                let nested = bind_result(state, value_slot, vx, state, vt);
                lemma_arms_stay(env, n1, arms, 0, nested, BoundType::Unknown, d);
                let (ax, _, n2) = legal_arms(env, n1, arms, 0, nested, BoundType::Unknown, d);
                law_only_calls_are_replaced(env, n2, *default, nested, d);
                assert(arms.skip(0) =~= arms);
                assert(e == ExprV::Match {
                    value_slot,
                    result_slot,
                    value: Box::new(*value),
                    arms,
                    default: Box::new(*default),
                });
            },
            ExprV::Block(stmts, x) => {
                lemma_statements_stay(env, notes, stmts, 0, state, d);
                let (_, nested, n1) = legal_stmts(env, notes, stmts, 0, state, d);
                law_only_calls_are_replaced(env, n1, *x, nested, d);
                assert(stmts.skip(0) =~= stmts);
                assert(e == ExprV::Block(stmts, Box::new(*x)));
            },
            _ => {},
        }
    }
}

proof fn lemma_arms_stay(
    env: TypeEnvV,
    notes: TypeNotes,
    arms: Seq<(PatternV, ExprV)>,
    i: int,
    state: TypesV,
    so_far: BoundType,
    depth: nat,
)
    requires
        0 <= i <= arms.len(),
        forall|k: int| 0 <= k < arms.len() ==> calls_nothing((#[trigger] arms[k]).1),
    ensures
        legal_arms(env, notes, arms, i, state, so_far, depth).0 == arms.skip(i),
    decreases depth, 1nat, arms.len() - i,
{
    if i < arms.len() {
        law_only_calls_are_replaced(env, notes, arms[i].1, state, depth);
        let (_, ty, n1) = legal_expr(env, notes, arms[i].1, state, depth);
        lemma_arms_stay(
            env,
            n1,
            arms,
            i + 1,
            state,
            crate::infer::next_arm_type(so_far, ty),
            depth,
        );
        assert(seq![(arms[i].0, arms[i].1)] + arms.skip(i + 1) =~= arms.skip(i));
    } else {
        assert(arms.skip(i) =~= Seq::empty());
    }
}

proof fn lemma_statements_stay(
    env: TypeEnvV,
    notes: TypeNotes,
    stmts: Seq<StmtV>,
    i: int,
    state: TypesV,
    depth: nat,
)
    requires
        0 <= i <= stmts.len(),
        forall|k: int| 0 <= k < stmts.len() ==> stmt_calls_nothing(#[trigger] stmts[k]),
    ensures
        legal_stmts(env, notes, stmts, i, state, depth).0 == stmts.skip(i),
    decreases depth, 1nat, stmts.len() - i,
{
    if i < stmts.len() {
        law_statements_without_calls_stay(env, notes, stmts[i], state, depth);
        let (_, s1, n1) = legal_stmt(env, notes, stmts[i], state, depth);
        lemma_statements_stay(env, n1, stmts, i + 1, s1, depth);
        assert(seq![stmts[i]] + stmts.skip(i + 1) =~= stmts.skip(i));
    } else {
        assert(stmts.skip(i) =~= Seq::empty());
    }
}

/// A statement without calls stays as it is.
pub proof fn law_statements_without_calls_stay(
    env: TypeEnvV,
    notes: TypeNotes,
    s: StmtV,
    state: TypesV,
    depth: nat,
)
    requires
        stmt_calls_nothing(s),
    ensures
        legal_stmt(env, notes, s, state, depth).0 == s,
    decreases depth, 0nat, 0nat,
{
    if depth > 0 {
        let d = (depth - 1) as nat;
        match s {
            StmtV::Let { expr, .. } => law_only_calls_are_replaced(env, notes, expr, state, d),
            StmtV::Assign { expr, .. } => law_only_calls_are_replaced(env, notes, expr, state, d),
            StmtV::Expr { expr, .. } => law_only_calls_are_replaced(env, notes, expr, state, d),
            StmtV::IfElse { condition, then_branch, else_branch, .. } => {
                law_only_calls_are_replaced(env, notes, condition, state, d);
                let n1 = legal_expr(env, notes, condition, state, d).2;
                lemma_statements_stay(env, n1, then_branch, 0, state, d);
                let n2 = legal_stmts(env, n1, then_branch, 0, state, d).2;
                lemma_statements_stay(env, n2, else_branch, 0, state, d);
                assert(then_branch.skip(0) =~= then_branch);
                assert(else_branch.skip(0) =~= else_branch);
            },
            StmtV::While { condition, body, .. } => {
                lemma_loop_stays(env, notes, LoopV { condition, body, post: None }, state, d);
            },
            StmtV::For { init, condition, post, body, line } => {
                law_statements_without_calls_stay(env, notes, *init, state, d);
                let (_, s1, n1) = legal_stmt(env, notes, *init, state, d);
                lemma_loop_stays(
                    env,
                    n1,
                    LoopV { condition, body, post: Some(*post) },
                    s1,
                    d,
                );
                assert(s == StmtV::For {
                    init: Box::new(*init),
                    condition,
                    post: Box::new(*post),
                    body,
                    line,
                });
            },
            _ => {},
        }
    }
}

proof fn lemma_round_stays(
    env: TypeEnvV,
    notes: TypeNotes,
    l: LoopV,
    state: TypesV,
    depth: nat,
)
    requires
        calls_nothing(l.condition),
        forall|k: int| 0 <= k < l.body.len() ==> stmt_calls_nothing(#[trigger] l.body[k]),
        l.post matches Some(p) ==> stmt_calls_nothing(p),
    ensures
        legal_round(env, notes, l, state, depth).0 == l,
    decreases depth, 2nat, 0nat,
{
    law_only_calls_are_replaced(env, notes, l.condition, state, depth);
    let n1 = legal_expr(env, notes, l.condition, state, depth).2;
    lemma_statements_stay(env, n1, l.body, 0, state, depth);
    let (_, s2, n2) = legal_stmts(env, n1, l.body, 0, state, depth);
    assert(l.body.skip(0) =~= l.body);
    match l.post {
        Some(p) => law_statements_without_calls_stay(env, n2, p, s2, depth),
        None => {},
    }
}

proof fn lemma_loop_stays(env: TypeEnvV, notes: TypeNotes, l: LoopV, state: TypesV, depth: nat)
    requires
        calls_nothing(l.condition),
        forall|k: int| 0 <= k < l.body.len() ==> stmt_calls_nothing(#[trigger] l.body[k]),
        l.post matches Some(p) ==> stmt_calls_nothing(p),
    ensures
        legal_loop(env, notes, l, state, depth).0 == l,
    decreases depth, 3nat, 0nat,
{
    lemma_round_stays(env, notes, l, state, depth);
    let (_, first, n1) = legal_round(env, notes, l, state, depth);
    lemma_round_stays(env, n1, l, first, depth);
}

proof fn lemma_list_stays(
    env: TypeEnvV,
    notes: TypeNotes,
    list: Seq<ExprV>,
    i: int,
    state: TypesV,
    depth: nat,
)
    requires
        0 <= i <= list.len(),
        forall|k: int| 0 <= k < list.len() ==> calls_nothing(#[trigger] list[k]),
    ensures
        legal_list(env, notes, list, i, state, depth).0 == list.skip(i),
    decreases list.len() - i,
{
    if i < list.len() {
        law_only_calls_are_replaced(env, notes, list[i], state, depth);
        let n1 = legal_expr(env, notes, list[i], state, depth).2;
        lemma_list_stays(env, n1, list, i + 1, state, depth);
        assert(seq![list[i]] + list.skip(i + 1) =~= list.skip(i));
    } else {
        assert(list.skip(i) =~= Seq::empty());
    }
}

/// A call whose result is not known stays, with its arguments in order; so do calls of locals,
/// and closures.
pub proof fn law_calls_of_unknown_result_stay(
    env: TypeEnvV,
    notes: TypeNotes,
    index: u16,
    slot: u16,
    args: Seq<ExprV>,
    c: ClosureV,
    state: TypesV,
    depth: nat,
)
    requires
        forall|k: int| 0 <= k < args.len() ==> calls_nothing(#[trigger] args[k]),
        calls_nothing(*c.body),
    ensures
        builtin_at(index) is None ==> legal_call(
            env,
            notes,
            ExprV::Call(index, args),
            state,
            depth,
        ).0 == ExprV::Call(index, args),
        builtin_at(index) matches Some(b) ==> legal_call(
            env,
            notes,
            ExprV::Call(index, args),
            state,
            depth,
        ).0 == folded(ExprV::Call(index, args), b, state),
        legal_call(env, notes, ExprV::LocalCall(slot, args), state, depth).0 == ExprV::LocalCall(
            slot,
            args,
        ),
        legal_call(env, notes, ExprV::Closure(c), state, depth).0 == ExprV::Closure(c),
        legal_call(env, notes, ExprV::ClosureCall(c, args), state, depth).0 == ExprV::ClosureCall(
            c,
            args,
        ),
{
    lemma_list_stays(env, notes, args, 0, state, depth);
    assert(args.skip(0) =~= args);
    law_only_calls_are_replaced(env, notes, *c.body, state, depth);
    let n1 = legal_expr(env, notes, *c.body, state, depth).2;
    lemma_list_stays(env, n1, args, 0, state, depth);
    assert(c == ClosureV { body: Box::new(*c.body), ..c });
}

/// A call that is replaced gives what it is replaced by: the name of the type of its argument,
/// wherever what is known of the type holds; two texts joined; and else the call stays.
pub proof fn law_replaced_calls_give_their_result(
    index: u16,
    args: Seq<ExprV>,
    b: BuiltinFunction,
    state: TypesV,
    v: Val,
    x: Seq<char>,
    y: Seq<char>,
)
    ensures
        b == BuiltinFunction::TypeOf && args.len() == 1 && is_of(v, plain_type(args[0], state))
            ==> (folded(ExprV::Call(index, args), b, state) == ExprV::Str(kind_name(v)) || (folded(
            ExprV::Call(index, args),
            b,
            state,
        ) == ExprV::Call(index, args) && plain_type(args[0], state) == BoundType::Unknown)),
        b == BuiltinFunction::Concat && args == seq![ExprV::Str(x), ExprV::Str(y)] ==> folded(
            ExprV::Call(index, args),
            b,
            state,
        ) == ExprV::Str(x + y),
        b == BuiltinFunction::Len && args == seq![ExprV::Str(x)] && x.len() <= i64::MAX
            && x.len() <= usize::MAX ==> folded(
            ExprV::Call(index, args),
            b,
            state,
        ) == ExprV::Int(x.len() as i64),
        b != BuiltinFunction::TypeOf && b != BuiltinFunction::Concat && b != BuiltinFunction::Len
            ==> folded(ExprV::Call(index, args), b, state) == ExprV::Call(index, args),
{
    if args.len() == 1 {
        assert(static_len(ExprV::Str(x)) == Some(x.len() as usize));
        law_types_tell_of_values(
            v,
            plain_type(args[0], state),
            crate::ir::ValueType::Unknown,
            SimpleType::Null,
        );
    }
}

/// The length of an array literal is the number of its elements: none for an empty one, and one
/// more for each that is pushed.
pub proof fn law_lengths_of_literals(
    array: ExprV,
    element: ExprV,
    new_index: u16,
    push_index: u16,
    text: Seq<char>,
)
    requires
        builtin_at(new_index) == Some(BuiltinFunction::ArrayNew),
        builtin_at(push_index) == Some(BuiltinFunction::ArrayPush),
    ensures
        static_len(ExprV::Call(new_index, Seq::empty())) == Some(0usize),
        static_len(array) matches Some(n) ==> (n < usize::MAX ==> static_len(
            ExprV::Call(push_index, seq![array, element]),
        ) == Some((n + 1) as usize)),
        static_len(array) is None ==> static_len(
            ExprV::Call(push_index, seq![array, element]),
        ) is None,
        text.len() <= usize::MAX ==> static_len(ExprV::Str(text)) == Some(text.len() as usize),
{
    let call = ExprV::Call(push_index, seq![array, element]);
    assert(seq![array, element][0] == array);
    assert(seq![array, element].len() == 2);
}

} // verus!
